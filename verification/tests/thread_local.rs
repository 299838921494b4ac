use ractor::errors::ActorErr;
use ractor::thread_local::{
    loop_step, runs_post_stop, start_check, termination_event, HandlerOutcome, PortEvent, Signal, StopMessage,
    SupervisionEvent,
};
use ractor::{ActorCell, ActorId, ActorStatus, MessagingErr, SpawnErr};

#[test]
fn a_signal_kills_the_actor() {
    let r = loop_step(PortEvent::Signal(Signal::Kill)).unwrap();
    assert!(r.should_exit);
    assert!(r.was_killed);
    assert_eq!(Some("killed".to_string()), r.exit_reason);
    assert!(!runs_post_stop(&r));
}

#[test]
fn a_stop_ends_the_loop_gracefully() {
    let r = loop_step(PortEvent::Stop(StopMessage::Reason("done".to_string()))).unwrap();
    assert!(r.should_exit);
    assert!(!r.was_killed);
    assert_eq!(Some("done".to_string()), r.exit_reason);
    assert!(runs_post_stop(&r));
    let r = loop_step(PortEvent::Stop(StopMessage::Stop)).unwrap();
    assert!(r.should_exit && !r.was_killed && r.exit_reason.is_none());
}

#[test]
fn a_drain_ends_the_loop_as_drained() {
    let r = loop_step(PortEvent::Drain).unwrap();
    assert!(r.should_exit && !r.was_killed);
    assert_eq!(Some("Drained".to_string()), r.exit_reason);
}

#[test]
fn a_handled_message_continues_the_loop() {
    let r = loop_step(PortEvent::Handled(HandlerOutcome::Done)).unwrap();
    assert!(!r.should_exit && !r.was_killed && r.exit_reason.is_none());
}

#[test]
fn a_failed_handler_is_the_loop_error() {
    let r = loop_step(PortEvent::Handled(HandlerOutcome::Failed("boom".to_string())));
    assert_eq!(Err("boom".to_string()), r);
}

#[test]
fn an_interrupted_handler_or_a_closed_port_kills_the_actor() {
    let r = loop_step(PortEvent::Handled(HandlerOutcome::Interrupted(Signal::Kill))).unwrap();
    assert!(r.should_exit && r.was_killed);
    let r = loop_step(PortEvent::PortError(MessagingErr::ChannelClosed)).unwrap();
    assert!(r.should_exit && r.was_killed);
    assert_eq!(Some("killed".to_string()), r.exit_reason);
}

#[test]
fn an_actor_starts_once() {
    assert!(start_check(ActorStatus::Unstarted).is_ok());
    for s in [ActorStatus::Starting, ActorStatus::Running, ActorStatus::Stopping, ActorStatus::Stopped] {
        match start_check(s) {
            Err(SpawnErr::ActorAlreadyStarted) => {}
            _ => panic!("a started actor cannot start again"),
        }
    }
    assert_eq!("Actor cannot be started more than once", SpawnErr::ActorAlreadyStarted.to_string());
}

#[test]
fn the_supervisor_is_told_how_the_actor_ended() {
    let cell = ActorCell { id: ActorId::Local(7), status: ActorStatus::Stopped };
    match termination_event(cell, Ok(Some("bye".to_string()))) {
        SupervisionEvent::ActorTerminated(c, Some(r)) => {
            assert_eq!(cell, c);
            assert_eq!("bye", r);
        }
        _ => panic!("expected a termination"),
    }
    match termination_event(cell, Err(ActorErr::Cancelled)) {
        SupervisionEvent::ActorTerminated(_, Some(r)) => assert_eq!("killed", r),
        _ => panic!("expected a termination as killed"),
    }
    match termination_event(cell, Err(ActorErr::Failed("oops".to_string()))) {
        SupervisionEvent::ActorFailed(c, m) => {
            assert_eq!(cell, c);
            assert_eq!("oops", m);
        }
        _ => panic!("expected a failure"),
    }
}
