use ractor::rpc::{call_message, call_result_of, cast, multi_call_messages, order_results, CallResult, ReplyOutcome};
use ractor::{ActorId, ActorRef, MessagingErr, RpcReplyPort};

#[test]
fn call_results_from_outcomes() {
    assert!(matches!(call_result_of(ReplyOutcome::Received(3)), CallResult::Success(3)));
    assert!(call_result_of::<u8>(ReplyOutcome::SenderDropped).is_send_error());
    assert!(call_result_of::<u8>(ReplyOutcome::TimedOut).is_timeout());
}

#[test]
fn replies_are_put_back_in_order() {
    let r = order_results(
        3,
        vec![(2, CallResult::Success(20)), (0, CallResult::Success(0)), (2, CallResult::Success(22))],
    );
    assert_eq!(3, r.len());
    assert!(matches!(r[0], CallResult::Success(0)));
    assert!(r[1].is_timeout());
    assert!(matches!(r[2], CallResult::Success(22)));
}

#[test]
fn call_message_carries_the_reply_port() {
    let (tx, mut rx) = tokio::sync::mpsc::unbounded_channel::<RpcReplyPort<u32>>();
    let actor = ActorRef::new(ActorId::Local(1), tx);
    let (reply_tx, mut reply_rx) = tokio::sync::oneshot::channel();
    assert!(actor.cast(call_message(|port| port, reply_tx, Some(5))).is_ok());
    let port = rx.try_recv().unwrap();
    assert_eq!(Some(5), port.get_timeout());
    port.send(42).unwrap();
    assert_eq!(Ok(42), reply_rx.try_recv());
}

#[test]
fn sending_to_a_stopped_actor_hands_the_message_back() {
    let (tx, rx) = tokio::sync::mpsc::unbounded_channel::<u32>();
    drop(rx);
    let actor = ActorRef::new(ActorId::Local(1), tx);
    assert!(matches!(cast(&actor, 7), Err(MessagingErr::SendErr(7))));
}

#[test]
fn multi_call_messages_pair_each_port_with_its_position() {
    let mut senders = Vec::new();
    let mut replies = Vec::new();
    for _ in 0..3u64 {
        let (rtx, rrx) = tokio::sync::oneshot::channel();
        senders.push(rtx);
        replies.push(rrx);
    }
    let messages = multi_call_messages(&|port: RpcReplyPort<u64>| (7u8, port), senders, Some(9));
    assert_eq!(3, messages.len());
    for (i, (tag, port)) in messages.into_iter().enumerate() {
        assert_eq!(7, tag);
        assert_eq!(Some(9), port.get_timeout());
        port.send(i as u64 * 10).unwrap();
    }
    for (i, mut r) in replies.into_iter().enumerate() {
        assert_eq!(Ok(i as u64 * 10), r.try_recv());
    }
}

#[test]
fn reply_port_reports_a_gone_caller() {
    let (tx, rx) = tokio::sync::oneshot::channel::<u8>();
    let port = RpcReplyPort::new(tx, None);
    assert!(!port.is_closed());
    drop(rx);
    assert!(port.is_closed());
    assert!(matches!(port.send(1), Err(MessagingErr::ChannelClosed)));
}

#[test]
fn call_result_helpers() {
    assert_eq!(5, CallResult::Success(5).unwrap());
    assert_eq!(9, CallResult::<u8>::Timeout.unwrap_or(9));
    assert_eq!(Err("e"), CallResult::<u8>::SenderError.success_or("e"));
    assert!(matches!(CallResult::Success(2).map(|x| x + 1), CallResult::Success(3)));
    assert_eq!(4, CallResult::Success(2).map_or(0, |x| x * 2));
    assert_eq!(0, CallResult::<u8>::Timeout.map_or_else(|| 0, |x| x * 2));
}

#[test]
fn mapping_a_call_result() {
    assert!(matches!(CallResult::Success(2).map(|x| x * 3), CallResult::Success(6)));
    assert!(matches!(CallResult::Success(2).map(|x| x), CallResult::Success(2)));
    assert!(matches!(CallResult::Success(2).map(|x| x + 1).map(|y| y * 2), CallResult::Success(6)));
    assert!(CallResult::<u8>::Timeout.map(|x| x + 1).is_timeout());
    assert!(CallResult::<u8>::SenderError.map(|x| x + 1).is_send_error());
}
