//! The decisions of the thread-local actor runtime: actors whose state is not
//! `Send` run on one thread, and their processing loop waits on their ports
//! in priority order (signals, then stop requests, then supervision events and
//! messages). The host waits on the ports and runs the actor's handlers; what
//! each step means for the loop, whether an actor may start, and what its
//! supervisor is told when it ends are decided here.
use vstd::prelude::*;

use crate::actor_ref::{ActorCell, ActorStatus};
use crate::errors::{ActorErr, MessagingErr, SpawnErr};
use crate::pg::GroupChangeMessage;

verus! {

/// A signal to an actor, handled before anything else
#[derive(Debug, Clone, Copy, PartialEq, Eq, Structural)]
pub enum Signal {
    /// Stop at once: no more processing, and no post-stop routine
    Kill,
}

/// The text of a signal, given as the actor's exit reason
pub open spec fn spec_signal_text(s: Signal) -> Seq<char> {
    match s {
        Signal::Kill => "killed"@,
    }
}

impl Signal {
    /// The text of the signal
    pub fn to_string(&self) -> (r: String)
        ensures
            r@ == spec_signal_text(*self),
    {
        match self {
            Signal::Kill => "killed".to_owned(),
        }
    }
}

/// A request to stop an actor, gracefully
#[derive(Debug, Clone, PartialEq, Eq)]
pub enum StopMessage {
    /// Stop, with no reason given
    Stop,
    /// Stop, for the given reason
    Reason(String),
}

/// How running a handler (for a message or a supervision event) ended
#[derive(Debug, Clone, PartialEq, Eq)]
pub enum HandlerOutcome {
    /// The handler finished
    Done,
    /// The handler failed, with the failure's description
    Failed(String),
    /// A signal arrived while the handler ran, and interrupted it
    Interrupted(Signal),
}

/// What waiting on an actor's ports (in priority order) gave
#[derive(Debug)]
pub enum PortEvent {
    /// A signal
    Signal(Signal),
    /// A stop request
    Stop(StopMessage),
    /// A supervision event or a message arrived, and its handler ran
    Handled(HandlerOutcome),
    /// Every message queued before a drain request was handled
    Drain,
    /// Waiting on the ports failed (a port's channel closed)
    PortError(MessagingErr<()>),
}

/// What one step of the processing loop decided
#[derive(Debug, Clone, PartialEq, Eq)]
pub struct ActorLoopResult {
    /// Whether the loop ends
    pub should_exit: bool,
    /// The reason the actor exits, if any
    pub exit_reason: Option<String>,
    /// Whether the actor was killed (then its post-stop routine is skipped)
    pub was_killed: bool,
}

/// The loop goes on
pub open spec fn spec_loop_goes_on(r: ActorLoopResult) -> bool {
    !r.should_exit && r.exit_reason is None && !r.was_killed
}

/// The loop ends gracefully, for `reason`
pub open spec fn spec_loop_stops(r: ActorLoopResult, reason: Option<Seq<char>>) -> bool {
    &&& r.should_exit
    &&& !r.was_killed
    &&& match reason {
        Some(t) => r.exit_reason matches Some(e) && e@ == t,
        None => r.exit_reason is None,
    }
}

/// The loop ends because of signal `s`: the actor is killed, with the
/// signal's text as its exit reason
pub open spec fn spec_loop_signalled(r: ActorLoopResult, s: Signal) -> bool {
    &&& r.should_exit
    &&& r.was_killed
    &&& r.exit_reason matches Some(e) && e@ == spec_signal_text(s)
}

/// The loop result of signal `s`
fn signalled(s: Signal) -> (r: ActorLoopResult)
    ensures
        spec_loop_signalled(r, s),
{
    ActorLoopResult { should_exit: true, exit_reason: Some(s.to_string()), was_killed: true }
}

/// One step of the processing loop, from what waiting on the ports gave: a
/// signal (also one which interrupted a handler) kills the actor, with the
/// signal as the exit reason; a stop request ends the loop gracefully with its
/// reason; a drain ends it gracefully, as drained; a handled message or
/// supervision event continues it; a failed handler is the error, with its
/// description; a failure to wait on the ports (a closed channel) kills the
/// actor.
pub fn loop_step(event: PortEvent) -> (r: Result<ActorLoopResult, String>)
    ensures
        match event {
            PortEvent::Signal(s) => r matches Ok(l) && spec_loop_signalled(l, s),
            PortEvent::Stop(StopMessage::Stop) => r matches Ok(l) && spec_loop_stops(l, None),
            PortEvent::Stop(StopMessage::Reason(reason)) => r matches Ok(l) && spec_loop_stops(
                l,
                Some(reason@),
            ),
            PortEvent::Handled(HandlerOutcome::Done) => r matches Ok(l) && spec_loop_goes_on(l),
            PortEvent::Handled(HandlerOutcome::Failed(m)) => r == Err::<ActorLoopResult, String>(m),
            PortEvent::Handled(HandlerOutcome::Interrupted(s)) => r matches Ok(l)
                && spec_loop_signalled(l, s),
            PortEvent::Drain => r matches Ok(l) && spec_loop_stops(l, Some("Drained"@)),
            PortEvent::PortError(_) => r matches Ok(l) && spec_loop_signalled(l, Signal::Kill),
        },
{
    match event {
        PortEvent::Signal(s) => Ok(signalled(s)),
        PortEvent::Stop(StopMessage::Stop) => Ok(
            ActorLoopResult { should_exit: true, exit_reason: None, was_killed: false },
        ),
        PortEvent::Stop(StopMessage::Reason(reason)) => Ok(
            ActorLoopResult { should_exit: true, exit_reason: Some(reason), was_killed: false },
        ),
        PortEvent::Handled(HandlerOutcome::Done) => Ok(
            ActorLoopResult { should_exit: false, exit_reason: None, was_killed: false },
        ),
        PortEvent::Handled(HandlerOutcome::Failed(m)) => Err(m),
        PortEvent::Handled(HandlerOutcome::Interrupted(s)) => Ok(signalled(s)),
        PortEvent::Drain => Ok(
            ActorLoopResult {
                should_exit: true,
                exit_reason: Some("Drained".to_owned()),
                was_killed: false,
            },
        ),
        PortEvent::PortError(_) => Ok(signalled(Signal::Kill)),
    }
}

/// Whether an actor in status `status` may start: only an unstarted actor
/// may, as an actor starts at most once
pub fn start_check(status: ActorStatus) -> (r: Result<(), SpawnErr>)
    ensures
        r is Err <==> status != ActorStatus::Unstarted,
        r matches Err(e) ==> e is ActorAlreadyStarted,
{
    if status != ActorStatus::Unstarted {
        Err(SpawnErr::ActorAlreadyStarted)
    } else {
        Ok(())
    }
}

/// An event an actor's supervisor (or a monitor) is told of
#[derive(Debug)]
pub enum SupervisionEvent {
    /// The actor started
    ActorStarted(ActorCell),
    /// The actor terminated, with its exit reason if any
    ActorTerminated(ActorCell, Option<String>),
    /// The actor failed, with the failure's description
    ActorFailed(ActorCell, String),
    /// A process group the supervisor monitors changed
    ProcessGroupChanged(GroupChangeMessage),
}

/// What the supervisor is told when the processing loop of `cell` ended with
/// `outcome`: an exit (with its reason) is a termination; a cancellation is a
/// termination as killed; a failure is a failure with its description
pub fn termination_event(cell: ActorCell, outcome: Result<Option<String>, ActorErr>) -> (r:
    SupervisionEvent)
    ensures
        match outcome {
            Ok(reason) => r matches SupervisionEvent::ActorTerminated(c, e) && c == cell && e
                == reason,
            Err(ActorErr::Cancelled) => r matches SupervisionEvent::ActorTerminated(c, e) && c
                == cell && (e matches Some(t) && t@ == "killed"@),
            Err(ActorErr::Failed(m)) => r matches SupervisionEvent::ActorFailed(c, f) && c == cell
                && f == m,
        },
{
    match outcome {
        Ok(reason) => SupervisionEvent::ActorTerminated(cell, reason),
        Err(ActorErr::Cancelled) => SupervisionEvent::ActorTerminated(
            cell,
            Some("killed".to_owned()),
        ),
        Err(ActorErr::Failed(m)) => SupervisionEvent::ActorFailed(cell, m),
    }
}

/// Whether the actor's post-stop routine runs once its loop ended with `r`:
/// unless it was killed
pub fn runs_post_stop(r: &ActorLoopResult) -> (b: bool)
    ensures
        b == !r.was_killed,
{
    !r.was_killed
}

} // verus!
