//! Reply ports for remote procedure calls: a one-use channel back to the caller.
use vstd::prelude::*;

use crate::actor_ref::ActorRef;
use crate::errors::MessagingErr;

verus! {

#[verifier::external_type_specification]
#[verifier::external_body]
#[verifier::reject_recursive_types(T)]
pub struct ExOneshotSender<T>(tokio::sync::oneshot::Sender<T>);

/// Sends `value` over a one-shot channel (`tokio::sync::oneshot::Sender::send`).
/// Whether it is delivered depends on the receiver; when it is not, the value is
/// handed back unchanged.
#[verifier::external_body]
fn oneshot_send<T>(port: tokio::sync::oneshot::Sender<T>, value: T) -> (r: Result<(), T>)
    ensures
        r matches Err(v) ==> v == value,
{
    port.send(value)
}

/// Whether the receiving half of a one-shot channel is gone
/// (`tokio::sync::oneshot::Sender::is_closed`). Nothing is stated of the result:
/// it depends on the receiver.
#[verifier::external_body]
fn oneshot_is_closed<T>(port: &tokio::sync::oneshot::Sender<T>) -> bool {
    port.is_closed()
}

/// A remote procedure call's reply port: the sending half of a one-shot channel
/// with an optional timeout (in nanoseconds) the caller waits for the reply.
#[derive(Debug)]
#[verifier::reject_recursive_types(TMsg)]
pub struct RpcReplyPort<TMsg> {
    port: tokio::sync::oneshot::Sender<TMsg>,
    timeout: Option<u64>,
}

/// The reply port over the sending half `port` with the given timeout
pub closed spec fn spec_reply_port<TMsg>(port: tokio::sync::oneshot::Sender<TMsg>, timeout: Option<u64>) -> RpcReplyPort<TMsg> {
    RpcReplyPort { port, timeout }
}

impl<TMsg> RpcReplyPort<TMsg> {
    /// Spec view of the timeout
    pub closed spec fn spec_timeout(&self) -> Option<u64> {
        self.timeout
    }

    /// The timeout of a port made by `spec_reply_port` is the one it was made with
    pub proof fn lemma_reply_port_timeout(port: tokio::sync::oneshot::Sender<TMsg>, timeout: Option<u64>)
        ensures
            spec_reply_port(port, timeout).spec_timeout() == timeout,
    {
    }

    /// Wrap the sending half of a one-shot channel, with an optional timeout.
    pub fn new(port: tokio::sync::oneshot::Sender<TMsg>, timeout: Option<u64>) -> (r: Self)
        ensures
            r == spec_reply_port(port, timeout),
            r.spec_timeout() == timeout,
    {
        RpcReplyPort { port, timeout }
    }

    /// Read the timeout of this reply port
    pub fn get_timeout(&self) -> (r: Option<u64>)
        ensures
            r == self.spec_timeout(),
    {
        self.timeout
    }

    /// Send the reply, consuming the port. Fails with `ChannelClosed` when the
    /// caller is no longer waiting.
    pub fn send(self, msg: TMsg) -> (r: Result<(), MessagingErr<()>>)
        ensures
            r matches Err(e) ==> e is ChannelClosed,
    {
        match oneshot_send(self.port, msg) {
            Ok(()) => Ok(()),
            Err(_) => Err(MessagingErr::ChannelClosed),
        }
    }

    /// Determine if the port is closed (the receiver has been dropped)
    pub fn is_closed(&self) -> bool {
        oneshot_is_closed(&self.port)
    }
}

/// Messages that can be broadcast over an output port: they must be clonable.
pub trait OutputMessage: Clone {}

/// Forward a message published on an output port to a subscriber: the
/// subscription's converter maps it to the subscriber's message, if any, and
/// that is sent. Whether the subscription goes on: it ends when the subscriber
/// can no longer receive.
pub fn forward_output<TMsg, TReceiverMsg, F: Fn(TMsg) -> Option<TReceiverMsg>>(
    receiver: &ActorRef<TReceiverMsg>,
    converter: &F,
    msg: TMsg,
) -> (keep_going: bool)
    requires
        converter.requires((msg,)),
    ensures
        exists|out: Option<TReceiverMsg>|
            #[trigger] converter.ensures((msg,), out) && (out is None ==> keep_going) && (
            !keep_going ==> out is Some),
{
    let ghost given = msg;
    let converted = converter(msg);
    let ghost out = converted;
    let keep_going = match converted {
        Some(new_msg) => receiver.cast(new_msg).is_ok(),
        None => true,
    };
    assert(converter.ensures((given,), out));
    keep_going
}

} // verus!
