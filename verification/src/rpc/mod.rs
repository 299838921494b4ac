//! Remote procedure calls between actors: the result of a call, the messages
//! a call sends, and casting a message to an actor.
use vstd::prelude::*;

pub mod call_result;
pub use call_result::CallResult;

use crate::actor_ref::ActorRef;
use crate::errors::MessagingErr;
use crate::port::{spec_reply_port, RpcReplyPort};

verus! {

/// Send a message to an actor without waiting for a reply. When the actor can
/// no longer receive, the message is handed back in `SendErr`.
pub fn cast<TMessage>(actor: &ActorRef<TMessage>, msg: TMessage) -> (r: Result<(), MessagingErr<TMessage>>)
    ensures
        r matches Err(e) ==> e == MessagingErr::SendErr(msg),
        r is Ok ==> actor.spec_sent(msg),
{
    actor.cast(msg)
}

/// A reply port built from the sending half of a one-shot channel and the
/// call's timeout
pub fn reply_port<TReply>(tx: tokio::sync::oneshot::Sender<TReply>, timeout_option: Option<u64>) -> (r: RpcReplyPort<TReply>)
    ensures
        r == spec_reply_port(tx, timeout_option),
        r.spec_timeout() == timeout_option,
{
    RpcReplyPort::new(tx, timeout_option)
}

/// The message of a call: what `msg_builder` makes from the reply port over
/// `tx` with the timeout. The host casts it to the called actor.
pub fn call_message<TMessage, TReply, TMsgBuilder: FnOnce(RpcReplyPort<TReply>) -> TMessage>(
    msg_builder: TMsgBuilder,
    tx: tokio::sync::oneshot::Sender<TReply>,
    timeout_option: Option<u64>,
) -> (m: TMessage)
    requires
        forall|port: RpcReplyPort<TReply>| port.spec_timeout() == timeout_option ==> #[trigger] msg_builder.requires((port,)),
    ensures
        msg_builder.ensures((spec_reply_port(tx, timeout_option),), m),
{
    let port = reply_port(tx, timeout_option);
    msg_builder(port)
}

/// The messages of a multi-call, in the actors' order: message `i` is what
/// `msg_builder` makes from the reply port over `senders[i]` with the
/// timeout, so the reply of the actor sent message `i` comes back over
/// `senders[i]`. The builder runs once per sender, in order. The host casts
/// message `i` to actor `i`, stopping at the first actor which cannot receive.
pub fn multi_call_messages<TMessage, TReply, TMsgBuilder: Fn(RpcReplyPort<TReply>) -> TMessage>(
    msg_builder: &TMsgBuilder,
    senders: Vec<tokio::sync::oneshot::Sender<TReply>>,
    timeout_option: Option<u64>,
) -> (r: Vec<TMessage>)
    requires
        forall|port: RpcReplyPort<TReply>| port.spec_timeout() == timeout_option ==> #[trigger] msg_builder.requires((port,)),
    ensures
        r@.len() == senders@.len(),
        forall|i: int|
            0 <= i < r@.len() ==> msg_builder.ensures(
                (spec_reply_port(senders@[i], timeout_option),),
                #[trigger] r@[i],
            ),
{
    let ghost all = senders@;
    let mut senders = senders;
    let total = senders.len();
    proof {
        assert(all.subrange(0, all.len() as int) =~= all);
    }
    let mut messages: Vec<TMessage> = Vec::new();
    let mut i: usize = 0;
    while senders.len() > 0
        invariant
            all.len() == total,
            i + senders@.len() == all.len(),
            senders@ == all.subrange(i as int, all.len() as int),
            messages@.len() == i,
            forall|j: int|
                0 <= j < i ==> msg_builder.ensures(
                    (spec_reply_port(all[j], timeout_option),),
                    #[trigger] messages@[j],
                ),
            forall|port: RpcReplyPort<TReply>| port.spec_timeout() == timeout_option ==> #[trigger] msg_builder.requires((port,)),
        decreases senders@.len(),
    {
        let tx = senders.remove(0);
        proof {
            assert(tx == all[i as int]);
        }
        let port = reply_port(tx, timeout_option);
        let msg = msg_builder(port);
        messages.push(msg);
        proof {
            assert(senders@ =~= all.subrange(i + 1, all.len() as int));
        }
        i = i + 1;
    }
    messages
}

/// How waiting for a reply ended
pub enum ReplyOutcome<TReply> {
    /// The reply arrived
    Received(TReply),
    /// The replying side dropped its port without replying
    SenderDropped,
    /// The timeout passed first
    TimedOut,
}

/// The result of a call, from how waiting for its reply ended
pub fn call_result_of<TReply>(outcome: ReplyOutcome<TReply>) -> (r: CallResult<TReply>)
    ensures
        match outcome {
            ReplyOutcome::Received(v) => r == CallResult::Success(v),
            ReplyOutcome::SenderDropped => r is SenderError,
            ReplyOutcome::TimedOut => r is Timeout,
        },
{
    match outcome {
        ReplyOutcome::Received(v) => CallResult::Success(v),
        ReplyOutcome::SenderDropped => CallResult::SenderError,
        ReplyOutcome::TimedOut => CallResult::Timeout,
    }
}

/// Put the replies of a multi-call back in the actors' order: position `i`
/// holds the last reply given for `i`, or `Timeout` when none was
pub fn order_results<TReply>(n: usize, indexed: Vec<(usize, CallResult<TReply>)>) -> (r: Vec<
    CallResult<TReply>,
>)
    requires
        forall|k: int| 0 <= k < indexed@.len() ==> (#[trigger] indexed@[k]).0 < n,
    ensures
        r@.len() == n,
        forall|i: int|
            0 <= i < n ==> (#[trigger] r@[i]) == spec_reply_at(indexed@, i),
{
    let mut results: Vec<CallResult<TReply>> = Vec::new();
    let mut j: usize = 0;
    while j < n
        invariant
            j <= n,
            results@.len() == j,
            forall|i: int| 0 <= i < j ==> (#[trigger] results@[i]) is Timeout,
        decreases n - j,
    {
        results.push(CallResult::Timeout);
        j = j + 1;
    }
    let mut indexed = indexed;
    let ghost all = indexed@;
    let total = indexed.len();
    let mut k: usize = 0;
    while indexed.len() > 0
        invariant
            results@.len() == n,
            all.len() == total,
            k + indexed@.len() == all.len(),
            indexed@ =~= all.subrange(k as int, all.len() as int),
            forall|m: int| 0 <= m < all.len() ==> (#[trigger] all[m]).0 < n,
            forall|i: int| 0 <= i < n ==> (#[trigger] results@[i]) == spec_reply_at(all.take(k as int), i),
        decreases indexed@.len(),
    {
        let (i, reply) = indexed.remove(0);
        proof {
            assert(all[k as int] == (i, reply));
            assert(all.take(k + 1).drop_last() =~= all.take(k as int));
            assert(all.take(k + 1).last() == (i, reply));
        }
        results.set(i, reply);
        k = k + 1;
    }
    proof {
        assert(all.take(all.len() as int) =~= all);
    }
    results
}

/// The reply for position `i`: the last one given for it, or `Timeout`
pub open spec fn spec_reply_at<TReply>(indexed: Seq<(usize, CallResult<TReply>)>, i: int) -> CallResult<TReply>
    decreases indexed.len(),
{
    if indexed.len() == 0 {
        CallResult::Timeout
    } else if indexed.last().0 == i {
        indexed.last().1
    } else {
        spec_reply_at(indexed.drop_last(), i)
    }
}

} // verus!
