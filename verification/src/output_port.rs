//! The subscribers of an output port: published values are offered to each
//! subscriber in turn, and a subscriber which can no longer receive is
//! dropped. Actors subscribe under their identifier; unless duplicates are
//! allowed, a new subscription replaces the one under the same identifier.
use vstd::prelude::*;

use crate::actor_id::ActorId;
use crate::actor_ref::ActorRef;
use crate::port::forward_output;

verus! {

/// A subscriber of an output port
pub trait Subscriber<TMsg> {
    /// Whether the subscriber, offered `value`, may answer `alive`
    spec fn spec_answers(&self, value: TMsg, alive: bool) -> bool;

    /// Offer a published value; `false` when the subscriber can no longer
    /// receive and is to be dropped
    fn send(&self, value: &TMsg) -> (alive: bool)
        ensures
            self.spec_answers(*value, alive),
    ;
}

/// An actor subscribed to an output port: a published value (a clone of it)
/// is converted by the subscription's converter and, when that gives a
/// message, cast to the actor
#[verifier::reject_recursive_types(TMsg)]
#[verifier::reject_recursive_types(TReceiverMsg)]
pub struct ActorSubscription<TMsg, TReceiverMsg, F: Fn(TMsg) -> Option<TReceiverMsg>> {
    receiver: ActorRef<TReceiverMsg>,
    converter: F,
    _published: core::marker::PhantomData<TMsg>,
}

impl<TMsg, TReceiverMsg, F: Fn(TMsg) -> Option<TReceiverMsg>> ActorSubscription<TMsg, TReceiverMsg, F> {
    /// The converter accepts every published value
    #[verifier::type_invariant]
    closed spec fn converter_total(self) -> bool {
        forall|x: TMsg| #[trigger] self.converter.requires((x,))
    }

    /// The converter
    pub closed spec fn spec_converter(&self) -> F {
        self.converter
    }

    /// The subscribed actor
    pub closed spec fn spec_receiver(&self) -> ActorRef<TReceiverMsg> {
        self.receiver
    }

    /// Subscribe `receiver`, with `converter` turning published values into
    /// its messages
    pub fn new(receiver: ActorRef<TReceiverMsg>, converter: F) -> (r: Self)
        requires
            forall|x: TMsg| #[trigger] converter.requires((x,)),
        ensures
            r.spec_converter() == converter,
            r.spec_receiver() == receiver,
    {
        ActorSubscription { receiver, converter, _published: core::marker::PhantomData }
    }
}

impl<TMsg: Clone, TReceiverMsg, F: Fn(TMsg) -> Option<TReceiverMsg>> Subscriber<TMsg> for ActorSubscription<
    TMsg,
    TReceiverMsg,
    F,
> {
    /// The value's clone is converted; when it converts to nothing the
    /// subscription goes on, and it ends only when a converted message could
    /// not be cast
    open spec fn spec_answers(&self, value: TMsg, alive: bool) -> bool {
        exists|copy: TMsg, out: Option<TReceiverMsg>|
            #[trigger] call_ensures(TMsg::clone, (&value,), copy) && #[trigger] self.spec_converter().ensures(
                (copy,),
                out,
            ) && (out is None ==> alive) && (!alive ==> out is Some)
    }

    fn send(&self, value: &TMsg) -> (alive: bool) {
        proof {
            use_type_invariant(self);
        }
        let copy = value.clone();
        let ghost copied = copy;
        let alive = forward_output(&self.receiver, &self.converter, copy);
        proof {
            let out = choose|out: Option<TReceiverMsg>|
                #[trigger] self.converter.ensures((copied,), out) && (out is None ==> alive) && (
                !alive ==> out is Some);
            assert(call_ensures(TMsg::clone, (value,), copied));
            assert(self.spec_converter() == self.converter);
            assert(self.spec_converter().ensures((copied,), out));
            assert(self.spec_answers(*value, alive));
        }
        alive
    }
}

/// The entries of `s` whose flag in `kept` is set, in order
pub open spec fn spec_kept<A>(s: Seq<A>, kept: Seq<bool>) -> Seq<A>
    decreases s.len(),
{
    if s.len() == 0 || kept.len() == 0 {
        Seq::empty()
    } else if kept.last() {
        spec_kept(s.drop_last(), kept.drop_last()).push(s.last())
    } else {
        spec_kept(s.drop_last(), kept.drop_last())
    }
}

/// The first position of a subscription under `id`, if any
pub open spec fn spec_first_with_id<S>(subs: Seq<(ActorId, S)>, id: ActorId) -> Option<int> {
    if exists|i: int| 0 <= i < subs.len() && (#[trigger] subs[i]).0 == id {
        Some(
            choose|i: int|
                0 <= i < subs.len() && (#[trigger] subs[i]).0 == id && forall|j: int|
                    0 <= j < i ==> (#[trigger] subs[j]).0 != id,
        )
    } else {
        None
    }
}

/// The subscriptions of an output port, in the order they were made
pub struct OutputPortSubscribers<S> {
    subscribers: Vec<(ActorId, S)>,
    allow_duplicate_subscription: bool,
}

impl<S> OutputPortSubscribers<S> {
    /// The subscriptions: the subscriber's identifier and the subscriber
    pub closed spec fn spec_subscribers(&self) -> Seq<(ActorId, S)> {
        self.subscribers@
    }

    /// Whether an identifier may subscribe more than once
    pub closed spec fn spec_allows_duplicates(&self) -> bool {
        self.allow_duplicate_subscription
    }

    /// No subscription yet
    pub fn new(allow_duplicate_subscription: bool) -> (r: Self)
        ensures
            r.spec_subscribers() == Seq::<(ActorId, S)>::empty(),
            r.spec_allows_duplicates() == allow_duplicate_subscription,
    {
        OutputPortSubscribers { subscribers: Vec::new(), allow_duplicate_subscription }
    }

    /// The number of subscriptions
    pub fn len(&self) -> (r: usize)
        ensures
            r == self.spec_subscribers().len(),
    {
        self.subscribers.len()
    }

    /// Subscribe `subscriber` under `id`: it is added after the others, unless
    /// duplicates are not allowed and a subscription under `id` exists, which
    /// it then replaces in place
    pub fn set_subscriber(&mut self, id: ActorId, subscriber: S)
        ensures
            final(self).spec_allows_duplicates() == old(self).spec_allows_duplicates(),
            final(self).spec_subscribers() == if !old(self).spec_allows_duplicates()
                && spec_first_with_id(old(self).spec_subscribers(), id) is Some {
                old(self).spec_subscribers().update(
                    spec_first_with_id(old(self).spec_subscribers(), id)->0,
                    (id, subscriber),
                )
            } else {
                old(self).spec_subscribers().push((id, subscriber))
            },
    {
        if !self.allow_duplicate_subscription {
            let mut i: usize = 0;
            while i < self.subscribers.len()
                invariant
                    0 <= i <= self.subscribers.len(),
                    self.subscribers@ == old(self).subscribers@,
                    self.allow_duplicate_subscription == old(self).allow_duplicate_subscription,
                    !old(self).allow_duplicate_subscription,
                    forall|j: int| 0 <= j < i ==> (#[trigger] self.subscribers@[j]).0 != id,
                decreases self.subscribers.len() - i,
            {
                if self.subscribers[i].0 == id {
                    proof {
                        let subs = old(self).subscribers@;
                        assert(subs[i as int].0 == id);
                        assert(0 <= i < subs.len() && (subs[i as int]).0 == id && forall|j: int|
                            0 <= j < i ==> (#[trigger] subs[j]).0 != id);
                        let f = spec_first_with_id(subs, id)->0;
                        assert(0 <= f < subs.len() && subs[f].0 == id);
                        if f < i {
                            assert(subs[f].0 != id);
                        }
                        if f > i {
                            assert(subs[i as int].0 != id);
                        }
                        assert(f == i);
                    }
                    let ghost entry = (id, subscriber);
                    self.subscribers.set(i, (id, subscriber));
                    proof {
                        assert(spec_first_with_id(old(self).subscribers@, id) == Some(i as int));
                        assert(self.subscribers@ =~= old(self).subscribers@.update(i as int, entry));
                    }
                    return ;
                }
                i = i + 1;
            }
            proof {
                assert(spec_first_with_id(old(self).subscribers@, id) is None);
            }
        }
        self.subscribers.push((id, subscriber));
    }
}

impl<S> OutputPortSubscribers<S> {
    /// Offer `value` to every subscriber in turn; each subscriber's answer
    /// decides whether it stays: the subscribers which can no longer receive
    /// are dropped, the others keep their order
    pub fn publish<TMsg>(&mut self, value: &TMsg)
        where S: Subscriber<TMsg>,
        ensures
            final(self).spec_allows_duplicates() == old(self).spec_allows_duplicates(),
            exists|kept: Seq<bool>|
                {
                    &&& kept.len() == old(self).spec_subscribers().len()
                    &&& forall|i: int|
                        0 <= i < kept.len() ==> #[trigger] old(self).spec_subscribers()[i].1.spec_answers(
                            *value,
                            kept[i],
                        )
                    &&& #[trigger] spec_kept(old(self).spec_subscribers(), kept) == final(self).spec_subscribers()
                },
    {
        let ghost all = self.subscribers@;
        let mut rest: Vec<(ActorId, S)> = Vec::new();
        std::mem::swap(&mut rest, &mut self.subscribers);
        let ghost mut kept: Seq<bool> = Seq::empty();
        let total = rest.len();
        let mut k: usize = 0;
        while rest.len() > 0
            invariant
                self.allow_duplicate_subscription == old(self).allow_duplicate_subscription,
                all.len() == total,
                k + rest@.len() == all.len(),
                rest@ == all.subrange(k as int, all.len() as int),
                kept.len() == k,
                forall|i: int| 0 <= i < k ==> #[trigger] all[i].1.spec_answers(*value, kept[i]),
                self.subscribers@ == spec_kept(all.take(k as int), kept),
            decreases rest@.len(),
        {
            let entry = rest.remove(0);
            let alive = entry.1.send(value);
            let ghost before_kept = kept;
            proof {
                assert(entry == all[k as int]);
                assert(all.take(k + 1).drop_last() =~= all.take(k as int));
                assert(all.take(k + 1).last() == entry);
                kept = before_kept.push(alive);
                assert(kept.drop_last() =~= before_kept);
            }
            if alive {
                self.subscribers.push(entry);
            }
            k = k + 1;
        }
        proof {
            assert(all.take(all.len() as int) =~= all);
            assert(all == old(self).spec_subscribers());
            assert(kept.len() == all.len());
            assert(spec_kept(all, kept) == self.subscribers@);
        }
    }
}

} // verus!
