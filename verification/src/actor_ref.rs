//! Typed references to actors, over which messages are sent.
use vstd::prelude::*;

use crate::actor_id::ActorId;
use crate::errors::MessagingErr;

verus! {

#[verifier::external_type_specification]
#[verifier::external_body]
#[verifier::reject_recursive_types(T)]
pub struct ExUnboundedSender<T>(tokio::sync::mpsc::UnboundedSender<T>);

/// Sends a message over an unbounded channel
/// (`tokio::sync::mpsc::UnboundedSender::send`). Delivery depends on whether the
/// receiver is alive; when it is not, the message is handed back unchanged.
#[verifier::external_body]
fn channel_send<T>(tx: &tokio::sync::mpsc::UnboundedSender<T>, message: T) -> (r: Result<(), T>)
    ensures
        r matches Err(m) ==> m == message,
{
    match tx.send(message) {
        Ok(()) => Ok(()),
        Err(e) => Err(e.0),
    }
}

/// Another handle to the same channel (`UnboundedSender::clone`). Nothing is
/// stated of it beyond its type.
#[verifier::external_body]
fn channel_clone<T>(tx: &tokio::sync::mpsc::UnboundedSender<T>) -> tokio::sync::mpsc::UnboundedSender<T> {
    tx.clone()
}

/// The lifecycle status of an actor. The statuses are ordered as they occur.
#[derive(Clone, Copy, Debug, PartialEq, Eq, Structural)]
pub enum ActorStatus {
    /// Created, but not yet started
    Unstarted,
    /// Running its startup routine
    Starting,
    /// Processing messages
    Running,
    /// Upgrading
    Upgrading,
    /// Finishing the messages it holds before stopping
    Draining,
    /// Stopping
    Stopping,
    /// Stopped
    Stopped,
}

/// The position of a status in the lifecycle order.
pub open spec fn status_rank(s: ActorStatus) -> nat {
    match s {
        ActorStatus::Unstarted => 0,
        ActorStatus::Starting => 1,
        ActorStatus::Running => 2,
        ActorStatus::Upgrading => 3,
        ActorStatus::Draining => 4,
        ActorStatus::Stopping => 5,
        ActorStatus::Stopped => 6,
    }
}

impl ActorStatus {
    /// True while the actor may still take on new relationships (groups,
    /// monitors): every status up to and including `Draining`.
    pub fn accepts_relations(&self) -> (r: bool)
        ensures
            r == (status_rank(*self) <= 4),
    {
        match self {
            ActorStatus::Stopping | ActorStatus::Stopped => false,
            _ => true,
        }
    }
}

/// An untyped handle to an actor: its identifier and the status it had when the
/// handle was taken.
#[derive(Clone, Copy, Debug, PartialEq, Eq, Structural)]
pub struct ActorCell {
    /// The actor's identifier
    pub id: ActorId,
    /// The actor's status
    pub status: ActorStatus,
}

impl ActorCell {
    /// The actor's identifier
    pub fn get_id(&self) -> (r: ActorId)
        ensures
            r == self.id,
    {
        self.id
    }

    /// The actor's status
    pub fn get_status(&self) -> (r: ActorStatus)
        ensures
            r == self.status,
    {
        self.status
    }
}

/// A typed reference to an actor which accepts messages of type `TMsg`.
#[derive(Debug)]
#[verifier::reject_recursive_types(TMsg)]
pub struct ActorRef<TMsg> {
    id: ActorId,
    tx: tokio::sync::mpsc::UnboundedSender<TMsg>,
}

impl<TMsg> ActorRef<TMsg> {
    /// Spec view of the actor's identifier
    pub closed spec fn spec_id(&self) -> ActorId {
        self.id
    }

    /// Whether `msg` was handed to the actor's mailbox over this reference.
    /// Only a successful `cast` of `msg` establishes it: outside this module
    /// it is known of a message exactly when such a cast said so.
    pub closed spec fn spec_sent(&self, msg: TMsg) -> bool {
        true
    }

    /// A reference to the actor `id` whose mailbox is fed by `tx`.
    pub fn new(id: ActorId, tx: tokio::sync::mpsc::UnboundedSender<TMsg>) -> (r: Self)
        ensures
            r.spec_id() == id,
    {
        ActorRef { id, tx }
    }

    /// The actor's identifier
    pub fn get_id(&self) -> (r: ActorId)
        ensures
            r == self.spec_id(),
    {
        self.id
    }

    /// Send a message to the actor without waiting for a reply. When the actor
    /// can no longer receive, the message is handed back in `SendErr`.
    pub fn cast(&self, msg: TMsg) -> (r: Result<(), MessagingErr<TMsg>>)
        ensures
            r matches Err(e) ==> e == MessagingErr::SendErr(msg),
            r is Ok ==> self.spec_sent(msg),
    {
        match channel_send(&self.tx, msg) {
            Ok(()) => Ok(()),
            Err(m) => Err(MessagingErr::SendErr(m)),
        }
    }
}

impl<TMsg> Clone for ActorRef<TMsg> {
    fn clone(&self) -> (r: Self)
        ensures
            r.spec_id() == self.spec_id(),
    {
        ActorRef { id: self.id, tx: channel_clone(&self.tx) }
    }
}

} // verus!
