//! `ractor`: an actor framework in the style of Erlang's `gen_server`.
//!
//! This crate holds the decision logic of the framework: job routing and
//! load-shedding for worker factories, the leaky-bucket rate limiter, process
//! groups, the named actor registry, reply ports and call results, and the
//! processing loop of actors pinned to one thread. Each
//! function states its behaviour in its contract and is checked by Verus.
#![allow(unused_imports)]

pub mod actor_id;
pub mod errors;

pub use actor_id::ActorId;
pub use errors::{ActorErr, MessagingErr, RactorErr, SpawnErr};
pub mod rpc;
pub mod concurrency;
pub mod port;
pub mod actor_ref;

pub use actor_ref::{ActorCell, ActorRef, ActorStatus};
pub use port::{OutputMessage, RpcReplyPort};

use vstd::prelude::*;

verus! {

/// An actor's name
pub type ActorName = String;
/// A process group's name
pub type GroupName = String;
/// A process group scope's name
pub type ScopeName = String;

} // verus!
pub mod message;
pub mod factory;
pub mod pg;
pub mod registry;
pub mod name_order;
pub mod output_port;
pub mod thread_local;
