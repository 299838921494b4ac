//! Factories: a manager of a pool of workers which routes jobs to the workers,
//! queues them when the workers are busy and sheds load under back-pressure.
//!
//! The routing mode decides how jobs reach workers: by hashing the key
//! (`KeyPersistentRouting`), to the first available worker with a shared queue
//! (`QueuerRouting`), to the worker already processing the same key
//! (`StickyQueuerRouting`), in turn (`RoundRobinRouting`), or by a custom hash
//! (`CustomRouting`).
use vstd::prelude::*;

pub mod discard;
pub mod factory_ref;
pub mod factoryimpl;
pub mod hash;
pub mod job;
pub mod queues;
pub mod ratelim;
pub mod routing;
pub mod stats;
pub mod worker;

use crate::message::{BoxedDowncastErr, Message, SerializedMessage};
use crate::port::RpcReplyPort;
use job::{metadata_well_formed, spec_attached, spec_job_deserialized, Job};

verus! {

/// Identifier of a distinct worker in the factory: its index in the pool
pub type WorkerId = usize;

/// Messages to a factory. Only `Dispatch` travels between nodes; the other
/// messages are for the factory's own host.
#[verifier::reject_recursive_types(TMsg)]
pub enum FactoryMessage<TMsg> {
    /// Dispatch a new job
    Dispatch(Job<TMsg>),
    /// A worker finished the job with the given key
    Finished(WorkerId, u64),
    /// Send a ping to the workers; the instant the pings were scheduled
    DoPings(u64),
    /// Calculate factory properties (loadshedding, concurrency, etc)
    Calculate,
    /// A worker's reply to a ping, with the ping's round-trip time
    WorkerPong(WorkerId, u64),
    /// Scan for stuck workers
    IdentifyStuckWorkers,
    /// Retrieve the current queue depth
    GetQueueDepth(RpcReplyPort<usize>),
    /// Resize the worker pool to the requested size
    AdjustWorkerPool(usize),
    /// Retrieve the available capacity of the worker pool + queue
    GetAvailableCapacity(RpcReplyPort<usize>),
    /// Retrieve the number of workers processing jobs
    GetNumActiveWorkers(RpcReplyPort<usize>),
    /// Finish the jobs queued, discard new work, and exit once drained
    DrainRequests,
}

impl<TMsg: Message> FactoryMessage<TMsg> {
    /// A factory message is serializable when the job's message is
    pub fn serializable() -> (r: bool)
        ensures
            call_ensures(TMsg::serializable, (), r),
    {
        TMsg::serializable()
    }

    /// Serialize a dispatched job (see `Job::serialize`); the factory's other
    /// messages never leave the host.
    pub fn serialize(self) -> (r: Result<SerializedMessage, BoxedDowncastErr>)
        ensures
            !(self is Dispatch) ==> r is Err,
            self matches FactoryMessage::Dispatch(job) ==> (r matches Ok(b) ==> match b {
                SerializedMessage::Cast { metadata: Some(m), .. } => m@ == Job::<TMsg>::spec_meta(
                    job.key,
                    job.options,
                ),
                SerializedMessage::Call { metadata: Some(m), .. } => m@ == Job::<TMsg>::spec_meta(
                    job.key,
                    job.options,
                ),
                _ => false,
            }),
            self matches FactoryMessage::Dispatch(job) ==> exists|
                inner: Result<SerializedMessage, BoxedDowncastErr>,
            |
                #[trigger] call_ensures(TMsg::serialize, (job.msg,), inner) && spec_attached(
                    inner,
                    Job::<TMsg>::spec_meta(job.key, job.options),
                    r,
                ),
    {
        match self {
            FactoryMessage::Dispatch(job) => job.serialize(),
            _ => Err(BoxedDowncastErr),
        }
    }

    /// Deserialize a dispatched job (see `Job::deserialize`)
    pub fn deserialize(bytes: SerializedMessage) -> (r: Result<Self, BoxedDowncastErr>)
        requires
            metadata_well_formed(bytes),
        ensures
            r matches Ok(m) ==> m is Dispatch,
            bytes is CallReply ==> r is Err,
            exists|jr: Result<Job<TMsg>, BoxedDowncastErr>|
                #[trigger] spec_job_deserialized(bytes, jr) && match jr {
                    Ok(j) => r matches Ok(FactoryMessage::Dispatch(d)) && d == j,
                    Err(e) => r == Err::<Self, BoxedDowncastErr>(e),
                },
    {
        let ghost given = bytes;
        let jr = Job::<TMsg>::deserialize(bytes);
        let ghost jr_as = jr;
        let r = match jr {
            Ok(job) => Ok(FactoryMessage::Dispatch(job)),
            Err(e) => Err(e),
        };
        assert(spec_job_deserialized(given, jr_as));
        r
    }
}

} // verus!
