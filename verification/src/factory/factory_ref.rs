//! Sending to a factory: dispatching jobs and controlling the factory.
use vstd::prelude::*;

use crate::actor_ref::ActorRef;
use crate::errors::MessagingErr;
use crate::factory::job::{Job, JobOptions};
use crate::factory::factoryimpl::{spec_resize_post, FactoryState, GLOBAL_WORKER_POOL_MAXIMUM};
use crate::factory::queues::Queue;
use crate::factory::routing::Router;
use crate::factory::worker::WorkerProperties;
use crate::factory::{FactoryMessage, WorkerId};

verus! {

impl<TMsg> ActorRef<FactoryMessage<TMsg>> {
    /// Dispatch a new job with `key` and `message` to the factory. On failure
    /// the message is handed back in the error.
    pub fn dispatch(&self, key: u64, message: TMsg) -> (r: Result<(), MessagingErr<FactoryMessage<TMsg>>>)
        ensures
            r matches Err(e) ==> e matches MessagingErr::SendErr(FactoryMessage::Dispatch(job))
                && job.key == key && job.msg == message && job.accepted is None,
            r is Ok ==> exists|job: Job<TMsg>|
                #[trigger] self.spec_sent(FactoryMessage::Dispatch(job)) && job.key == key && job.msg
                    == message && job.accepted is None && job.options.ttl is None,
    {
        self.dispatch_job(Job::new(key, message))
    }

    /// Dispatch a new job with `key`, `message` and the given options
    pub fn dispatch_with_options(&self, key: u64, message: TMsg, options: JobOptions) -> (r: Result<
        (),
        MessagingErr<FactoryMessage<TMsg>>,
    >)
        ensures
            r matches Err(e) ==> e matches MessagingErr::SendErr(FactoryMessage::Dispatch(job))
                && job.key == key && job.msg == message && job.options == options
                && job.accepted is None,
            r is Ok ==> self.spec_sent(
                FactoryMessage::Dispatch(Job { key, msg: message, options, accepted: None }),
            ),
    {
        self.dispatch_job(Job::with_options(key, message, options))
    }

    /// Dispatch a job to the factory
    pub fn dispatch_job(&self, job: Job<TMsg>) -> (r: Result<(), MessagingErr<FactoryMessage<TMsg>>>)
        ensures
            r matches Err(e) ==> e == MessagingErr::SendErr(FactoryMessage::Dispatch(job)),
            r is Ok ==> self.spec_sent(FactoryMessage::Dispatch(job)),
    {
        self.cast(FactoryMessage::Dispatch(job))
    }

    /// Ask the factory to resize its pool to `worker_count` workers
    pub fn adjust_worker_pool(&self, worker_count: usize) -> (r: Result<
        (),
        MessagingErr<FactoryMessage<TMsg>>,
    >)
        ensures
            r matches Err(e) ==> e == MessagingErr::SendErr(
                FactoryMessage::<TMsg>::AdjustWorkerPool(worker_count),
            ),
            r is Ok ==> self.spec_sent(FactoryMessage::<TMsg>::AdjustWorkerPool(worker_count)),
    {
        self.cast(FactoryMessage::AdjustWorkerPool(worker_count))
    }

    /// Ask the factory to finish its queued jobs, discard new ones, and stop
    /// once drained
    pub fn drain_requests(&self) -> (r: Result<(), MessagingErr<FactoryMessage<TMsg>>>)
        ensures
            r matches Err(e) ==> e == MessagingErr::SendErr(FactoryMessage::<TMsg>::DrainRequests),
            r is Ok ==> self.spec_sent(FactoryMessage::<TMsg>::DrainRequests),
    {
        self.cast(FactoryMessage::DrainRequests)
    }
}

/// A successful `adjust_worker_pool(n)` handed the factory the request which,
/// once the factory handles it, gives the pool `n` workers (for a size the
/// factory supports): growing stops no worker, shrinking spawns none.
pub proof fn lemma_adjust_request_resizes<TMsg, TRouter: Router<TMsg>, TQueue: Queue<TMsg>>(
    factory: ActorRef<FactoryMessage<TMsg>>,
    n: usize,
    before: FactoryState<TMsg, TRouter, TQueue>,
    after: FactoryState<TMsg, TRouter, TQueue>,
    spawn: Seq<WorkerId>,
    stop: Seq<WorkerProperties<TMsg>>,
)
    requires
        factory.spec_sent(FactoryMessage::<TMsg>::AdjustWorkerPool(n)),
        0 < n <= GLOBAL_WORKER_POOL_MAXIMUM,
        spec_resize_post(before, after, n, spawn, stop),
    ensures
        after.spec_pool_size() == n,
        n > before.spec_pool_size() ==> stop.len() == 0,
        n < before.spec_pool_size() ==> spawn.len() == 0,
        n == before.spec_pool_size() ==> spawn.len() == 0 && stop.len() == 0
            && after.spec_pool() == before.spec_pool(),
{
}

} // verus!
