//! The factory: its state (the worker pool, the router, the factory's own
//! queue, load-shedding and draining), and how it handles each message.
//! Spawning, stopping and killing actors, timers and lifecycle hooks are done
//! by the host, which applies the effects each step returns. Instants and
//! durations are in nanoseconds.
use vstd::prelude::*;
use std::collections::HashMap;
use std::sync::Arc;

use crate::actor_id::ActorId;
use crate::actor_ref::ActorRef;
use crate::errors::MessagingErr;
use crate::factory::discard::{
    DiscardHandler, DiscardMode, DiscardReason, DiscardSettings, WorkerDiscardSettings,
};
use crate::factory::job::{Job, JobOptions};
use crate::factory::queues::Queue;
use crate::factory::routing::{deliver, spec_delivered, spec_delivered_at_most_once, RouteResult, Router};
use crate::factory::stats::FactoryStatsLayer;
use crate::factory::queues::{spec_expired, spec_unexpired};
use crate::factory::worker::{
    spec_completed, spec_enqueued, spec_replaced, spec_set_draining, DeadMansSwitchConfiguration,
    WorkerMessage, WorkerProperties,
};
use crate::factory::{FactoryMessage, WorkerId};
use crate::port::RpcReplyPort;

verus! {

broadcast use vstd::std_specs::hash::group_hash_axioms;

/// The largest worker pool a factory runs
pub const GLOBAL_WORKER_POOL_MAXIMUM: usize = 1_000_000;

/// Whether the factory is draining its requests before stopping
#[derive(Clone, Copy, Debug, PartialEq, Eq, Structural)]
pub enum DrainState {
    /// Requests are served
    NotDraining,
    /// New requests are discarded; the queued ones are finished
    Draining,
    /// Every request is finished
    Drained,
}

/// The factory's state
#[verifier::reject_recursive_types(TMsg)]
pub struct FactoryState<TMsg, TRouter, TQueue> {
    factory_name: String,
    pool_size: usize,
    pool: HashMap<WorkerId, WorkerProperties<TMsg>>,
    router: TRouter,
    queue: TQueue,
    discard_handler: Option<Arc<dyn DiscardHandler<TMsg>>>,
    discard_settings: DiscardSettings,
    drain_state: DrainState,
    dead_mans_switch: Option<DeadMansSwitchConfiguration>,
    stats: Option<Arc<dyn FactoryStatsLayer>>,
}

/// The queue with `job` put in by the queue's own rule
pub open spec fn spec_pushed<TMsg>(before: Seq<Job<TMsg>>, after: Seq<Job<TMsg>>, job: Job<TMsg>) -> bool {
    exists|i: int| 0 <= i <= before.len() && after == before.insert(i, job)
}

/// The factory's queue after a backlogged job arrives, under the factory's
/// discard limit and mode, and the jobs shed (`shed`); `discardable` is the
/// queue's verdict on the job. With newest-first discarding, a discardable job
/// arriving at a full queue is shed. With oldest-first discarding, the job is
/// queued and the queue is then shed down to the limit (no job but the queued
/// ones and the new one is left; see `spec_oldest_shed` for which). With no
/// limit, the job is queued.
pub open spec fn spec_maybe_enqueued<TMsg>(
    before: Seq<Job<TMsg>>,
    after: Seq<Job<TMsg>>,
    job: Job<TMsg>,
    limit_and_mode: Option<(usize, DiscardMode)>,
    discardable: bool,
    shed: Seq<Job<TMsg>>,
) -> bool {
    match limit_and_mode {
        Some((limit, DiscardMode::Newest)) => if discardable && before.len() >= limit {
            after == before && shed == seq![job]
        } else {
            spec_pushed(before, after, job) && shed.len() == 0
        },
        Some((limit, DiscardMode::Oldest)) => {
            &&& after.len() == if before.len() + 1 <= limit {
                before.len() + 1
            } else {
                limit as nat
            }
            &&& shed.len() == spec_num_shed(before.len(), limit)
            &&& forall|j: Job<TMsg>| after.contains(j) ==> before.contains(j) || j == job
        },
        None => spec_pushed(before, after, job) && shed.len() == 0,
    }
}

/// How many jobs oldest-first discarding sheds when a job arrives at a queue
/// of `len` jobs under `limit`
pub open spec fn spec_num_shed(len: nat, limit: usize) -> nat {
    if len + 1 > limit {
        (len + 1 - limit) as nat
    } else {
        0
    }
}

/// Oldest-first discarding, in the queue's shed order: the job goes in where
/// the queue puts it, then the jobs first in shed order are shed (`shed`, in
/// that order) until the queue is back at the limit.
pub open spec fn spec_oldest_shed<TMsg>(
    before_shed: Seq<Job<TMsg>>,
    after_shed: Seq<Job<TMsg>>,
    job: Job<TMsg>,
    limit: usize,
    shed: Seq<Job<TMsg>>,
) -> bool {
    exists|k: int|
        0 <= k <= before_shed.len() && after_shed == before_shed.insert(k, job).skip(
            spec_num_shed(before_shed.len(), limit) as int,
        ) && shed == before_shed.insert(k, job).take(spec_num_shed(before_shed.len(), limit) as int)
}

/// Load-shedding keeps the factory's queue within its discard limit: a queue
/// within the limit stays within it when a job is queued, as long as the job
/// may be discarded or the oldest jobs are the ones discarded.
pub proof fn lemma_enqueue_within_limit<TMsg>(
    before: Seq<Job<TMsg>>,
    after: Seq<Job<TMsg>>,
    job: Job<TMsg>,
    limit: usize,
    mode: DiscardMode,
    discardable: bool,
    shed: Seq<Job<TMsg>>,
)
    requires
        before.len() <= limit,
        discardable || mode == DiscardMode::Oldest,
        spec_maybe_enqueued(before, after, job, Some((limit, mode)), discardable, shed),
    ensures
        after.len() <= limit,
{
    if mode == DiscardMode::Newest && before.len() < limit {
        let i = choose|i: int| 0 <= i <= before.len() && after == before.insert(i, job);
        assert(after.len() == before.len() + 1);
    }
}

/// The queue without the expired jobs at its head
pub open spec fn spec_expired_head_dropped<TMsg>(q: Seq<Job<TMsg>>, now: u64) -> Seq<Job<TMsg>>
    decreases q.len(),
{
    if q.len() > 0 && q[0].options.spec_expired_at(now) {
        spec_expired_head_dropped(q.drop_first(), now)
    } else {
        q
    }
}

impl<TMsg, TRouter: Router<TMsg>, TQueue: Queue<TMsg>> FactoryState<TMsg, TRouter, TQueue> {
    /// The number of active workers the pool should have
    pub closed spec fn spec_pool_size(&self) -> usize {
        self.pool_size
    }

    /// The workers, by identifier
    pub closed spec fn spec_pool(&self) -> Map<WorkerId, WorkerProperties<TMsg>> {
        self.pool@
    }

    /// The jobs in the factory's own queue
    pub closed spec fn spec_queue(&self) -> Seq<Job<TMsg>> {
        self.queue.spec_items()
    }

    /// The factory's queue itself
    pub closed spec fn spec_queue_state(&self) -> TQueue {
        self.queue
    }

    /// The router
    pub closed spec fn spec_router(&self) -> TRouter {
        self.router
    }

    /// The draining state
    pub closed spec fn spec_drain_state(&self) -> DrainState {
        self.drain_state
    }

    /// The discard limit and mode of the factory, if any
    pub closed spec fn spec_limit_and_mode(&self) -> Option<(usize, DiscardMode)> {
        self.discard_settings.spec_limit_and_mode()
    }

    /// The dead man's switch, if any
    pub closed spec fn spec_dead_mans_switch(&self) -> Option<DeadMansSwitchConfiguration> {
        self.dead_mans_switch
    }

    /// The queue and the router are consistent
    pub closed spec fn wf(&self) -> bool {
        self.queue.spec_wf() && self.queue.spec_takes_jobs() && self.router.router_wf()
    }

    /// A factory about to start `num_initial_workers` workers: no worker yet,
    /// an empty queue, not draining
    pub fn new(
        factory_name: String,
        num_initial_workers: usize,
        router: TRouter,
        queue: TQueue,
        discard_handler: Option<Arc<dyn DiscardHandler<TMsg>>>,
        discard_settings: DiscardSettings,
        dead_mans_switch: Option<DeadMansSwitchConfiguration>,
        stats: Option<Arc<dyn FactoryStatsLayer>>,
    ) -> (r: Self)
        requires
            router.router_wf(),
            queue.spec_wf(),
            queue.spec_takes_jobs(),
        ensures
            r.wf(),
            r.spec_pool_size() == num_initial_workers,
            r.spec_pool() == Map::<WorkerId, WorkerProperties<TMsg>>::empty(),
            r.spec_queue() == queue.spec_items(),
            r.spec_router() == router,
            r.spec_drain_state() == DrainState::NotDraining,
            r.spec_limit_and_mode() == discard_settings.spec_limit_and_mode(),
            r.spec_dead_mans_switch() == dead_mans_switch,
    {
        FactoryState {
            factory_name,
            pool_size: num_initial_workers,
            pool: HashMap::new(),
            router,
            queue,
            discard_handler,
            discard_settings,
            drain_state: DrainState::NotDraining,
            dead_mans_switch,
            stats,
        }
    }

    /// The discard settings a new worker gets: none when the factory does the
    /// queueing, else the factory's limit and mode
    pub fn worker_discard_settings(&self) -> (r: WorkerDiscardSettings)
        requires
            self.wf(),
        ensures
            self.spec_router().spec_factory_queueing() ==> r == WorkerDiscardSettings::Disabled,
            !self.spec_router().spec_factory_queueing() ==> r.spec_limit_and_mode()
                == self.spec_limit_and_mode(),
    {
        if self.router.is_factory_queueing() {
            WorkerDiscardSettings::Disabled
        } else {
            self.discard_settings.get_worker_settings()
        }
    }

    /// Add worker `wid`, whose actor was just spawned at instant `now`
    pub fn add_worker(&mut self, wid: WorkerId, actor: ActorRef<WorkerMessage<TMsg>>, now: u64)
        requires
            old(self).wf(),
        ensures
            final(self).wf(),
            final(self).spec_pool().dom() == old(self).spec_pool().dom().insert(wid),
            forall|w: WorkerId| w != wid && #[trigger] old(self).spec_pool().contains_key(w) ==> final(self).spec_pool()[w] == old(self).spec_pool()[w],
            final(self).spec_pool()[wid].spec_wid() == wid,
            final(self).spec_pool()[wid].spec_actor_id() == actor.spec_id(),
            final(self).spec_pool()[wid].spec_queue().len() == 0,
            final(self).spec_pool()[wid].spec_curr_jobs().is_empty(),
            !final(self).spec_pool()[wid].spec_draining(),
            old(self).spec_router().spec_factory_queueing() ==> final(self).spec_pool()[wid].spec_discard_settings()
                == WorkerDiscardSettings::Disabled,
            !old(self).spec_router().spec_factory_queueing() ==> final(self).spec_pool()[wid].spec_discard_settings().spec_limit_and_mode()
                == old(self).spec_limit_and_mode(),
            final(self).spec_queue() == old(self).spec_queue(),
            final(self).spec_pool_size() == old(self).spec_pool_size(),
            final(self).spec_drain_state() == old(self).spec_drain_state(),
            final(self).spec_router() == old(self).spec_router(),
    {
        let settings = self.worker_discard_settings();
        let worker = WorkerProperties::new(
            self.factory_name.clone(),
            wid,
            actor,
            settings,
            self.discard_handler.clone(),
            self.stats.clone(),
            now,
        );
        self.pool.insert(wid, worker);
    }
}

/// The job as the factory stamps it on arrival at instant `now`
pub open spec fn spec_stamped<TMsg>(job: Job<TMsg>, now: u64) -> Job<TMsg> {
    Job {
        key: job.key,
        msg: job.msg,
        options: JobOptions { factory_time: now, ..job.options },
        accepted: job.accepted,
    }
}

/// The jobs of a list of discarded jobs with their reasons
pub open spec fn spec_discarded_jobs<TMsg>(d: Seq<(DiscardReason, Job<TMsg>)>) -> Seq<Job<TMsg>> {
    d.map_values(|p: (DiscardReason, Job<TMsg>)| p.1)
}

/// Each job with the given reason, in order
fn with_reason<TMsg>(reason: DiscardReason, jobs: Vec<Job<TMsg>>) -> (r: Vec<(DiscardReason, Job<TMsg>)>)
    ensures
        spec_discarded_jobs(r@) == jobs@,
        forall|i: int| 0 <= i < r@.len() ==> (#[trigger] r@[i]).0 == reason,
{
    let ghost all = jobs@;
    let mut jobs = jobs;
    let mut r: Vec<(DiscardReason, Job<TMsg>)> = Vec::new();
    let mut k: usize = 0;
    let total = jobs.len();
    proof {
        assert(all.subrange(0, all.len() as int) =~= all);
    }
    while jobs.len() > 0
        invariant
            all.len() == total,
            k + jobs@.len() == all.len(),
            jobs@ == all.subrange(k as int, all.len() as int),
            spec_discarded_jobs(r@) == all.take(k as int),
            forall|i: int| 0 <= i < r@.len() ==> (#[trigger] r@[i]).0 == reason,
        decreases jobs@.len(),
    {
        let j = jobs.remove(0);
        proof {
            assert(j == all[k as int]);
        }
        let ghost before = r@;
        r.push((reason, j));
        proof {
            assert(spec_discarded_jobs(r@) =~= spec_discarded_jobs(before).push(j));
            assert(all.take(k + 1) =~= all.take(k as int).push(j));
            assert(jobs@ =~= all.subrange(k + 1, all.len() as int));
        }
        k = k + 1;
    }
    proof {
        assert(all.take(k as int) =~= all);
    }
    r
}

/// The jobs a dispatch turned away: none when it failed
pub open spec fn spec_turned_away<TMsg>(r: Result<Vec<Job<TMsg>>, MessagingErr<()>>) -> Seq<Job<TMsg>> {
    match r {
        Ok(v) => v@,
        Err(_) => Seq::empty(),
    }
}

/// What dispatching `job` at instant `now` does to the pool and the queue
/// (`ok`: whether it succeeded), and the jobs it turns away (`turned_away`):
/// while draining, nothing changes and the stamped job is turned away;
/// otherwise the job, stamped, reaches at most one worker with the queue
/// unchanged, or is queued by the discard settings with the pool unchanged,
/// and the jobs shed are turned away.
pub open spec fn spec_dispatch_post<TMsg, TRouter: Router<TMsg>, TQueue: Queue<TMsg>>(
    before: FactoryState<TMsg, TRouter, TQueue>,
    after: FactoryState<TMsg, TRouter, TQueue>,
    job: Job<TMsg>,
    now: u64,
    ok: bool,
    turned_away: Seq<Job<TMsg>>,
) -> bool {
    &&& before.spec_drain_state() != DrainState::NotDraining ==> {
        &&& after.spec_pool() == before.spec_pool()
        &&& after.spec_queue() == before.spec_queue()
        &&& ok
        &&& turned_away == seq![spec_stamped(job, now)]
    }
    &&& before.spec_drain_state() == DrainState::NotDraining ==> exists|
        routed: Result<RouteResult<TMsg>, MessagingErr<()>>,
    |
        #[trigger] spec_dispatch_routed(before, after, job, now, ok, routed, turned_away)
}

/// Dispatching through the router gave `routed`: the router routed the
/// stamped job (with no hint), and a job it backlogged is queued by the
/// discard settings; otherwise the queue is unchanged. Dispatching succeeds
/// unless routing failed.
pub open spec fn spec_dispatch_routed<TMsg, TRouter: Router<TMsg>, TQueue: Queue<TMsg>>(
    before: FactoryState<TMsg, TRouter, TQueue>,
    after: FactoryState<TMsg, TRouter, TQueue>,
    job: Job<TMsg>,
    now: u64,
    ok: bool,
    routed: Result<RouteResult<TMsg>, MessagingErr<()>>,
    shed: Seq<Job<TMsg>>,
) -> bool {
    &&& before.spec_router().spec_routes(
        after.spec_router(),
        spec_stamped(job, now),
        before.spec_pool_size(),
        None,
        before.spec_pool(),
        after.spec_pool(),
        now,
        routed,
    )
    &&& ok == routed is Ok
    &&& match routed {
        Ok(RouteResult::Backlog(j)) => (before.spec_limit_and_mode() matches Some(
            (limit, DiscardMode::Oldest),
        ) ==> spec_oldest_shed(
            before.spec_queue_state().spec_shed_order(),
            after.spec_queue_state().spec_shed_order(),
            j,
            limit,
            shed,
        )) && exists|discardable: bool|
            before.spec_queue_state().spec_discardable(j.key, discardable) && spec_maybe_enqueued(
                before.spec_queue(),
                after.spec_queue(),
                j,
                before.spec_limit_and_mode(),
                discardable,
                shed,
            ),
        _ => after.spec_queue() == before.spec_queue() && shed.len() == 0,
    }
}

/// What worker `who` finishing the job with `key` at instant `now` does (`r`:
/// the worker given back to be stopped, or the error): see
/// `worker_finished_job`
pub open spec fn spec_finish_post<TMsg, TRouter: Router<TMsg>, TQueue: Queue<TMsg>>(
    before: FactoryState<TMsg, TRouter, TQueue>,
    after: FactoryState<TMsg, TRouter, TQueue>,
    who: WorkerId,
    key: u64,
    now: u64,
    r: Result<Option<WorkerProperties<TMsg>>, MessagingErr<()>>,
) -> bool {
    &&& !before.spec_pool().contains_key(who) ==> {
        &&& after.spec_pool() == before.spec_pool()
        &&& after.spec_queue() == before.spec_queue()
        &&& r == Ok::<Option<WorkerProperties<TMsg>>, MessagingErr<()>>(None)
    }
    &&& before.spec_pool().contains_key(who) ==> exists|done: WorkerProperties<TMsg>|
        #[trigger] spec_completed(before.spec_pool()[who], done, key, now) && {
            ||| r is Err && after.spec_pool() == before.spec_pool().insert(who, done)
                && after.spec_queue() == before.spec_queue()
            ||| r is Ok && done.spec_draining() && done.spec_curr_jobs().is_empty()
                && r == Ok::<Option<WorkerProperties<TMsg>>, MessagingErr<()>>(Some(done))
                && after.spec_pool() == before.spec_pool().remove(who)
                && after.spec_queue() == before.spec_queue()
            ||| r is Ok && done.spec_draining() && !done.spec_curr_jobs().is_empty()
                && r == Ok::<Option<WorkerProperties<TMsg>>, MessagingErr<()>>(None)
                && after.spec_pool() == before.spec_pool().insert(who, done)
                && after.spec_queue() == before.spec_queue()
            ||| !done.spec_draining() && (r matches Ok(o) ==> o is None) && spec_routed_next(
                before.spec_pool().insert(who, done),
                after.spec_pool(),
                before.spec_queue(),
                after.spec_queue(),
                who,
                now,
                match r {
                    Ok(_) => Ok(()),
                    Err(e) => Err(e),
                },
            )
        }
}

/// What a worker's answer to a ping does: worker `wid` (if in the pool) has no
/// ping outstanding and takes the factory's discard limit; nothing else
/// changes
pub open spec fn spec_pong_post<TMsg, TRouter: Router<TMsg>, TQueue: Queue<TMsg>>(
    before: FactoryState<TMsg, TRouter, TQueue>,
    after: FactoryState<TMsg, TRouter, TQueue>,
    wid: WorkerId,
) -> bool {
    &&& !before.spec_pool().contains_key(wid) ==> after.spec_pool() == before.spec_pool()
    &&& before.spec_pool().contains_key(wid) ==> {
        let wb = before.spec_pool()[wid];
        let wa = after.spec_pool()[wid];
        let limit = match before.spec_limit_and_mode() {
            Some((l, _)) => l,
            None => 0,
        };
        &&& after.spec_pool() == before.spec_pool().insert(wid, wa)
        &&& !wa.spec_ping_pending()
        &&& wa.spec_queue() == wb.spec_queue()
        &&& wa.spec_curr_jobs() == wb.spec_curr_jobs()
        &&& wa.spec_discard_settings() == match wb.spec_discard_settings() {
            WorkerDiscardSettings::Disabled => WorkerDiscardSettings::Disabled,
            WorkerDiscardSettings::Static { mode, .. } => WorkerDiscardSettings::Static {
                limit,
                mode,
            },
        }
    }
}

/// What a round of pings does (`ok`: whether it completed): the discard mode
/// is kept, the pool keeps its workers, and on success every worker was pinged
/// (see `spec_pinged`); the round can only fail on a worker which had no ping
/// outstanding, so with every ping outstanding it succeeds
pub open spec fn spec_pings_post<TMsg, TRouter: Router<TMsg>, TQueue: Queue<TMsg>>(
    before: FactoryState<TMsg, TRouter, TQueue>,
    after: FactoryState<TMsg, TRouter, TQueue>,
    ok: bool,
) -> bool {
    &&& spec_same_mode(before.spec_limit_and_mode(), after.spec_limit_and_mode())
    &&& after.spec_pool().dom() == before.spec_pool().dom()
    &&& ok ==> forall|w: WorkerId| #[trigger]
        before.spec_pool().contains_key(w) ==> spec_pinged(before.spec_pool()[w], after.spec_pool()[w])
    &&& !ok ==> exists|w: WorkerId| #[trigger]
        before.spec_pool().contains_key(w) && !before.spec_pool()[w].spec_ping_pending()
}

/// What dropping the expired jobs at instant `now` does (`removed`: the number
/// dropped): when the factory does the queueing, its queue keeps the jobs
/// which have not expired; otherwise nothing changes
pub open spec fn spec_expired_post<TMsg, TRouter: Router<TMsg>, TQueue: Queue<TMsg>>(
    before: FactoryState<TMsg, TRouter, TQueue>,
    after: FactoryState<TMsg, TRouter, TQueue>,
    now: u64,
    removed: Seq<Job<TMsg>>,
) -> bool {
    &&& after.spec_pool() == before.spec_pool()
    &&& before.spec_router().spec_factory_queueing() ==> {
        &&& after.spec_queue() == spec_unexpired(before.spec_queue(), now)
        &&& removed == spec_expired(before.spec_queue(), now)
    }
    &&& !before.spec_router().spec_factory_queueing() ==> {
        &&& after.spec_queue() == before.spec_queue()
        &&& removed.len() == 0
    }
}

/// What resizing the pool to `requested` workers does (`spawn`: the workers to
/// spawn, `stop`: the workers to stop): see `resize_pool`
pub open spec fn spec_resize_post<TMsg, TRouter: Router<TMsg>, TQueue: Queue<TMsg>>(
    before: FactoryState<TMsg, TRouter, TQueue>,
    after: FactoryState<TMsg, TRouter, TQueue>,
    requested: usize,
    spawn: Seq<WorkerId>,
    stop: Seq<WorkerProperties<TMsg>>,
) -> bool {
    let old_size = before.spec_pool_size() as int;
    let new_size = if requested <= GLOBAL_WORKER_POOL_MAXIMUM {
        requested as int
    } else {
        GLOBAL_WORKER_POOL_MAXIMUM as int
    };
    if requested == 0 || new_size == old_size {
        &&& after.spec_pool_size() == before.spec_pool_size()
        &&& after.spec_pool() == before.spec_pool()
        &&& spawn.len() == 0 && stop.len() == 0
    } else if new_size > old_size {
        &&& after.spec_pool_size() == new_size
        &&& spec_grown(before.spec_pool(), after.spec_pool(), old_size, new_size, spawn)
        &&& stop.len() == 0
    } else {
        &&& after.spec_pool_size() == new_size
        &&& spec_shrunk(before.spec_pool(), after.spec_pool(), new_size, old_size, stop)
        &&& spawn.len() == 0
    }
}

/// A job put in a queue is then in it, as is every job that was
proof fn lemma_pushed_contains<TMsg>(before: Seq<Job<TMsg>>, after: Seq<Job<TMsg>>, job: Job<TMsg>)
    requires
        spec_pushed(before, after, job),
    ensures
        after.len() == before.len() + 1,
        forall|j: Job<TMsg>| after.contains(j) ==> before.contains(j) || j == job,
{
    let i = choose|i: int| 0 <= i <= before.len() && after == before.insert(i, job);
    assert forall|j: Job<TMsg>| after.contains(j) implies before.contains(j) || j == job by {
        let k = choose|k: int| 0 <= k < after.len() && after[k] == j;
        if k < i {
            assert(before[k] == j);
        } else if k > i {
            assert(before[k - 1] == j);
        }
    }
}

impl<TMsg, TRouter: Router<TMsg>, TQueue: Queue<TMsg>> FactoryState<TMsg, TRouter, TQueue> {
    /// Queue a job no worker could take, shedding load by the factory's
    /// discard settings (see `spec_maybe_enqueued`)
    fn maybe_enqueue(&mut self, job: Job<TMsg>) -> (shed: Vec<Job<TMsg>>)
        requires
            old(self).wf(),
            old(self).spec_queue().len() < usize::MAX,
        ensures
            final(self).wf(),
            final(self).spec_pool() == old(self).spec_pool(),
            final(self).spec_pool_size() == old(self).spec_pool_size(),
            final(self).spec_router() == old(self).spec_router(),
            final(self).spec_drain_state() == old(self).spec_drain_state(),
            final(self).spec_limit_and_mode() == old(self).spec_limit_and_mode(),
            final(self).spec_dead_mans_switch() == old(self).spec_dead_mans_switch(),
            old(self).spec_limit_and_mode() matches Some((limit, DiscardMode::Oldest))
                ==> spec_oldest_shed(
                old(self).spec_queue_state().spec_shed_order(),
                final(self).spec_queue_state().spec_shed_order(),
                job,
                limit,
                shed@,
            ),
            exists|discardable: bool|
                old(self).spec_queue_state().spec_discardable(job.key, discardable)
                    && spec_maybe_enqueued(
                    old(self).spec_queue(),
                    final(self).spec_queue(),
                    job,
                    old(self).spec_limit_and_mode(),
                    discardable,
                    shed@,
                ),
    {
        let ghost given = job;
        let mut shed: Vec<Job<TMsg>> = Vec::new();
        let is_discardable = self.queue.is_job_discardable(job.key);
        let ghost before = self.queue.spec_items();
        let ghost before_shed = self.queue.spec_shed_order();
        match self.discard_settings.get_limit_and_mode() {
            Some((limit, DiscardMode::Newest)) => {
                if is_discardable && self.queue.len() >= limit {
                    // load-shed the job
                    self.stats.job_discarded(self.factory_name.as_str());
                    shed.push(job);
                    proof {
                        assert(shed@ =~= seq![given]);
                    }
                } else {
                    self.queue.push_back(job);
                }
                proof {
                    assert(spec_maybe_enqueued(
                        before,
                        self.queue.spec_items(),
                        given,
                        self.discard_settings.spec_limit_and_mode(),
                        is_discardable,
                        shed@,
                    ));
                }
            },
            Some((limit, DiscardMode::Oldest)) => {
                self.queue.push_back(job);
                let ghost pushed = self.queue.spec_items();
                let ghost pushed_shed = self.queue.spec_shed_order();
                proof {
                    lemma_pushed_contains(before, pushed, given);
                    let i = choose|i: int| 0 <= i <= before.len() && pushed == before.insert(i, given);
                    assert(pushed.len() == before.len() + 1);
                    assert(pushed_shed.skip(0) =~= pushed_shed);
                    assert(pushed_shed.take(0) =~= shed@);
                }
                while self.queue.len() > limit
                    invariant
                        self.queue.spec_wf(),
                        self.queue.spec_takes_jobs(),
                        pushed_shed.len() == pushed.len(),
                        self.queue.spec_shed_order() == pushed_shed.skip(
                            pushed.len() - self.queue.spec_items().len(),
                        ),
                        shed@ == pushed_shed.take(pushed.len() - self.queue.spec_items().len()),
                        self.queue.spec_items().len() == pushed.len() || (self.queue.spec_items().len()
                            >= limit && pushed.len() > limit),
                        self.queue.spec_items().len() <= pushed.len(),
                        forall|j: Job<TMsg>|
                            self.queue.spec_items().contains(j) ==> pushed.contains(j),
                        self.pool@ == old(self).pool@,
                        self.pool_size == old(self).pool_size,
                        self.router == old(self).router,
                        self.drain_state == old(self).drain_state,
                        self.discard_settings.spec_limit_and_mode() == old(
                            self,
                        ).discard_settings.spec_limit_and_mode(),
                        self.dead_mans_switch == old(self).dead_mans_switch,
                        old(self).discard_settings.spec_limit_and_mode() == Some(
                            (limit, DiscardMode::Oldest),
                        ),
                    decreases self.queue.spec_items().len(),
                {
                    let ghost current = self.queue.spec_items();
                    let ghost current_shed = self.queue.spec_shed_order();
                    let ghost shed_before = shed@;
                    // shed a job, of the lowest priority first
                    if let Some(dropped) = self.queue.discard_oldest() {
                        self.stats.job_discarded(self.factory_name.as_str());
                        shed.push(dropped);
                    }
                    proof {
                        assert forall|j: Job<TMsg>|
                            self.queue.spec_items().contains(j) implies pushed.contains(j) by {
                            let k = choose|k: int|
                                0 <= k < self.queue.spec_items().len()
                                    && self.queue.spec_items()[k] == j;
                            let i = choose|i: int|
                                0 <= i < current.len() && self.queue.spec_items() == current.remove(
                                    i,
                                );
                            if k < i {
                                assert(current[k] == j);
                            } else {
                                assert(current[k + 1] == j);
                            }
                        }
                        let m = pushed.len() - current.len();
                        assert(current_shed.drop_first() =~= pushed_shed.skip(m + 1));
                        assert(current_shed[0] == pushed_shed[m]);
                        assert(shed@ =~= pushed_shed.take(m + 1));
                    }
                }
                proof {
                    assert(pushed.len() - self.queue.spec_items().len() == spec_num_shed(
                        before.len(),
                        limit,
                    ));
                }
                proof {
                    assert(spec_maybe_enqueued(
                        before,
                        self.queue.spec_items(),
                        given,
                        self.discard_settings.spec_limit_and_mode(),
                        is_discardable,
                        shed@,
                    ));
                }
            },
            None => {
                self.queue.push_back(job);
                proof {
                    assert(spec_maybe_enqueued(
                        before,
                        self.queue.spec_items(),
                        given,
                        self.discard_settings.spec_limit_and_mode(),
                        is_discardable,
                        shed@,
                    ));
                }
            },
        }
        proof {
            assert(old(self).spec_queue_state().spec_discardable(given.key, is_discardable));
            assert(spec_maybe_enqueued(
                old(self).spec_queue(),
                self.spec_queue(),
                given,
                old(self).spec_limit_and_mode(),
                is_discardable,
                shed@,
            ));
        }
        shed
    }
}

/// What routing the next queued job at instant `now` does (see
/// `try_route_next_active_job`): the expired jobs at the queue's head are
/// dropped; the next job then goes to the hinted worker if it is free;
/// otherwise it leaves the queue, for the worker the router chooses if there
/// is one.
pub open spec fn spec_routed_next<TMsg>(
    pool_before: Map<WorkerId, WorkerProperties<TMsg>>,
    pool_after: Map<WorkerId, WorkerProperties<TMsg>>,
    queue_before: Seq<Job<TMsg>>,
    queue_after: Seq<Job<TMsg>>,
    worker_hint: WorkerId,
    now: u64,
    r: Result<(), MessagingErr<()>>,
) -> bool {
    let q = spec_expired_head_dropped(queue_before, now);
    if pool_before.contains_key(worker_hint) && pool_before[worker_hint].spec_curr_jobs().is_empty() {
        if q.len() > 0 {
            &&& queue_after == q.drop_first()
            &&& spec_delivered(pool_before, pool_after, worker_hint, q[0], now)
        } else {
            &&& queue_after == q
            &&& pool_after == pool_before
            &&& r is Ok
        }
    } else if q.len() > 0 {
        &&& queue_after == q.drop_first()
        &&& {
            ||| exists|wid: WorkerId| #[trigger] spec_delivered(pool_before, pool_after, wid, q[0], now)
            ||| pool_after == pool_before && r is Ok
        }
    } else {
        &&& queue_after == q
        &&& pool_after == pool_before
        &&& r is Ok
    }
}

/// The queue's head without its expired jobs is the queue from the first
/// unexpired job on
proof fn lemma_expired_head_step<TMsg>(q: Seq<Job<TMsg>>, now: u64)
    requires
        q.len() > 0,
        q[0].options.spec_expired_at(now),
    ensures
        spec_expired_head_dropped(q, now) == spec_expired_head_dropped(q.drop_first(), now),
{
}

impl<TMsg, TRouter: Router<TMsg>, TQueue: Queue<TMsg>> FactoryState<TMsg, TRouter, TQueue> {
    /// A job arrives at instant `now`: it is stamped with its arrival time.
    /// While draining, the job is turned away (to be discarded with reason
    /// `Shutdown` and handed back to its submitter). Otherwise the router
    /// routes it (to at most one worker), and a job the router backlogs is
    /// queued by the factory's discard settings (see `spec_maybe_enqueued`);
    /// the jobs that load-shedding sheds are turned away (to be discarded with
    /// reason `Loadshed` and handed back). Gives the jobs turned away.
    pub fn dispatch(&mut self, job: Job<TMsg>, now: u64) -> (r: Result<Vec<Job<TMsg>>, MessagingErr<()>>)
        requires
            old(self).wf(),
            old(self).spec_drain_state() == DrainState::NotDraining ==> old(self).spec_router().accepts_route(
                old(self).spec_pool_size(),
                None,
            ),
            old(self).spec_queue().len() < usize::MAX,
        ensures
            final(self).wf(),
            final(self).spec_pool_size() == old(self).spec_pool_size(),
            final(self).spec_drain_state() == old(self).spec_drain_state(),
            final(self).spec_limit_and_mode() == old(self).spec_limit_and_mode(),
            final(self).spec_dead_mans_switch() == old(self).spec_dead_mans_switch(),
            spec_dispatch_post(*old(self), *final(self), job, now, r is Ok, spec_turned_away(r)),
    {
        let ghost arrived = job;
        let mut job = job;
        // the time the factory received the job
        job.set_factory_time(now);
        self.stats.new_job(self.factory_name.as_str());
        proof {
            assert(job == spec_stamped(arrived, now));
        }
        let ghost stamped = job;
        if self.drain_state == DrainState::NotDraining {
            let routed = self.router.route_message(job, self.pool_size, None, &mut self.pool, now);
            let ghost routed_as = routed;
            let r: Result<Vec<Job<TMsg>>, MessagingErr<()>> = match routed {
                Ok(RouteResult::Backlog(busy_job)) => {
                    // the workers are busy: queue the job
                    let ghost mid = *self;
                    let ghost backlogged = busy_job;
                    let shed = self.maybe_enqueue(busy_job);
                    proof {
                        assert(mid.queue == old(self).queue);
                        let d = choose|d: bool|
                            mid.spec_queue_state().spec_discardable(backlogged.key, d)
                                && spec_maybe_enqueued(
                                mid.spec_queue(),
                                self.spec_queue(),
                                backlogged,
                                mid.spec_limit_and_mode(),
                                d,
                                shed@,
                            );
                        assert(old(self).spec_queue_state().spec_discardable(backlogged.key, d));
                    }
                    Ok(shed)
                },
                Ok(_) => Ok(Vec::new()),
                Err(e) => Err(e),
            };
            proof {
                assert(spec_dispatch_routed(
                    *old(self),
                    *self,
                    arrived,
                    now,
                    r is Ok,
                    routed_as,
                    spec_turned_away(r),
                ));
            }
            r
        } else {
            // turned away: its submitter, if it asked, gets it back
            let turned_away = vec![job];
            proof {
                assert(turned_away@ =~= seq![stamped]);
            }
            Ok(turned_away)
        }
    }

    /// Route the next job of the factory's queue, at instant `now`: the
    /// expired jobs at the head of the queue are discarded first; then the
    /// next job goes to the hinted worker if it is free, else to the worker the
    /// router chooses, if any (with none, the job leaves the queue unrouted).
    pub fn try_route_next_active_job(&mut self, worker_hint: WorkerId, now: u64) -> (r: Result<
        (),
        MessagingErr<()>,
    >)
        requires
            old(self).wf(),
            old(self).spec_router().accepts_route(old(self).spec_pool_size(), None),
        ensures
            final(self).wf(),
            final(self).spec_pool_size() == old(self).spec_pool_size(),
            final(self).spec_drain_state() == old(self).spec_drain_state(),
            final(self).spec_limit_and_mode() == old(self).spec_limit_and_mode(),
            final(self).spec_dead_mans_switch() == old(self).spec_dead_mans_switch(),
            spec_routed_next(
                old(self).spec_pool(),
                final(self).spec_pool(),
                old(self).spec_queue(),
                final(self).spec_queue(),
                worker_hint,
                now,
                r,
            ),
    {
        let ghost q0 = self.queue.spec_items();
        // discard the expired jobs at the head of the queue
        loop
            invariant
                self.queue.spec_wf(),
                        self.queue.spec_takes_jobs(),
                spec_expired_head_dropped(self.queue.spec_items(), now)
                    == spec_expired_head_dropped(q0, now),
                q0 == old(self).queue.spec_items(),
                self.pool@ == old(self).pool@,
                self.pool_size == old(self).pool_size,
                self.router == old(self).router,
                self.drain_state == old(self).drain_state,
                self.discard_settings == old(self).discard_settings,
                self.dead_mans_switch == old(self).dead_mans_switch,
            ensures
                self.queue.spec_wf(),
                        self.queue.spec_takes_jobs(),
                self.queue.spec_items() == spec_expired_head_dropped(q0, now),
                self.pool@ == old(self).pool@,
                self.pool_size == old(self).pool_size,
                self.router == old(self).router,
                self.drain_state == old(self).drain_state,
                self.discard_settings == old(self).discard_settings,
                self.dead_mans_switch == old(self).dead_mans_switch,
            decreases self.queue.spec_items().len(),
        {
            let expired = match self.queue.peek() {
                Some(job) => job.is_expired_at(now),
                None => false,
            };
            if !expired {
                break;
            }
            proof {
                lemma_expired_head_step(self.queue.spec_items(), now);
            }
            if let Some(mut job) = self.queue.pop_front() {
                self.stats.job_ttl_expired(self.factory_name.as_str(), 1);
                if let Some(handler) = &self.discard_handler {
                    handler.discard(DiscardReason::TtlExpired, &mut job);
                }
            }
        }
        let ghost q = self.queue.spec_items();
        let hinted_free = match self.pool.get(&worker_hint) {
            Some(worker) => worker.is_available(),
            None => false,
        };
        if hinted_free {
            match self.queue.pop_front() {
                Some(job) => deliver(&mut self.pool, worker_hint, job, now),
                None => Ok(()),
            }
        } else {
            // the next worker the router chooses
            let target = match self.queue.peek() {
                Some(job) => self.router.choose_target_worker(job, self.pool_size, None, &self.pool),
                None => None,
            };
            // the head job leaves the queue; with no worker to take it, it is
            // dropped
            match self.queue.pop_front() {
                Some(job) => match target {
                    Some(wid) => {
                        if self.pool.contains_key(&wid) {
                            let sent = deliver(&mut self.pool, wid, job, now);
                            proof {
                                assert(job == q[0]);
                                assert(spec_delivered(
                                    old(self).spec_pool(),
                                    self.spec_pool(),
                                    wid,
                                    q[0],
                                    now,
                                ));
                            }
                            sent
                        } else {
                            Ok(())
                        }
                    },
                    None => Ok(()),
                },
                None => Ok(()),
            }
        }
    }
}

/// The identifiers of the workers of the pool, each once
fn pool_ids<TMsg>(pool: &HashMap<WorkerId, WorkerProperties<TMsg>>) -> (r: Vec<WorkerId>)
    ensures
        r@.no_duplicates(),
        r@.to_set() == pool@.dom(),
{
    let mut r: Vec<WorkerId> = Vec::new();
    for k in it: pool.keys()
        invariant
            it.seq().unref().to_set() == pool@.dom(),
            it.seq().no_duplicates(),
            it.seq().len() == pool@.dom().len(),
            r@.len() == it.index(),
            forall|i: int| 0 <= i < it.index() ==> r@[i] == *it.seq()[i],
            r@.no_duplicates(),
            forall|i: int| 0 <= i < r@.len() ==> pool@.dom().contains(#[trigger] r@[i]),
    {
        proof {
            let i = it.index();
            assert(it.seq().unref()[i] == *k);
            assert(it.seq().unref().to_set().contains(*k));
            assert forall|j: int| 0 <= j < r@.len() implies r@[j] != *k by {
                assert(it.seq()[j] != it.seq()[i]);
            }
        }
        r.push(*k);
    }
    proof {
        assert(r@.len() == pool@.dom().len());
        r@.unique_seq_to_set();
        assert(r@.to_set().subset_of(pool@.dom()));
        vstd::set_lib::lemma_subset_equality(r@.to_set(), pool@.dom());
    }
    r
}

/// Growing the pool over the identifiers `lo..hi`: a worker there which is
/// draining becomes active again, and `spawn` lists, in order, the
/// identifiers with no worker, for which a worker is to be spawned
pub open spec fn spec_grown<TMsg>(
    before: Map<WorkerId, WorkerProperties<TMsg>>,
    after: Map<WorkerId, WorkerProperties<TMsg>>,
    lo: int,
    hi: int,
    spawn: Seq<WorkerId>,
) -> bool {
    &&& after.dom() == before.dom()
    &&& forall|w: WorkerId| #[trigger]
        before.contains_key(w) ==> if lo <= w < hi {
            spec_set_draining(before[w], after[w], false)
        } else {
            after[w] == before[w]
        }
    &&& spawn == Seq::new((hi - lo) as nat, |i: int| (lo + i) as WorkerId).filter(
        |w: WorkerId| !before.contains_key(w),
    )
}

/// Whether worker `w` lies in `lo..hi` and is free in the pool
pub open spec fn spec_free_between<TMsg>(
    pool: Map<WorkerId, WorkerProperties<TMsg>>,
    lo: int,
    hi: int,
    w: WorkerId,
) -> bool {
    lo <= w < hi && pool.contains_key(w) && pool[w].spec_curr_jobs().is_empty()
}

/// Shrinking the pool over the identifiers `lo..hi`: a free worker there
/// leaves the pool (`stopped` lists them, in order, to be stopped), and a
/// busy one is marked draining
pub open spec fn spec_shrunk<TMsg>(
    before: Map<WorkerId, WorkerProperties<TMsg>>,
    after: Map<WorkerId, WorkerProperties<TMsg>>,
    lo: int,
    hi: int,
    stopped: Seq<WorkerProperties<TMsg>>,
) -> bool {
    &&& forall|w: WorkerId| #[trigger]
        after.contains_key(w) == (before.contains_key(w) && !spec_free_between(before, lo, hi, w))
    &&& forall|w: WorkerId| #[trigger]
        after.contains_key(w) ==> if lo <= w < hi {
            spec_set_draining(before[w], after[w], true)
        } else {
            after[w] == before[w]
        }
    &&& stopped == Seq::new((hi - lo) as nat, |i: int| (lo + i) as WorkerId).filter(
        |w: WorkerId| spec_free_between(before, lo, hi, w),
    ).map_values(|w: WorkerId| before[w])
}

impl<TMsg, TRouter: Router<TMsg>, TQueue: Queue<TMsg>> FactoryState<TMsg, TRouter, TQueue> {
    /// Grow the pool by `to_add` workers: the identifiers after the active
    /// pool, which a draining worker may still hold (it becomes active
    /// again); the others are to be spawned
    fn grow_pool(&mut self, to_add: usize) -> (spawn: Vec<WorkerId>)
        requires
            old(self).wf(),
            old(self).spec_pool_size() + to_add <= usize::MAX,
        ensures
            final(self).wf(),
            spec_grown(
                old(self).spec_pool(),
                final(self).spec_pool(),
                old(self).spec_pool_size() as int,
                old(self).spec_pool_size() + to_add,
                spawn@,
            ),
            final(self).spec_queue() == old(self).spec_queue(),
            final(self).spec_pool_size() == old(self).spec_pool_size(),
            final(self).spec_router() == old(self).spec_router(),
            final(self).spec_drain_state() == old(self).spec_drain_state(),
            final(self).spec_limit_and_mode() == old(self).spec_limit_and_mode(),
            final(self).spec_dead_mans_switch() == old(self).spec_dead_mans_switch(),
    {
        let lo = self.pool_size;
        let hi = self.pool_size + to_add;
        let ghost before = self.pool@;
        let ghost range = Seq::new((hi - lo) as nat, |i: int| (lo + i) as WorkerId);
        let mut spawn: Vec<WorkerId> = Vec::new();
        let mut wid = lo;
        while wid < hi
            invariant
                lo <= wid <= hi,
                before == old(self).pool@,
                range == Seq::new((hi - lo) as nat, |i: int| (lo + i) as WorkerId),
                self.pool@.dom() == before.dom(),
                forall|w: WorkerId| #[trigger]
                    before.contains_key(w) ==> if lo <= w < wid {
                        spec_set_draining(before[w], self.pool@[w], false)
                    } else {
                        self.pool@[w] == before[w]
                    },
                spawn@ == range.take(wid - lo).filter(|w: WorkerId| !before.contains_key(w)),
                self.queue == old(self).queue,
                self.pool_size == old(self).pool_size,
                self.router == old(self).router,
                self.drain_state == old(self).drain_state,
                self.discard_settings == old(self).discard_settings,
                self.dead_mans_switch == old(self).dead_mans_switch,
            decreases hi - wid,
        {
            proof {
                assert(range.take(wid + 1 - lo).drop_last() =~= range.take(wid - lo));
                assert(range.take(wid + 1 - lo).last() == wid);
            }
            proof {
                reveal(Seq::filter);
                let t = range.take(wid + 1 - lo);
                assert(t.filter(|w: WorkerId| !before.contains_key(w)) == if !before.contains_key(
                    wid,
                ) {
                    t.drop_last().filter(|w: WorkerId| !before.contains_key(w)).push(wid)
                } else {
                    t.drop_last().filter(|w: WorkerId| !before.contains_key(w))
                });
            }
            match self.pool.remove(&wid) {
                Some(mut worker) => {
                    // the worker becomes active again
                    worker.set_draining(false);
                    self.pool.insert(wid, worker);
                },
                None => {
                    spawn.push(wid);
                },
            }
            proof {
                assert(self.pool@.dom() =~= before.dom());
            }
            wid = wid + 1;
        }
        proof {
            assert(range.take(hi - lo) =~= range);
        }
        spawn
    }

    /// Shrink the pool by `to_remove` workers, the last ones of the active
    /// pool: a free one leaves the pool and is given back to be stopped, a busy
    /// one is marked draining (it leaves once its work is done)
    fn shrink_pool(&mut self, to_remove: usize) -> (stopped: Vec<WorkerProperties<TMsg>>)
        requires
            old(self).wf(),
            to_remove <= old(self).spec_pool_size(),
        ensures
            final(self).wf(),
            spec_shrunk(
                old(self).spec_pool(),
                final(self).spec_pool(),
                old(self).spec_pool_size() - to_remove,
                old(self).spec_pool_size() as int,
                stopped@,
            ),
            final(self).spec_queue() == old(self).spec_queue(),
            final(self).spec_pool_size() == old(self).spec_pool_size(),
            final(self).spec_router() == old(self).spec_router(),
            final(self).spec_drain_state() == old(self).spec_drain_state(),
            final(self).spec_limit_and_mode() == old(self).spec_limit_and_mode(),
            final(self).spec_dead_mans_switch() == old(self).spec_dead_mans_switch(),
    {
        let lo = self.pool_size - to_remove;
        let hi = self.pool_size;
        let ghost before = self.pool@;
        let ghost range = Seq::new((hi - lo) as nat, |i: int| (lo + i) as WorkerId);
        let mut stopped: Vec<WorkerProperties<TMsg>> = Vec::new();
        let mut wid = lo;
        while wid < hi
            invariant
                lo <= wid <= hi,
                before == old(self).pool@,
                range == Seq::new((hi - lo) as nat, |i: int| (lo + i) as WorkerId),
                forall|w: WorkerId| #[trigger]
                    self.pool@.contains_key(w) == (before.contains_key(w)
                        && !spec_free_between(before, lo as int, wid as int, w)),
                forall|w: WorkerId| #[trigger]
                    self.pool@.contains_key(w) ==> if lo <= w < wid {
                        spec_set_draining(before[w], self.pool@[w], true)
                    } else {
                        self.pool@[w] == before[w]
                    },
                stopped@ == range.take(wid - lo).filter(
                    |w: WorkerId| spec_free_between(before, lo as int, hi as int, w),
                ).map_values(|w: WorkerId| before[w]),
                self.queue == old(self).queue,
                self.pool_size == old(self).pool_size,
                self.router == old(self).router,
                self.drain_state == old(self).drain_state,
                self.discard_settings == old(self).discard_settings,
                self.dead_mans_switch == old(self).dead_mans_switch,
            decreases hi - wid,
        {
            proof {
                assert(range.take(wid + 1 - lo).drop_last() =~= range.take(wid - lo));
                assert(range.take(wid + 1 - lo).last() == wid);
            }
            match self.pool.remove(&wid) {
                Some(mut worker) => {
                    if worker.is_working() {
                        // the worker drains its work first
                        worker.set_draining(true);
                        self.pool.insert(wid, worker);
                    } else {
                        // drained: it leaves the pool, to be stopped
                        stopped.push(worker);
                    }
                },
                None => {},
            }
            proof {
                reveal(Seq::filter);
                let t = range.take(wid + 1 - lo);
                assert(t.filter(|w: WorkerId| spec_free_between(before, lo as int, hi as int, w))
                    == if spec_free_between(before, lo as int, hi as int, wid) {
                    t.drop_last().filter(
                        |w: WorkerId| spec_free_between(before, lo as int, hi as int, w),
                    ).push(wid)
                } else {
                    t.drop_last().filter(
                        |w: WorkerId| spec_free_between(before, lo as int, hi as int, w),
                    )
                });
                assert(stopped@ =~= t.filter(
                    |w: WorkerId| spec_free_between(before, lo as int, hi as int, w),
                ).map_values(|w: WorkerId| before[w]));
            }
            wid = wid + 1;
        }
        proof {
            assert(range.take(hi - lo) =~= range);
        }
        stopped
    }
}

/// The number of free workers of the pool
pub open spec fn spec_free_count<TMsg>(pool: Map<WorkerId, WorkerProperties<TMsg>>) -> nat {
    pool.dom().filter(|w: WorkerId| pool[w].spec_curr_jobs().is_empty()).len()
}

/// Counting the members of a listing without repeats which satisfy `p` counts
/// the set of the listing's members which satisfy `p`
proof fn lemma_filter_count<A>(s: Seq<A>, p: spec_fn(A) -> bool)
    requires
        s.no_duplicates(),
    ensures
        s.filter(p).len() == s.to_set().filter(p).len(),
        s.to_set().filter(p).finite(),
    decreases s.len(),
{
    reveal(Seq::filter);
    if s.len() == 0 {
        assert(s.to_set().filter(p) =~= Set::empty());
    } else {
        let t = s.drop_last();
        let x = s.last();
        assert(t.no_duplicates()) by {
            assert forall|i: int, j: int| 0 <= i < t.len() && 0 <= j < t.len() && i != j implies t[i]
                != t[j] by {
                assert(s[i] != s[j]);
            }
        }
        lemma_filter_count(t, p);
        assert(!t.to_set().contains(x)) by {
            if t.to_set().contains(x) {
                let i = choose|i: int| 0 <= i < t.len() && t[i] == x;
                assert(s[i] == s[s.len() - 1]);
            }
        }
        assert(s.to_set() =~= t.to_set().insert(x)) by {
            assert forall|y: A| s.to_set().contains(y) implies t.to_set().insert(x).contains(y) by {
                let i = choose|i: int| 0 <= i < s.len() && s[i] == y;
                if i < s.len() - 1 {
                    assert(t[i] == y);
                }
            }
            assert forall|y: A| t.to_set().insert(x).contains(y) implies s.to_set().contains(y) by {
                if y == x {
                    assert(s[s.len() - 1] == y);
                } else {
                    let i = choose|i: int| 0 <= i < t.len() && t[i] == y;
                    assert(s[i] == y);
                }
            }
        }
        if p(x) {
            assert(s.to_set().filter(p) =~= t.to_set().filter(p).insert(x));
        } else {
            assert(s.to_set().filter(p) =~= t.to_set().filter(p));
        }
    }
}

/// Whether every worker of the pool is free
pub open spec fn spec_all_free<TMsg>(pool: Map<WorkerId, WorkerProperties<TMsg>>) -> bool {
    forall|w: WorkerId| #[trigger] pool.contains_key(w) ==> pool[w].spec_curr_jobs().is_empty()
}

/// Whether worker `w` answered no ping for more than `timeout` at `now`
pub open spec fn spec_stuck<TMsg>(w: WorkerProperties<TMsg>, timeout: u64, now: u64) -> bool {
    now >= w.spec_last_ping() && now - w.spec_last_ping() > timeout
}

/// Whether `after` is `before` once a ping went out (or was outstanding)
pub open spec fn spec_pinged<TMsg>(before: WorkerProperties<TMsg>, after: WorkerProperties<TMsg>) -> bool {
    &&& after.spec_ping_pending()
    &&& after.spec_queue() == before.spec_queue()
    &&& after.spec_curr_jobs() == before.spec_curr_jobs()
    &&& after.spec_last_ping() == before.spec_last_ping()
    &&& after.spec_discard_settings() == before.spec_discard_settings()
}

impl<TMsg, TRouter: Router<TMsg>, TQueue: Queue<TMsg>> FactoryState<TMsg, TRouter, TQueue> {
    /// Resize the active pool to `requested_pool_size` workers, at most
    /// `GLOBAL_WORKER_POOL_MAXIMUM` (a request for none is ignored). Growing
    /// reactivates draining workers and gives the identifiers of the workers
    /// to spawn; shrinking gives the workers to stop (see `spec_grown` and
    /// `spec_shrunk`).
    pub fn resize_pool(&mut self, requested_pool_size: usize) -> (r: (
        Vec<WorkerId>,
        Vec<WorkerProperties<TMsg>>,
    ))
        requires
            old(self).wf(),
        ensures
            final(self).wf(),
            final(self).spec_queue() == old(self).spec_queue(),
            final(self).spec_router() == old(self).spec_router(),
            final(self).spec_drain_state() == old(self).spec_drain_state(),
            final(self).spec_limit_and_mode() == old(self).spec_limit_and_mode(),
            final(self).spec_dead_mans_switch() == old(self).spec_dead_mans_switch(),
            spec_resize_post(*old(self), *final(self), requested_pool_size, r.0@, r.1@),
    {
        if requested_pool_size == 0 {
            return (Vec::new(), Vec::new());
        }
        let curr_size = self.pool_size;
        let new_pool_size = if requested_pool_size <= GLOBAL_WORKER_POOL_MAXIMUM {
            requested_pool_size
        } else {
            GLOBAL_WORKER_POOL_MAXIMUM
        };
        let mut spawn: Vec<WorkerId> = Vec::new();
        let mut stopped: Vec<WorkerProperties<TMsg>> = Vec::new();
        if new_pool_size > curr_size {
            spawn = self.grow_pool(new_pool_size - curr_size);
        } else if new_pool_size < curr_size {
            stopped = self.shrink_pool(curr_size - new_pool_size);
        }
        self.pool_size = new_pool_size;
        (spawn, stopped)
    }

    /// Worker `who` finished the job with `key` at instant `now` (see
    /// `WorkerProperties::worker_complete`). A draining worker is given no more
    /// work: once it has none, it leaves the pool and is given back to be
    /// stopped. Any other worker is offered the next queued job (see
    /// `spec_routed_next`). An unknown worker changes nothing.
    pub fn worker_finished_job(&mut self, who: WorkerId, key: u64, now: u64) -> (r: Result<
        Option<WorkerProperties<TMsg>>,
        MessagingErr<()>,
    >)
        requires
            old(self).wf(),
            old(self).spec_router().accepts_route(old(self).spec_pool_size(), None),
        ensures
            final(self).wf(),
            final(self).spec_pool_size() == old(self).spec_pool_size(),
            final(self).spec_drain_state() == old(self).spec_drain_state(),
            final(self).spec_limit_and_mode() == old(self).spec_limit_and_mode(),
            final(self).spec_dead_mans_switch() == old(self).spec_dead_mans_switch(),
            spec_finish_post(*old(self), *final(self), who, key, now, r),
    {
        let mut worker = match self.pool.remove(&who) {
            Some(w) => w,
            None => {
                assert(self.pool@ =~= old(self).pool@);
                return Ok(None);
            },
        };
        let completed = worker.worker_complete(key, now);
        let ghost done = worker;
        match completed {
            Ok(Some(options)) => {
                self.stats.job_completed(self.factory_name.as_str(), &options);
            },
            Ok(None) => {},
            Err(e) => {
                self.pool.insert(who, worker);
                assert(self.pool@ =~= old(self).pool@.insert(who, done));
                return Err(e.discard_message());
            },
        }
        if worker.draining() {
            // a draining worker gets no more work
            if !worker.is_working() {
                assert(self.pool@ =~= old(self).pool@.remove(who));
                return Ok(Some(worker));
            }
            self.pool.insert(who, worker);
            assert(self.pool@ =~= old(self).pool@.insert(who, done));
            Ok(None)
        } else {
            self.pool.insert(who, worker);
            proof {
                assert(self.pool@ =~= old(self).pool@.insert(who, done));
            }
            match self.try_route_next_active_job(who, now) {
                Ok(()) => Ok(None),
                Err(e) => Err(e),
            }
        }
    }

    /// A worker answered a ping after `time`: it is handed the factory's
    /// current discard limit (0 without one)
    pub fn worker_pong(&mut self, wid: WorkerId, time: u64)
        requires
            old(self).wf(),
        ensures
            final(self).wf(),
            final(self).spec_queue() == old(self).spec_queue(),
            final(self).spec_pool_size() == old(self).spec_pool_size(),
            final(self).spec_drain_state() == old(self).spec_drain_state(),
            final(self).spec_router() == old(self).spec_router(),
            final(self).spec_limit_and_mode() == old(self).spec_limit_and_mode(),
            final(self).spec_dead_mans_switch() == old(self).spec_dead_mans_switch(),
            spec_pong_post(*old(self), *final(self), wid),
    {
        let discard_limit = match self.discard_settings.get_limit_and_mode() {
            Some((limit, _)) => limit,
            None => 0,
        };
        if let Some(mut worker) = self.pool.remove(&wid) {
            worker.ping_received(time, discard_limit);
            self.pool.insert(wid, worker);
            assert(self.pool@ =~= old(self).pool@.insert(wid, worker));
        }
        proof {
            if !old(self).pool@.contains_key(wid) {
                assert(self.pool@ =~= old(self).pool@);
            }
        }
    }

    /// Whether every request is drained: while draining, once every worker is
    /// free and the queue is empty, the factory becomes drained (and stays so)
    pub fn is_drained(&mut self) -> (r: bool)
        requires
            old(self).wf(),
        ensures
            final(self).wf(),
            final(self).spec_pool() == old(self).spec_pool(),
            final(self).spec_queue() == old(self).spec_queue(),
            final(self).spec_queue_state() == old(self).spec_queue_state(),
            final(self).spec_pool_size() == old(self).spec_pool_size(),
            final(self).spec_router() == old(self).spec_router(),
            final(self).spec_limit_and_mode() == old(self).spec_limit_and_mode(),
            final(self).spec_dead_mans_switch() == old(self).spec_dead_mans_switch(),
            r == (old(self).spec_drain_state() == DrainState::Drained || (old(
                self,
            ).spec_drain_state() == DrainState::Draining && old(self).spec_queue().len() == 0
                && spec_all_free(old(self).spec_pool()))),
            final(self).spec_drain_state() == if r {
                DrainState::Drained
            } else {
                old(self).spec_drain_state()
            },
    {
        match self.drain_state {
            DrainState::NotDraining => false,
            DrainState::Drained => true,
            DrainState::Draining => {
                let ids = pool_ids(&self.pool);
                let mut all_free = true;
                let mut i: usize = 0;
                while i < ids.len()
                    invariant
                        0 <= i <= ids.len(),
                        ids@.to_set() == self.pool@.dom(),
                        all_free == forall|j: int|
                            0 <= j < i ==> self.pool@[#[trigger] ids@[j]].spec_curr_jobs().is_empty(),
                    decreases ids.len() - i,
                {
                    proof {
                        assert(ids@.to_set().contains(ids@[i as int]));
                    }
                    let free = match self.pool.get(&ids[i]) {
                        Some(worker) => worker.is_available(),
                        None => true,
                    };
                    all_free = all_free && free;
                    i = i + 1;
                }
                proof {
                    assert(all_free == spec_all_free(self.pool@)) by {
                        if all_free {
                            assert forall|w: WorkerId| #[trigger]
                                self.pool@.contains_key(w) implies self.pool@[w].spec_curr_jobs().is_empty() by {
                                assert(ids@.to_set().contains(w));
                                let j = choose|j: int| 0 <= j < ids@.len() && ids@[j] == w;
                                assert(self.pool@[ids@[j]].spec_curr_jobs().is_empty());
                            }
                        } else {
                            let j = choose|j: int|
                                0 <= j < ids@.len() && !self.pool@[#[trigger] ids@[j]].spec_curr_jobs().is_empty();
                            assert(ids@.to_set().contains(ids@[j]));
                        }
                    }
                }
                if all_free && self.queue.len() == 0 {
                    // every worker is free, every request drained
                    self.drain_state = DrainState::Drained;
                    true
                } else {
                    false
                }
            },
        }
    }

    /// The number of free workers
    pub fn free_workers(&self) -> (r: usize)
        ensures
            r == spec_free_count(self.spec_pool()),
    {
        let ids = pool_ids(&self.pool);
        let ghost free = |w: WorkerId| self.pool@[w].spec_curr_jobs().is_empty();
        let mut count: usize = 0;
        let mut i: usize = 0;
        while i < ids.len()
            invariant
                0 <= i <= ids.len(),
                ids@.to_set() == self.pool@.dom(),
                free == (|w: WorkerId| self.pool@[w].spec_curr_jobs().is_empty()),
                count == ids@.take(i as int).filter(free).len(),
                count <= i,
            decreases ids.len() - i,
        {
            proof {
                reveal(Seq::filter);
                assert(ids@.take(i + 1).drop_last() =~= ids@.take(i as int));
                assert(ids@.to_set().contains(ids@[i as int]));
            }
            let is_free = match self.pool.get(&ids[i]) {
                Some(worker) => worker.is_available(),
                None => false,
            };
            if is_free {
                count = count + 1;
            }
            i = i + 1;
        }
        proof {
            assert(ids@.take(ids@.len() as int) =~= ids@);
            lemma_filter_count(ids@, free);
        }
        count
    }

    /// The capacity to take jobs: the free workers, plus the room left in the
    /// factory's queue under its discard limit (none when the queue is at or
    /// over the limit; with no limit, only the free workers), at most
    /// `usize::MAX`
    pub open spec fn spec_available_capacity(self) -> int {
        let room: int = match self.spec_limit_and_mode() {
            Some((limit, _)) => if self.spec_queue().len() <= limit {
                limit - self.spec_queue().len()
            } else {
                0
            },
            None => 0,
        };
        let total = room + spec_free_count(self.spec_pool());
        if total <= usize::MAX {
            total
        } else {
            usize::MAX as int
        }
    }

    /// The capacity to take jobs (see `spec_available_capacity`)
    pub fn available_capacity(&self) -> (r: usize)
        requires
            self.wf(),
        ensures
            r == self.spec_available_capacity(),
    {
        let free = self.free_workers();
        match self.discard_settings.get_limit_and_mode() {
            Some((limit, _)) => limit.saturating_sub(self.queue.len()).saturating_add(free),
            None => free,
        }
    }

    /// Whether the router can route a job with the pool's size and no hint
    pub fn can_route(&self) -> (r: bool)
        ensures
            r == self.spec_router().accepts_route(self.spec_pool_size(), None),
    {
        self.router.can_route(self.pool_size, None)
    }

    /// The number of workers the pool is meant to have
    pub fn pool_size(&self) -> (r: usize)
        ensures
            r == self.spec_pool_size(),
    {
        self.pool_size
    }

    /// The discard limit and mode, if discarding is configured
    pub fn limit_and_mode(&self) -> (r: Option<(usize, DiscardMode)>)
        ensures
            r == self.spec_limit_and_mode(),
    {
        self.discard_settings.get_limit_and_mode()
    }

    /// The number of jobs in the factory's queue
    pub fn queue_depth(&self) -> (r: usize)
        requires
            self.wf(),
        ensures
            r == self.spec_queue().len(),
    {
        self.queue.len()
    }

    /// Start draining: new jobs are discarded, queued ones are finished
    pub fn drain_requests(&mut self)
        ensures
            final(self).spec_drain_state() == DrainState::Draining,
            final(self).spec_pool() == old(self).spec_pool(),
            final(self).spec_queue() == old(self).spec_queue(),
            final(self).spec_pool_size() == old(self).spec_pool_size(),
            final(self).spec_router() == old(self).spec_router(),
            final(self).spec_limit_and_mode() == old(self).spec_limit_and_mode(),
            final(self).spec_dead_mans_switch() == old(self).spec_dead_mans_switch(),
            old(self).wf() ==> final(self).wf(),
    {
        self.drain_state = DrainState::Draining;
    }

    /// The workers to kill at instant `now`: with a dead man's switch set to
    /// kill, those which answered no ping for longer than its timeout; none
    /// otherwise
    pub fn identify_stuck_workers(&self, now: u64) -> (r: Vec<WorkerId>)
        ensures
            r@.no_duplicates(),
            match self.spec_dead_mans_switch() {
                Some(dmd) => if dmd.kill_worker {
                    forall|w: WorkerId|
                        #![trigger r@.contains(w)]
                        r@.contains(w) == (self.spec_pool().contains_key(w) && spec_stuck(
                            self.spec_pool()[w],
                            dmd.detection_timeout,
                            now,
                        ))
                } else {
                    r@.len() == 0
                },
                None => r@.len() == 0,
            },
    {
        let mut stuck: Vec<WorkerId> = Vec::new();
        if let Some(dmd) = self.dead_mans_switch {
            if dmd.kill_worker {
                let ids = pool_ids(&self.pool);
                let mut i: usize = 0;
                while i < ids.len()
                    invariant
                        0 <= i <= ids.len(),
                        ids@.no_duplicates(),
                        ids@.to_set() == self.pool@.dom(),
                        self.dead_mans_switch == Some(dmd),
                        stuck@.no_duplicates(),
                        forall|w: WorkerId|
                            #![trigger stuck@.contains(w)]
                            stuck@.contains(w) == (ids@.take(i as int).contains(w) && spec_stuck(
                                self.pool@[w],
                                dmd.detection_timeout,
                                now,
                            )),
                    decreases ids.len() - i,
                {
                    let wid = ids[i];
                    proof {
                        assert(ids@.to_set().contains(wid));
                        let next = ids@.take(i + 1);
                        let prev = ids@.take(i as int);
                        assert forall|w: WorkerId| #[trigger]
                            next.contains(w) == (prev.contains(w) || w == wid) by {
                            if next.contains(w) {
                                let j = choose|j: int| 0 <= j < next.len() && next[j] == w;
                                if j < i {
                                    assert(prev[j] == w);
                                }
                            }
                            if prev.contains(w) {
                                let j = choose|j: int| 0 <= j < prev.len() && prev[j] == w;
                                assert(next[j] == w);
                            }
                            if w == wid {
                                assert(next[i as int] == w);
                            }
                        }
                        assert(!prev.contains(wid)) by {
                            if prev.contains(wid) {
                                let j = choose|j: int| 0 <= j < prev.len() && prev[j] == wid;
                                assert(ids@[j] == ids@[i as int]);
                            }
                        }
                    }
                    let is_stuck = match self.pool.get(&wid) {
                        Some(worker) => worker.is_stuck(dmd.detection_timeout, now),
                        None => false,
                    };
                    if is_stuck {
                        let ghost before = stuck@;
                        stuck.push(wid);
                        proof {
                            assert(!before.contains(wid));
                            assert forall|a: int, b: int|
                                0 <= a < stuck@.len() && 0 <= b < stuck@.len() && a != b implies stuck@[a]
                                != stuck@[b] by {
                                if a == before.len() {
                                    assert(before[b] == stuck@[b]);
                                    assert(before.contains(before[b]));
                                } else if b == before.len() {
                                    assert(before[a] == stuck@[a]);
                                    assert(before.contains(before[a]));
                                } else {
                                    assert(before[a] == stuck@[a]);
                                    assert(before[b] == stuck@[b]);
                                }
                            }
                            assert forall|w: WorkerId| #[trigger] stuck@.contains(w) == (before.contains(w) || w == wid) by {
                                if stuck@.contains(w) {
                                    let j = choose|j: int| 0 <= j < stuck@.len() && stuck@[j] == w;
                                    if j < before.len() {
                                        assert(before[j] == w);
                                    }
                                }
                                if before.contains(w) {
                                    let j = choose|j: int| 0 <= j < before.len() && before[j] == w;
                                    assert(stuck@[j] == w);
                                }
                                if w == wid {
                                    assert(stuck@[before.len() as int] == w);
                                }
                            }
                        }
                    }
                    i = i + 1;
                }
                proof {
                    assert(ids@.take(ids@.len() as int) =~= ids@);
                    assert forall|w: WorkerId| #![trigger stuck@.contains(w)] stuck@.contains(w) == (self.pool@.contains_key(w) && spec_stuck(
                        self.pool@[w],
                        dmd.detection_timeout,
                        now,
                    )) by {
                        assert(ids@.contains(w) == ids@.to_set().contains(w));
                    }
                }
            }
        }
        stuck
    }

    /// The worker whose actor has the identifier `who`, if any
    pub fn find_worker_by_pid(&self, who: ActorId) -> (r: Option<WorkerId>)
        ensures
            r matches Some(w) ==> self.spec_pool().contains_key(w) && self.spec_pool()[w].spec_actor_id()
                == who,
            r is None ==> forall|w: WorkerId| #[trigger]
                self.spec_pool().contains_key(w) ==> self.spec_pool()[w].spec_actor_id() != who,
    {
        let ids = pool_ids(&self.pool);
        let mut i: usize = 0;
        while i < ids.len()
            invariant
                0 <= i <= ids.len(),
                ids@.to_set() == self.pool@.dom(),
                forall|j: int|
                    0 <= j < i ==> self.pool@[#[trigger] ids@[j]].spec_actor_id() != who,
            decreases ids.len() - i,
        {
            proof {
                assert(ids@.to_set().contains(ids@[i as int]));
            }
            let matched = match self.pool.get(&ids[i]) {
                Some(worker) => worker.is_pid(who),
                None => false,
            };
            if matched {
                return Some(ids[i]);
            }
            i = i + 1;
        }
        proof {
            assert forall|w: WorkerId| #[trigger]
                self.pool@.contains_key(w) implies self.pool@[w].spec_actor_id() != who by {
                assert(ids@.to_set().contains(w));
                let j = choose|j: int| 0 <= j < ids@.len() && ids@[j] == w;
                assert(self.pool@[ids@[j]].spec_actor_id() != who);
            }
        }
        None
    }
}

/// Whether the discard mode is kept from `before` to `after` (a limit may
/// change)
pub open spec fn spec_same_mode(
    before: Option<(usize, DiscardMode)>,
    after: Option<(usize, DiscardMode)>,
) -> bool {
    match before {
        Some((_, mode)) => after matches Some((_, m)) && m == mode,
        None => after is None,
    }
}

impl<TMsg, TRouter: Router<TMsg>, TQueue: Queue<TMsg>> FactoryState<TMsg, TRouter, TQueue> {
    /// Whether a discard handler is set
    pub closed spec fn spec_has_discard_handler(&self) -> bool {
        self.discard_handler is Some
    }

    /// Ping every worker at instant `now` (a worker with a ping outstanding is
    /// not pinged again); a dynamic discard limit is recomputed first. A
    /// failure to ping a worker stops the round with its error.
    pub fn send_pings(&mut self, now: u64) -> (r: Result<(), MessagingErr<()>>)
        requires
            old(self).wf(),
        ensures
            final(self).wf(),
            final(self).spec_queue() == old(self).spec_queue(),
            final(self).spec_pool_size() == old(self).spec_pool_size(),
            final(self).spec_router() == old(self).spec_router(),
            final(self).spec_drain_state() == old(self).spec_drain_state(),
            final(self).spec_dead_mans_switch() == old(self).spec_dead_mans_switch(),
            spec_pings_post(*old(self), *final(self), r is Ok),
    {
        self.stats.factory_ping_received(self.factory_name.as_str(), now);
        // a dynamic discard limit is recomputed
        self.discard_settings.update_dynamic_limit();
        let ids = pool_ids(&self.pool);
        let ghost before = self.pool@;
        let mut i: usize = 0;
        while i < ids.len()
            invariant
                0 <= i <= ids.len(),
                old(self).wf(),
                before == old(self).pool@,
                ids@.no_duplicates(),
                ids@.to_set() == before.dom(),
                self.pool@.dom() == before.dom(),
                forall|w: WorkerId| #[trigger]
                    before.contains_key(w) ==> if ids@.take(i as int).contains(w) {
                        spec_pinged(before[w], self.pool@[w])
                    } else {
                        self.pool@[w] == before[w]
                    },
                self.queue == old(self).queue,
                self.pool_size == old(self).pool_size,
                self.router == old(self).router,
                self.drain_state == old(self).drain_state,
                self.dead_mans_switch == old(self).dead_mans_switch,
                spec_same_mode(
                    old(self).discard_settings.spec_limit_and_mode(),
                    self.discard_settings.spec_limit_and_mode(),
                ),
            decreases ids.len() - i,
        {
            let wid = ids[i];
            let ghost next = ids@.take(i + 1);
            let ghost prev = ids@.take(i as int);
            proof {
                assert(ids@.to_set().contains(wid));
                assert forall|w: WorkerId| #[trigger]
                    next.contains(w) == (prev.contains(w) || w == wid) by {
                    if next.contains(w) {
                        let j = choose|j: int| 0 <= j < next.len() && next[j] == w;
                        if j < i {
                            assert(prev[j] == w);
                        }
                    }
                    if prev.contains(w) {
                        let j = choose|j: int| 0 <= j < prev.len() && prev[j] == w;
                        assert(next[j] == w);
                    }
                    if w == wid {
                        assert(next[i as int] == w);
                    }
                }
                assert(!prev.contains(wid)) by {
                    if prev.contains(wid) {
                        let j = choose|j: int| 0 <= j < prev.len() && prev[j] == wid;
                        assert(ids@[j] == ids@[i as int]);
                    }
                }
            }
            let mut worker = self.pool.remove(&wid).unwrap();
            let ghost unpinged = worker;
            let pinged = worker.send_factory_ping(now);
            self.pool.insert(wid, worker);
            proof {
                assert(self.pool@.dom() =~= before.dom());
            }
            if let Err(e) = pinged {
                proof {
                    assert(unpinged == before[wid]);
                    assert(before.contains_key(wid) && !before[wid].spec_ping_pending());
                }
                return Err(e.discard_message());
            }
            i = i + 1;
        }
        proof {
            assert(ids@.take(ids@.len() as int) =~= ids@);
            assert forall|w: WorkerId| #[trigger]
                before.contains_key(w) implies ids@.contains(w) by {
                assert(ids@.to_set().contains(w));
            }
        }
        Ok(())
    }

    /// Worker `wid`'s actor died and `nworker` replaced it, at instant `now`:
    /// the worker's bookkeeping is reset (see `spec_replaced`), then the next
    /// queued job is routed, to the worker if it is free (see
    /// `spec_routed_next`)
    pub fn worker_replaced(
        &mut self,
        wid: WorkerId,
        nworker: ActorRef<WorkerMessage<TMsg>>,
        now: u64,
    ) -> (r: Result<(), MessagingErr<()>>)
        requires
            old(self).wf(),
            old(self).spec_pool().contains_key(wid),
            old(self).spec_router().accepts_route(old(self).spec_pool_size(), None),
        ensures
            final(self).wf(),
            final(self).spec_pool_size() == old(self).spec_pool_size(),
            final(self).spec_drain_state() == old(self).spec_drain_state(),
            final(self).spec_limit_and_mode() == old(self).spec_limit_and_mode(),
            final(self).spec_dead_mans_switch() == old(self).spec_dead_mans_switch(),
            exists|fresh: WorkerProperties<TMsg>|
                #[trigger] spec_replaced(old(self).spec_pool()[wid], fresh, nworker.spec_id(), now)
                    && {
                    ||| r is Err && final(self).spec_pool() == old(self).spec_pool().insert(wid, fresh)
                        && final(self).spec_queue() == old(self).spec_queue()
                    ||| spec_routed_next(
                        old(self).spec_pool().insert(wid, fresh),
                        final(self).spec_pool(),
                        old(self).spec_queue(),
                        final(self).spec_queue(),
                        wid,
                        now,
                        r,
                    )
                },
    {
        let ghost new_id = nworker.spec_id();
        let mut worker = self.pool.remove(&wid).unwrap();
        let replaced = worker.replace_worker(nworker, now);
        let ghost fresh = worker;
        self.pool.insert(wid, worker);
        proof {
            assert(spec_replaced(old(self).spec_pool()[wid], fresh, new_id, now));
            assert(self.pool@ =~= old(self).pool@.insert(wid, fresh));
        }
        if let Err(e) = replaced {
            return Err(e.discard_message());
        }
        self.try_route_next_active_job(wid, now)
    }

    /// The pool size to resize to when the capacity controller asks for
    /// `requested` workers: none when it asks for 0 (the request is ignored) or
    /// for the current size
    pub fn capacity_target(&self, requested: usize) -> (r: Option<usize>)
        ensures
            r == if requested == 0 || requested == self.spec_pool_size() {
                None::<usize>
            } else {
                Some(requested)
            },
    {
        if requested == 0 || requested == self.pool_size {
            None
        } else {
            Some(requested)
        }
    }

    /// Drop the jobs of the factory's queue which expired at instant `now`,
    /// when the factory does the queueing; the number dropped
    pub fn remove_expired_jobs(&mut self, now: u64) -> (r: Vec<Job<TMsg>>)
        requires
            old(self).wf(),
        ensures
            final(self).wf(),
            final(self).spec_pool_size() == old(self).spec_pool_size(),
            final(self).spec_router() == old(self).spec_router(),
            final(self).spec_drain_state() == old(self).spec_drain_state(),
            final(self).spec_limit_and_mode() == old(self).spec_limit_and_mode(),
            final(self).spec_dead_mans_switch() == old(self).spec_dead_mans_switch(),
            spec_expired_post(*old(self), *final(self), now, r@),
    {
        if self.router.is_factory_queueing() {
            let removed = self.queue.remove_expired_items(now);
            self.stats.job_ttl_expired(self.factory_name.as_str(), removed.len());
            removed
        } else {
            Vec::new()
        }
    }

    /// On shutdown, hand every queued job to the discard handler, if one is
    /// set (the queue is then empty)
    pub fn discard_queued(&mut self)
        requires
            old(self).wf(),
        ensures
            final(self).wf(),
            final(self).spec_pool() == old(self).spec_pool(),
            final(self).spec_pool_size() == old(self).spec_pool_size(),
            final(self).spec_router() == old(self).spec_router(),
            final(self).spec_drain_state() == old(self).spec_drain_state(),
            old(self).spec_has_discard_handler() ==> final(self).spec_queue().len() == 0,
            !old(self).spec_has_discard_handler() ==> final(self).spec_queue() == old(self).spec_queue(),
    {
        if let Some(handler) = &self.discard_handler {
            loop
                invariant
                    self.queue.spec_wf(),
                        self.queue.spec_takes_jobs(),
                    self.pool@ == old(self).pool@,
                    self.pool_size == old(self).pool_size,
                    self.router == old(self).router,
                    self.drain_state == old(self).drain_state,
                ensures
                    self.queue.spec_wf(),
                        self.queue.spec_takes_jobs(),
                    self.queue.spec_items().len() == 0,
                    self.pool@ == old(self).pool@,
                    self.pool_size == old(self).pool_size,
                    self.router == old(self).router,
                    self.drain_state == old(self).drain_state,
                decreases self.queue.spec_items().len(),
            {
                match self.queue.pop_front() {
                    Some(mut job) => {
                        handler.discard(DiscardReason::Shutdown, &mut job);
                    },
                    None => {
                        break;
                    },
                }
            }
        }
    }

    /// The identifiers of the workers of the pool, each once
    pub fn worker_ids(&self) -> (r: Vec<WorkerId>)
        ensures
            r@.no_duplicates(),
            r@.to_set() == self.spec_pool().dom(),
    {
        pool_ids(&self.pool)
    }

    /// The number of workers processing a job
    pub fn num_active_workers(&self) -> (r: usize)
        ensures
            r == self.spec_pool().dom().len() - spec_free_count(self.spec_pool()),
    {
        let ids = pool_ids(&self.pool);
        let free = self.free_workers();
        proof {
            ids@.unique_seq_to_set();
            let p = |w: WorkerId| self.pool@[w].spec_curr_jobs().is_empty();
            vstd::set_lib::lemma_len_subset(self.pool@.dom().filter(p), self.pool@.dom());
        }
        ids.len() - free
    }
}

/// What the host does after the factory handled a message: spawn workers
/// under the given identifiers, stop the given workers' actors, kill the given
/// workers' actors (stuck), and stop the factory (drained).
#[verifier::reject_recursive_types(TMsg)]
pub struct FactoryEffects<TMsg> {
    /// Identifiers of the workers to spawn, in order
    pub spawn: Vec<WorkerId>,
    /// Workers which left the pool, whose actors are to be stopped
    pub stop: Vec<WorkerProperties<TMsg>>,
    /// Identifiers of the stuck workers whose actors are to be killed
    pub kill: Vec<WorkerId>,
    /// Whether the factory is drained and stops
    pub stop_factory: bool,
    /// The reply to a query (queue depth, capacity, active workers), and the
    /// port to send it over
    pub reply: Option<(RpcReplyPort<usize>, usize)>,
    /// The jobs turned away, each with the reason to give the discard handler
    /// (if any) before it is handed back to its submitter
    pub discarded: Vec<(DiscardReason, Job<TMsg>)>,
}

/// The factory: a pool of workers fed with jobs by a router, with a queue of
/// its own and load-shedding
pub struct Factory {}

impl Factory {
    /// Set up a factory: its state (no worker yet, `num_initial_workers`
    /// active), and the identifiers of the workers to spawn, `0` up to
    /// `num_initial_workers`
    pub fn pre_start<TMsg, TRouter: Router<TMsg>, TQueue: Queue<TMsg>>(
        factory_name: String,
        num_initial_workers: usize,
        router: TRouter,
        queue: TQueue,
        discard_handler: Option<Arc<dyn DiscardHandler<TMsg>>>,
        discard_settings: DiscardSettings,
        dead_mans_switch: Option<DeadMansSwitchConfiguration>,
        stats: Option<Arc<dyn FactoryStatsLayer>>,
    ) -> (r: (FactoryState<TMsg, TRouter, TQueue>, Vec<WorkerId>))
        requires
            router.router_wf(),
            queue.spec_wf(),
            queue.spec_takes_jobs(),
        ensures
            r.0.wf(),
            r.0.spec_pool_size() == num_initial_workers,
            r.0.spec_pool() == Map::<WorkerId, WorkerProperties<TMsg>>::empty(),
            r.0.spec_queue() == queue.spec_items(),
            r.0.spec_router() == router,
            r.0.spec_drain_state() == DrainState::NotDraining,
            r.0.spec_limit_and_mode() == discard_settings.spec_limit_and_mode(),
            r.0.spec_dead_mans_switch() == dead_mans_switch,
            r.1@ == Seq::new(num_initial_workers as nat, |i: int| i as WorkerId),
    {
        let state = FactoryState::new(
            factory_name,
            num_initial_workers,
            router,
            queue,
            discard_handler,
            discard_settings,
            dead_mans_switch,
            stats,
        );
        let mut spawn: Vec<WorkerId> = Vec::new();
        let mut wid: usize = 0;
        while wid < num_initial_workers
            invariant
                wid <= num_initial_workers,
                spawn@ == Seq::new(wid as nat, |i: int| i as WorkerId),
            decreases num_initial_workers - wid,
        {
            spawn.push(wid);
            wid = wid + 1;
            proof {
                assert(spawn@ =~= Seq::new(wid as nat, |i: int| i as WorkerId));
            }
        }
        (state, spawn)
    }

    /// A worker's actor terminated or failed: the worker whose actor has the
    /// identifier `who`, if any, is the one whose actor is to be respawned
    /// (then see `FactoryState::worker_replaced`)
    pub fn handle_supervisor_evt<TMsg, TRouter: Router<TMsg>, TQueue: Queue<TMsg>>(
        state: &FactoryState<TMsg, TRouter, TQueue>,
        who: ActorId,
    ) -> (r: Option<WorkerId>)
        ensures
            r matches Some(w) ==> state.spec_pool().contains_key(w)
                && state.spec_pool()[w].spec_actor_id() == who,
            r is None ==> forall|w: WorkerId| #[trigger]
                state.spec_pool().contains_key(w) ==> state.spec_pool()[w].spec_actor_id() != who,
    {
        state.find_worker_by_pid(who)
    }

    /// Handle a message at instant `now`, and tell the host what to do: each
    /// message is handled by the state's method of that name (replies go over
    /// the message's port), and once the factory is drained it stops.
    pub fn handle<TMsg, TRouter: Router<TMsg>, TQueue: Queue<TMsg>>(
        state: &mut FactoryState<TMsg, TRouter, TQueue>,
        message: FactoryMessage<TMsg>,
        now: u64,
    ) -> (r: Result<FactoryEffects<TMsg>, MessagingErr<()>>)
        requires
            old(state).wf(),
            message is Dispatch || message is Finished ==> old(state).spec_router().accepts_route(
                old(state).spec_pool_size(),
                None,
            ),
            old(state).spec_queue().len() < usize::MAX,
        ensures
            final(state).wf(),
            r matches Ok(e) ==> e.stop_factory == (final(state).spec_drain_state()
                == DrainState::Drained),
            final(state).spec_dead_mans_switch() == old(state).spec_dead_mans_switch(),
            message is DrainRequests ==> final(state).spec_drain_state() != DrainState::NotDraining,
            r matches Ok(e) ==> e.reply == match message {
                FactoryMessage::GetQueueDepth(port) => Some((port, old(state).spec_queue().len() as usize)),
                FactoryMessage::GetAvailableCapacity(port) => Some(
                    (port, old(state).spec_available_capacity() as usize),
                ),
                FactoryMessage::GetNumActiveWorkers(port) => Some(
                    (port, (old(state).spec_pool().dom().len() - spec_free_count(old(state).spec_pool())) as usize),
                ),
                _ => None,
            },
            r matches Ok(e) ==> (message !is Dispatch && message !is Calculate ==> e.discarded@.len() == 0),
            message is GetQueueDepth || message is GetAvailableCapacity
                || message is GetNumActiveWorkers ==> r is Ok,
            message is GetQueueDepth || message is GetAvailableCapacity
                || message is GetNumActiveWorkers || message is DrainRequests ==> {
                &&& final(state).spec_pool() == old(state).spec_pool()
                &&& final(state).spec_queue() == old(state).spec_queue()
                &&& final(state).spec_pool_size() == old(state).spec_pool_size()
            },
            match message {
                FactoryMessage::Dispatch(job) => match r {
                    Ok(e) => {
                        &&& spec_dispatch_post(
                            *old(state),
                            *final(state),
                            job,
                            now,
                            true,
                            spec_discarded_jobs(e.discarded@),
                        )
                        &&& forall|i: int|
                            0 <= i < e.discarded@.len() ==> (#[trigger] e.discarded@[i]).0 == if old(
                                state,
                            ).spec_drain_state() == DrainState::NotDraining {
                                DiscardReason::Loadshed
                            } else {
                                DiscardReason::Shutdown
                            }
                        &&& e.spawn@.len() == 0 && e.stop@.len() == 0 && e.kill@.len() == 0
                    },
                    Err(_) => spec_dispatch_post(*old(state), *final(state), job, now, false, Seq::empty()),
                },
                FactoryMessage::Finished(who, key) => exists|
                    o: Result<Option<WorkerProperties<TMsg>>, MessagingErr<()>>,
                |
                    #[trigger] spec_finish_post(*old(state), *final(state), who, key, now, o) && (
                    r is Err <==> o is Err) && (r matches Ok(e) ==> e.stop@ == match o {
                        Ok(Some(w)) => seq![w],
                        _ => Seq::<WorkerProperties<TMsg>>::empty(),
                    }),
                FactoryMessage::WorkerPong(wid, _) => spec_pong_post(*old(state), *final(state), wid),
                FactoryMessage::Calculate => r matches Ok(e) && spec_expired_post(
                    *old(state),
                    *final(state),
                    now,
                    spec_discarded_jobs(e.discarded@),
                ) && forall|i: int|
                    0 <= i < e.discarded@.len() ==> (#[trigger] e.discarded@[i]).0
                        == DiscardReason::Loadshed,
                FactoryMessage::DoPings(_) => spec_pings_post(*old(state), *final(state), r is Ok),
                FactoryMessage::AdjustWorkerPool(n) => r matches Ok(e) && spec_resize_post(
                    *old(state),
                    *final(state),
                    n,
                    e.spawn@,
                    e.stop@,
                ),
                _ => true,
            },
            message is IdentifyStuckWorkers ==> (r matches Ok(e) && match old(
                state,
            ).spec_dead_mans_switch() {
                Some(dmd) => if dmd.kill_worker {
                    forall|w: WorkerId|
                        #![trigger e.kill@.contains(w)]
                        e.kill@.contains(w) == (old(state).spec_pool().contains_key(w)
                            && spec_stuck(old(state).spec_pool()[w], dmd.detection_timeout, now))
                } else {
                    e.kill@.len() == 0
                },
                None => e.kill@.len() == 0,
            }),
    {
        let mut effects = FactoryEffects {
            spawn: Vec::new(),
            stop: Vec::new(),
            kill: Vec::new(),
            stop_factory: false,
            reply: None,
            discarded: Vec::new(),
        };
        let ghost msg = message;
        let ghost mut finished_with: Result<Option<WorkerProperties<TMsg>>, MessagingErr<()>> = Ok(
            None,
        );
        let ghost mut removed: Seq<Job<TMsg>> = Seq::empty();
        let ghost mut turned_away: Seq<Job<TMsg>> = Seq::empty();
        match message {
            FactoryMessage::Dispatch(job) => {
                let reason = if state.drain_state == DrainState::NotDraining {
                    DiscardReason::Loadshed
                } else {
                    DiscardReason::Shutdown
                };
                let away = state.dispatch(job, now)?;
                proof {
                    turned_away = away@;
                }
                effects.discarded = with_reason(reason, away);
            },
            FactoryMessage::Finished(who, key) => {
                let finished = state.worker_finished_job(who, key, now);
                proof {
                    finished_with = finished;
                }
                match finished {
                    Ok(Some(worker)) => effects.stop.push(worker),
                    Ok(None) => {},
                    Err(e) => {
                        assert(spec_finish_post(*old(state), *state, who, key, now, finished_with));
                        return Err(e);
                    },
                }
            },
            FactoryMessage::WorkerPong(wid, time) => {
                state.worker_pong(wid, time);
            },
            FactoryMessage::Calculate => {
                let expired = state.remove_expired_jobs(now);
                proof {
                    removed = expired@;
                }
                effects.discarded = with_reason(DiscardReason::Loadshed, expired);
            },
            FactoryMessage::DoPings(_when) => {
                state.send_pings(now)?;
            },
            FactoryMessage::IdentifyStuckWorkers => {
                effects.kill = state.identify_stuck_workers(now);
            },
            FactoryMessage::GetQueueDepth(reply) => {
                effects.reply = Some((reply, state.queue_depth()));
            },
            FactoryMessage::AdjustWorkerPool(requested_pool_size) => {
                let (spawn, stop) = state.resize_pool(requested_pool_size);
                effects.spawn = spawn;
                effects.stop = stop;
            },
            FactoryMessage::GetAvailableCapacity(reply) => {
                effects.reply = Some((reply, state.available_capacity()));
            },
            FactoryMessage::GetNumActiveWorkers(reply) => {
                effects.reply = Some((reply, state.num_active_workers()));
            },
            FactoryMessage::DrainRequests => {
                state.drain_requests();
            },
        }
        // a drained factory stops
        let ghost handled = *state;
        effects.stop_factory = state.is_drained();
        proof {
            match msg {
                FactoryMessage::Dispatch(job) => {
                    if old(state).spec_drain_state() == DrainState::NotDraining {
                        let routed = choose|rr: Result<RouteResult<TMsg>, MessagingErr<()>>|
                            #[trigger] spec_dispatch_routed(*old(state), handled, job, now, true, rr, turned_away);
                        assert(spec_dispatch_routed(*old(state), *state, job, now, true, routed, turned_away));
                    }
                },
                FactoryMessage::Finished(who, key) => {
                    assert(spec_finish_post(*old(state), handled, who, key, now, finished_with));
                    assert(spec_finish_post(*old(state), *state, who, key, now, finished_with));
                },
                FactoryMessage::Calculate => {
                    assert(spec_expired_post(*old(state), *state, now, removed));
                },
                _ => {},
            }
        }
        Ok(effects)
    }
}

} // verus!
