//! Routing protocols for factories: how a job reaches a worker.
use vstd::prelude::*;
use std::collections::HashMap;
use std::collections::VecDeque;

use crate::errors::MessagingErr;
use crate::factory::hash::{hash_u64_with_max, spec_u64_key_hash};
use crate::factory::job::Job;
use crate::factory::worker::{spec_enqueued, WorkerProperties};
use crate::factory::WorkerId;

verus! {

broadcast use vstd::std_specs::hash::group_hash_axioms;

/// Custom hashing behavior for factory routing to workers
pub trait CustomHashFunction {
    /// Hash the key into the space `0..worker_count`
    fn hash(&self, key: u64, worker_count: usize) -> usize;
}

/// The routing modes a factory can be built with
pub enum RoutingMode {
    /// Route by hashing the job's key (see `KeyPersistentRouting`)
    KeyPersistent,
    /// Route to the first available worker (see `QueuerRouting`)
    Queuer,
    /// Route to the worker processing the same key, else the first available
    /// (see `StickyQueuerRouting`)
    StickyQueuer,
    /// Route to the workers in turn (see `RoundRobinRouting`)
    RoundRobin,
    /// Route to a random worker
    Random,
    /// Route by a custom hash of the key (see `CustomRouting`)
    CustomHashFunction(Box<dyn CustomHashFunction>),
}

impl Default for RoutingMode {
    /// Routing by key
    fn default() -> (r: Self)
        ensures
            r is KeyPersistent,
    {
        RoutingMode::KeyPersistent
    }
}

/// The possible results from a routing operation.
#[verifier::reject_recursive_types(TMsg)]
pub enum RouteResult<TMsg> {
    /// The job has been handled and routed successfully
    Handled,
    /// The job needs to be backlogged into the factory's own queue
    Backlog(Job<TMsg>),
    /// Routing the job would exceed the router's rate limit; the job is given
    /// back
    RateLimited(Job<TMsg>),
}

/// Whether worker `wid` is in the pool and free to take a job
pub open spec fn spec_free_in<TMsg>(pool: Map<WorkerId, WorkerProperties<TMsg>>, wid: WorkerId) -> bool {
    pool.contains_key(wid) && pool[wid].spec_curr_jobs().is_empty()
}

/// Whether the pool went from `before` to `after` by enqueueing `job` to worker
/// `wid` at instant `now`, and changed nowhere else.
pub open spec fn spec_delivered<TMsg>(
    before: Map<WorkerId, WorkerProperties<TMsg>>,
    after: Map<WorkerId, WorkerProperties<TMsg>>,
    wid: WorkerId,
    job: Job<TMsg>,
    now: u64,
) -> bool {
    &&& before.contains_key(wid)
    &&& after == before.insert(wid, after[wid])
    &&& spec_enqueued(before[wid], after[wid], job, now)
}

/// Whether the pool is unchanged, or went to `after` by enqueueing `job` to one
/// of its workers.
pub open spec fn spec_delivered_at_most_once<TMsg>(
    before: Map<WorkerId, WorkerProperties<TMsg>>,
    after: Map<WorkerId, WorkerProperties<TMsg>>,
    job: Job<TMsg>,
    now: u64,
) -> bool {
    after == before || exists|wid: WorkerId| #[trigger] spec_delivered(before, after, wid, job, now)
}

/// Whether no worker among the first `n` of `d` is free in the pool
pub open spec fn spec_none_free_before<TMsg>(
    d: Seq<WorkerId>,
    n: int,
    pool: Map<WorkerId, WorkerProperties<TMsg>>,
) -> bool {
    forall|j: int| 0 <= j < n ==> !spec_free_in(pool, #[trigger] d[j])
}

/// The availability flags with the flags of the `popped` workers cleared
pub open spec fn spec_cleared(flags: Seq<bool>, popped: Seq<WorkerId>) -> Seq<bool> {
    Seq::new(flags.len(), |w: int| flags[w] && !popped.contains(w as WorkerId))
}

/// The queue `d` (with flags `f`) went to `d2` (with `f2`) by popping up to and
/// including position `i`, the first worker of `d` which is free in the pool.
pub open spec fn spec_popped_at<TMsg>(
    d: Seq<WorkerId>,
    d2: Seq<WorkerId>,
    f: Seq<bool>,
    f2: Seq<bool>,
    pool: Map<WorkerId, WorkerProperties<TMsg>>,
    i: int,
) -> bool {
    &&& 0 <= i < d.len()
    &&& spec_free_in(pool, d[i])
    &&& spec_none_free_before(d, i, pool)
    &&& d2 == d.skip(i + 1)
    &&& f2 == spec_cleared(f, d.take(i + 1))
}

/// Taking the first free worker from the queue of available workers: the
/// workers before it are dropped (they are gone or busy), and their flags
/// cleared. With no free worker in the queue, the queue is emptied.
pub open spec fn spec_popped<TMsg>(
    d: Seq<WorkerId>,
    d2: Seq<WorkerId>,
    f: Seq<bool>,
    f2: Seq<bool>,
    pool: Map<WorkerId, WorkerProperties<TMsg>>,
    r: Option<WorkerId>,
) -> bool {
    match r {
        Some(w) => exists|i: int| #[trigger] spec_popped_at(d, d2, f, f2, pool, i) && d[i] == w,
        None => {
            &&& spec_none_free_before(d, d.len() as int, pool)
            &&& d2.len() == 0
            &&& f2 == spec_cleared(f, d)
        },
    }
}

/// Recording that worker `wid` became available (or busy): its flag is set to
/// `available` (the flags grow to reach it), and it joins the back of the
/// queue when it becomes available without being flagged already.
pub open spec fn spec_marked(
    d: Seq<WorkerId>,
    d2: Seq<WorkerId>,
    f: Seq<bool>,
    f2: Seq<bool>,
    wid: WorkerId,
    available: bool,
) -> bool {
    let was = wid < f.len() && f[wid as int];
    &&& f2.len() == if wid < f.len() {
        f.len() as int
    } else {
        wid + 1
    }
    &&& f2[wid as int] == available
    &&& forall|w: int| 0 <= w < f2.len() && w != wid ==> #[trigger] f2[w] == (w < f.len() && f[w])
    &&& d2 == if available && !was {
        d.push(wid)
    } else {
        d
    }
}

/// Workers believed to be available, in the order they became available, with
/// a flag per worker telling whether it is in the queue. A flag is cleared
/// without taking the worker out of the queue; stale entries are skipped when
/// the queue is read.
struct AvailableWorkers {
    queue: VecDeque<WorkerId>,
    in_queue: Vec<bool>,
}

impl AvailableWorkers {
    /// Every flagged worker is in the queue; no worker id in the queue is the
    /// largest `usize`
    spec fn wf(&self) -> bool {
        &&& forall|w: int|
            0 <= w < self.in_queue@.len() && #[trigger] self.in_queue@[w] ==> self.queue@.contains(
                w as WorkerId,
            )
        &&& forall|i: int| 0 <= i < self.queue@.len() ==> #[trigger] self.queue@[i] < usize::MAX
    }

    fn new() -> (r: Self)
        ensures
            r.wf(),
            r.queue@ == Seq::<WorkerId>::empty(),
            r.in_queue@ == Seq::<bool>::empty(),
    {
        AvailableWorkers { queue: VecDeque::new(), in_queue: Vec::new() }
    }

    /// Record that worker `wid` became available (or busy)
    fn mark(&mut self, wid: WorkerId, available: bool)
        requires
            old(self).wf(),
            wid < usize::MAX,
        ensures
            final(self).wf(),
            spec_marked(
                old(self).queue@,
                final(self).queue@,
                old(self).in_queue@,
                final(self).in_queue@,
                wid,
                available,
            ),
    {
        let ghost f = self.in_queue@;
        // grow the flags to reach the worker
        while self.in_queue.len() <= wid
            invariant
                wid < usize::MAX,
                f == old(self).in_queue@,
                self.queue@ == old(self).queue@,
                self.in_queue@.len() >= f.len(),
                self.in_queue@.len() <= if wid < f.len() {
                    f.len() as int
                } else {
                    wid + 1
                },
                forall|w: int|
                    0 <= w < self.in_queue@.len() ==> #[trigger] self.in_queue@[w] == (w < f.len()
                        && f[w]),
                old(self).wf(),
            decreases wid + 1 - self.in_queue@.len(),
        {
            self.in_queue.push(false);
        }
        proof {
            assert forall|w: int|
                0 <= w < self.in_queue@.len() && #[trigger] self.in_queue@[w] implies self.queue@.contains(
                w as WorkerId,
            ) by {
                assert(f[w]);
            }
        }
        if available {
            if !self.in_queue[wid] {
                self.in_queue[wid] = true;
                self.queue.push_back(wid);
                proof {
                    assert(self.queue@.last() == wid);
                    assert forall|w: int|
                        0 <= w < self.in_queue@.len() && #[trigger] self.in_queue@[w] implies self.queue@.contains(
                        w as WorkerId,
                    ) by {
                        if w != wid {
                            let j = choose|j: int|
                                0 <= j < old(self).queue@.len() && old(self).queue@[j] == w as WorkerId;
                            assert(self.queue@[j] == w as WorkerId);
                        } else {
                            assert(self.queue@[self.queue@.len() - 1] == wid);
                        }
                    }
                }
            }
        } else {
            self.in_queue[wid] = false;
        }
    }

    /// Take the first worker of the queue which is free in the pool
    fn pop_first_free<TMsg>(&mut self, pool: &HashMap<WorkerId, WorkerProperties<TMsg>>) -> (r:
        Option<WorkerId>)
        requires
            old(self).wf(),
        ensures
            final(self).wf(),
            spec_popped(
                old(self).queue@,
                final(self).queue@,
                old(self).in_queue@,
                final(self).in_queue@,
                pool@,
                r,
            ),
            r matches Some(w) ==> spec_free_in(pool@, w),
    {
        let ghost d = self.queue@;
        let ghost f = self.in_queue@;
        let ghost mut n: int = 0;
        proof {
            assert(d.skip(0) =~= d);
            assert(spec_cleared(f, d.take(0)) =~= f);
        }
        while self.queue.len() > 0
            invariant
                d == old(self).queue@,
                f == old(self).in_queue@,
                old(self).wf(),
                0 <= n <= d.len(),
                self.queue@ == d.skip(n),
                self.in_queue@ == spec_cleared(f, d.take(n)),
                spec_none_free_before(d, n, pool@),
            decreases self.queue@.len(),
        {
            let ghost before = self.queue@;
            let wid = self.queue.pop_front().unwrap();
            proof {
                assert(wid == d[n]);
                assert(self.queue@ =~= d.skip(n + 1));
            }
            if wid < self.in_queue.len() {
                self.in_queue[wid] = false;
            }
            proof {
                let t = d.take(n);
                assert(d.take(n + 1) =~= t.push(wid));
                assert forall|w: int| 0 <= w < f.len() implies #[trigger] t.push(wid).contains(
                    w as WorkerId,
                ) == (t.contains(w as WorkerId) || w == wid) by {
                    if t.push(wid).contains(w as WorkerId) {
                        let j = choose|j: int|
                            0 <= j < t.len() + 1 && t.push(wid)[j] == w as WorkerId;
                        if j < t.len() {
                            assert(t[j] == w as WorkerId);
                        }
                    }
                    if t.contains(w as WorkerId) {
                        let j = choose|j: int| 0 <= j < t.len() && t[j] == w as WorkerId;
                        assert(t.push(wid)[j] == w as WorkerId);
                    }
                    if w == wid {
                        assert(t.push(wid)[t.len() as int] == wid);
                    }
                }
                assert(self.in_queue@ =~= spec_cleared(f, d.take(n + 1)));
                n = n + 1;
            }
            let found = match pool.get(&wid) {
                Some(worker) => worker.is_available(),
                None => false,
            };
            if found {
                proof {
                    assert(spec_popped_at(d, self.queue@, f, self.in_queue@, pool@, n - 1));
                    self.lemma_wf_after_pop(d, f, n);
                }
                return Some(wid);
            }
        }
        proof {
            assert(d.take(n) =~= d);
            self.lemma_wf_after_pop(d, f, n);
        }
        None
    }

    /// Popping the first `n` workers keeps every flagged worker in the queue
    proof fn lemma_wf_after_pop(&self, d: Seq<WorkerId>, f: Seq<bool>, n: int)
        requires
            0 <= n <= d.len(),
            forall|w: int| 0 <= w < f.len() && #[trigger] f[w] ==> d.contains(w as WorkerId),
            forall|i: int| 0 <= i < d.len() ==> #[trigger] d[i] < usize::MAX,
            self.queue@ == d.skip(n),
            self.in_queue@ == spec_cleared(f, d.take(n)),
        ensures
            self.wf(),
    {
        assert forall|w: int|
            0 <= w < self.in_queue@.len() && #[trigger] self.in_queue@[w] implies self.queue@.contains(
            w as WorkerId,
        ) by {
            assert(f[w]);
            let j = choose|j: int| 0 <= j < d.len() && d[j] == w as WorkerId;
            if j < n {
                assert(d.take(n)[j] == w as WorkerId);
            } else {
                assert(self.queue@[j - n] == w as WorkerId);
            }
        }
        assert forall|i: int| 0 <= i < self.queue@.len() implies #[trigger] self.queue@[i]
            < usize::MAX by {
            assert(self.queue@[i] == d[i + n]);
        }
    }
}

/// A routing mode: how a job is routed from the factory to a worker.
///
/// `pool_size` is the number of active (not draining) workers; `worker_hint`,
/// when given, names the worker which should take the job if it can;
/// `worker_pool` is the whole pool, draining workers included. `now` is the
/// instant of routing, in nanoseconds.
pub trait Router<TMsg>: Sized {
    /// The router's own bookkeeping is consistent
    spec fn router_wf(&self) -> bool;

    /// Whether the router can route with this pool size and hint
    spec fn accepts_route(&self, pool_size: usize, worker_hint: Option<WorkerId>) -> bool;

    /// Whether the factory does the queueing and load-shedding (`true`) or the
    /// workers do (`false`)
    spec fn spec_factory_queueing(&self) -> bool;

    /// What routing `job` does: the router goes from `self` to `after`, the
    /// pool from `pool_before` to `pool_after`, and `r` is the result
    spec fn spec_routes(
        &self,
        after: Self,
        job: Job<TMsg>,
        pool_size: usize,
        worker_hint: Option<WorkerId>,
        pool_before: Map<WorkerId, WorkerProperties<TMsg>>,
        pool_after: Map<WorkerId, WorkerProperties<TMsg>>,
        now: u64,
        r: Result<RouteResult<TMsg>, MessagingErr<()>>,
    ) -> bool;

    /// What choosing a worker for `job` does: the router goes from `self` to
    /// `after`, and `r` is the worker chosen
    spec fn spec_chooses(
        &self,
        after: Self,
        job: Job<TMsg>,
        pool_size: usize,
        worker_hint: Option<WorkerId>,
        pool: Map<WorkerId, WorkerProperties<TMsg>>,
        r: Option<WorkerId>,
    ) -> bool;

    /// What being told that worker `wid` became available (or busy) does to
    /// the router
    spec fn spec_marks(&self, after: Self, wid: WorkerId, available: bool) -> bool;

    /// What being told that worker `wid` now processes `key` (or nothing) does
    /// to the router
    spec fn spec_rekeys(&self, after: Self, wid: WorkerId, key: Option<u64>) -> bool;

    /// Route a job. A job given back (backlogged or rate limited) leaves the
    /// pool unchanged; otherwise at most one worker took the job in.
    fn route_message(
        &mut self,
        job: Job<TMsg>,
        pool_size: usize,
        worker_hint: Option<WorkerId>,
        worker_pool: &mut HashMap<WorkerId, WorkerProperties<TMsg>>,
        now: u64,
    ) -> (r: Result<RouteResult<TMsg>, MessagingErr<()>>)
        requires
            old(self).router_wf(),
            old(self).accepts_route(pool_size, worker_hint),
        ensures
            final(self).router_wf(),
            match r {
                Ok(RouteResult::Backlog(j)) => j == job && final(worker_pool)@ == old(worker_pool)@,
                Ok(RouteResult::RateLimited(j)) => j == job && final(worker_pool)@ == old(
                    worker_pool,
                )@,
                _ => spec_delivered_at_most_once(old(worker_pool)@, final(worker_pool)@, job, now),
            },
            old(self).spec_routes(
                *final(self),
                job,
                pool_size,
                worker_hint,
                old(worker_pool)@,
                final(worker_pool)@,
                now,
                r,
            ),
    ;

    /// Identify which worker a job would be routed to, without routing it; the
    /// router may update its own bookkeeping, as the job is then routed there.
    fn choose_target_worker(
        &mut self,
        job: &Job<TMsg>,
        pool_size: usize,
        worker_hint: Option<WorkerId>,
        worker_pool: &HashMap<WorkerId, WorkerProperties<TMsg>>,
    ) -> (r: Option<WorkerId>)
        requires
            old(self).router_wf(),
            old(self).accepts_route(pool_size, worker_hint),
        ensures
            final(self).router_wf(),
            old(self).spec_chooses(*final(self), *job, pool_size, worker_hint, worker_pool@, r),
    ;

    /// Whether the factory does the queueing and load-shedding
    fn is_factory_queueing(&self) -> (r: bool)
        ensures
            r == self.spec_factory_queueing(),
    ;

    /// Whether the router can route with this pool size and hint
    fn can_route(&self, pool_size: usize, worker_hint: Option<WorkerId>) -> (r: bool)
        ensures
            r == self.accepts_route(pool_size, worker_hint),
    ;

    /// A worker became available (or busy)
    fn on_worker_availability_change(&mut self, wid: WorkerId, available: bool)
        requires
            old(self).router_wf(),
            wid < usize::MAX,
        ensures
            final(self).router_wf(),
            old(self).spec_marks(*final(self), wid, available),
    ;

    /// The key a worker is processing changed (completion, replacement, removal)
    fn on_worker_key_change(&mut self, wid: WorkerId, key: Option<u64>)
        requires
            old(self).router_wf(),
            wid < usize::MAX,
        ensures
            final(self).router_wf(),
            old(self).spec_rekeys(*final(self), wid, key),
    ;
}

/// Take the worker `wid` out of the pool, enqueue the job to it and put it
/// back; the enqueue's error, if any, without its message.
pub(crate) fn deliver<TMsg>(
    worker_pool: &mut HashMap<WorkerId, WorkerProperties<TMsg>>,
    wid: WorkerId,
    job: Job<TMsg>,
    now: u64,
) -> (r: Result<(), MessagingErr<()>>)
    requires
        old(worker_pool)@.contains_key(wid),
    ensures
        spec_delivered(old(worker_pool)@, final(worker_pool)@, wid, job, now),
{
    let mut worker = worker_pool.remove(&wid).unwrap();
    let sent = worker.enqueue_job(job, now);
    worker_pool.insert(wid, worker);
    proof {
        assert(final(worker_pool)@ =~= old(worker_pool)@.insert(wid, final(worker_pool)@[wid]));
    }
    match sent {
        Ok(()) => Ok(()),
        Err(e) => Err(e.discard_message()),
    }
}

// ============================ Queuer routing ======================= //
/// Factory will dispatch a job to the first available worker, and keep a
/// shared queue of the jobs no worker could take.
pub struct QueuerRouting {
    available_workers: AvailableWorkers,
}

/// What the queuer's choice does: a free hinted worker is chosen as it is;
/// otherwise the first free worker of the queue of available workers is taken.
pub open spec fn spec_queuer_chose<TMsg>(
    before: QueuerRouting,
    after: QueuerRouting,
    worker_hint: Option<WorkerId>,
    pool: Map<WorkerId, WorkerProperties<TMsg>>,
    r: Option<WorkerId>,
) -> bool {
    if worker_hint matches Some(h) && spec_free_in(pool, h) {
        r == worker_hint && after.spec_available() == before.spec_available()
            && after.spec_flags() == before.spec_flags()
    } else {
        spec_popped(
            before.spec_available(),
            after.spec_available(),
            before.spec_flags(),
            after.spec_flags(),
            pool,
            r,
        )
    }
}

/// What routing through the queuer does: the job goes to the chosen worker, or
/// is backlogged when there is none.
pub open spec fn spec_queuer_routed<TMsg>(
    before: QueuerRouting,
    after: QueuerRouting,
    worker_hint: Option<WorkerId>,
    pool_before: Map<WorkerId, WorkerProperties<TMsg>>,
    pool_after: Map<WorkerId, WorkerProperties<TMsg>>,
    job: Job<TMsg>,
    now: u64,
    r: Result<RouteResult<TMsg>, MessagingErr<()>>,
) -> bool {
    match r {
        Ok(RouteResult::Backlog(j)) => {
            &&& j == job
            &&& pool_after == pool_before
            &&& spec_queuer_chose(before, after, worker_hint, pool_before, None)
        },
        Ok(RouteResult::RateLimited(_)) => false,
        _ => exists|wid: WorkerId|
            #[trigger] spec_delivered(pool_before, pool_after, wid, job, now) && spec_queuer_chose(
                before,
                after,
                worker_hint,
                pool_before,
                Some(wid),
            ),
    }
}

impl QueuerRouting {
    /// The router's bookkeeping is consistent: every worker flagged available
    /// is in the queue of available workers
    pub closed spec fn wf(&self) -> bool {
        self.available_workers.wf()
    }

    /// The queue of workers believed available, oldest first (it may hold
    /// workers which have since become busy or left the pool)
    pub closed spec fn spec_available(&self) -> Seq<WorkerId> {
        self.available_workers.queue@
    }

    /// Per worker, whether it is flagged as available
    pub closed spec fn spec_flags(&self) -> Seq<bool> {
        self.available_workers.in_queue@
    }

    /// A worker flagged as available which is free in the pool means a choice
    /// can be made
    proof fn lemma_flagged_free_is_found<TMsg>(
        before: QueuerRouting,
        after: QueuerRouting,
        pool: Map<WorkerId, WorkerProperties<TMsg>>,
    )
        requires
            before.wf(),
            spec_popped(
                before.spec_available(),
                after.spec_available(),
                before.spec_flags(),
                after.spec_flags(),
                pool,
                None,
            ),
        ensures
            forall|w: int|
                0 <= w < before.spec_flags().len() && #[trigger] before.spec_flags()[w]
                    ==> !spec_free_in(pool, w as WorkerId),
    {
        assert forall|w: int|
            0 <= w < before.spec_flags().len() && #[trigger] before.spec_flags()[w] implies !spec_free_in(
            pool,
            w as WorkerId,
        ) by {
            let d = before.spec_available();
            let j = choose|j: int| 0 <= j < d.len() && d[j] == w as WorkerId;
            assert(!spec_free_in(pool, d[j]));
        }
    }
}

impl Default for QueuerRouting {
    fn default() -> (r: Self)
        ensures
            r.wf(),
            r.spec_available() == Seq::<WorkerId>::empty(),
            r.spec_flags() == Seq::<bool>::empty(),
    {
        QueuerRouting { available_workers: AvailableWorkers::new() }
    }
}

impl<TMsg> Router<TMsg> for QueuerRouting {
    open spec fn router_wf(&self) -> bool {
        self.wf()
    }

    open spec fn accepts_route(&self, pool_size: usize, worker_hint: Option<WorkerId>) -> bool {
        true
    }

    open spec fn spec_factory_queueing(&self) -> bool {
        true
    }

    open spec fn spec_routes(
        &self,
        after: Self,
        job: Job<TMsg>,
        pool_size: usize,
        worker_hint: Option<WorkerId>,
        pool_before: Map<WorkerId, WorkerProperties<TMsg>>,
        pool_after: Map<WorkerId, WorkerProperties<TMsg>>,
        now: u64,
        r: Result<RouteResult<TMsg>, MessagingErr<()>>,
    ) -> bool {
        spec_queuer_routed(*self, after, worker_hint, pool_before, pool_after, job, now, r)
    }

    open spec fn spec_chooses(
        &self,
        after: Self,
        job: Job<TMsg>,
        pool_size: usize,
        worker_hint: Option<WorkerId>,
        pool: Map<WorkerId, WorkerProperties<TMsg>>,
        r: Option<WorkerId>,
    ) -> bool {
        spec_queuer_chose(*self, after, worker_hint, pool, r)
    }

    open spec fn spec_marks(&self, after: Self, wid: WorkerId, available: bool) -> bool {
        spec_marked(self.spec_available(), after.spec_available(), self.spec_flags(), after.spec_flags(), wid, available)
    }

    open spec fn spec_rekeys(&self, after: Self, wid: WorkerId, key: Option<u64>) -> bool {
        after == *self
    }

    fn route_message(
        &mut self,
        job: Job<TMsg>,
        pool_size: usize,
        worker_hint: Option<WorkerId>,
        worker_pool: &mut HashMap<WorkerId, WorkerProperties<TMsg>>,
        now: u64,
    ) -> (r: Result<RouteResult<TMsg>, MessagingErr<()>>)
        ensures
            spec_queuer_routed(
                *old(self),
                *final(self),
                worker_hint,
                old(worker_pool)@,
                final(worker_pool)@,
                job,
                now,
                r,
            ),
    {
        match self.choose_target_worker(&job, pool_size, worker_hint, worker_pool) {
            Some(wid) => {
                match deliver(worker_pool, wid, job, now) {
                    Ok(()) => Ok(RouteResult::Handled),
                    Err(e) => Err(e),
                }
            },
            None => Ok(RouteResult::Backlog(job)),
        }
    }

    fn choose_target_worker(
        &mut self,
        job: &Job<TMsg>,
        pool_size: usize,
        worker_hint: Option<WorkerId>,
        worker_pool: &HashMap<WorkerId, WorkerProperties<TMsg>>,
    ) -> (r: Option<WorkerId>)
        ensures
            spec_queuer_chose(*old(self), *final(self), worker_hint, worker_pool@, r),
            r matches Some(w) ==> spec_free_in(worker_pool@, w),
            r is None ==> forall|w: int|
                0 <= w < old(self).spec_flags().len() && #[trigger] old(self).spec_flags()[w]
                    ==> !spec_free_in(worker_pool@, w as WorkerId),
    {
        if let Some(h) = worker_hint {
            if let Some(worker) = worker_pool.get(&h) {
                if worker.is_available() {
                    return worker_hint;
                }
            }
        }
        let r = self.available_workers.pop_first_free(worker_pool);
        proof {
            if r is None {
                QueuerRouting::lemma_flagged_free_is_found(*old(self), *self, worker_pool@);
            }
        }
        r
    }

    fn can_route(&self, pool_size: usize, worker_hint: Option<WorkerId>) -> (r: bool) {
        true
    }

    fn is_factory_queueing(&self) -> (r: bool) {
        true
    }

    fn on_worker_availability_change(&mut self, wid: WorkerId, available: bool)
        ensures
            spec_marked(
                old(self).spec_available(),
                final(self).spec_available(),
                old(self).spec_flags(),
                final(self).spec_flags(),
                wid,
                available,
            ),
    {
        self.available_workers.mark(wid, available);
    }

    fn on_worker_key_change(&mut self, wid: WorkerId, key: Option<u64>) {
    }
}

/// What routing to the fixed worker `target` does: a worker of the pool takes
/// the job in (a failure to send to it is the error); a job for a worker not in
/// the pool is dropped, and counts as handled.
pub open spec fn spec_pushed_to<TMsg>(
    pool_before: Map<WorkerId, WorkerProperties<TMsg>>,
    pool_after: Map<WorkerId, WorkerProperties<TMsg>>,
    target: WorkerId,
    job: Job<TMsg>,
    now: u64,
    r: Result<RouteResult<TMsg>, MessagingErr<()>>,
) -> bool {
    if pool_before.contains_key(target) {
        &&& spec_delivered(pool_before, pool_after, target, job, now)
        &&& (r matches Ok(RouteResult::Handled) || r is Err)
    } else {
        &&& pool_after == pool_before
        &&& r matches Ok(RouteResult::Handled)
    }
}

/// Route to `target` (see `spec_pushed_to`)
fn push_to<TMsg>(
    worker_pool: &mut HashMap<WorkerId, WorkerProperties<TMsg>>,
    target: WorkerId,
    job: Job<TMsg>,
    now: u64,
) -> (r: Result<RouteResult<TMsg>, MessagingErr<()>>)
    ensures
        spec_pushed_to(old(worker_pool)@, final(worker_pool)@, target, job, now, r),
{
    if worker_pool.contains_key(&target) {
        match deliver(worker_pool, target, job, now) {
            Ok(()) => Ok(RouteResult::Handled),
            Err(e) => Err(e),
        }
    } else {
        Ok(RouteResult::Handled)
    }
}

// ============================ Key Persistent routing ======================= //
/// Factory will select the worker by hashing the job's key. Workers queue the
/// jobs themselves.
pub struct KeyPersistentRouting {}

/// The worker a key goes to: the hinted one, or the key's hash modulo the
/// active pool size
pub open spec fn spec_key_target(key: u64, pool_size: usize, worker_hint: Option<WorkerId>) -> WorkerId {
    match worker_hint {
        Some(h) => h,
        None => (spec_u64_key_hash(key) % (pool_size as u64)) as WorkerId,
    }
}

impl Default for KeyPersistentRouting {
    fn default() -> (r: Self)
        ensures
            r == (KeyPersistentRouting {}),
    {
        KeyPersistentRouting {}
    }
}

impl<TMsg> Router<TMsg> for KeyPersistentRouting {
    open spec fn router_wf(&self) -> bool {
        true
    }

    /// With no hint, hashing needs a non-empty pool
    open spec fn accepts_route(&self, pool_size: usize, worker_hint: Option<WorkerId>) -> bool {
        worker_hint is Some || pool_size > 0
    }

    open spec fn spec_factory_queueing(&self) -> bool {
        false
    }

    open spec fn spec_routes(
        &self,
        after: Self,
        job: Job<TMsg>,
        pool_size: usize,
        worker_hint: Option<WorkerId>,
        pool_before: Map<WorkerId, WorkerProperties<TMsg>>,
        pool_after: Map<WorkerId, WorkerProperties<TMsg>>,
        now: u64,
        r: Result<RouteResult<TMsg>, MessagingErr<()>>,
    ) -> bool {
        spec_pushed_to(pool_before, pool_after, spec_key_target(job.key, pool_size, worker_hint), job, now, r)
    }

    open spec fn spec_chooses(
        &self,
        after: Self,
        job: Job<TMsg>,
        pool_size: usize,
        worker_hint: Option<WorkerId>,
        pool: Map<WorkerId, WorkerProperties<TMsg>>,
        r: Option<WorkerId>,
    ) -> bool {
        r == Some(spec_key_target(job.key, pool_size, worker_hint))
    }

    open spec fn spec_marks(&self, after: Self, wid: WorkerId, available: bool) -> bool {
        after == *self
    }

    open spec fn spec_rekeys(&self, after: Self, wid: WorkerId, key: Option<u64>) -> bool {
        after == *self
    }

    fn route_message(
        &mut self,
        job: Job<TMsg>,
        pool_size: usize,
        worker_hint: Option<WorkerId>,
        worker_pool: &mut HashMap<WorkerId, WorkerProperties<TMsg>>,
        now: u64,
    ) -> (r: Result<RouteResult<TMsg>, MessagingErr<()>>)
        ensures
            spec_pushed_to(
                old(worker_pool)@,
                final(worker_pool)@,
                spec_key_target(job.key, pool_size, worker_hint),
                job,
                now,
                r,
            ),
    {
        match self.choose_target_worker(&job, pool_size, worker_hint, worker_pool) {
            Some(wid) => push_to(worker_pool, wid, job, now),
            None => Ok(RouteResult::Handled),
        }
    }

    fn choose_target_worker(
        &mut self,
        job: &Job<TMsg>,
        pool_size: usize,
        worker_hint: Option<WorkerId>,
        worker_pool: &HashMap<WorkerId, WorkerProperties<TMsg>>,
    ) -> (r: Option<WorkerId>)
        ensures
            r == Some(spec_key_target(job.key, pool_size, worker_hint)),
    {
        let wid = match worker_hint {
            Some(h) => h,
            None => hash_u64_with_max(job.key, pool_size),
        };
        Some(wid)
    }

    fn can_route(&self, pool_size: usize, worker_hint: Option<WorkerId>) -> (r: bool) {
        worker_hint.is_some() || pool_size > 0
    }

    fn is_factory_queueing(&self) -> (r: bool) {
        false
    }

    fn on_worker_availability_change(&mut self, wid: WorkerId, available: bool) {
    }

    fn on_worker_key_change(&mut self, wid: WorkerId, key: Option<u64>) {
    }
}

// ============================ Round-robin routing ======================= //
/// Factory will dispatch to the next worker in order. Workers queue the jobs
/// themselves.
pub struct RoundRobinRouting {
    last_worker: WorkerId,
}

/// The worker after `last` in a pool of `pool_size`, wrapping to the first
pub open spec fn spec_round_robin_next(last: WorkerId, pool_size: usize) -> WorkerId {
    if last + 1 >= pool_size {
        0
    } else {
        (last + 1) as WorkerId
    }
}

/// The worker a job goes to: the hinted worker if it is free, else the next in
/// turn
pub open spec fn spec_round_robin_target<TMsg>(
    last: WorkerId,
    pool_size: usize,
    worker_hint: Option<WorkerId>,
    pool: Map<WorkerId, WorkerProperties<TMsg>>,
) -> WorkerId {
    match worker_hint {
        Some(h) if spec_free_in(pool, h) => h,
        _ => spec_round_robin_next(last, pool_size),
    }
}

/// The last worker in turn after routing: unchanged when the free hinted
/// worker took the job
pub open spec fn spec_round_robin_last<TMsg>(
    last: WorkerId,
    pool_size: usize,
    worker_hint: Option<WorkerId>,
    pool: Map<WorkerId, WorkerProperties<TMsg>>,
) -> WorkerId {
    if worker_hint matches Some(h) && spec_free_in(pool, h) {
        last
    } else {
        spec_round_robin_next(last, pool_size)
    }
}

impl RoundRobinRouting {
    /// The worker which was last given a job in turn
    pub closed spec fn spec_last_worker(&self) -> WorkerId {
        self.last_worker
    }
}

impl Default for RoundRobinRouting {
    fn default() -> (r: Self)
        ensures
            r.spec_last_worker() == 0,
    {
        RoundRobinRouting { last_worker: 0 }
    }
}

impl<TMsg> Router<TMsg> for RoundRobinRouting {
    open spec fn router_wf(&self) -> bool {
        self.spec_last_worker() < usize::MAX
    }

    open spec fn accepts_route(&self, pool_size: usize, worker_hint: Option<WorkerId>) -> bool {
        true
    }

    open spec fn spec_factory_queueing(&self) -> bool {
        false
    }

    open spec fn spec_routes(
        &self,
        after: Self,
        job: Job<TMsg>,
        pool_size: usize,
        worker_hint: Option<WorkerId>,
        pool_before: Map<WorkerId, WorkerProperties<TMsg>>,
        pool_after: Map<WorkerId, WorkerProperties<TMsg>>,
        now: u64,
        r: Result<RouteResult<TMsg>, MessagingErr<()>>,
    ) -> bool {
        &&& spec_pushed_to(
            pool_before,
            pool_after,
            spec_round_robin_target(self.spec_last_worker(), pool_size, worker_hint, pool_before),
            job,
            now,
            r,
        )
        &&& after.spec_last_worker() == spec_round_robin_last(
            self.spec_last_worker(),
            pool_size,
            worker_hint,
            pool_before,
        )
    }

    open spec fn spec_chooses(
        &self,
        after: Self,
        job: Job<TMsg>,
        pool_size: usize,
        worker_hint: Option<WorkerId>,
        pool: Map<WorkerId, WorkerProperties<TMsg>>,
        r: Option<WorkerId>,
    ) -> bool {
        &&& r == Some(spec_round_robin_target(self.spec_last_worker(), pool_size, worker_hint, pool))
        &&& after.spec_last_worker() == spec_round_robin_last(
            self.spec_last_worker(),
            pool_size,
            worker_hint,
            pool,
        )
    }

    open spec fn spec_marks(&self, after: Self, wid: WorkerId, available: bool) -> bool {
        after == *self
    }

    open spec fn spec_rekeys(&self, after: Self, wid: WorkerId, key: Option<u64>) -> bool {
        after == *self
    }

    fn route_message(
        &mut self,
        job: Job<TMsg>,
        pool_size: usize,
        worker_hint: Option<WorkerId>,
        worker_pool: &mut HashMap<WorkerId, WorkerProperties<TMsg>>,
        now: u64,
    ) -> (r: Result<RouteResult<TMsg>, MessagingErr<()>>)
        ensures
            spec_pushed_to(
                old(worker_pool)@,
                final(worker_pool)@,
                spec_round_robin_target(
                    old(self).spec_last_worker(),
                    pool_size,
                    worker_hint,
                    old(worker_pool)@,
                ),
                job,
                now,
                r,
            ),
            final(self).spec_last_worker() == spec_round_robin_last(
                old(self).spec_last_worker(),
                pool_size,
                worker_hint,
                old(worker_pool)@,
            ),
    {
        match self.choose_target_worker(&job, pool_size, worker_hint, worker_pool) {
            Some(wid) => push_to(worker_pool, wid, job, now),
            None => Ok(RouteResult::Handled),
        }
    }

    fn choose_target_worker(
        &mut self,
        job: &Job<TMsg>,
        pool_size: usize,
        worker_hint: Option<WorkerId>,
        worker_pool: &HashMap<WorkerId, WorkerProperties<TMsg>>,
    ) -> (r: Option<WorkerId>)
        ensures
            r == Some(
                spec_round_robin_target(
                    old(self).spec_last_worker(),
                    pool_size,
                    worker_hint,
                    worker_pool@,
                ),
            ),
            final(self).spec_last_worker() == spec_round_robin_last(
                old(self).spec_last_worker(),
                pool_size,
                worker_hint,
                worker_pool@,
            ),
    {
        if let Some(h) = worker_hint {
            if let Some(worker) = worker_pool.get(&h) {
                if worker.is_available() {
                    return worker_hint;
                }
            }
        }
        let mut key = self.last_worker + 1;
        if key >= pool_size {
            key = 0;
        }
        self.last_worker = key;
        Some(key)
    }

    fn can_route(&self, pool_size: usize, worker_hint: Option<WorkerId>) -> (r: bool) {
        true
    }

    fn is_factory_queueing(&self) -> (r: bool) {
        false
    }

    fn on_worker_availability_change(&mut self, wid: WorkerId, available: bool) {
    }

    fn on_worker_key_change(&mut self, wid: WorkerId, key: Option<u64>) {
    }
}

// ============================ Custom routing ======================= //
/// Factory will dispatch to workers based on a custom hash function. Workers
/// queue the jobs themselves.
pub struct CustomRouting<THasher> {
    hasher: THasher,
}

impl<THasher: CustomHashFunction> CustomRouting<THasher> {
    /// The hash function routing uses
    pub closed spec fn spec_hasher(&self) -> THasher {
        self.hasher
    }

    /// Construct a new `CustomRouting` with the supplied hash function
    pub fn new(hasher: THasher) -> (r: Self)
        ensures
            r.spec_hasher() == hasher,
    {
        CustomRouting { hasher }
    }
}

impl<TMsg, THasher: CustomHashFunction> Router<TMsg> for CustomRouting<THasher> {
    open spec fn router_wf(&self) -> bool {
        true
    }

    open spec fn accepts_route(&self, pool_size: usize, worker_hint: Option<WorkerId>) -> bool {
        true
    }

    open spec fn spec_factory_queueing(&self) -> bool {
        false
    }

    /// The job goes to the worker the hash function names (the hint is not
    /// used)
    open spec fn spec_routes(
        &self,
        after: Self,
        job: Job<TMsg>,
        pool_size: usize,
        worker_hint: Option<WorkerId>,
        pool_before: Map<WorkerId, WorkerProperties<TMsg>>,
        pool_after: Map<WorkerId, WorkerProperties<TMsg>>,
        now: u64,
        r: Result<RouteResult<TMsg>, MessagingErr<()>>,
    ) -> bool {
        &&& after.spec_hasher() == self.spec_hasher()
        &&& exists|target: WorkerId|
            #[trigger] call_ensures(THasher::hash, (&self.spec_hasher(), job.key, pool_size), target)
                && spec_pushed_to(pool_before, pool_after, target, job, now, r)
    }

    open spec fn spec_chooses(
        &self,
        after: Self,
        job: Job<TMsg>,
        pool_size: usize,
        worker_hint: Option<WorkerId>,
        pool: Map<WorkerId, WorkerProperties<TMsg>>,
        r: Option<WorkerId>,
    ) -> bool {
        &&& r is Some
        &&& after.spec_hasher() == self.spec_hasher()
        &&& call_ensures(THasher::hash, (&self.spec_hasher(), job.key, pool_size), r->0)
    }

    open spec fn spec_marks(&self, after: Self, wid: WorkerId, available: bool) -> bool {
        after == *self
    }

    open spec fn spec_rekeys(&self, after: Self, wid: WorkerId, key: Option<u64>) -> bool {
        after == *self
    }

    fn route_message(
        &mut self,
        job: Job<TMsg>,
        pool_size: usize,
        worker_hint: Option<WorkerId>,
        worker_pool: &mut HashMap<WorkerId, WorkerProperties<TMsg>>,
        now: u64,
    ) -> (r: Result<RouteResult<TMsg>, MessagingErr<()>>)
        ensures
            final(self).spec_hasher() == old(self).spec_hasher(),
            exists|target: WorkerId|
                #[trigger] spec_pushed_to(
                    old(worker_pool)@,
                    final(worker_pool)@,
                    target,
                    job,
                    now,
                    r,
                ),
    {
        match self.choose_target_worker(&job, pool_size, worker_hint, worker_pool) {
            Some(wid) => push_to(worker_pool, wid, job, now),
            None => Ok(RouteResult::Handled),
        }
    }

    fn choose_target_worker(
        &mut self,
        job: &Job<TMsg>,
        pool_size: usize,
        worker_hint: Option<WorkerId>,
        worker_pool: &HashMap<WorkerId, WorkerProperties<TMsg>>,
    ) -> (r: Option<WorkerId>)
        ensures
            r is Some,
            final(self).spec_hasher() == old(self).spec_hasher(),
            call_ensures(THasher::hash, (&old(self).spec_hasher(), job.key, pool_size), r->0),
    {
        Some(self.hasher.hash(job.key, pool_size))
    }

    fn can_route(&self, pool_size: usize, worker_hint: Option<WorkerId>) -> (r: bool) {
        true
    }

    fn is_factory_queueing(&self) -> (r: bool) {
        false
    }

    fn on_worker_availability_change(&mut self, wid: WorkerId, available: bool) {
    }

    fn on_worker_key_change(&mut self, wid: WorkerId, key: Option<u64>) {
    }
}

// ============================ Sticky Queuer routing ======================= //
/// Factory will dispatch a job to the worker processing the same key, if any,
/// else to the first available worker, and keep a shared queue of the jobs no
/// worker could take.
///
/// This serves sharded access: while a worker works on a key (a row id, say),
/// later jobs with that key land on the same worker, which applies them in
/// order.
pub struct StickyQueuerRouting {
    available_workers: AvailableWorkers,
    /// The worker processing each in-flight key
    active_workers: HashMap<u64, WorkerId>,
    /// The reverse index: the key each worker is processing
    worker_keys: Vec<Option<u64>>,
}

/// The key-to-worker index with every key of worker `wid` taken out
pub open spec fn spec_unbind(m: Map<u64, WorkerId>, wid: WorkerId) -> Map<u64, WorkerId> {
    Map::new(|k: u64| m.contains_key(k) && m[k] != wid, |k: u64| m[k])
}

/// The key-to-worker index once worker `wid` is processing `key` (or nothing):
/// the worker's previous key is released, and the key moves to the worker
pub open spec fn spec_bind(m: Map<u64, WorkerId>, wid: WorkerId, key: Option<u64>) -> Map<
    u64,
    WorkerId,
> {
    match key {
        Some(k) => spec_unbind(m, wid).insert(k, wid),
        None => spec_unbind(m, wid),
    }
}

/// Whether worker `wid` is in the pool and processing `key`
pub open spec fn spec_processing_in<TMsg>(
    pool: Map<WorkerId, WorkerProperties<TMsg>>,
    wid: WorkerId,
    key: u64,
) -> bool {
    pool.contains_key(wid) && pool[wid].spec_curr_jobs().contains_key(key)
}

/// How the sticky router picks a worker for `key`: 0, the indexed worker
/// still processes the key; 1, the hinted worker processes it; 2, the hinted
/// worker is free; 3, the first free worker of the queue of available workers.
pub open spec fn spec_sticky_case<TMsg>(
    m: Map<u64, WorkerId>,
    key: u64,
    worker_hint: Option<WorkerId>,
    pool: Map<WorkerId, WorkerProperties<TMsg>>,
) -> int {
    if m.contains_key(key) && spec_processing_in(pool, m[key], key) {
        0
    } else {
        match worker_hint {
            Some(h) => if spec_processing_in(pool, h, key) {
                1
            } else if spec_free_in(pool, h) {
                2
            } else {
                3
            },
            None => 3,
        }
    }
}

/// The key index after picking a worker: a stale entry for the key is dropped,
/// and a hinted worker found processing the key is indexed for it
pub open spec fn spec_sticky_active<TMsg>(
    m: Map<u64, WorkerId>,
    key: u64,
    worker_hint: Option<WorkerId>,
    pool: Map<WorkerId, WorkerProperties<TMsg>>,
) -> Map<u64, WorkerId> {
    let m1 = if m.contains_key(key) {
        spec_bind(m, m[key], None)
    } else {
        m
    };
    let case = spec_sticky_case(m, key, worker_hint, pool);
    if case == 0 {
        m
    } else if case == 1 {
        spec_bind(m1, worker_hint->0, Some(key))
    } else {
        m1
    }
}

/// The worker picked in cases 0 to 2: a worker processing the key is picked
/// unless it is draining (then no worker is, and the job waits for it)
pub open spec fn spec_sticky_direct<TMsg>(
    m: Map<u64, WorkerId>,
    key: u64,
    worker_hint: Option<WorkerId>,
    pool: Map<WorkerId, WorkerProperties<TMsg>>,
) -> Option<WorkerId> {
    let case = spec_sticky_case(m, key, worker_hint, pool);
    if case == 0 {
        if pool[m[key]].spec_draining() {
            None
        } else {
            Some(m[key])
        }
    } else if case == 1 {
        if pool[worker_hint->0].spec_draining() {
            None
        } else {
            worker_hint
        }
    } else {
        worker_hint
    }
}

/// The pick's result and its effect on the queue of available workers
pub open spec fn spec_sticky_queue_chose<TMsg>(
    before: StickyQueuerRouting,
    after: StickyQueuerRouting,
    key: u64,
    worker_hint: Option<WorkerId>,
    pool: Map<WorkerId, WorkerProperties<TMsg>>,
    r: Option<WorkerId>,
) -> bool {
    if spec_sticky_case(before.spec_active(), key, worker_hint, pool) < 3 {
        &&& r == spec_sticky_direct(before.spec_active(), key, worker_hint, pool)
        &&& after.spec_available() == before.spec_available()
        &&& after.spec_flags() == before.spec_flags()
    } else {
        spec_popped(
            before.spec_available(),
            after.spec_available(),
            before.spec_flags(),
            after.spec_flags(),
            pool,
            r,
        )
    }
}

/// What the sticky router's choice does
pub open spec fn spec_sticky_chose<TMsg>(
    before: StickyQueuerRouting,
    after: StickyQueuerRouting,
    key: u64,
    worker_hint: Option<WorkerId>,
    pool: Map<WorkerId, WorkerProperties<TMsg>>,
    r: Option<WorkerId>,
) -> bool {
    &&& after.spec_active() == spec_sticky_active(before.spec_active(), key, worker_hint, pool)
    &&& spec_sticky_queue_chose(before, after, key, worker_hint, pool, r)
}

/// What routing through the sticky router does: the job goes to the chosen
/// worker, which is then indexed for the job's key; with no worker chosen the
/// job is backlogged.
pub open spec fn spec_sticky_routed<TMsg>(
    before: StickyQueuerRouting,
    after: StickyQueuerRouting,
    worker_hint: Option<WorkerId>,
    pool_before: Map<WorkerId, WorkerProperties<TMsg>>,
    pool_after: Map<WorkerId, WorkerProperties<TMsg>>,
    job: Job<TMsg>,
    now: u64,
    r: Result<RouteResult<TMsg>, MessagingErr<()>>,
) -> bool {
    match r {
        Ok(RouteResult::Backlog(j)) => {
            &&& j == job
            &&& pool_after == pool_before
            &&& spec_sticky_chose(before, after, job.key, worker_hint, pool_before, None)
        },
        Ok(RouteResult::RateLimited(_)) => false,
        Ok(RouteResult::Handled) => exists|wid: WorkerId|
            #[trigger] spec_delivered(pool_before, pool_after, wid, job, now)
                && spec_sticky_queue_chose(
                before,
                after,
                job.key,
                worker_hint,
                pool_before,
                Some(wid),
            ) && after.spec_active() == spec_bind(
                spec_sticky_active(before.spec_active(), job.key, worker_hint, pool_before),
                wid,
                Some(job.key),
            ),
        Err(_) => exists|wid: WorkerId|
            #[trigger] spec_delivered(pool_before, pool_after, wid, job, now) && spec_sticky_chose(
                before,
                after,
                job.key,
                worker_hint,
                pool_before,
                Some(wid),
            ),
    }
}

impl StickyQueuerRouting {
    /// The key each in-flight key's worker: key to worker
    pub closed spec fn spec_active(&self) -> Map<u64, WorkerId> {
        self.active_workers@
    }

    /// The key worker `wid` is processing, by the reverse index
    pub closed spec fn spec_worker_key(&self, wid: WorkerId) -> Option<u64> {
        if wid < self.worker_keys@.len() {
            self.worker_keys@[wid as int]
        } else {
            None
        }
    }

    /// The queue of workers believed available, oldest first
    pub closed spec fn spec_available(&self) -> Seq<WorkerId> {
        self.available_workers.queue@
    }

    /// Per worker, whether it is flagged as available
    pub closed spec fn spec_flags(&self) -> Seq<bool> {
        self.available_workers.in_queue@
    }

    /// The key index and its reverse agree
    spec fn index_wf(&self) -> bool {
        &&& forall|k: u64| #[trigger]
            self.active_workers@.contains_key(k) ==> self.active_workers@[k]
                < self.worker_keys@.len() && self.worker_keys@[self.active_workers@[k] as int]
                == Some(k)
        &&& forall|w: int|
            0 <= w < self.worker_keys@.len() && (#[trigger] self.worker_keys@[w]) is Some
                ==> self.active_workers@.contains_key(self.worker_keys@[w]->0)
                && self.active_workers@[self.worker_keys@[w]->0] == w
    }

    /// The router's bookkeeping is consistent: the key index and its reverse
    /// agree, and every worker flagged available is in the queue
    pub closed spec fn wf(&self) -> bool {
        self.index_wf() && self.available_workers.wf()
    }

    /// The index from keys to workers and the reverse index from workers to
    /// keys agree: a key's worker is processing that key, and a worker's key
    /// is indexed to that worker.
    pub proof fn lemma_index_consistent(&self)
        requires
            self.wf(),
        ensures
            forall|k: u64| #[trigger]
                self.spec_active().contains_key(k) ==> self.spec_worker_key(self.spec_active()[k])
                    == Some(k),
            forall|w: WorkerId| #[trigger]
                self.spec_worker_key(w) is Some ==> self.spec_active().contains_key(
                    self.spec_worker_key(w)->0,
                ) && self.spec_active()[self.spec_worker_key(w)->0] == w,
    {
        assert forall|w: WorkerId| #[trigger]
            self.spec_worker_key(w) is Some implies self.spec_active().contains_key(
            self.spec_worker_key(w)->0,
        ) && self.spec_active()[self.spec_worker_key(w)->0] == w by {
            assert(self.worker_keys@[w as int] is Some);
        }
    }

    /// The worker indexed for `key`, if any
    pub fn active_worker(&self, key: u64) -> (r: Option<WorkerId>)
        ensures
            r == if self.spec_active().contains_key(key) {
                Some(self.spec_active()[key])
            } else {
                None
            },
    {
        match self.active_workers.get(&key) {
            Some(w) => Some(*w),
            None => None,
        }
    }

    /// The key worker `wid` is processing, by the reverse index
    pub fn worker_key(&self, wid: WorkerId) -> (r: Option<u64>)
        ensures
            r == self.spec_worker_key(wid),
    {
        if wid < self.worker_keys.len() {
            self.worker_keys[wid]
        } else {
            None
        }
    }

    /// Record that worker `wid` is processing `key` (or nothing), keeping both
    /// indexes in step
    fn update_worker_key(&mut self, wid: WorkerId, key: Option<u64>)
        requires
            old(self).wf(),
            wid < usize::MAX,
        ensures
            final(self).wf(),
            final(self).spec_active() == spec_bind(old(self).spec_active(), wid, key),
            final(self).spec_available() == old(self).spec_available(),
            final(self).spec_flags() == old(self).spec_flags(),
    {
        let ghost m = self.active_workers@;
        match key {
            Some(k) => {
                if wid < self.worker_keys.len() {
                    let bound_here = match self.worker_keys[wid] {
                        Some(k2) => k2 == k,
                        None => false,
                    };
                    let active_here = match self.active_workers.get(&k) {
                        Some(w) => *w == wid,
                        None => false,
                    };
                    if bound_here && active_here {
                        proof {
                            assert forall|k2: u64| #[trigger]
                                m.contains_key(k2) && m[k2] == wid implies k2 == k by {
                                assert(self.worker_keys@[m[k2] as int] == Some(k2));
                            }
                            assert(spec_bind(m, wid, key) =~= m);
                        }
                        return ;
                    }
                }
            },
            None => {
                let unbound = if wid < self.worker_keys.len() {
                    self.worker_keys[wid].is_none()
                } else {
                    true
                };
                if unbound {
                    proof {
                        assert forall|k2: u64| #[trigger] m.contains_key(k2) implies m[k2] != wid by {
                            assert(self.worker_keys@[m[k2] as int] == Some(k2));
                        }
                        assert(spec_bind(m, wid, key) =~= m);
                    }
                    return ;
                }
            },
        }
        // grow the reverse index to reach the worker
        while self.worker_keys.len() <= wid
            invariant
                wid < usize::MAX,
                self.wf(),
                self.active_workers@ == m,
                self.available_workers == old(self).available_workers,
            decreases wid + 1 - self.worker_keys@.len(),
        {
            self.worker_keys.push(None);
            proof {
                assert(self.worker_keys@.last() is None);
            }
        }
        // release the worker's previous key
        let previous = self.worker_keys[wid];
        self.worker_keys[wid] = None;
        if let Some(p) = previous {
            let bound = match self.active_workers.get(&p) {
                Some(w) => *w == wid,
                None => false,
            };
            if bound {
                self.active_workers.remove(&p);
            }
        }
        proof {
            assert forall|k2: u64| #[trigger]
                m.contains_key(k2) && m[k2] == wid implies previous == Some(k2) by {
                assert(old(self).worker_keys@[wid as int] == Some(k2) || self.worker_keys@.len()
                    > old(self).worker_keys@.len());
            }
            assert(self.active_workers@ =~= spec_unbind(m, wid));
            assert(self.index_wf());
        }
        let ghost m1 = self.active_workers@;
        if let Some(k) = key {
            let displaced = self.active_workers.insert(k, wid);
            if let Some(prev_wid) = displaced {
                if prev_wid != wid && prev_wid < self.worker_keys.len() {
                    let stale = match self.worker_keys[prev_wid] {
                        Some(k2) => k2 == k,
                        None => false,
                    };
                    if stale {
                        self.worker_keys[prev_wid] = None;
                    }
                }
            }
            self.worker_keys[wid] = Some(k);
            proof {
                assert(self.active_workers@ == m1.insert(k, wid));
                assert(self.index_wf());
            }
        }
    }
}

impl Default for StickyQueuerRouting {
    fn default() -> (r: Self)
        ensures
            r.wf(),
            r.spec_active() == Map::<u64, WorkerId>::empty(),
            r.spec_available() == Seq::<WorkerId>::empty(),
            r.spec_flags() == Seq::<bool>::empty(),
            forall|w: WorkerId| r.spec_worker_key(w) is None,
    {
        StickyQueuerRouting {
            available_workers: AvailableWorkers::new(),
            active_workers: HashMap::new(),
            worker_keys: Vec::new(),
        }
    }
}

impl<TMsg> Router<TMsg> for StickyQueuerRouting {
    open spec fn router_wf(&self) -> bool {
        self.wf()
    }

    /// A hinted worker may get indexed, so its id must leave room to grow the
    /// reverse index to it
    open spec fn accepts_route(&self, pool_size: usize, worker_hint: Option<WorkerId>) -> bool {
        worker_hint matches Some(h) ==> h < usize::MAX
    }

    open spec fn spec_factory_queueing(&self) -> bool {
        true
    }

    open spec fn spec_routes(
        &self,
        after: Self,
        job: Job<TMsg>,
        pool_size: usize,
        worker_hint: Option<WorkerId>,
        pool_before: Map<WorkerId, WorkerProperties<TMsg>>,
        pool_after: Map<WorkerId, WorkerProperties<TMsg>>,
        now: u64,
        r: Result<RouteResult<TMsg>, MessagingErr<()>>,
    ) -> bool {
        spec_sticky_routed(*self, after, worker_hint, pool_before, pool_after, job, now, r)
    }

    open spec fn spec_chooses(
        &self,
        after: Self,
        job: Job<TMsg>,
        pool_size: usize,
        worker_hint: Option<WorkerId>,
        pool: Map<WorkerId, WorkerProperties<TMsg>>,
        r: Option<WorkerId>,
    ) -> bool {
        spec_sticky_chose(*self, after, job.key, worker_hint, pool, r)
    }

    open spec fn spec_marks(&self, after: Self, wid: WorkerId, available: bool) -> bool {
        &&& spec_marked(
            self.spec_available(),
            after.spec_available(),
            self.spec_flags(),
            after.spec_flags(),
            wid,
            available,
        )
        &&& after.spec_active() == self.spec_active()
    }

    open spec fn spec_rekeys(&self, after: Self, wid: WorkerId, key: Option<u64>) -> bool {
        &&& after.spec_active() == spec_bind(self.spec_active(), wid, key)
        &&& after.spec_available() == self.spec_available()
        &&& after.spec_flags() == self.spec_flags()
    }

    fn route_message(
        &mut self,
        job: Job<TMsg>,
        pool_size: usize,
        worker_hint: Option<WorkerId>,
        worker_pool: &mut HashMap<WorkerId, WorkerProperties<TMsg>>,
        now: u64,
    ) -> (r: Result<RouteResult<TMsg>, MessagingErr<()>>)
        ensures
            spec_sticky_routed(
                *old(self),
                *final(self),
                worker_hint,
                old(worker_pool)@,
                final(worker_pool)@,
                job,
                now,
                r,
            ),
    {
        let wid = match self.choose_target_worker(&job, pool_size, worker_hint, worker_pool) {
            Some(wid) => wid,
            None => {
                return Ok(RouteResult::Backlog(job));
            },
        };
        if !worker_pool.contains_key(&wid) {
            self.update_worker_key(wid, None);
            return Ok(RouteResult::Backlog(job));
        }
        let key = job.key;
        match deliver(worker_pool, wid, job, now) {
            Ok(()) => {
                self.update_worker_key(wid, Some(key));
                Ok(RouteResult::Handled)
            },
            Err(e) => Err(e),
        }
    }

    fn choose_target_worker(
        &mut self,
        job: &Job<TMsg>,
        pool_size: usize,
        worker_hint: Option<WorkerId>,
        worker_pool: &HashMap<WorkerId, WorkerProperties<TMsg>>,
    ) -> (r: Option<WorkerId>)
        ensures
            spec_sticky_chose(*old(self), *final(self), job.key, worker_hint, worker_pool@, r),
            r matches Some(w) ==> worker_pool@.contains_key(w) && w < usize::MAX,
    {
        let key = job.key;
        // the worker indexed for the key; a draining worker keeps the key until
        // it finishes, so that the key never runs on two workers at once
        let current = match self.active_workers.get(&key) {
            Some(w) => Some(*w),
            None => None,
        };
        if let Some(wid) = current {
            proof {
                assert(self.active_workers@.contains_key(key));
                assert(wid < self.worker_keys@.len());
                assert(self.worker_keys@.len() == self.worker_keys.len());
            }
            if let Some(worker) = worker_pool.get(&wid) {
                if worker.is_processing_key(key) {
                    return if !worker.draining() {
                        Some(wid)
                    } else {
                        None
                    };
                }
            }
            self.update_worker_key(wid, None);
        }
        // a hinted worker processing the key (the factory did not report it)
        if let Some(h) = worker_hint {
            if let Some(worker) = worker_pool.get(&h) {
                if worker.is_processing_key(key) {
                    let is_draining = worker.draining();
                    self.update_worker_key(h, Some(key));
                    return if !is_draining {
                        Some(h)
                    } else {
                        None
                    };
                }
            }
        }
        // a free hinted worker
        if let Some(h) = worker_hint {
            if let Some(worker) = worker_pool.get(&h) {
                if worker.is_available() {
                    return worker_hint;
                }
            }
        }
        // the first free worker of the queue of available workers
        let r = self.available_workers.pop_first_free(worker_pool);
        proof {
            if let Some(w) = r {
                let i = choose|i: int|
                    #[trigger] spec_popped_at(
                        old(self).spec_available(),
                        self.spec_available(),
                        old(self).spec_flags(),
                        self.spec_flags(),
                        worker_pool@,
                        i,
                    ) && old(self).spec_available()[i] == w;
                assert(old(self).available_workers.queue@[i] < usize::MAX);
            }
        }
        r
    }

    fn can_route(&self, pool_size: usize, worker_hint: Option<WorkerId>) -> (r: bool) {
        match worker_hint {
            Some(h) => h < usize::MAX,
            None => true,
        }
    }

    fn is_factory_queueing(&self) -> (r: bool) {
        true
    }

    fn on_worker_availability_change(&mut self, wid: WorkerId, available: bool)
        ensures
            spec_marked(
                old(self).spec_available(),
                final(self).spec_available(),
                old(self).spec_flags(),
                final(self).spec_flags(),
                wid,
                available,
            ),
            final(self).spec_active() == old(self).spec_active(),
    {
        self.available_workers.mark(wid, available);
    }

    /// The worker's key is indexed (or released): see `spec_bind`
    fn on_worker_key_change(&mut self, wid: WorkerId, key: Option<u64>)
        ensures
            final(self).spec_active() == spec_bind(old(self).spec_active(), wid, key),
            final(self).spec_available() == old(self).spec_available(),
            final(self).spec_flags() == old(self).spec_flags(),
    {
        self.update_worker_key(wid, key);
    }
}

} // verus!
