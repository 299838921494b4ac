//! A factory's bookkeeping of each worker: the worker's own queue, the jobs it
//! is processing, load-shedding on its queue and its ping state. Instants and
//! durations are in nanoseconds.
use vstd::prelude::*;
use std::collections::{HashMap, VecDeque};
use std::sync::Arc;

use crate::actor_id::ActorId;
use crate::actor_ref::ActorRef;
use crate::errors::MessagingErr;
use crate::factory::discard::{DiscardHandler, DiscardMode, DiscardReason, WorkerDiscardSettings};
use crate::factory::job::{Job, JobOptions};
use crate::factory::stats::FactoryStatsLayer;
use crate::factory::{FactoryMessage, WorkerId};

verus! {

broadcast use vstd::std_specs::hash::group_hash_axioms;

/// The configuration of the dead man's switch: how long a worker may go
/// without answering a ping before it counts as stuck, and whether a stuck
/// worker is killed and restarted.
#[derive(Debug, Clone, Copy, PartialEq, Eq, Structural)]
pub struct DeadMansSwitchConfiguration {
    /// Duration before determining the worker is stuck
    pub detection_timeout: u64,
    /// Whether the stuck worker should be killed and restarted
    pub kill_worker: bool,
}

/// Builds the workers of a factory. Implemented by users of the framework.
pub trait WorkerBuilder<TWorker, TWorkerStart> {
    /// Build the worker with index `wid` and its custom startup arguments
    fn build(&self, wid: WorkerId) -> (TWorker, TWorkerStart);
}

/// A message to a worker
#[verifier::reject_recursive_types(TMsg)]
pub enum WorkerMessage<TMsg> {
    /// A ping from the factory, sent at the given instant; the worker answers
    /// with `FactoryMessage::WorkerPong`
    FactoryPing(u64),
    /// A job for the worker; when done it reports `FactoryMessage::Finished`
    Dispatch(Job<TMsg>),
}

/// The startup arguments a worker receives
#[verifier::reject_recursive_types(TMsg)]
pub struct WorkerStartContext<TMsg, TCustomStart> {
    /// The worker's identifier
    pub wid: WorkerId,
    /// The factory the worker belongs to
    pub factory: ActorRef<FactoryMessage<TMsg>>,
    /// Custom startup arguments to the worker
    pub custom_start: TCustomStart,
}

/// The queue left after dropping the expired jobs at its head.
pub open spec fn spec_skip_expired<TMsg>(q: Seq<Job<TMsg>>, now: u64) -> Seq<Job<TMsg>>
    decreases q.len(),
{
    if q.len() == 0 {
        q
    } else if q[0].options.spec_expired_at(now) {
        spec_skip_expired(q.drop_first(), now)
    } else {
        q
    }
}

/// Skipping expired jobs leaves a suffix of the queue.
pub proof fn lemma_skip_expired_suffix<TMsg>(q: Seq<Job<TMsg>>, now: u64)
    ensures
        spec_skip_expired(q, now).len() <= q.len(),
        spec_skip_expired(q, now) == q.subrange(
            q.len() - spec_skip_expired(q, now).len(),
            q.len() as int,
        ),
        spec_skip_expired(q, now).len() > 0 ==> !spec_skip_expired(
            q,
            now,
        )[0].options.spec_expired_at(now),
    decreases q.len(),
{
    if q.len() > 0 && q[0].options.spec_expired_at(now) {
        lemma_skip_expired_suffix(q.drop_first(), now);
        let s = spec_skip_expired(q.drop_first(), now);
        assert(q.drop_first().subrange(q.len() - 1 - s.len(), q.len() - 1) =~= q.subrange(
            q.len() - s.len(),
            q.len() as int,
        ));
    } else {
        assert(q.subrange(0, q.len() as int) =~= q);
    }
}

/// The queue left by shedding the oldest unexpired jobs (and the expired jobs
/// before them) until at most `limit` remain.
pub open spec fn spec_shed_oldest<TMsg>(q: Seq<Job<TMsg>>, limit: usize, now: u64) -> Seq<Job<TMsg>>
    decreases q.len(),
{
    if q.len() <= limit {
        q
    } else {
        let s = spec_skip_expired(q, now);
        if s.len() == 0 {
            s
        } else {
            proof {
                lemma_skip_expired_suffix(q, now);
            }
            spec_shed_oldest(s.drop_first(), limit, now)
        }
    }
}

/// Shedding leaves no more than the limit.
pub proof fn lemma_shed_oldest_bound<TMsg>(q: Seq<Job<TMsg>>, limit: usize, now: u64)
    ensures
        spec_shed_oldest(q, limit, now).len() <= limit || spec_shed_oldest(q, limit, now).len()
            <= q.len(),
        q.len() > limit ==> spec_shed_oldest(q, limit, now).len() <= limit,
    decreases q.len(),
{
    if q.len() > limit {
        let s = spec_skip_expired(q, now);
        lemma_skip_expired_suffix(q, now);
        if s.len() > 0 {
            lemma_shed_oldest_bound(s.drop_first(), limit, now);
        }
    }
}

/// A job as the worker holds it once accepted: its acceptance port used up.
pub open spec fn spec_accepted<TMsg>(job: Job<TMsg>) -> Job<TMsg> {
    Job { accepted: None, ..job }
}

/// A job stamped with the time a worker was sent it.
pub open spec fn spec_with_worker_time<TMsg>(job: Job<TMsg>, now: u64) -> Job<TMsg> {
    Job { options: JobOptions { worker_time: now, ..job.options }, ..job }
}

/// Whether a worker's settings reject a new job outright: newest-first
/// discarding with a limit which the queue has reached. A limit of 0 means
/// that jobs never queue, so a busy worker rejects every new job (an idle one
/// still starts it).
pub open spec fn spec_rejects_newest(settings: WorkerDiscardSettings, queue_len: nat, busy: bool) -> bool {
    settings.spec_limit_and_mode() matches Some((limit, DiscardMode::Newest)) && queue_len >= limit
        && (limit > 0 || busy)
}

/// The queue after shedding under the settings: with oldest-first discarding
/// the oldest jobs are shed down to the limit (to none for a limit of 0).
pub open spec fn spec_shed_by<TMsg>(settings: WorkerDiscardSettings, q: Seq<Job<TMsg>>, now: u64) -> Seq<
    Job<TMsg>,
> {
    match settings.spec_limit_and_mode() {
        Some((limit, DiscardMode::Oldest)) => spec_shed_oldest(q, limit, now),
        _ => q,
    }
}

/// Whether a queue of `queue_len` jobs is within a discard limit.
pub open spec fn spec_within_limit(settings: WorkerDiscardSettings, queue_len: nat) -> bool {
    match settings.spec_limit_and_mode() {
        Some((limit, _)) => queue_len <= limit,
        None => false,
    }
}

/// The job a worker starts when `job` arrives at instant `now`: a free worker
/// that does not refuse the job starts its oldest unexpired queued job, or the
/// new job when none is queued, stamped with the time; otherwise none.
pub open spec fn spec_started_job<TMsg>(w: WorkerProperties<TMsg>, job: Job<TMsg>, now: u64) -> Option<Job<TMsg>> {
    if !spec_rejects_newest(w.spec_discard_settings(), w.spec_queue().len(), !w.spec_curr_jobs().is_empty())
        && w.spec_curr_jobs().is_empty() {
        let s = spec_skip_expired(w.spec_queue(), now);
        if s.len() > 0 {
            Some(spec_with_worker_time(s[0], now))
        } else {
            Some(spec_with_worker_time(spec_accepted(job), now))
        }
    } else {
        None
    }
}

/// A free worker's queue once it started a job on the arrival of `job` at
/// instant `now`: the unexpired queued jobs after the one started, then the
/// new job (when a queued job was started), or nothing
pub open spec fn spec_queue_after_start<TMsg>(w: WorkerProperties<TMsg>, job: Job<TMsg>, now: u64) -> Seq<Job<TMsg>> {
    let s = spec_skip_expired(w.spec_queue(), now);
    if s.len() > 0 {
        s.drop_first().push(spec_accepted(job))
    } else {
        Seq::empty()
    }
}

/// What enqueueing `job` at instant `now` does to a worker (see
/// `WorkerProperties::admit_job`): identity, actor and settings stay; a job
/// refused at a full queue changes nothing; otherwise a free worker takes the
/// job's key as the one it processes, and a busy worker queues the job and sheds
/// by its settings.
pub open spec fn spec_enqueued<TMsg>(
    before: WorkerProperties<TMsg>,
    after: WorkerProperties<TMsg>,
    job: Job<TMsg>,
    now: u64,
) -> bool {
    &&& after.spec_wid() == before.spec_wid()
    &&& after.spec_actor_id() == before.spec_actor_id()
    &&& after.spec_discard_settings() == before.spec_discard_settings()
    &&& after.spec_draining() == before.spec_draining()
    &&& spec_rejects_newest(before.spec_discard_settings(), before.spec_queue().len(), !before.spec_curr_jobs().is_empty()) ==> {
        &&& after.spec_queue() == before.spec_queue()
        &&& after.spec_curr_jobs() == before.spec_curr_jobs()
    }
    &&& !spec_rejects_newest(before.spec_discard_settings(), before.spec_queue().len(), !before.spec_curr_jobs().is_empty())
        && before.spec_curr_jobs().is_empty() ==> after.spec_curr_jobs() == Map::<
        u64,
        JobOptions,
    >::empty().insert(job.key, job.options)
    &&& !spec_rejects_newest(before.spec_discard_settings(), before.spec_queue().len(), !before.spec_curr_jobs().is_empty())
        && !before.spec_curr_jobs().is_empty() ==> {
        &&& after.spec_curr_jobs() == before.spec_curr_jobs()
        &&& after.spec_queue() == spec_shed_by(
            before.spec_discard_settings(),
            before.spec_queue().push(spec_accepted(job)),
            now,
        )
    }
}

/// What the completion of the job with `key` at instant `now` does to a worker
/// (see `WorkerProperties::worker_complete`): the key is no longer processed,
/// and the next unexpired queued job, if any, is sent to the worker.
pub open spec fn spec_completed<TMsg>(
    before: WorkerProperties<TMsg>,
    after: WorkerProperties<TMsg>,
    key: u64,
    now: u64,
) -> bool {
    &&& after.spec_curr_jobs() == before.spec_curr_jobs().remove(key)
    &&& after.spec_queue() == if spec_skip_expired(before.spec_queue(), now).len() > 0 {
        spec_skip_expired(before.spec_queue(), now).drop_first()
    } else {
        Seq::<Job<TMsg>>::empty()
    }
    &&& after.spec_discard_settings() == before.spec_discard_settings()
    &&& after.spec_draining() == before.spec_draining()
    &&& after.spec_wid() == before.spec_wid()
}

/// Whether `after` is `before` with its draining status set to `draining`
pub open spec fn spec_set_draining<TMsg>(
    before: WorkerProperties<TMsg>,
    after: WorkerProperties<TMsg>,
    draining: bool,
) -> bool {
    &&& after.spec_draining() == draining
    &&& after.spec_wid() == before.spec_wid()
    &&& after.spec_actor_id() == before.spec_actor_id()
    &&& after.spec_queue() == before.spec_queue()
    &&& after.spec_curr_jobs() == before.spec_curr_jobs()
    &&& after.spec_discard_settings() == before.spec_discard_settings()
    &&& after.spec_ping_pending() == before.spec_ping_pending()
    &&& after.spec_last_ping() == before.spec_last_ping()
}

/// What replacing a worker's dead actor with the actor `actor_id` at instant
/// `now` does (see `WorkerProperties::replace_worker`): the jobs in progress are
/// lost, the ping state is reset, and the next unexpired queued job, if any,
/// goes to the new actor.
pub open spec fn spec_replaced<TMsg>(
    before: WorkerProperties<TMsg>,
    after: WorkerProperties<TMsg>,
    actor_id: ActorId,
    now: u64,
) -> bool {
    let s = spec_skip_expired(before.spec_queue(), now);
    &&& after.spec_actor_id() == actor_id
    &&& !after.spec_ping_pending()
    &&& after.spec_last_ping() == now
    &&& after.spec_wid() == before.spec_wid()
    &&& after.spec_draining() == before.spec_draining()
    &&& s.len() == 0 ==> after.spec_curr_jobs() == Map::<u64, JobOptions>::empty()
        && after.spec_queue().len() == 0
    &&& s.len() > 0 ==> after.spec_curr_jobs() == Map::<u64, JobOptions>::empty().insert(
        s[0].key,
        s[0].options,
    ) && after.spec_queue() == s.drop_first()
}

/// The factory's view of one worker
#[verifier::reject_recursive_types(TMsg)]
pub struct WorkerProperties<TMsg> {
    /// Worker identifier
    pub wid: WorkerId,
    /// Worker actor
    pub actor: ActorRef<WorkerMessage<TMsg>>,
    factory_name: String,
    message_queue: VecDeque<Job<TMsg>>,
    discard_settings: WorkerDiscardSettings,
    discard_handler: Option<Arc<dyn DiscardHandler<TMsg>>>,
    is_ping_pending: bool,
    last_ping: u64,
    stats: Option<Arc<dyn FactoryStatsLayer>>,
    curr_jobs: HashMap<u64, JobOptions>,
    /// Whether the worker is draining its work because the pool is shrinking
    pub is_draining: bool,
}

impl<TMsg> WorkerProperties<TMsg> {
    /// The worker's index in the pool
    pub closed spec fn spec_wid(&self) -> WorkerId {
        self.wid
    }

    /// The identifier of the worker's actor
    pub closed spec fn spec_actor_id(&self) -> ActorId {
        self.actor.spec_id()
    }

    /// The reference to the worker's actor
    pub closed spec fn spec_actor(&self) -> ActorRef<WorkerMessage<TMsg>> {
        self.actor
    }

    /// Whether the worker is draining
    pub closed spec fn spec_draining(&self) -> bool {
        self.is_draining
    }

    /// The worker's own queue of jobs
    pub closed spec fn spec_queue(&self) -> Seq<Job<TMsg>> {
        self.message_queue@
    }

    /// The jobs the worker is processing, by key
    pub closed spec fn spec_curr_jobs(&self) -> Map<u64, JobOptions> {
        self.curr_jobs@
    }

    /// The worker's discard settings
    pub closed spec fn spec_discard_settings(&self) -> WorkerDiscardSettings {
        self.discard_settings
    }

    /// Whether a ping to the worker is outstanding
    pub closed spec fn spec_ping_pending(&self) -> bool {
        self.is_ping_pending
    }

    /// When the last ping went out
    pub closed spec fn spec_last_ping(&self) -> u64 {
        self.last_ping
    }

    /// Bookkeeping for a new worker, created at instant `now`: nothing queued or
    /// being processed, no ping outstanding.
    pub fn new(
        factory_name: String,
        wid: WorkerId,
        actor: ActorRef<WorkerMessage<TMsg>>,
        discard_settings: WorkerDiscardSettings,
        discard_handler: Option<Arc<dyn DiscardHandler<TMsg>>>,
        stats: Option<Arc<dyn FactoryStatsLayer>>,
        now: u64,
    ) -> (r: Self)
        ensures
            r.spec_wid() == wid,
            r.spec_actor_id() == actor.spec_id(),
            r.spec_queue() == Seq::<Job<TMsg>>::empty(),
            r.spec_curr_jobs() == Map::<u64, JobOptions>::empty(),
            r.spec_discard_settings() == discard_settings,
            !r.spec_ping_pending(),
            r.spec_last_ping() == now,
            !r.spec_draining(),
    {
        WorkerProperties {
            wid,
            actor,
            factory_name,
            discard_settings,
            discard_handler,
            message_queue: VecDeque::new(),
            curr_jobs: HashMap::new(),
            is_ping_pending: false,
            last_ping: now,
            stats,
            is_draining: false,
        }
    }

    /// Pop the next job which has not expired at `now`, discarding the expired
    /// jobs before it.
    fn get_next_non_expired_job(&mut self, now: u64) -> (r: Option<Job<TMsg>>)
        ensures
            spec_skip_expired(old(self).message_queue@, now).len() == 0 ==> r is None
                && final(self).message_queue@.len() == 0,
            spec_skip_expired(old(self).message_queue@, now).len() > 0 ==> r == Some(
                spec_skip_expired(old(self).message_queue@, now)[0],
            ) && final(self).message_queue@ == spec_skip_expired(
                old(self).message_queue@,
                now,
            ).drop_first(),
            final(self).curr_jobs@ == old(self).curr_jobs@,
            final(self).discard_settings == old(self).discard_settings,
            final(self).is_ping_pending == old(self).is_ping_pending,
            final(self).last_ping == old(self).last_ping,
            final(self).spec_draining() == old(self).spec_draining(),
            final(self).spec_wid() == old(self).spec_wid(),
            final(self).actor == old(self).actor,
    {
        let ghost q = self.message_queue@;
        while self.message_queue.len() > 0
            invariant
                q == old(self).message_queue@,
                spec_skip_expired(self.message_queue@, now) == spec_skip_expired(q, now),
                self.curr_jobs@ == old(self).curr_jobs@,
                self.discard_settings == old(self).discard_settings,
                self.is_ping_pending == old(self).is_ping_pending,
                self.last_ping == old(self).last_ping,
                self.is_draining == old(self).spec_draining(),
                self.wid == old(self).spec_wid(),
                self.actor == old(self).actor,
            decreases self.message_queue@.len(),
        {
            let ghost before = self.message_queue@;
            let mut job = self.message_queue.pop_front().unwrap();
            proof {
                assert(self.message_queue@ =~= before.drop_first());
                assert(job == before[0]);
            }
            if !job.is_expired_at(now) {
                proof {
                    assert(spec_skip_expired(before, now) == before);
                }
                return Some(job);
            }
            proof {
                assert(spec_skip_expired(before, now) == spec_skip_expired(before.drop_first(), now));
            }
            if let Some(handler) = &self.discard_handler {
                handler.discard(DiscardReason::TtlExpired, &mut job);
            }
            self.stats.job_ttl_expired(self.factory_name.as_str(), 1);
        }
        None
    }

    /// Whether the actor of this worker has the given identifier
    pub fn is_pid(&self, pid: ActorId) -> (r: bool)
        ensures
            r == (self.spec_actor_id() == pid),
    {
        self.actor.get_id() == pid
    }

    /// Whether the worker is processing a job with this key
    pub fn is_processing_key(&self, key: u64) -> (r: bool)
        ensures
            r == self.spec_curr_jobs().contains_key(key),
    {
        self.curr_jobs.contains_key(&key)
    }

    /// Whether the worker is free to take a job: it processes none
    pub fn is_available(&self) -> (r: bool)
        ensures
            r == self.spec_curr_jobs().is_empty(),
    {
        self.curr_jobs.is_empty()
    }

    /// Whether the worker is processing any job
    pub fn is_working(&self) -> (r: bool)
        ensures
            r == !self.spec_curr_jobs().is_empty(),
    {
        !self.curr_jobs.is_empty()
    }

    /// Whether the worker is stuck at `now`: more than `duration` has passed
    /// since the last ping went out.
    pub fn is_stuck(&self, duration: u64, now: u64) -> (r: bool)
        ensures
            r == (now >= self.spec_last_ping() && now - self.spec_last_ping() > duration),
    {
        now >= self.last_ping && now - self.last_ping > duration
    }

    /// Take a new job in at instant `now`, and give the job the worker should be
    /// sent now, if any.
    ///
    /// With newest-first discarding, a job arriving at a full queue is shed and
    /// rejected. Otherwise the job is accepted. A free worker takes the next
    /// unexpired queued job (the new one is queued behind it), or else the new
    /// job; the new job's key counts as being processed. A busy worker queues the
    /// job, and with oldest-first discarding the oldest jobs are shed down to the
    /// limit. A queue within its limit stays within it.
    pub fn admit_job(&mut self, job: Job<TMsg>, now: u64) -> (r: Option<Job<TMsg>>)
        ensures
            r == spec_started_job(*old(self), job, now),
            final(self).spec_actor() == old(self).spec_actor(),
            final(self).spec_wid() == old(self).spec_wid(),
            final(self).spec_actor_id() == old(self).spec_actor_id(),
            final(self).spec_discard_settings() == old(self).spec_discard_settings(),
            final(self).spec_draining() == old(self).spec_draining(),
            final(self).spec_ping_pending() == old(self).spec_ping_pending(),
            final(self).spec_last_ping() == old(self).spec_last_ping(),
            spec_rejects_newest(old(self).spec_discard_settings(), old(self).spec_queue().len(), !old(self).spec_curr_jobs().is_empty()) ==> {
                &&& r is None
                &&& final(self).spec_queue() == old(self).spec_queue()
                &&& final(self).spec_curr_jobs() == old(self).spec_curr_jobs()
            },
            !spec_rejects_newest(old(self).spec_discard_settings(), old(self).spec_queue().len(), !old(self).spec_curr_jobs().is_empty())
                && old(self).spec_curr_jobs().is_empty() ==> {
                let s = spec_skip_expired(old(self).spec_queue(), now);
                &&& final(self).spec_curr_jobs() == Map::<u64, JobOptions>::empty().insert(
                    job.key,
                    job.options,
                )
                &&& s.len() > 0 ==> r == Some(spec_with_worker_time(s[0], now))
                    && final(self).spec_queue() == s.drop_first().push(spec_accepted(job))
                &&& s.len() == 0 ==> r == Some(
                    spec_with_worker_time(spec_accepted(job), now),
                ) && final(self).spec_queue().len() == 0
            },
            !spec_rejects_newest(old(self).spec_discard_settings(), old(self).spec_queue().len(), !old(self).spec_curr_jobs().is_empty())
                && !old(self).spec_curr_jobs().is_empty() ==> {
                &&& r is None
                &&& final(self).spec_curr_jobs() == old(self).spec_curr_jobs()
                &&& final(self).spec_queue() == spec_shed_by(
                    old(self).spec_discard_settings(),
                    old(self).spec_queue().push(spec_accepted(job)),
                    now,
                )
            },
            spec_within_limit(old(self).spec_discard_settings(), old(self).spec_queue().len())
                ==> spec_within_limit(old(self).spec_discard_settings(), final(self).spec_queue().len()),
    {
        let mut job = job;
        self.stats.new_job(self.factory_name.as_str());
        let ghost q = self.message_queue@;
        let ghost settings = self.discard_settings;

        if let Some((limit, DiscardMode::Newest)) = self.discard_settings.get_limit_and_mode() {
            if self.message_queue.len() >= limit && (limit > 0 || !self.curr_jobs.is_empty()) {
                // discard this job, as it is the newest (with a limit of 0,
                // jobs never queue)
                self.stats.job_discarded(self.factory_name.as_str());
                if let Some(handler) = &self.discard_handler {
                    handler.discard(DiscardReason::Loadshed, &mut job);
                }
                job.reject();
                return None;
            }
        }
        // a job which is not shed on arrival is accepted

        let ghost given = job;
        job.accept();
        proof {
            assert(job == spec_accepted(given));
        }
        if self.curr_jobs.is_empty() {
            self.curr_jobs.insert(job.key, job.options);
            proof {
                assert(self.curr_jobs@ =~= Map::<u64, JobOptions>::empty().insert(
                    given.key,
                    given.options,
                ));
                lemma_skip_expired_suffix(q, now);
            }
            if let Some(mut older_job) = self.get_next_non_expired_job(now) {
                self.message_queue.push_back(job);
                older_job.set_worker_time(now);
                return Some(older_job);
            } else {
                job.set_worker_time(now);
                return Some(job);
            }
        }
        self.message_queue.push_back(job);
        let ghost pushed = self.message_queue@;

        if let Some((limit, DiscardMode::Oldest)) = self.discard_settings.get_limit_and_mode() {
            {
                // shed the oldest jobs
                while self.message_queue.len() > limit
                    invariant
                        spec_shed_oldest(self.message_queue@, limit, now) == spec_shed_oldest(
                            pushed,
                            limit,
                            now,
                        ),
                        self.curr_jobs@ == old(self).curr_jobs@,
                        self.discard_settings == settings,
                        self.is_ping_pending == old(self).is_ping_pending,
                        self.last_ping == old(self).last_ping,
                        self.is_draining == old(self).is_draining,
                        self.wid == old(self).wid,
                        self.actor == old(self).actor,
                    decreases self.message_queue@.len(),
                {
                    let ghost before = self.message_queue@;
                    proof {
                        lemma_skip_expired_suffix(before, now);
                    }
                    if let Some(mut discarded) = self.get_next_non_expired_job(now) {
                        self.stats.job_discarded(self.factory_name.as_str());
                        if let Some(handler) = &self.discard_handler {
                            handler.discard(DiscardReason::Loadshed, &mut discarded);
                        }
                    }
                }
                proof {
                    assert(spec_shed_oldest(self.message_queue@, limit, now) == self.message_queue@);
                    lemma_shed_oldest_bound(pushed, limit, now);
                }
            }
        }
        None
    }

    /// Enqueue a new job to this worker at instant `now` (see `admit_job`), and
    /// send the worker the job it should start, if any.
    pub fn enqueue_job(&mut self, job: Job<TMsg>, now: u64) -> (r: Result<
        (),
        MessagingErr<WorkerMessage<TMsg>>,
    >)
        ensures
            final(self).spec_wid() == old(self).spec_wid(),
            final(self).spec_actor_id() == old(self).spec_actor_id(),
            final(self).spec_discard_settings() == old(self).spec_discard_settings(),
            final(self).spec_draining() == old(self).spec_draining(),
            spec_rejects_newest(old(self).spec_discard_settings(), old(self).spec_queue().len(), !old(self).spec_curr_jobs().is_empty())
                ==> final(self).spec_queue() == old(self).spec_queue() && final(self).spec_curr_jobs() == old(self).spec_curr_jobs(),
            !spec_rejects_newest(old(self).spec_discard_settings(), old(self).spec_queue().len(), !old(self).spec_curr_jobs().is_empty())
                && old(self).spec_curr_jobs().is_empty() ==> final(self).spec_curr_jobs() == Map::<
                u64,
                JobOptions,
            >::empty().insert(job.key, job.options),
            !spec_rejects_newest(old(self).spec_discard_settings(), old(self).spec_queue().len(), !old(self).spec_curr_jobs().is_empty())
                && !old(self).spec_curr_jobs().is_empty() ==> final(self).spec_curr_jobs() == old(self).spec_curr_jobs() && final(self).spec_queue() == spec_shed_by(
                old(self).spec_discard_settings(),
                old(self).spec_queue().push(spec_accepted(job)),
                now,
            ),
            spec_within_limit(old(self).spec_discard_settings(), old(self).spec_queue().len())
                ==> spec_within_limit(old(self).spec_discard_settings(), final(self).spec_queue().len()),
            spec_enqueued(*old(self), *final(self), job, now),
            final(self).spec_actor() == old(self).spec_actor(),
            spec_started_job(*old(self), job, now) is Some ==> final(self).spec_queue()
                == spec_queue_after_start(*old(self), job, now),
            match spec_started_job(*old(self), job, now) {
                Some(started) => match r {
                    Ok(()) => old(self).spec_actor().spec_sent(WorkerMessage::Dispatch(started)),
                    Err(e) => e == MessagingErr::SendErr(WorkerMessage::Dispatch(started)),
                },
                None => r is Ok,
            },
    {
        match self.admit_job(job, now) {
            Some(to_dispatch) => {
                match self.actor.cast(WorkerMessage::Dispatch(to_dispatch)) {
                    Ok(()) => Ok(()),
                    Err(e) => Err(e),
                }
            },
            None => Ok(()),
        }
    }

    /// Send a ping to the worker at instant `now`, unless one is outstanding
    pub fn send_factory_ping(&mut self, now: u64) -> (r: Result<(), MessagingErr<WorkerMessage<TMsg>>>)
        ensures
            final(self).spec_ping_pending(),
            final(self).spec_queue() == old(self).spec_queue(),
            final(self).spec_curr_jobs() == old(self).spec_curr_jobs(),
            final(self).spec_last_ping() == old(self).spec_last_ping(),
            final(self).spec_discard_settings() == old(self).spec_discard_settings(),
            old(self).spec_ping_pending() ==> r is Ok,
            final(self).spec_actor() == old(self).spec_actor(),
            !old(self).spec_ping_pending() ==> (r is Ok ==> old(self).spec_actor().spec_sent(
                WorkerMessage::<TMsg>::FactoryPing(now),
            )) && (r matches Err(e) ==> e == MessagingErr::SendErr(WorkerMessage::<TMsg>::FactoryPing(now))),
    {
        if !self.is_ping_pending {
            self.is_ping_pending = true;
            self.actor.cast(WorkerMessage::FactoryPing(now))
        } else {
            Ok(())
        }
    }

    /// The worker answered a ping after `time`; the factory hands it the current
    /// discard limit.
    pub fn ping_received(&mut self, time: u64, discard_limit: usize)
        ensures
            !final(self).spec_ping_pending(),
            final(self).spec_queue() == old(self).spec_queue(),
            final(self).spec_curr_jobs() == old(self).spec_curr_jobs(),
            final(self).spec_discard_settings() == match old(self).spec_discard_settings() {
                WorkerDiscardSettings::Disabled => WorkerDiscardSettings::Disabled,
                WorkerDiscardSettings::Static { mode, .. } => WorkerDiscardSettings::Static {
                    limit: discard_limit,
                    mode,
                },
            },
    {
        self.discard_settings.update_worker_limit(discard_limit);
        self.stats.worker_ping_received(self.factory_name.as_str(), time);
        self.is_ping_pending = false;
    }

    /// The worker finished the job with `key`: it no longer counts as being
    /// processed, and the next unexpired queued job (if any) is sent to the
    /// worker. Gives the finished job's options, if it was being processed.
    pub fn worker_complete(&mut self, key: u64, now: u64) -> (r: Result<
        Option<JobOptions>,
        MessagingErr<WorkerMessage<TMsg>>,
    >)
        ensures
            final(self).spec_curr_jobs() == old(self).spec_curr_jobs().remove(key),
            final(self).spec_queue() == if spec_skip_expired(old(self).spec_queue(), now).len()
                > 0 {
                spec_skip_expired(old(self).spec_queue(), now).drop_first()
            } else {
                Seq::<Job<TMsg>>::empty()
            },
            final(self).spec_discard_settings() == old(self).spec_discard_settings(),
            final(self).spec_draining() == old(self).spec_draining(),
            final(self).spec_wid() == old(self).spec_wid(),
            r matches Ok(o) ==> o == if old(self).spec_curr_jobs().contains_key(key) {
                Some(old(self).spec_curr_jobs()[key])
            } else {
                None
            },
            spec_completed(*old(self), *final(self), key, now),
            final(self).spec_actor() == old(self).spec_actor(),
            spec_skip_expired(old(self).spec_queue(), now).len() > 0 ==> {
                let next = spec_with_worker_time(spec_skip_expired(old(self).spec_queue(), now)[0], now);
                &&& r is Ok ==> old(self).spec_actor().spec_sent(WorkerMessage::Dispatch(next))
                &&& r matches Err(e) ==> e == MessagingErr::SendErr(WorkerMessage::Dispatch(next))
            },
            spec_skip_expired(old(self).spec_queue(), now).len() == 0 ==> r is Ok,
    {
        let options = self.curr_jobs.remove(&key);
        proof {
            assert(self.curr_jobs@ =~= old(self).curr_jobs@.remove(key));
        }
        let ghost mid = self.message_queue@;
        let next = self.get_next_non_expired_job(now);
        proof {
            if spec_skip_expired(mid, now).len() == 0 {
                assert(self.message_queue@ =~= Seq::<Job<TMsg>>::empty());
            }
        }
        if let Some(mut job) = next {
            job.set_worker_time(now);
            if let Err(e) = self.actor.cast(WorkerMessage::Dispatch(job)) {
                return Err(e);
            }
        }
        Ok(options)
    }

    /// Replace the worker's actor (after it died) at instant `now`: the jobs it
    /// was processing are lost, its ping state is reset, and the next unexpired
    /// queued job (if any) is sent to the new actor and counts as being processed.
    pub fn replace_worker(&mut self, nworker: ActorRef<WorkerMessage<TMsg>>, now: u64) -> (r: Result<
        (),
        MessagingErr<WorkerMessage<TMsg>>,
    >)
        ensures
            final(self).spec_actor_id() == nworker.spec_id(),
            !final(self).spec_ping_pending(),
            final(self).spec_last_ping() == now,
            final(self).spec_wid() == old(self).spec_wid(),
            final(self).spec_draining() == old(self).spec_draining(),
            spec_skip_expired(old(self).spec_queue(), now).len() == 0 ==> final(self).spec_curr_jobs() == Map::<u64, JobOptions>::empty() && final(self).spec_queue().len()
                == 0,
            spec_skip_expired(old(self).spec_queue(), now).len() > 0 ==> {
                let next = spec_skip_expired(old(self).spec_queue(), now)[0];
                &&& final(self).spec_curr_jobs() == Map::<u64, JobOptions>::empty().insert(
                    next.key,
                    next.options,
                )
                &&& final(self).spec_queue() == spec_skip_expired(
                    old(self).spec_queue(),
                    now,
                ).drop_first()
            },
            spec_replaced(*old(self), *final(self), nworker.spec_id(), now),
            final(self).spec_actor() == nworker,
            spec_skip_expired(old(self).spec_queue(), now).len() > 0 ==> {
                let next = spec_with_worker_time(spec_skip_expired(old(self).spec_queue(), now)[0], now);
                &&& r is Ok ==> nworker.spec_sent(WorkerMessage::Dispatch(next))
                &&& r matches Err(e) ==> e == MessagingErr::SendErr(WorkerMessage::Dispatch(next))
            },
            spec_skip_expired(old(self).spec_queue(), now).len() == 0 ==> r is Ok,
    {
        self.is_ping_pending = false;
        self.last_ping = now;
        self.curr_jobs.clear();
        self.actor = nworker;
        if let Some(mut job) = self.get_next_non_expired_job(now) {
            self.curr_jobs.insert(job.key, job.options);
            proof {
                assert(self.curr_jobs@ =~= Map::<u64, JobOptions>::empty().insert(
                    job.key,
                    job.options,
                ));
            }
            job.set_worker_time(now);
            if let Err(e) = self.actor.cast(WorkerMessage::Dispatch(job)) {
                return Err(e);
            }
        }
        Ok(())
    }

    /// Whether the worker is draining
    pub(crate) fn draining(&self) -> (r: bool)
        ensures
            r == self.spec_draining(),
    {
        self.is_draining
    }

    /// Set the draining status of the worker
    pub fn set_draining(&mut self, is_draining: bool)
        ensures
            spec_set_draining(*old(self), *final(self), is_draining),
    {
        self.is_draining = is_draining;
    }
}

/// Enqueueing loses no job: when a free worker starts a job on the arrival of
/// `job`, every unexpired job it held and the new job are either still queued
/// or were sent to the worker's actor (stamped with the time).
pub proof fn lemma_enqueue_keeps_every_job<TMsg>(
    before: WorkerProperties<TMsg>,
    after: WorkerProperties<TMsg>,
    job: Job<TMsg>,
    now: u64,
    started: Job<TMsg>,
)
    requires
        spec_started_job(before, job, now) == Some(started),
        after.spec_queue() == spec_queue_after_start(before, job, now),
        after.spec_actor() == before.spec_actor(),
        before.spec_actor().spec_sent(WorkerMessage::Dispatch(started)),
    ensures
        forall|x: Job<TMsg>|
            #![trigger spec_with_worker_time(x, now)]
            spec_skip_expired(before.spec_queue(), now).contains(x) || x == spec_accepted(job) ==> (
            after.spec_queue().contains(x) || after.spec_actor().spec_sent(
                WorkerMessage::Dispatch(spec_with_worker_time(x, now)),
            )),
{
    let s = spec_skip_expired(before.spec_queue(), now);
    assert forall|x: Job<TMsg>|
        #![trigger spec_with_worker_time(x, now)]
        s.contains(x) || x == spec_accepted(job) implies (after.spec_queue().contains(x)
            || after.spec_actor().spec_sent(WorkerMessage::Dispatch(spec_with_worker_time(x, now)))) by {
        if s.len() > 0 {
            let q = s.drop_first().push(spec_accepted(job));
            if x == spec_accepted(job) {
                assert(q[q.len() - 1] == x);
            } else {
                let i = choose|i: int| 0 <= i < s.len() && s[i] == x;
                if i > 0 {
                    assert(q[i - 1] == x);
                }
            }
        }
    }
}

/// A replaced worker resumes its work: after a successful replacement, every
/// job it counts as being processed was sent to the new actor, stamped with the
/// time of the replacement.
pub proof fn lemma_replacement_sends_what_it_processes<TMsg>(
    before: WorkerProperties<TMsg>,
    after: WorkerProperties<TMsg>,
    nworker: ActorRef<WorkerMessage<TMsg>>,
    now: u64,
)
    requires
        spec_replaced(before, after, nworker.spec_id(), now),
        spec_skip_expired(before.spec_queue(), now).len() > 0 ==> nworker.spec_sent(
            WorkerMessage::Dispatch(
                spec_with_worker_time(spec_skip_expired(before.spec_queue(), now)[0], now),
            ),
        ),
    ensures
        forall|k: u64|
            #[trigger] after.spec_curr_jobs().contains_key(k) ==> exists|j: Job<TMsg>|
                #[trigger] nworker.spec_sent(WorkerMessage::Dispatch(j)) && j.key == k
                    && j.options.worker_time == now,
{
    let s = spec_skip_expired(before.spec_queue(), now);
    assert forall|k: u64| #[trigger] after.spec_curr_jobs().contains_key(k) implies exists|j: Job<TMsg>|
        #[trigger] nworker.spec_sent(WorkerMessage::Dispatch(j)) && j.key == k && j.options.worker_time
            == now by {
        if s.len() > 0 {
            let j = spec_with_worker_time(s[0], now);
            assert(nworker.spec_sent(WorkerMessage::Dispatch(j)));
        }
    }
}

} // verus!
