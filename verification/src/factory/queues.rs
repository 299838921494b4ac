//! The queues a factory keeps jobs in while all workers are busy: a plain
//! first-in first-out queue, and a queue with a bucket per priority.
use vstd::prelude::*;
use std::collections::VecDeque;

use crate::factory::job::Job;

verus! {

/// The jobs of `s` which have not expired at instant `now`, in order.
pub open spec fn spec_unexpired<TMsg>(s: Seq<Job<TMsg>>, now: u64) -> Seq<Job<TMsg>>
    decreases s.len(),
{
    if s.len() == 0 {
        Seq::empty()
    } else {
        let rest = spec_unexpired(s.drop_last(), now);
        if s.last().options.spec_expired_at(now) {
            rest
        } else {
            rest.push(s.last())
        }
    }
}

/// Keeping the unexpired jobs of a concatenation keeps those of each part.
pub proof fn lemma_unexpired_concat<TMsg>(a: Seq<Job<TMsg>>, b: Seq<Job<TMsg>>, now: u64)
    ensures
        spec_unexpired(a + b, now) == spec_unexpired(a, now) + spec_unexpired(b, now),
    decreases b.len(),
{
    if b.len() == 0 {
        assert(a + b =~= a);
        assert(spec_unexpired(b, now) =~= Seq::<Job<TMsg>>::empty());
        assert(spec_unexpired(a, now) + spec_unexpired(b, now) =~= spec_unexpired(a, now));
    } else {
        lemma_unexpired_concat(a, b.drop_last(), now);
        assert((a + b).drop_last() =~= a + b.drop_last());
        assert((a + b).last() == b.last());
        if b.last().options.spec_expired_at(now) {
        } else {
            assert(spec_unexpired(a, now) + spec_unexpired(b.drop_last(), now).push(b.last()) =~= (
            spec_unexpired(a, now) + spec_unexpired(b.drop_last(), now)).push(b.last()));
        }
    }
}

/// No job is added by dropping the expired ones.
pub proof fn lemma_unexpired_len<TMsg>(s: Seq<Job<TMsg>>, now: u64)
    ensures
        spec_unexpired(s, now).len() <= s.len(),
    decreases s.len(),
{
    if s.len() > 0 {
        lemma_unexpired_len(s.drop_last(), now);
    }
}

/// The jobs of `s` which have expired at instant `now`, in order.
pub open spec fn spec_expired<TMsg>(s: Seq<Job<TMsg>>, now: u64) -> Seq<Job<TMsg>>
    decreases s.len(),
{
    if s.len() == 0 {
        Seq::empty()
    } else {
        let rest = spec_expired(s.drop_last(), now);
        if s.last().options.spec_expired_at(now) {
            rest.push(s.last())
        } else {
            rest
        }
    }
}

/// The expired jobs of a concatenation are those of each part.
pub proof fn lemma_expired_concat<TMsg>(a: Seq<Job<TMsg>>, b: Seq<Job<TMsg>>, now: u64)
    ensures
        spec_expired(a + b, now) == spec_expired(a, now) + spec_expired(b, now),
    decreases b.len(),
{
    if b.len() == 0 {
        assert(a + b =~= a);
        assert(spec_expired(b, now) =~= Seq::<Job<TMsg>>::empty());
        assert(spec_expired(a, now) + spec_expired(b, now) =~= spec_expired(a, now));
    } else {
        lemma_expired_concat(a, b.drop_last(), now);
        assert((a + b).drop_last() =~= a + b.drop_last());
        assert((a + b).last() == b.last());
        if b.last().options.spec_expired_at(now) {
            assert(spec_expired(a, now) + spec_expired(b.drop_last(), now).push(b.last()) =~= (
            spec_expired(a, now) + spec_expired(b.drop_last(), now)).push(b.last()));
        }
    }
}

/// Every job has either expired or not.
pub proof fn lemma_expired_split_len<TMsg>(s: Seq<Job<TMsg>>, now: u64)
    ensures
        spec_expired(s, now).len() + spec_unexpired(s, now).len() == s.len(),
    decreases s.len(),
{
    if s.len() > 0 {
        lemma_expired_split_len(s.drop_last(), now);
    }
}

/// The backing queue of a factory, holding jobs while all workers are busy.
/// `spec_items` lists the jobs in the order `pop_front` hands them out.
pub trait Queue<TMsg> {
    /// The jobs held, in the order they will be popped
    spec fn spec_items(&self) -> Seq<Job<TMsg>>;

    /// The queue's internal consistency, which every operation keeps
    spec fn spec_wf(&self) -> bool;

    /// The jobs held, in the order `discard_oldest` sheds them
    spec fn spec_shed_order(&self) -> Seq<Job<TMsg>>;

    /// Whether the queue can take a job at all
    spec fn spec_takes_jobs(&self) -> bool;

    /// Whether the queue can take a job at all
    fn takes_jobs(&self) -> (r: bool)
        ensures
            r == self.spec_takes_jobs(),
    ;

    /// The number of jobs held
    fn len(&self) -> (r: usize)
        requires
            self.spec_wf(),
        ensures
            r == self.spec_items().len(),
    ;

    /// Whether no job is held
    fn is_empty(&self) -> (r: bool)
        requires
            self.spec_wf(),
        ensures
            r == (self.spec_items().len() == 0),
    ;

    /// Pop the next job
    fn pop_front(&mut self) -> (r: Option<Job<TMsg>>)
        requires
            old(self).spec_wf(),
        ensures
            final(self).spec_wf(),
            final(self).spec_takes_jobs() == old(self).spec_takes_jobs(),
            old(self).spec_items().len() == 0 ==> r is None && final(self).spec_items() == old(self).spec_items(),
            old(self).spec_items().len() > 0 ==> r == Some(old(self).spec_items()[0])
                && final(self).spec_items() == old(self).spec_items().drop_first(),
    ;

    /// Discard a job under overload: the one the queue values least (with
    /// priorities, the oldest job of the lowest priority; otherwise the next one)
    fn discard_oldest(&mut self) -> (r: Option<Job<TMsg>>)
        requires
            old(self).spec_wf(),
        ensures
            final(self).spec_wf(),
            final(self).spec_takes_jobs() == old(self).spec_takes_jobs(),
            old(self).spec_items().len() == 0 ==> r is None && final(self).spec_items() == old(self).spec_items(),
            old(self).spec_items().len() > 0 ==> exists|i: int|
                0 <= i < old(self).spec_items().len() && r == Some(#[trigger] old(self).spec_items()[i]) && final(self).spec_items() == old(self).spec_items().remove(i),
            old(self).spec_shed_order().len() == old(self).spec_items().len(),
            old(self).spec_items().len() == 0 ==> final(self).spec_shed_order() == old(self).spec_shed_order(),
            old(self).spec_items().len() > 0 ==> r == Some(old(self).spec_shed_order()[0])
                && final(self).spec_shed_order() == old(self).spec_shed_order().drop_first(),
    ;

    /// The next job, without removing it
    fn peek(&self) -> (r: Option<&Job<TMsg>>)
        requires
            self.spec_wf(),
        ensures
            self.spec_items().len() == 0 ==> r is None,
            self.spec_items().len() > 0 ==> r == Some(&self.spec_items()[0]),
    ;

    /// Add a job; it goes after every job it does not take priority over.
    fn push_back(&mut self, job: Job<TMsg>)
        requires
            old(self).spec_wf(),
            old(self).spec_takes_jobs(),
            old(self).spec_items().len() < usize::MAX,
        ensures
            final(self).spec_wf(),
            final(self).spec_takes_jobs() == old(self).spec_takes_jobs(),
            exists|i: int|
                0 <= i <= old(self).spec_items().len() && final(self).spec_items() == old(self).spec_items().insert(i, job),
            old(self).spec_shed_order().len() == old(self).spec_items().len(),
            exists|k: int|
                0 <= k <= old(self).spec_shed_order().len() && final(self).spec_shed_order()
                    == old(self).spec_shed_order().insert(k, job),
    ;

    /// Remove the jobs which have expired at instant `now`, and give them, in
    /// queue order, for the caller to hand each to the discard handler (with
    /// reason `Loadshed`)
    fn remove_expired_items(&mut self, now: u64) -> (r: Vec<Job<TMsg>>)
        requires
            old(self).spec_wf(),
        ensures
            final(self).spec_wf(),
            final(self).spec_takes_jobs() == old(self).spec_takes_jobs(),
            final(self).spec_items() == spec_unexpired(old(self).spec_items(), now),
            r@ == spec_expired(old(self).spec_items(), now),
    ;

    /// Whether `r` is an answer the queue may give on whether a job with this
    /// key may be discarded under load
    spec fn spec_discardable(&self, key: u64, r: bool) -> bool;

    /// Whether a job with this key may be discarded under load
    fn is_job_discardable(&self, key: u64) -> (r: bool)
        requires
            self.spec_wf(),
        ensures
            self.spec_discardable(key, r),
    ;
}

/// Move the jobs of `from` which have not expired at `now` to the back of
/// `kept`, and the expired ones to the back of `gone`.
fn drain_unexpired<TMsg>(
    from: &mut VecDeque<Job<TMsg>>,
    kept: &mut VecDeque<Job<TMsg>>,
    gone: &mut Vec<Job<TMsg>>,
    now: u64,
)
    ensures
        final(from)@.len() == 0,
        final(kept)@ == old(kept)@ + spec_unexpired(old(from)@, now),
        final(gone)@ == old(gone)@ + spec_expired(old(from)@, now),
{
    let ghost orig = from@;
    let ghost start = kept@;
    let ghost start_gone = gone@;
    let n = from.len();
    let mut i: usize = 0;
    proof {
        assert(orig.subrange(0, 0) =~= Seq::<Job<TMsg>>::empty());
        assert(start + Seq::<Job<TMsg>>::empty() =~= start);
        assert(start_gone + Seq::<Job<TMsg>>::empty() =~= start_gone);
    }
    while from.len() > 0
        invariant
            orig.len() == n,
            0 <= i <= orig.len(),
            from@ == orig.subrange(i as int, orig.len() as int),
            kept@ == start + spec_unexpired(orig.subrange(0, i as int), now),
            gone@ == start_gone + spec_expired(orig.subrange(0, i as int), now),
        decreases from@.len(),
    {
        let job = from.pop_front().unwrap();
        proof {
            assert(job == orig[i as int]);
            assert(orig.subrange(0, i + 1).drop_last() =~= orig.subrange(0, i as int));
            assert(orig.subrange(0, i + 1).last() == orig[i as int]);
        }
        if job.is_expired_at(now) {
            gone.push(job);
            proof {
                assert(start_gone + spec_expired(orig.subrange(0, i as int), now).push(orig[i as int])
                    =~= (start_gone + spec_expired(orig.subrange(0, i as int), now)).push(
                    orig[i as int],
                ));
            }
        } else {
            kept.push_back(job);
            proof {
                assert(start + spec_unexpired(orig.subrange(0, i as int), now).push(orig[i as int])
                    =~= (start + spec_unexpired(orig.subrange(0, i as int), now)).push(
                    orig[i as int],
                ));
            }
        }
        i = i + 1;
    }
    proof {
        assert(orig.subrange(0, i as int) =~= orig);
    }
}

// =============== Default Queue ================= //
/// A simple queue without priorities: first in, first out
#[verifier::reject_recursive_types(TMsg)]
pub struct DefaultQueue<TMsg> {
    q: VecDeque<Job<TMsg>>,
}

impl<TMsg> DefaultQueue<TMsg> {
    /// An empty queue
    pub fn new() -> (r: Self)
        ensures
            r.spec_items() == Seq::<Job<TMsg>>::empty(),
            r.spec_wf(),
    {
        DefaultQueue { q: VecDeque::new() }
    }
}

impl<TMsg> Queue<TMsg> for DefaultQueue<TMsg> {
    closed spec fn spec_items(&self) -> Seq<Job<TMsg>> {
        self.q@
    }

    open spec fn spec_wf(&self) -> bool {
        true
    }

    /// First in, first shed
    closed spec fn spec_shed_order(&self) -> Seq<Job<TMsg>> {
        self.q@
    }

    open spec fn spec_takes_jobs(&self) -> bool {
        true
    }

    fn takes_jobs(&self) -> (r: bool) {
        true
    }

    fn len(&self) -> (r: usize) {
        self.q.len()
    }

    fn is_empty(&self) -> (r: bool) {
        self.q.len() == 0
    }

    fn pop_front(&mut self) -> (r: Option<Job<TMsg>>) {
        let r = self.q.pop_front();
        proof {
            if old(self).q@.len() > 0 {
                assert(old(self).q@.subrange(1, old(self).q@.len() as int) =~= old(self).q@.drop_first());
            }
        }
        r
    }

    fn discard_oldest(&mut self) -> (r: Option<Job<TMsg>>) {
        let r = self.pop_front();
        proof {
            if old(self).q@.len() > 0 {
                assert(old(self).q@.remove(0) =~= old(self).q@.drop_first());
                assert(r == Some(old(self).spec_items()[0]));
            }
        }
        r
    }

    fn peek(&self) -> (r: Option<&Job<TMsg>>) {
        if self.q.len() == 0 {
            None
        } else {
            Some(&self.q[0])
        }
    }

    fn push_back(&mut self, job: Job<TMsg>) {
        self.q.push_back(job);
        proof {
            assert(old(self).q@.insert(old(self).q@.len() as int, job) =~= old(self).q@.push(job));
        }
    }

    fn remove_expired_items(&mut self, now: u64) -> (r: Vec<Job<TMsg>>) {
        let mut kept: VecDeque<Job<TMsg>> = VecDeque::new();
        let mut gone: Vec<Job<TMsg>> = Vec::new();
        drain_unexpired(&mut self.q, &mut kept, &mut gone, now);
        self.q = kept;
        proof {
            assert(Seq::<Job<TMsg>>::empty() + spec_unexpired(old(self).q@, now) =~= spec_unexpired(
                old(self).q@,
                now,
            ));
            assert(Seq::<Job<TMsg>>::empty() + spec_expired(old(self).q@, now) =~= spec_expired(
                old(self).q@,
                now,
            ));
        }
        gone
    }

    /// Every job of the default queue may be discarded
    open spec fn spec_discardable(&self, key: u64, r: bool) -> bool {
        r
    }

    fn is_job_discardable(&self, key: u64) -> (r: bool) {
        true
    }
}

/// The concatenation of a sequence of sequences.
pub open spec fn spec_flatten<T>(b: Seq<Seq<T>>) -> Seq<T>
    decreases b.len(),
{
    if b.len() == 0 {
        Seq::empty()
    } else {
        spec_flatten(b.drop_last()) + b.last()
    }
}

/// Flattening a concatenation concatenates the flattened parts.
pub proof fn lemma_flatten_concat<T>(a: Seq<Seq<T>>, b: Seq<Seq<T>>)
    ensures
        spec_flatten(a + b) == spec_flatten(a) + spec_flatten(b),
    decreases b.len(),
{
    if b.len() == 0 {
        assert(a + b =~= a);
        assert(spec_flatten(a) + spec_flatten(b) =~= spec_flatten(a));
    } else {
        lemma_flatten_concat(a, b.drop_last());
        assert((a + b).drop_last() =~= a + b.drop_last());
        assert(spec_flatten(a) + (spec_flatten(b.drop_last()) + b.last()) =~= (spec_flatten(a)
            + spec_flatten(b.drop_last())) + b.last());
    }
}

/// Empty parts flatten to nothing.
pub proof fn lemma_flatten_all_empty<T>(b: Seq<Seq<T>>)
    requires
        forall|j: int| 0 <= j < b.len() ==> #[trigger] b[j].len() == 0,
    ensures
        spec_flatten(b).len() == 0,
    decreases b.len(),
{
    if b.len() > 0 {
        lemma_flatten_all_empty(b.drop_last());
    }
}

/// The flattening around part `i`: the parts before it, it, and the parts after.
pub proof fn lemma_flatten_split<T>(b: Seq<Seq<T>>, i: int)
    requires
        0 <= i < b.len(),
    ensures
        spec_flatten(b) == spec_flatten(b.subrange(0, i)) + b[i] + spec_flatten(
            b.subrange(i + 1, b.len() as int),
        ),
{
    let pre = b.subrange(0, i);
    let mid = seq![b[i]];
    let post = b.subrange(i + 1, b.len() as int);
    assert(b =~= pre + mid + post);
    lemma_flatten_concat(pre + mid, post);
    lemma_flatten_concat(pre, mid);
    assert(mid.drop_last() =~= Seq::<Seq<T>>::empty());
    assert(spec_flatten(mid.drop_last()) =~= Seq::<T>::empty());
    assert(spec_flatten(mid) == spec_flatten(mid.drop_last()) + mid.last());
    assert(spec_flatten(mid) =~= b[i]);
}

/// The concatenation of a sequence of sequences, last part first.
pub open spec fn spec_flatten_rev<T>(b: Seq<Seq<T>>) -> Seq<T>
    decreases b.len(),
{
    if b.len() == 0 {
        Seq::empty()
    } else {
        b.last() + spec_flatten_rev(b.drop_last())
    }
}

/// Flattening a concatenation last part first puts the second half first.
pub proof fn lemma_flatten_rev_concat<T>(a: Seq<Seq<T>>, c: Seq<Seq<T>>)
    ensures
        spec_flatten_rev(a + c) == spec_flatten_rev(c) + spec_flatten_rev(a),
    decreases c.len(),
{
    if c.len() == 0 {
        assert(a + c =~= a);
        assert(spec_flatten_rev(c) + spec_flatten_rev(a) =~= spec_flatten_rev(a));
    } else {
        lemma_flatten_rev_concat(a, c.drop_last());
        assert((a + c).drop_last() =~= a + c.drop_last());
        assert(c.last() + (spec_flatten_rev(c.drop_last()) + spec_flatten_rev(a)) =~= (c.last()
            + spec_flatten_rev(c.drop_last())) + spec_flatten_rev(a));
    }
}

/// Both flattenings hold as many elements.
pub proof fn lemma_flatten_rev_len<T>(b: Seq<Seq<T>>)
    ensures
        spec_flatten_rev(b).len() == spec_flatten(b).len(),
    decreases b.len(),
{
    if b.len() > 0 {
        lemma_flatten_rev_len(b.drop_last());
    }
}

/// The flattening last part first around part `i`: the parts after it, it,
/// and the parts before.
pub proof fn lemma_flatten_rev_split<T>(b: Seq<Seq<T>>, i: int)
    requires
        0 <= i < b.len(),
    ensures
        spec_flatten_rev(b) == spec_flatten_rev(b.subrange(i + 1, b.len() as int)) + b[i]
            + spec_flatten_rev(b.subrange(0, i)),
{
    let pre = b.subrange(0, i);
    let mid = seq![b[i]];
    let post = b.subrange(i + 1, b.len() as int);
    assert(b =~= pre + mid + post);
    lemma_flatten_rev_concat(pre + mid, post);
    lemma_flatten_rev_concat(pre, mid);
    assert(mid.drop_last() =~= Seq::<Seq<T>>::empty());
    assert(spec_flatten_rev(mid.drop_last()) =~= Seq::<T>::empty());
    assert(spec_flatten_rev(mid) == mid.last() + spec_flatten_rev(mid.drop_last()));
    assert(spec_flatten_rev(mid) =~= b[i]);
    assert(spec_flatten_rev(post) + (b[i] + spec_flatten_rev(pre)) =~= spec_flatten_rev(post) + b[i]
        + spec_flatten_rev(pre));
}

/// Empty parts flatten to nothing, last part first too.
pub proof fn lemma_flatten_rev_all_empty<T>(b: Seq<Seq<T>>)
    requires
        forall|j: int| 0 <= j < b.len() ==> #[trigger] b[j].len() == 0,
    ensures
        spec_flatten_rev(b).len() == 0,
    decreases b.len(),
{
    if b.len() > 0 {
        lemma_flatten_rev_all_empty(b.drop_last());
    }
}

/// Keeping the unexpired jobs of each part keeps the unexpired jobs of the whole.
pub proof fn lemma_flatten_unexpired<TMsg>(b: Seq<Seq<Job<TMsg>>>, c: Seq<Seq<Job<TMsg>>>, now: u64)
    requires
        b.len() == c.len(),
        forall|j: int| 0 <= j < b.len() ==> #[trigger] c[j] == spec_unexpired(b[j], now),
    ensures
        spec_flatten(c) == spec_unexpired(spec_flatten(b), now),
    decreases b.len(),
{
    if b.len() > 0 {
        lemma_flatten_unexpired(b.drop_last(), c.drop_last(), now);
        lemma_unexpired_concat(spec_flatten(b.drop_last()), b.last(), now);
    }
}

/// The priority of a job: an index from 0 (the highest priority) upwards.
/// Implemented by users of the framework.
pub trait Priority {
    /// Retrieve the index of the priority, 0 being the highest priority
    fn get_index(&self) -> usize;
}

/// Basic 5-category priority definition
#[derive(Debug, Clone, Copy, PartialEq, Eq, Hash, Structural)]
pub enum StandardPriority {
    /// Most important
    Highest,
    /// High
    High,
    /// Important
    Important,
    /// Normal (the default)
    Normal,
    /// Low/best-effort priority
    BestEffort,
}

/// The index of a standard priority: its position from `Highest` (0) to
/// `BestEffort` (4).
pub open spec fn spec_standard_priority_index(p: StandardPriority) -> usize {
    match p {
        StandardPriority::Highest => 0,
        StandardPriority::High => 1,
        StandardPriority::Important => 2,
        StandardPriority::Normal => 3,
        StandardPriority::BestEffort => 4,
    }
}

impl StandardPriority {
    /// The number of standard priorities
    pub fn size() -> (r: usize)
        ensures
            r == 5,
    {
        5
    }

    /// The priority with the given index; an index past the last priority gives
    /// the default, `Normal`.
    pub fn from_index(value: usize) -> (r: Self)
        ensures
            value < 5 ==> spec_standard_priority_index(r) == value,
            value >= 5 ==> r == StandardPriority::Normal,
    {
        match value {
            0 => StandardPriority::Highest,
            1 => StandardPriority::High,
            2 => StandardPriority::Important,
            3 => StandardPriority::Normal,
            4 => StandardPriority::BestEffort,
            _ => StandardPriority::Normal,
        }
    }

    /// The index of this priority
    pub fn index(&self) -> (r: usize)
        ensures
            r == spec_standard_priority_index(*self),
    {
        match self {
            StandardPriority::Highest => 0,
            StandardPriority::High => 1,
            StandardPriority::Important => 2,
            StandardPriority::Normal => 3,
            StandardPriority::BestEffort => 4,
        }
    }
}

impl Default for StandardPriority {
    fn default() -> (r: Self)
        ensures
            r == StandardPriority::Normal,
    {
        StandardPriority::Normal
    }
}

impl Priority for StandardPriority {
    /// The priority's position, `Highest` first (see `index`)
    fn get_index(&self) -> (r: usize)
        ensures
            r == spec_standard_priority_index(*self),
    {
        self.index()
    }
}

/// Extracts a job's priority from its key, and decides whether a job may be
/// shed under load. Implemented by users of the framework.
pub trait PriorityManager<TPriority> {
    /// Whether a job with this key may be discarded under load
    fn is_discardable(&self, key: u64) -> bool;

    /// The job's priority, if it has one
    fn get_priority(&self, key: u64) -> Option<TPriority>;
}

/// Flattening parts no longer than other parts gives no more than flattening those.
pub proof fn lemma_flatten_len_mono<T>(b: Seq<Seq<T>>, c: Seq<Seq<T>>)
    requires
        b.len() == c.len(),
        forall|j: int| 0 <= j < b.len() ==> #[trigger] c[j].len() <= b[j].len(),
    ensures
        spec_flatten(c).len() <= spec_flatten(b).len(),
    decreases b.len(),
{
    if b.len() > 0 {
        lemma_flatten_len_mono(b.drop_last(), c.drop_last());
    }
}

/// Whether `index` is the priority index a job gets when its priority manager
/// gave `given`: that priority's index, or the default priority's
pub open spec fn spec_priority_index<TPriority: Priority + Default>(given: Option<TPriority>, index: usize) -> bool {
    match given {
        Some(p) => call_ensures(TPriority::get_index, (&p,), index),
        None => exists|d: TPriority|
            call_ensures(TPriority::default, (), d) && #[trigger] call_ensures(TPriority::get_index, (&d,), index),
    }
}

/// The bucket of priority index `index` among `n` buckets: the last one for
/// an index past it
pub open spec fn spec_bucket_of(index: usize, n: usize) -> int {
    if index < n {
        index as int
    } else {
        n - 1
    }
}

/// A queue with a bucket per priority. Jobs leave in priority order (first in,
/// first out within a priority); under overload the oldest job of the lowest
/// priority is discarded first. A job without a priority takes the default
/// priority; a priority index past the last bucket goes to the last bucket.
#[verifier::reject_recursive_types(TMsg)]
pub struct PriorityQueue<TMsg, TPriority, TPriorityManager, const NUM_PRIORITIES: usize> {
    queues: Vec<VecDeque<Job<TMsg>>>,
    priority_manager: TPriorityManager,
    _priority: core::marker::PhantomData<TPriority>,
}

impl<TMsg, TPriority, TPriorityManager, const NUM_PRIORITIES: usize> PriorityQueue<
    TMsg,
    TPriority,
    TPriorityManager,
    NUM_PRIORITIES,
> {
    /// The buckets' contents, highest priority first
    /// The manager which gives keys their priority
    pub closed spec fn spec_priority_manager(&self) -> TPriorityManager {
        self.priority_manager
    }

    pub closed spec fn spec_buckets(&self) -> Seq<Seq<Job<TMsg>>> {
        self.queues@.map_values(|q: VecDeque<Job<TMsg>>| q@)
    }

    /// The queue holds a bucket per priority, and no more jobs than a length
    /// can count
    pub closed spec fn spec_pq_wf(&self) -> bool {
        &&& self.queues@.len() == NUM_PRIORITIES
        &&& spec_flatten(self.spec_buckets()).len() <= usize::MAX
    }
}

impl<
    TMsg,
    TPriority: Priority + Default,
    TPriorityManager: PriorityManager<TPriority>,
    const NUM_PRIORITIES: usize,
> PriorityQueue<TMsg, TPriority, TPriorityManager, NUM_PRIORITIES> {
    /// An empty queue with `NUM_PRIORITIES` buckets, using `priority_manager` to
    /// prioritize jobs. With no priority at all the queue holds nothing and
    /// cannot take a job (a job pushed to it has no bucket to go to).
    pub fn new(priority_manager: TPriorityManager) -> (r: Self)
        ensures
            r.spec_items() == Seq::<Job<TMsg>>::empty(),
            r.spec_buckets().len() == NUM_PRIORITIES,
            r.spec_wf(),
    {
        let mut queues: Vec<VecDeque<Job<TMsg>>> = Vec::new();
        let mut i: usize = 0;
        while i < NUM_PRIORITIES
            invariant
                i <= NUM_PRIORITIES,
                queues@.len() == i,
                forall|j: int| 0 <= j < i ==> (#[trigger] queues@[j])@.len() == 0,
            decreases NUM_PRIORITIES - i,
        {
            queues.push(VecDeque::new());
            i = i + 1;
        }
        let ghost b = queues@.map_values(|q: VecDeque<Job<TMsg>>| q@);
        proof {
            assert forall|j: int| 0 <= j < b.len() implies #[trigger] b[j].len() == 0 by {
                assert(b[j] == queues@[j]@);
            }
            lemma_flatten_all_empty(b);
        }
        let r = PriorityQueue { queues, priority_manager, _priority: core::marker::PhantomData };
        proof {
            assert(r.spec_buckets() == b);
            assert(spec_flatten(b) =~= Seq::<Job<TMsg>>::empty());
        }
        r
    }
}

impl<
    TMsg,
    TPriority: Priority + Default,
    TPriorityManager: PriorityManager<TPriority>,
    const NUM_PRIORITIES: usize,
> Queue<TMsg> for PriorityQueue<TMsg, TPriority, TPriorityManager, NUM_PRIORITIES> {
    closed spec fn spec_items(&self) -> Seq<Job<TMsg>> {
        spec_flatten(self.spec_buckets())
    }

    open spec fn spec_wf(&self) -> bool {
        self.spec_pq_wf()
    }

    /// The lowest priority first, first in first within a priority
    closed spec fn spec_shed_order(&self) -> Seq<Job<TMsg>> {
        spec_flatten_rev(self.spec_buckets())
    }

    /// A job needs a priority bucket to go to
    open spec fn spec_takes_jobs(&self) -> bool {
        NUM_PRIORITIES > 0
    }

    fn takes_jobs(&self) -> (r: bool) {
        NUM_PRIORITIES > 0
    }

    fn len(&self) -> (r: usize) {
        let ghost b = self.spec_buckets();
        let mut total: usize = 0;
        let mut i: usize = 0;
        proof {
            assert(b.subrange(0, 0) =~= Seq::<Seq<Job<TMsg>>>::empty());
        }
        while i < self.queues.len()
            invariant
                b == self.spec_buckets(),
                b.len() == self.queues@.len(),
                spec_flatten(b).len() <= usize::MAX,
                i <= b.len(),
                total == spec_flatten(b.subrange(0, i as int)).len(),
            decreases b.len() - i,
        {
            proof {
                assert(b.subrange(0, i + 1).drop_last() =~= b.subrange(0, i as int));
                assert(b[i as int] == self.queues@[i as int]@);
                lemma_flatten_concat(b.subrange(0, i + 1), b.subrange(i + 1, b.len() as int));
                assert(b =~= b.subrange(0, i + 1) + b.subrange(i + 1, b.len() as int));
            }
            total = total + self.queues[i].len();
            i = i + 1;
        }
        proof {
            assert(b.subrange(0, i as int) =~= b);
        }
        total
    }

    fn is_empty(&self) -> (r: bool) {
        self.len() == 0
    }

    fn pop_front(&mut self) -> (r: Option<Job<TMsg>>) {
        let ghost b = self.spec_buckets();
        let n = self.queues.len();
        let mut i: usize = 0;
        while i < n
            invariant
                b == self.spec_buckets(),
                b == old(self).spec_buckets(),
                spec_flatten(b).len() <= usize::MAX,
                n == b.len(),
                n == NUM_PRIORITIES,
                i <= n,
                forall|j: int| 0 <= j < i ==> #[trigger] b[j].len() == 0,
            decreases n - i,
        {
            if self.queues[i].len() > 0 {
                proof {
                    assert(b[i as int] == self.queues@[i as int]@);
                    lemma_flatten_split(b, i as int);
                    assert forall|j: int| 0 <= j < i implies #[trigger] b.subrange(0, i as int)[j].len()
                        == 0 by {
                        assert(b.subrange(0, i as int)[j] == b[j]);
                    }
                    lemma_flatten_all_empty(b.subrange(0, i as int));
                }
                let r = self.queues[i].pop_front();
                proof {
                    let b2 = self.spec_buckets();
                    assert(b2 =~= b.update(i as int, b[i as int].drop_first()));
                    lemma_flatten_split(b2, i as int);
                    assert(b2.subrange(0, i as int) =~= b.subrange(0, i as int));
                    assert(b2.subrange(i + 1, n as int) =~= b.subrange(i + 1, n as int));
                    assert(spec_flatten(b2) =~= spec_flatten(b).drop_first());
                    assert(self.queues@.len() == b2.len());
                    assert(self.queues@.len() == NUM_PRIORITIES);
                    assert(spec_flatten(b2).len() <= usize::MAX);
                    assert(self.spec_pq_wf());
                }
                return r;
            }
            proof {
                assert(b[i as int] == self.queues@[i as int]@);
            }
            i = i + 1;
        }
        proof {
            lemma_flatten_all_empty(b);
        }
        None
    }

    fn discard_oldest(&mut self) -> (r: Option<Job<TMsg>>) {
        let ghost b = self.spec_buckets();
        let n = self.queues.len();
        let mut i: usize = n;
        while i > 0
            invariant
                b == self.spec_buckets(),
                b == old(self).spec_buckets(),
                spec_flatten(b).len() <= usize::MAX,
                n == b.len(),
                n == NUM_PRIORITIES,
                i <= n,
                forall|j: int| i <= j < n ==> #[trigger] b[j].len() == 0,
            decreases i,
        {
            let k = i - 1;
            if self.queues[k].len() > 0 {
                proof {
                    assert(b[k as int] == self.queues@[k as int]@);
                    lemma_flatten_split(b, k as int);
                    assert forall|j: int| 0 <= j < n - k - 1 implies #[trigger] b.subrange(
                        k + 1,
                        n as int,
                    )[j].len() == 0 by {
                        assert(b.subrange(k + 1, n as int)[j] == b[k + 1 + j]);
                    }
                    lemma_flatten_all_empty(b.subrange(k + 1, n as int));
                }
                let r = self.queues[k].pop_front();
                proof {
                    let b2 = self.spec_buckets();
                    let pre = spec_flatten(b.subrange(0, k as int));
                    assert(b2 =~= b.update(k as int, b[k as int].drop_first()));
                    lemma_flatten_split(b2, k as int);
                    assert(b2.subrange(0, k as int) =~= b.subrange(0, k as int));
                    assert(b2.subrange(k + 1, n as int) =~= b.subrange(k + 1, n as int));
                    assert(spec_flatten(b)[pre.len() as int] == b[k as int][0]);
                    assert(spec_flatten(b2) =~= spec_flatten(b).remove(pre.len() as int));
                    lemma_flatten_rev_len(b);
                    lemma_flatten_rev_split(b, k as int);
                    lemma_flatten_rev_split(b2, k as int);
                    lemma_flatten_rev_all_empty(b.subrange(k + 1, n as int));
                    assert(spec_flatten_rev(b.subrange(k + 1, n as int)) =~= Seq::<Job<TMsg>>::empty());
                    assert(spec_flatten_rev(b2.subrange(k + 1, n as int)) =~= Seq::<Job<TMsg>>::empty());
                    assert(spec_flatten_rev(b) =~= b[k as int] + spec_flatten_rev(b.subrange(0, k as int)));
                    assert(spec_flatten_rev(b2) =~= b[k as int].drop_first() + spec_flatten_rev(b.subrange(0, k as int)));
                    assert(spec_flatten_rev(b2) =~= spec_flatten_rev(b).drop_first());
                    assert(self.queues@.len() == b2.len());
                    assert(self.queues@.len() == NUM_PRIORITIES);
                    assert(spec_flatten(b2).len() <= usize::MAX);
                    assert(self.spec_pq_wf());
                }
                return r;
            }
            proof {
                assert(b[k as int] == self.queues@[k as int]@);
            }
            i = k;
        }
        proof {
            lemma_flatten_all_empty(b);
            lemma_flatten_rev_len(b);
        }
        None
    }

    fn peek(&self) -> (r: Option<&Job<TMsg>>) {
        let ghost b = self.spec_buckets();
        let n = self.queues.len();
        let mut i: usize = 0;
        while i < n
            invariant
                b == self.spec_buckets(),
                n == b.len(),
                i <= n,
                forall|j: int| 0 <= j < i ==> #[trigger] b[j].len() == 0,
            decreases n - i,
        {
            if self.queues[i].len() > 0 {
                proof {
                    assert(b[i as int] == self.queues@[i as int]@);
                    lemma_flatten_split(b, i as int);
                    assert forall|j: int| 0 <= j < i implies #[trigger] b.subrange(0, i as int)[j].len()
                        == 0 by {
                        assert(b.subrange(0, i as int)[j] == b[j]);
                    }
                    lemma_flatten_all_empty(b.subrange(0, i as int));
                }
                return Some(&self.queues[i][0]);
            }
            proof {
                assert(b[i as int] == self.queues@[i as int]@);
            }
            i = i + 1;
        }
        proof {
            lemma_flatten_all_empty(b);
        }
        None
    }

    /// The job goes to the back of the bucket of its priority: the one the
    /// priority manager gives its key, or the default priority; a priority
    /// index past the last bucket goes to the last bucket.
    fn push_back(&mut self, job: Job<TMsg>)
        ensures
            final(self).spec_priority_manager() == old(self).spec_priority_manager(),
            exists|given: Option<TPriority>, index: usize|
                {
                    &&& call_ensures(
                        TPriorityManager::get_priority,
                        (&old(self).spec_priority_manager(), job.key),
                        given,
                    )
                    &&& spec_priority_index(given, index)
                    &&& final(self).spec_buckets() == old(self).spec_buckets().update(
                        spec_bucket_of(index, NUM_PRIORITIES),
                        old(self).spec_buckets()[spec_bucket_of(index, NUM_PRIORITIES)].push(job),
                    )
                },
    {
        let ghost b = self.spec_buckets();
        let given = self.priority_manager.get_priority(job.key);
        let ghost given_as = given;
        let priority = match given {
            Some(p) => p,
            None => TPriority::default(),
        };
        let ghost prio = priority;
        let mut idx = priority.get_index();
        let ghost index = idx;
        if idx >= self.queues.len() {
            idx = self.queues.len() - 1;
        }
        proof {
            assert(b[idx as int] == self.queues@[idx as int]@);
            lemma_flatten_split(b, idx as int);
            let b2 = b.update(idx as int, b[idx as int].push(job));
            lemma_flatten_split(b2, idx as int);
            assert(b2.subrange(0, idx as int) =~= b.subrange(0, idx as int));
            assert(b2.subrange(idx + 1, b.len() as int) =~= b.subrange(idx + 1, b.len() as int));
        }
        self.queues[idx].push_back(job);
        proof {
            let b2 = self.spec_buckets();
            assert(b2 =~= b.update(idx as int, b[idx as int].push(job)));
            let pos: int = (spec_flatten(b.subrange(0, idx as int)).len() + b[idx as int].len()) as int;
            assert(spec_flatten(b2) =~= spec_flatten(b).insert(pos, job));
            lemma_flatten_rev_len(b);
            lemma_flatten_rev_split(b, idx as int);
            lemma_flatten_rev_split(b2, idx as int);
            assert(b2.subrange(0, idx as int) =~= b.subrange(0, idx as int));
            assert(b2.subrange(idx + 1, b.len() as int) =~= b.subrange(idx + 1, b.len() as int));
            let rpos: int = (spec_flatten_rev(b.subrange(idx + 1, b.len() as int)).len() + b[idx as int].len()) as int;
            assert(spec_flatten_rev(b2) =~= spec_flatten_rev(b).insert(rpos, job));
            assert(self.spec_shed_order() == spec_flatten_rev(b2));
            assert(old(self).spec_shed_order() == spec_flatten_rev(b));
            assert(0 <= rpos <= old(self).spec_shed_order().len());
            assert(self.spec_shed_order() == old(self).spec_shed_order().insert(rpos, job));
            assert(idx as int == spec_bucket_of(index, NUM_PRIORITIES));
            assert(spec_priority_index(given_as, index));
        }
    }

    fn remove_expired_items(&mut self, now: u64) -> (r: Vec<Job<TMsg>>) {
        let ghost b = self.spec_buckets();
        let n = self.queues.len();
        let mut gone: Vec<Job<TMsg>> = Vec::new();
        let mut i: usize = 0;
        proof {
            assert(b.subrange(0, 0) =~= Seq::<Seq<Job<TMsg>>>::empty());
            assert(spec_expired(spec_flatten(b.subrange(0, 0)), now) =~= gone@);
        }
        while i < n
            invariant
                n == b.len(),
                n == NUM_PRIORITIES,
                b == old(self).spec_buckets(),
                spec_flatten(b).len() <= usize::MAX,
                i <= n,
                self.queues@.len() == n,
                forall|j: int| 0 <= j < i ==> #[trigger] self.spec_buckets()[j] == spec_unexpired(
                    b[j],
                    now,
                ),
                forall|j: int| i <= j < n ==> #[trigger] self.spec_buckets()[j] == b[j],
                gone@ == spec_expired(spec_flatten(b.subrange(0, i as int)), now),
            decreases n - i,
        {
            let ghost before = self.spec_buckets();
            let ghost gone_before = gone@;
            let mut bucket: VecDeque<Job<TMsg>> = VecDeque::new();
            proof {
                assert(before[i as int] == self.queues@[i as int]@);
            }
            std::mem::swap(&mut self.queues[i], &mut bucket);
            let mut kept: VecDeque<Job<TMsg>> = VecDeque::new();
            drain_unexpired(&mut bucket, &mut kept, &mut gone, now);
            proof {
                assert(Seq::<Job<TMsg>>::empty() + spec_unexpired(b[i as int], now) =~= spec_unexpired(
                    b[i as int],
                    now,
                ));
            }
            std::mem::swap(&mut self.queues[i], &mut kept);
            proof {
                let after = self.spec_buckets();
                assert(after =~= before.update(i as int, spec_unexpired(b[i as int], now)));
                assert(b.subrange(0, i + 1).drop_last() =~= b.subrange(0, i as int));
                assert(b.subrange(0, i + 1).last() == b[i as int]);
                assert(spec_flatten(b.subrange(0, i + 1)) == spec_flatten(b.subrange(0, i as int))
                    + b[i as int]);
                lemma_expired_concat(spec_flatten(b.subrange(0, i as int)), b[i as int], now);
                lemma_unexpired_len(b[i as int], now);
            }
            i = i + 1;
        }
        proof {
            let c = self.spec_buckets();
            assert(b.subrange(0, n as int) =~= b);
            lemma_flatten_unexpired(b, c, now);
            lemma_unexpired_len(spec_flatten(b), now);
            assert(self.queues@.len() == c.len());
        }
        gone
    }

    /// What the priority manager says of the key
    open spec fn spec_discardable(&self, key: u64, r: bool) -> bool {
        call_ensures(TPriorityManager::is_discardable, (&self.spec_priority_manager(), key), r)
    }

    fn is_job_discardable(&self, key: u64) -> (r: bool) {
        self.priority_manager.is_discardable(key)
    }
}

} // verus!
