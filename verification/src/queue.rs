//! The scheduling queue: a binary min-heap of descriptors keyed by due time.

use crate::system_wrapper::SystemWrapper;
use vstd::multiset::Multiset;
use vstd::prelude::*;
use vstd::seq_lib::*;

verus! {

/// Every entry is due no earlier than the entry at its parent position.
spec fn heap_ordered<A>(s: Seq<SystemWrapper<A>>) -> bool {
    forall|i: int| 0 < i < s.len() ==> s[(i - 1) / 2].priority <= (#[trigger] s[i]).priority
}

/// The heap order holds everywhere but between `pos` and its parent, and the
/// children of `pos` are in order with that parent.
spec fn ordered_above<A>(s: Seq<SystemWrapper<A>>, pos: int) -> bool {
    &&& forall|i: int|
        0 < i < s.len() && i != pos ==> s[(i - 1) / 2].priority <= (#[trigger] s[i]).priority
    &&& forall|i: int|
        0 < i < s.len() && (i - 1) / 2 == pos && pos > 0 ==> s[(pos - 1) / 2].priority <= (
        #[trigger] s[i]).priority
}

/// The heap order holds everywhere but between `pos` and its children, and
/// those children are in order with the parent of `pos`.
spec fn ordered_below<A>(s: Seq<SystemWrapper<A>>, pos: int) -> bool {
    &&& forall|i: int|
        0 < i < s.len() && (i - 1) / 2 != pos ==> s[(i - 1) / 2].priority <= (
        #[trigger] s[i]).priority
    &&& forall|i: int|
        0 < i < s.len() && (i - 1) / 2 == pos && pos > 0 ==> s[(pos - 1) / 2].priority <= (
        #[trigger] s[i]).priority
}

/// The two entries at `i` and `j` exchanged.
spec fn swapped<A>(s: Seq<SystemWrapper<A>>, i: int, j: int) -> Seq<SystemWrapper<A>> {
    s.update(i, s[j]).update(j, s[i])
}

proof fn lemma_root_is_earliest<A>(s: Seq<SystemWrapper<A>>, i: int)
    requires
        heap_ordered(s),
        0 <= i < s.len(),
    ensures
        s[0].priority <= s[i].priority,
    decreases i,
{
    if i > 0 {
        lemma_root_is_earliest(s, (i - 1) / 2);
    }
}

proof fn lemma_swapped_keeps_entries<A>(s: Seq<SystemWrapper<A>>, i: int, j: int)
    requires
        0 <= i < s.len(),
        0 <= j < s.len(),
    ensures
        swapped(s, i, j).to_multiset() == s.to_multiset(),
        swapped(s, i, j).len() == s.len(),
{
    broadcast use vstd::multiset::group_multiset_axioms;

    let mid = s.update(i, s[j]);
    to_multiset_update(s, i, s[j]);
    to_multiset_update(mid, j, s[i]);
    to_multiset_contains(s, s[i]);
    to_multiset_contains(s, s[j]);
    assert(s.contains(s[i]));
    assert(s.contains(s[j]));
    assert(swapped(s, i, j).to_multiset() =~= s.to_multiset());
}

fn swap_entries<A>(v: &mut Vec<SystemWrapper<A>>, i: usize, j: usize)
    requires
        i < j < old(v)@.len(),
    ensures
        final(v)@ == swapped(old(v)@, i as int, j as int),
{
    let (front, back) = v.as_mut_slice().split_at_mut(j);
    core::mem::swap(&mut front[i], &mut back[0]);
}

fn sift_up<A>(v: &mut Vec<SystemWrapper<A>>, start: usize)
    requires
        start < old(v)@.len(),
        ordered_above(old(v)@, start as int),
    ensures
        heap_ordered(final(v)@),
        final(v)@.to_multiset() == old(v)@.to_multiset(),
{
    let mut pos = start;
    while pos > 0 && v[(pos - 1) / 2].priority > v[pos].priority
        invariant
            pos < v@.len(),
            ordered_above(v@, pos as int),
            v@.to_multiset() == old(v)@.to_multiset(),
        decreases pos,
    {
        let up = (pos - 1) / 2;
        proof {
            lemma_swapped_keeps_entries(v@, up as int, pos as int);
        }
        swap_entries(v, up, pos);
        pos = up;
    }
}

fn sift_down<A>(v: &mut Vec<SystemWrapper<A>>)
    requires
        ordered_below(old(v)@, 0),
    ensures
        heap_ordered(final(v)@),
        final(v)@.to_multiset() == old(v)@.to_multiset(),
{
    let len = v.len();
    let mut pos: usize = 0;
    while pos < len / 2
        invariant_except_break
            ordered_below(v@, pos as int),
        invariant
            len == v@.len(),
            v@.to_multiset() == old(v)@.to_multiset(),
        ensures
            heap_ordered(v@),
        decreases len - pos,
    {
        let left = 2 * pos + 1;
        let right = left + 1;
        let child = if right < len && v[right].priority < v[left].priority {
            right
        } else {
            left
        };
        if v[pos].priority <= v[child].priority {
            break;
        }
        proof {
            lemma_swapped_keeps_entries(v@, pos as int, child as int);
        }
        swap_entries(v, pos, child);
        pos = child;
    }
}

/// The scheduling queue.
///
/// It holds the descriptors of the registered systems and hands out the one
/// that is due first. Among descriptors with the same due time it may hand
/// out any.
pub struct SchedulingQueue<A> {
    heap: Vec<SystemWrapper<A>>,
}

impl<A> View for SchedulingQueue<A> {
    type V = Multiset<SystemWrapper<A>>;

    /// The descriptors in the queue, each as often as it was inserted.
    closed spec fn view(&self) -> Multiset<SystemWrapper<A>> {
        self.heap@.to_multiset()
    }
}

impl<A> SchedulingQueue<A> {
    #[verifier::type_invariant]
    spec fn well_formed(&self) -> bool {
        heap_ordered(self.heap@)
    }

    /// Whether `d` is in `entries` and no entry of `entries` is due earlier.
    pub open spec fn earliest_in(d: SystemWrapper<A>, entries: Multiset<SystemWrapper<A>>) -> bool {
        &&& entries.contains(d)
        &&& forall|e: SystemWrapper<A>| #[trigger] entries.contains(e) ==> d.priority <= e.priority
    }

    /// The entries after one turn of the dispatch loop: `job` leaves and
    /// comes back with its due time moved on by one interval.
    pub open spec fn cycled(
        entries: Multiset<SystemWrapper<A>>,
        job: SystemWrapper<A>,
    ) -> Multiset<SystemWrapper<A>> {
        entries.remove(job).insert(job.advanced())
    }

    /// The entries after one turn for each of `jobs`, in that order.
    pub open spec fn cycled_all(
        entries: Multiset<SystemWrapper<A>>,
        jobs: Seq<SystemWrapper<A>>,
    ) -> Multiset<SystemWrapper<A>>
        decreases jobs.len(),
    {
        if jobs.len() == 0 {
            entries
        } else {
            Self::cycled_all(Self::cycled(entries, jobs[0]), jobs.drop_first())
        }
    }

    /// Whether each of `jobs` is the one that the queue hands out at its
    /// turn.
    pub open spec fn handed_out_in_turn(
        entries: Multiset<SystemWrapper<A>>,
        jobs: Seq<SystemWrapper<A>>,
    ) -> bool
        decreases jobs.len(),
    {
        jobs.len() > 0 ==> {
            &&& Self::earliest_in(jobs[0], entries)
            &&& Self::handed_out_in_turn(Self::cycled(entries, jobs[0]), jobs.drop_first())
        }
    }

    /// The descriptors of a run that began with `start`, once the system at
    /// each place `i` has run `runs[i]` times.
    pub open spec fn schedule(
        start: Seq<SystemWrapper<A>>,
        runs: Seq<nat>,
    ) -> Seq<SystemWrapper<A>>
        recommends
            start.len() == runs.len(),
    {
        Seq::new(start.len(), |i: int| start[i].advanced_by(runs[i]))
    }

    /// A queue without descriptors.
    pub fn new() -> (queue: Self)
        ensures
            queue@ == Multiset::<SystemWrapper<A>>::empty(),
    {
        let queue = SchedulingQueue { heap: Vec::new() };
        assert(queue.heap@.to_multiset() =~= Multiset::<SystemWrapper<A>>::empty()) by {
            broadcast use vstd::multiset::group_multiset_axioms;
            queue.heap@.to_multiset_ensures();
            to_multiset_len(queue.heap@);
        }
        queue
    }

    /// The number of descriptors in the queue.
    pub fn len(&self) -> (n: usize)
        ensures
            n == self@.len(),
    {
        proof {
            to_multiset_len(self.heap@);
        }
        self.heap.len()
    }

    /// Whether the queue holds no descriptor.
    pub fn is_empty(&self) -> (empty: bool)
        ensures
            empty == (self@.len() == 0),
    {
        proof {
            to_multiset_len(self.heap@);
        }
        self.heap.len() == 0
    }

    /// Adds `wrapper` to the queue.
    pub fn push(&mut self, wrapper: SystemWrapper<A>)
        ensures
            final(self)@ == old(self)@.insert(wrapper),
    {
        proof {
            use_type_invariant(&*self);
            to_multiset_build(self.heap@, wrapper);
        }
        // The entries leave the queue while the heap order is mended.
        let mut heap: Vec<SystemWrapper<A>> = Vec::new();
        core::mem::swap(&mut self.heap, &mut heap);
        heap.push(wrapper);
        let last = heap.len() - 1;
        sift_up(&mut heap, last);
        core::mem::swap(&mut self.heap, &mut heap);
    }

    /// The descriptor that is due first, left in the queue.
    pub fn peek(&self) -> (next: Option<&SystemWrapper<A>>)
        ensures
            next is None <==> self@.len() == 0,
            next matches Some(d) ==> Self::earliest_in(*d, self@),
    {
        proof {
            use_type_invariant(self);
            to_multiset_len(self.heap@);
        }
        if self.heap.len() == 0 {
            None
        } else {
            proof {
                lemma_root_is_earliest_of_all(self.heap@);
            }
            Some(&self.heap[0])
        }
    }

    /// Removes the descriptor that is due first and returns it; `None`, with
    /// the queue as it was, where the queue is empty.
    pub fn pop(&mut self) -> (next: Option<SystemWrapper<A>>)
        ensures
            next is None <==> old(self)@.len() == 0,
            next is None ==> final(self)@ == old(self)@,
            next matches Some(d) ==> Self::earliest_in(d, old(self)@) && final(self)@ == old(
                self,
            )@.remove(d),
    {
        proof {
            use_type_invariant(&*self);
            to_multiset_len(self.heap@);
        }
        if self.heap.len() == 0 {
            return None;
        }
        proof {
            lemma_root_is_earliest_of_all(self.heap@);
            lemma_take_root(self.heap@);
        }
        let mut heap: Vec<SystemWrapper<A>> = Vec::new();
        core::mem::swap(&mut self.heap, &mut heap);
        let first = heap.swap_remove(0);
        sift_down(&mut heap);
        core::mem::swap(&mut self.heap, &mut heap);
        Some(first)
    }
}

impl<A> SchedulingQueue<A> {
    /// All descriptors that may be handed out next are due at the same time.
    pub proof fn lemma_earliest_share_due_time(
        entries: Multiset<SystemWrapper<A>>,
        d: SystemWrapper<A>,
        e: SystemWrapper<A>,
    )
        requires
            Self::earliest_in(d, entries),
            Self::earliest_in(e, entries),
        ensures
            d.priority == e.priority,
    {
    }

    /// No descriptor is lost or gained by a turn of the dispatch loop.
    pub proof fn lemma_cycle_keeps_count(
        entries: Multiset<SystemWrapper<A>>,
        job: SystemWrapper<A>,
    )
        requires
            entries.contains(job),
        ensures
            Self::cycled(entries, job).len() == entries.len(),
    {
        broadcast use vstd::multiset::group_multiset_axioms;

    }

    /// A turn of the dispatch loop changes the descriptor that was handed
    /// out and no other.
    pub proof fn lemma_cycle_leaves_others(
        entries: Multiset<SystemWrapper<A>>,
        job: SystemWrapper<A>,
        other: SystemWrapper<A>,
    )
        requires
            entries.contains(job),
            other != job,
            other != job.advanced(),
        ensures
            Self::cycled(entries, job).count(other) == entries.count(other),
    {
        broadcast use vstd::multiset::group_multiset_axioms;

    }

    /// The queue holds one descriptor for each registered system at all
    /// times, and a turn of the dispatch loop moves exactly one system on by
    /// one run: where the queue holds the [`schedule`](Self::schedule) of
    /// `runs`, the job handed out belongs to some system `i`, and after the
    /// turn the queue holds the schedule in which `i` has run once more.
    pub proof fn lemma_turn_advances_one_system(
        start: Seq<SystemWrapper<A>>,
        runs: Seq<nat>,
        job: SystemWrapper<A>,
    ) -> (i: int)
        requires
            start.len() == runs.len(),
            Self::schedule(start, runs).to_multiset().contains(job),
        ensures
            0 <= i < start.len(),
            job == start[i].advanced_by(runs[i]),
            Self::cycled(Self::schedule(start, runs).to_multiset(), job) == Self::schedule(
                start,
                runs.update(i, runs[i] + 1),
            ).to_multiset(),
    {
        broadcast use vstd::multiset::group_multiset_axioms;

        let now = Self::schedule(start, runs);
        to_multiset_contains(now, job);
        let i = choose|i: int| 0 <= i < now.len() && now[i] == job;
        let more = runs.update(i, runs[i] + 1);
        let then = Self::schedule(start, more);
        assert(start[i].advanced_by(more[i]) == job.advanced());
        assert(then =~= now.update(i, job.advanced()));
        to_multiset_update(now, i, job.advanced());
        assert(now.to_multiset().insert(job.advanced()).remove(job) =~= now.to_multiset().remove(
            job,
        ).insert(job.advanced()));
        i
    }

    /// Before any system has run, the schedule is the list the run began
    /// with.
    pub proof fn lemma_schedule_starts_unchanged(start: Seq<SystemWrapper<A>>)
        ensures
            Self::schedule(start, Seq::new(start.len(), |i: int| 0nat)) == start,
    {
        assert(Self::schedule(start, Seq::new(start.len(), |i: int| 0nat)) =~= start);
    }

    /// After any number of turns the queue holds as many descriptors as
    /// before.
    pub proof fn lemma_cycles_keep_count(
        entries: Multiset<SystemWrapper<A>>,
        jobs: Seq<SystemWrapper<A>>,
    )
        requires
            Self::handed_out_in_turn(entries, jobs),
        ensures
            Self::cycled_all(entries, jobs).len() == entries.len(),
        decreases jobs.len(),
    {
        if jobs.len() > 0 {
            Self::lemma_cycle_keeps_count(entries, jobs[0]);
            Self::lemma_cycles_keep_count(Self::cycled(entries, jobs[0]), jobs.drop_first());
        }
    }
}

proof fn lemma_root_is_earliest_of_all<A>(s: Seq<SystemWrapper<A>>)
    requires
        heap_ordered(s),
        s.len() > 0,
    ensures
        SchedulingQueue::<A>::earliest_in(s[0], s.to_multiset()),
{
    to_multiset_contains(s, s[0]);
    assert(s.contains(s[0]));
    assert forall|e: SystemWrapper<A>| #[trigger]
        s.to_multiset().contains(e) implies s[0].priority <= e.priority by {
        to_multiset_contains(s, e);
        let i = choose|i: int| 0 <= i < s.len() && s[i] == e;
        lemma_root_is_earliest(s, i);
    }
}

/// What is left when the last entry takes the place of the root.
proof fn lemma_take_root<A>(s: Seq<SystemWrapper<A>>)
    requires
        heap_ordered(s),
        s.len() > 0,
    ensures
        ordered_below(s.update(0, s.last()).drop_last(), 0),
        s.update(0, s.last()).drop_last().to_multiset() == s.to_multiset().remove(s[0]),
{
    broadcast use vstd::multiset::group_multiset_axioms;

    let moved = s.update(0, s.last());
    let rest = moved.drop_last();
    let last = s.len() - 1;
    to_multiset_update(s, 0, s.last());
    to_multiset_remove(moved, last);
    assert(rest =~= moved.remove(last));
    to_multiset_contains(s, s[0]);
    to_multiset_contains(s, s.last());
    assert(s.contains(s[0]));
    assert(s.contains(s.last()));
    assert(rest.to_multiset() =~= s.to_multiset().remove(s[0]));
    assert forall|i: int| 0 < i < rest.len() && (i - 1) / 2 != 0 implies rest[(i - 1)
        / 2].priority <= (#[trigger] rest[i]).priority by {
        assert(s[(i - 1) / 2].priority <= s[i].priority);
    }
}

} // verus!
