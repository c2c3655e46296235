//! The engine: the systems, their queue, the worker pool and the render
//! callback, and the steps of the dispatch loop.

use crate::clock::clock_micros;
use crate::pacing::due_in;
use crate::pacing::elapsed_since;
use crate::pacing::frame_period;
use crate::pacing::time_until_due;
use crate::pool::accepts_any_world;
use crate::pool::pool_execute;
use crate::pool::pool_max_count;
use crate::pool::pool_new;
use crate::pool::pool_threads;
use crate::queue::SchedulingQueue;
use crate::renderer::Renderer;
use crate::system_wrapper::SystemWrapper;
use std::sync::Arc;
use std::sync::RwLock;
use threadpool::ThreadPool;
use vstd::multiset::Multiset;
use vstd::prelude::*;

verus! {

/// The least number of threads an engine runs with: one for rendering and
/// one worker.
pub const MIN_WORKERS: usize = 2;

/// What the dispatch loop does next.
pub enum DispatchStep<A> {
    /// Leave the loop: the shutdown signal is set.
    Leave,
    /// Nothing is registered, so nothing is due.
    Idle,
    /// Sleep for `sleep_time` microseconds, then dispatch `job`.
    Run { sleep_time: u128, job: SystemWrapper<A> },
}

/// The engine schedules systems to run at their intervals on a pool of
/// worker threads, with one thread kept for rendering at a target frame rate.
#[verifier::reject_recursive_types(WORLD)]
pub struct Engine<WORLD, A, R> {
    /// Target frame rate in frames per second.
    pub target_frame_rate: u32,
    /// The world.
    pub world: Arc<RwLock<WORLD>>,
    renderer: Option<R>,
    pool: ThreadPool,
    scheduling_queue: SchedulingQueue<A>,
}

/// What an engine holds, as the contracts speak of it.
#[verifier::reject_recursive_types(WORLD)]
pub ghost struct EngineView<WORLD, A, R> {
    pub target_frame_rate: u32,
    pub world: Arc<RwLock<WORLD>>,
    /// The render callback, unless a render loop has it.
    pub renderer: Option<R>,
    /// The number of threads in the worker pool.
    pub worker_threads: nat,
    /// The descriptors in the scheduling queue.
    pub queue: Multiset<SystemWrapper<A>>,
}

impl<WORLD, A, R> View for Engine<WORLD, A, R> {
    type V = EngineView<WORLD, A, R>;

    closed spec fn view(&self) -> EngineView<WORLD, A, R> {
        EngineView {
            target_frame_rate: self.target_frame_rate,
            world: self.world,
            renderer: self.renderer,
            worker_threads: pool_threads(self.pool),
            queue: self.scheduling_queue@,
        }
    }
}

/// The descriptors that a list of systems and intervals starts with: each
/// system is first due one full interval after the start.
pub open spec fn initial_descriptors<A>(systems: Seq<(A, u128)>) -> Seq<SystemWrapper<A>> {
    Seq::new(
        systems.len(),
        |i: int|
            SystemWrapper {
                system: systems[i].0,
                update_rate: systems[i].1,
                priority: systems[i].1,
            },
    )
}

/// Systems stay callable when a callable one joins them.
proof fn lemma_insert_keeps_callable<WORLD, A: Fn(Arc<RwLock<WORLD>>)>(
    queue: Multiset<SystemWrapper<A>>,
    wrapper: SystemWrapper<A>,
)
    requires
        forall|d: SystemWrapper<A>| #[trigger]
            queue.contains(d) ==> accepts_any_world::<WORLD, A>(d.system),
        accepts_any_world::<WORLD, A>(wrapper.system),
    ensures
        forall|d: SystemWrapper<A>| #[trigger]
            queue.insert(wrapper).contains(d) ==> accepts_any_world::<WORLD, A>(d.system),
{
    broadcast use vstd::multiset::group_multiset_axioms;

    assert forall|d: SystemWrapper<A>| #[trigger]
        queue.insert(wrapper).contains(d) implies accepts_any_world::<WORLD, A>(d.system) by {
        if d != wrapper {
            assert(queue.contains(d));
        }
    }
}

/// Systems stay callable when one of them leaves.
proof fn lemma_remove_keeps_callable<WORLD, A: Fn(Arc<RwLock<WORLD>>)>(
    queue: Multiset<SystemWrapper<A>>,
    job: SystemWrapper<A>,
)
    requires
        forall|d: SystemWrapper<A>| #[trigger]
            queue.contains(d) ==> accepts_any_world::<WORLD, A>(d.system),
    ensures
        forall|d: SystemWrapper<A>| #[trigger]
            queue.remove(job).contains(d) ==> accepts_any_world::<WORLD, A>(d.system),
{
    broadcast use vstd::multiset::group_multiset_axioms;

    assert forall|d: SystemWrapper<A>| #[trigger]
        queue.remove(job).contains(d) implies queue.contains(d) by {}
}

/// A list without entries holds no descriptor.
proof fn lemma_no_entries_in_empty<A>()
    ensures
        Seq::<SystemWrapper<A>>::empty().to_multiset() == Multiset::<SystemWrapper<A>>::empty(),
{
    broadcast use vstd::multiset::group_multiset_axioms;

    let none = Seq::<SystemWrapper<A>>::empty();
    vstd::seq_lib::to_multiset_len(none);
    assert(none.to_multiset() =~= Multiset::<SystemWrapper<A>>::empty());
}

impl<WORLD, A, R> Engine<WORLD, A, R> where
    WORLD: Send + Sync + 'static,
    A: Fn(Arc<RwLock<WORLD>>) + Copy + Send + 'static,
    R: Renderer<WORLD>,
 {
    /// Whether every system in `queue` may be called with every world
    /// handle.
    pub open spec fn all_callable(queue: Multiset<SystemWrapper<A>>) -> bool {
        forall|d: SystemWrapper<A>| #[trigger]
            queue.contains(d) ==> accepts_any_world::<WORLD, A>(d.system)
    }

    /// Creates an engine with `workers` threads, a target frame rate, a
    /// world and the systems that act on the world, each with its interval
    /// in microseconds. One thread is kept for rendering; the others form
    /// the worker pool.
    pub fn new(
        frame_rate: u32,
        workers: usize,
        world: Arc<RwLock<WORLD>>,
        systems: Vec<(A, u128)>,
        renderer: R,
    ) -> (engine: Self)
        requires
            workers >= MIN_WORKERS,
            forall|i: int|
                0 <= i < systems@.len() ==> accepts_any_world::<WORLD, A>(
                    (#[trigger] systems@[i]).0,
                ),
        ensures
            engine@ == (EngineView {
                target_frame_rate: frame_rate,
                world,
                renderer: Some(renderer),
                worker_threads: (workers - 1) as nat,
                queue: initial_descriptors(systems@).to_multiset(),
            }),
            Self::all_callable(engine@.queue),
    {
        let mut scheduling_queue: SchedulingQueue<A> = SchedulingQueue::new();
        let mut i: usize = 0;
        proof {
            let all = initial_descriptors(systems@);
            assert(all.take(0) =~= Seq::<SystemWrapper<A>>::empty());
            lemma_no_entries_in_empty::<A>();
        }
        while i < systems.len()
            invariant
                i <= systems@.len(),
                scheduling_queue@ == initial_descriptors(systems@).take(i as int).to_multiset(),
                Self::all_callable(scheduling_queue@),
                forall|j: int|
                    0 <= j < systems@.len() ==> accepts_any_world::<WORLD, A>(
                        (#[trigger] systems@[j]).0,
                    ),
            decreases systems@.len() - i,
        {
            let (system, update_rate) = systems[i];
            let wrapper = SystemWrapper::new(system, update_rate);
            proof {
                let all = initial_descriptors(systems@);
                assert(all.take(i + 1) =~= all.take(i as int).push(wrapper));
                vstd::seq_lib::to_multiset_build(all.take(i as int), wrapper);
                assert(accepts_any_world::<WORLD, A>(systems@[i as int].0));
                lemma_insert_keeps_callable::<WORLD, A>(scheduling_queue@, wrapper);
            }
            scheduling_queue.push(wrapper);
            i = i + 1;
        }
        proof {
            let all = initial_descriptors(systems@);
            assert(all.take(all.len() as int) =~= all);
        }
        Engine {
            target_frame_rate: frame_rate,
            world,
            pool: pool_new(workers - 1),
            scheduling_queue,
            renderer: Some(renderer),
        }
    }

    /// Creates an engine as [`new`](Self::new) does, or none at all where
    /// `workers` is too small to leave a worker beside the render thread.
    pub fn try_new(
        frame_rate: u32,
        workers: usize,
        world: Arc<RwLock<WORLD>>,
        systems: Vec<(A, u128)>,
        renderer: R,
    ) -> (made: Option<Self>)
        requires
            forall|i: int|
                0 <= i < systems@.len() ==> accepts_any_world::<WORLD, A>(
                    (#[trigger] systems@[i]).0,
                ),
        ensures
            made is None <==> workers < MIN_WORKERS,
            made matches Some(engine) ==> {
                &&& engine@ == (EngineView {
                    target_frame_rate: frame_rate,
                    world,
                    renderer: Some(renderer),
                    worker_threads: (workers - 1) as nat,
                    queue: initial_descriptors(systems@).to_multiset(),
                })
                &&& Self::all_callable(engine@.queue)
            },
    {
        if workers < MIN_WORKERS {
            None
        } else {
            Some(Self::new(frame_rate, workers, world, systems, renderer))
        }
    }

    /// The number of threads in the worker pool.
    pub fn worker_threads(&self) -> (threads: usize)
        ensures
            threads == self@.worker_threads,
    {
        pool_max_count(&self.pool)
    }

    /// Takes the next job off the queue, with the time to wait until it is
    /// due, `elapsed` microseconds after the start: `(0, None)` where the
    /// queue is empty.
    pub fn next_job_at(scheduling_queue: &mut SchedulingQueue<A>, elapsed: u128) -> (next: (
        u128,
        Option<SystemWrapper<A>>,
    ))
        ensures
            next.1 is None <==> old(scheduling_queue)@.len() == 0,
            next.1 is None ==> next.0 == 0 && final(scheduling_queue)@ == old(scheduling_queue)@,
            next.1 matches Some(job) ==> {
                &&& SchedulingQueue::earliest_in(job, old(scheduling_queue)@)
                &&& final(scheduling_queue)@ == old(scheduling_queue)@.remove(job)
                &&& next.0 == due_in(job.priority, elapsed)
            },
    {
        match scheduling_queue.pop() {
            Some(system_wrapper) => {
                let sleep_time = time_until_due(system_wrapper.priority, elapsed);
                (sleep_time, Some(system_wrapper))
            },
            None => (0, None),
        }
    }

    /// Takes the next job off the queue, with the time to wait until it is
    /// due by the system clock, for a run that began when the clock read
    /// `start_time`. The wait is never longer than the job's due time.
    pub fn get_next_job(scheduling_queue: &mut SchedulingQueue<A>, start_time: u128) -> (next: (
        u128,
        Option<SystemWrapper<A>>,
    ))
        ensures
            next.1 is None <==> old(scheduling_queue)@.len() == 0,
            next.1 is None ==> next.0 == 0 && final(scheduling_queue)@ == old(scheduling_queue)@,
            next.1 matches Some(job) ==> {
                &&& SchedulingQueue::earliest_in(job, old(scheduling_queue)@)
                &&& final(scheduling_queue)@ == old(scheduling_queue)@.remove(job)
                &&& next.0 <= job.priority
            },
    {
        let elapsed_time = elapsed_since(start_time, clock_micros());
        Self::next_job_at(scheduling_queue, elapsed_time)
    }

    /// The time to wait until the next job is due, `elapsed` microseconds
    /// after the start, with the queue left as it is; `None` where no
    /// system is registered.
    pub fn time_until_next(&self, elapsed: u128) -> (wait: Option<u128>)
        ensures
            wait is None <==> self@.queue.len() == 0,
            wait matches Some(t) ==> {
                &&& exists|job: SystemWrapper<A>| #[trigger]
                    SchedulingQueue::earliest_in(job, self@.queue)
                &&& forall|job: SystemWrapper<A>| #[trigger]
                    SchedulingQueue::earliest_in(job, self@.queue) ==> t == due_in(
                        job.priority,
                        elapsed,
                    )
            },
    {
        match self.scheduling_queue.peek() {
            Some(system_wrapper) => {
                assert(SchedulingQueue::earliest_in(*system_wrapper, self@.queue));
                Some(time_until_due(system_wrapper.priority, elapsed))
            },
            None => None,
        }
    }

    /// Decides the next step of the dispatch loop, `elapsed` microseconds
    /// after the start, with the shutdown signal read as `running`. A
    /// stopped run leaves the queue as it is.
    pub fn next_step(&mut self, running: bool, elapsed: u128) -> (step: DispatchStep<A>)
        ensures
            !running ==> step is Leave && final(self)@ == old(self)@,
            running && old(self)@.queue.len() == 0 ==> step is Idle && final(self)@ == old(self)@,
            running && old(self)@.queue.len() > 0 ==> {
                &&& step matches DispatchStep::Run { sleep_time, job }
                &&& SchedulingQueue::earliest_in(job, old(self)@.queue)
                &&& sleep_time == due_in(job.priority, elapsed)
                &&& final(self)@ == (EngineView {
                    queue: old(self)@.queue.remove(job),
                    ..old(self)@
                })
            },
            Self::all_callable(old(self)@.queue) ==> Self::all_callable(final(self)@.queue),
    {
        if !running {
            return DispatchStep::Leave;
        }
        let ghost before = self@.queue;
        match Self::next_job_at(&mut self.scheduling_queue, elapsed) {
            (sleep_time, Some(job)) => {
                proof {
                    if Self::all_callable(before) {
                        lemma_remove_keeps_callable::<WORLD, A>(before, job);
                    }
                }
                DispatchStep::Run { sleep_time, job }
            },
            (_, None) => DispatchStep::Idle,
        }
    }

    /// Dispatches `job`: hands its system to the worker pool with a handle
    /// to the world, moves its due time on by one interval and puts it back
    /// into the queue. The call does not wait for the system to run.
    pub fn dispatch(&mut self, job: SystemWrapper<A>)
        requires
            job.can_advance(),
            accepts_any_world::<WORLD, A>(job.system),
        ensures
            final(self)@ == (EngineView {
                queue: old(self)@.queue.insert(job.advanced()),
                ..old(self)@
            }),
            Self::all_callable(old(self)@.queue) ==> Self::all_callable(final(self)@.queue),
    {
        proof {
            if Self::all_callable(self@.queue) {
                lemma_insert_keeps_callable::<WORLD, A>(self@.queue, job.advanced());
            }
        }
        let mut system_wrapper = job;
        let c_world = self.world.clone();
        pool_execute(&self.pool, system_wrapper.system, c_world);
        system_wrapper.advance();
        self.scheduling_queue.push(system_wrapper);
    }

    /// The nominal time between two frames, in microseconds.
    pub fn frame_delay(&self) -> (delay: u32)
        requires
            self@.target_frame_rate > 0,
        ensures
            delay == frame_period(self@.target_frame_rate),
    {
        crate::pacing::frame_delay(self.target_frame_rate)
    }

    /// The number of systems in the queue.
    pub fn queued(&self) -> (n: usize)
        ensures
            n == self@.queue.len(),
    {
        self.scheduling_queue.len()
    }

    /// Takes the render callback out of the engine, for a render loop to
    /// own while it runs.
    pub fn take_renderer(&mut self) -> (renderer: Option<R>)
        ensures
            renderer == old(self)@.renderer,
            final(self)@ == (EngineView { renderer: None, ..old(self)@ }),
    {
        self.renderer.take()
    }

    /// Puts the render callback back once the render loop has ended.
    pub fn replace_renderer(&mut self, renderer: R) -> (previous: Option<R>)
        ensures
            previous == old(self)@.renderer,
            final(self)@ == (EngineView { renderer: Some(renderer), ..old(self)@ }),
    {
        let previous = self.renderer.take();
        self.renderer = Some(renderer);
        previous
    }
}

} // verus!
