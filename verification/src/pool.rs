//! The worker pool, as far as the scheduler uses it.

use std::sync::Arc;
use std::sync::RwLock;
use threadpool::ThreadPool;
use vstd::prelude::*;

verus! {

/// `threadpool::ThreadPool`, carried through as it is.
#[verifier::external_type_specification]
#[verifier::external_body]
pub struct ExThreadPool(ThreadPool);

/// `std::sync::RwLock`, the lock around the world. Nothing in this crate
/// takes the lock or looks behind it.
#[verifier::external_type_specification]
#[verifier::external_body]
#[verifier::reject_recursive_types(T)]
pub struct ExRwLock<T: ?Sized>(RwLock<T>);

/// The number of jobs that a pool runs at the same time: the number of
/// worker threads it was made with, as nothing in this crate resizes a pool
/// or shares it.
pub uninterp spec fn pool_threads(pool: ThreadPool) -> nat;

/// Whether `system` may be called with every world handle.
pub open spec fn accepts_any_world<W, A: FnOnce(Arc<RwLock<W>>)>(system: A) -> bool {
    forall|world: Arc<RwLock<W>>| call_requires(system, (world,))
}

/// `ThreadPool::new` starts a pool of `threads` worker threads. It panics
/// where `threads` is zero, so that is ruled out here. (It also gives up
/// where the system cannot start a thread, which no input decides.)
#[verifier::external_body]
pub(crate) fn pool_new(threads: usize) -> (pool: ThreadPool)
    requires
        threads >= 1,
    ensures
        pool_threads(pool) == threads,
{
    ThreadPool::new(threads)
}

/// `ThreadPool::max_count` gives the number of threads that the pool runs
/// at most: the number it was made with, unless `set_num_threads` was called
/// on the pool or on a clone of it, which this crate never does.
#[verifier::external_body]
pub(crate) fn pool_max_count(pool: &ThreadPool) -> (threads: usize)
    ensures
        threads == pool_threads(*pool),
{
    pool.max_count()
}

/// `ThreadPool::execute` queues a job for the next free worker and returns
/// at once. The job here is one call of `system` on `world`. Nothing is
/// claimed of when the call runs or of what it does to the world.
#[verifier::external_body]
pub(crate) fn pool_execute<W, A>(pool: &ThreadPool, system: A, world: Arc<RwLock<W>>) where
    W: Send + Sync + 'static,
    A: FnOnce(Arc<RwLock<W>>) + Send + 'static,

    requires
        call_requires(system, (world,)),
{
    pool.execute(move || system(world));
}

} // verus!
