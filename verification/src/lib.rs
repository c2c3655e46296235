//! A time-sliced scheduler for periodic systems that act on one shared world.
//!
//! Every registered system runs at its own fixed interval on a pool of worker
//! threads, while one further thread is kept for a render callback paced at a
//! target frame rate. This crate holds the scheduling rules: the queue of
//! systems ordered by due time, the arithmetic that paces both loops, and the
//! bookkeeping that ends a run.
//!
//! A run is driven from outside: the driver reads the clock and the shutdown
//! signal, asks [`Engine::next_step`] and [`RenderLoop::next_frame`] what to
//! do, sleeps as long as it is told, and comes back with
//! [`Engine::dispatch`] and [`RenderLoop::render_frame`].
//!
//! Three choices are fixed here. A system is first due one full interval
//! after the start. Of several systems that are due at the same time any one
//! may run first. A clock that reads earlier than it did before counts as no
//! time passed.

pub mod clock;
pub mod engine;
pub mod pacing;
pub mod pool;
pub mod queue;
pub mod renderer;
pub mod system_wrapper;

pub use engine::DispatchStep;
pub use engine::Engine;
pub use queue::SchedulingQueue;
pub use renderer::FrameStep;
pub use renderer::RenderLoop;
pub use renderer::Renderer;
pub use system_wrapper::SystemWrapper;
