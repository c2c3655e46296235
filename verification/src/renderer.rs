//! The render callback and the pacing of the loop that drives it.

use crate::pacing::elapsed;
use crate::pacing::elapsed_since;
use crate::pacing::frame_sleep;
use crate::pacing::frame_wait;
use std::fmt::Debug;
use std::sync::Arc;
use std::sync::RwLock;
use vstd::prelude::*;

verus! {

/// A render callback: it presents what the world holds.
///
/// One thread calls `render` again and again. An error ends the run.
pub trait Renderer<WORLD: Send + Sync + 'static>: Send + Sync {
    type Error: Debug;

    /// Renders the necessary contents of the world.
    fn render(&mut self, world: Arc<RwLock<WORLD>>) -> (outcome: Result<(), Self::Error>);
}

/// What a render loop does next.
pub enum FrameStep {
    /// Leave the loop and hand the render callback back.
    Leave,
    /// Sleep for `sleep_time` microseconds, then render one frame.
    Render { sleep_time: u128 },
}

/// The state of one render loop.
///
/// `frame_delay` is the nominal time between two frames and `last_time` the
/// clock reading taken at the start of the last frame that was rendered, both
/// in microseconds. `failed` is set once the render callback has returned an
/// error, and stays set.
pub struct RenderLoop {
    pub frame_delay: u32,
    pub last_time: u128,
    pub failed: bool,
}

impl RenderLoop {
    /// The next step, seen at `current_time` with the shutdown signal read
    /// as `running`: a stopped run and a failed callback both end the loop;
    /// else the loop sleeps for what is left of the frame period.
    pub open spec fn plan(self, running: bool, current_time: u128) -> FrameStep {
        if !running || self.failed {
            FrameStep::Leave
        } else {
            FrameStep::Render {
                sleep_time: frame_wait(self.frame_delay, elapsed(self.last_time, current_time)),
            }
        }
    }

    /// The state after a frame that began at `current_time`. A frame that
    /// was rendered becomes the last frame; one that failed marks the loop.
    pub open spec fn after_frame(self, current_time: u128, rendered: bool) -> Self {
        if rendered {
            RenderLoop { last_time: current_time, ..self }
        } else {
            RenderLoop { failed: true, ..self }
        }
    }

    /// How often the callback is called by a loop that starts in this state
    /// and is never interrupted, when `frames` gives, for each frame that may
    /// come, the clock reading at its start and whether rendering succeeds.
    pub open spec fn invocations(self, frames: Seq<(u128, bool)>) -> nat
        decreases frames.len(),
    {
        if frames.len() == 0 || self.plan(true, frames[0].0) is Leave {
            0
        } else {
            1 + self.after_frame(frames[0].0, frames[0].1).invocations(frames.drop_first())
        }
    }

    /// The state in which that loop ends.
    pub open spec fn after_frames(self, frames: Seq<(u128, bool)>) -> Self
        decreases frames.len(),
    {
        if frames.len() == 0 || self.plan(true, frames[0].0) is Leave {
            self
        } else {
            self.after_frame(frames[0].0, frames[0].1).after_frames(frames.drop_first())
        }
    }

    /// The state of a loop that starts at `start_time` and leaves
    /// `frame_delay` microseconds between two frames.
    pub fn new(frame_delay: u32, start_time: u128) -> (state: Self)
        ensures
            state == (RenderLoop { frame_delay, last_time: start_time, failed: false }),
    {
        RenderLoop { frame_delay, last_time: start_time, failed: false }
    }

    /// Decides the next step at the top of an iteration.
    pub fn next_frame(&self, running: bool, current_time: u128) -> (step: FrameStep)
        ensures
            step == self.plan(running, current_time),
    {
        if !running || self.failed {
            FrameStep::Leave
        } else {
            let since_last_frame = elapsed_since(self.last_time, current_time);
            FrameStep::Render { sleep_time: frame_sleep(self.frame_delay, since_last_frame) }
        }
    }

    /// Records how the frame that began at `current_time` went. Returns
    /// whether the run goes on; `false` asks for the shutdown signal to be
    /// set.
    pub fn frame_done(&mut self, current_time: u128, rendered: bool) -> (go_on: bool)
        ensures
            *final(self) == old(self).after_frame(current_time, rendered),
            go_on == rendered,
    {
        if rendered {
            self.last_time = current_time;
        } else {
            self.failed = true;
        }
        rendered
    }

    /// Renders the frame that began at `current_time` and records how it
    /// went. The callback decides the outcome; the state follows it.
    pub fn render_frame<WORLD: Send + Sync + 'static, R: Renderer<WORLD>>(
        &mut self,
        renderer: &mut R,
        world: Arc<RwLock<WORLD>>,
        current_time: u128,
    ) -> (outcome: Result<(), R::Error>)
        ensures
            *final(self) == old(self).after_frame(current_time, outcome is Ok),
    {
        let outcome = renderer.render(world);
        self.frame_done(current_time, outcome.is_ok());
        outcome
    }

    /// A loop whose callback fails for the first time on its `k`-th call
    /// makes exactly `k` calls and ends as failed; from then on every step
    /// is to leave, whatever the shutdown signal and the clock read.
    pub proof fn lemma_stops_at_first_failure(self, frames: Seq<(u128, bool)>, k: nat)
        requires
            !self.failed,
            0 < k <= frames.len(),
            forall|i: int| 0 <= i < k - 1 ==> (#[trigger] frames[i]).1,
            !frames[k - 1].1,
        ensures
            self.invocations(frames) == k,
            self.after_frames(frames).failed,
            forall|running: bool, current_time: u128|
                #[trigger] self.after_frames(frames).plan(running, current_time) is Leave,
        decreases k,
    {
        let next = self.after_frame(frames[0].0, frames[0].1);
        let rest = frames.drop_first();
        if k == 1 {
            assert(next.failed);
            assert(next.invocations(rest) == 0);
            assert(next.after_frames(rest) == next);
        } else {
            assert(frames[0].1);
            assert forall|i: int| 0 <= i < k - 2 implies (#[trigger] rest[i]).1 by {
                assert(rest[i] == frames[i + 1]);
            }
            assert(rest[k - 2] == frames[k - 1]);
            next.lemma_stops_at_first_failure(rest, (k - 1) as nat);
        }
    }

    /// A loop whose callback never fails renders every frame.
    pub proof fn lemma_renders_while_ok(self, frames: Seq<(u128, bool)>)
        requires
            !self.failed,
            forall|i: int| 0 <= i < frames.len() ==> (#[trigger] frames[i]).1,
        ensures
            self.invocations(frames) == frames.len(),
            !self.after_frames(frames).failed,
        decreases frames.len(),
    {
        if frames.len() > 0 {
            let next = self.after_frame(frames[0].0, frames[0].1);
            let rest = frames.drop_first();
            assert(frames[0].1);
            assert forall|i: int| 0 <= i < rest.len() implies (#[trigger] rest[i]).1 by {
                assert(rest[i] == frames[i + 1]);
            }
            next.lemma_renders_while_ok(rest);
        }
    }
}

} // verus!
