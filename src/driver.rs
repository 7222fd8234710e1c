use vstd::prelude::*;

use crate::input::{advance_n, event_index, record, InputBinding, InputEvent, resolve_in};
use crate::scene::scene_input;
use crate::stack::{stack_steps, SceneStack};

verus! {

/// Simulation ticks per second.
pub const TICKS_PER_SECOND: u64 = 9;

/// Length of one tick in whole milliseconds.
pub const TICK_MS: u64 = 111;

/// Most ticks run in one frame; a larger backlog is dropped.
pub const MAX_CATCH_UP_TICKS: u64 = 5;

/// Time on hand after a frame of `delta` milliseconds, before ticks are taken.
pub open spec fn on_hand(acc: u64, delta: u64) -> int {
    if acc + delta > u64::MAX {
        u64::MAX as int
    } else {
        acc + delta
    }
}

/// Ticks run in a frame: as many whole ticks as the time on hand holds, but
/// no more than `max`.
pub open spec fn frame_ticks(acc: u64, delta: u64, tick: u64, max: u64) -> int {
    if on_hand(acc, delta) / (tick as int) > max {
        max as int
    } else {
        on_hand(acc, delta) / (tick as int)
    }
}

/// Time kept for the next frame: the part of a tick left over, or nothing
/// when the frame hit the cap and the backlog was dropped.
pub open spec fn frame_rest(acc: u64, delta: u64, tick: u64, max: u64) -> int {
    if on_hand(acc, delta) / (tick as int) > max {
        0
    } else {
        on_hand(acc, delta) % (tick as int)
    }
}

/// Fixed-timestep clock: turns frame times into a number of ticks.
pub struct Scheduler {
    pub accumulator_ms: u64,
    pub tick_ms: u64,
    pub max_ticks: u64,
}

impl Scheduler {
    pub open spec fn wf(&self) -> bool {
        0 < self.tick_ms && self.accumulator_ms < self.tick_ms
    }

    /// A scheduler with nothing on hand.
    pub fn new(tick_ms: u64, max_ticks: u64) -> (r: Scheduler)
        requires
            0 < tick_ms,
        ensures
            r.wf(),
            r == (Scheduler { accumulator_ms: 0, tick_ms, max_ticks }),
    {
        Scheduler { accumulator_ms: 0, tick_ms, max_ticks }
    }

    /// The scheduler at the crate's own tick rate and cap.
    pub fn standard() -> (r: Scheduler)
        ensures
            r.wf(),
            r == (Scheduler { accumulator_ms: 0, tick_ms: TICK_MS, max_ticks: MAX_CATCH_UP_TICKS }),
    {
        Scheduler::new(TICK_MS, MAX_CATCH_UP_TICKS)
    }

    /// Takes a frame of `delta_ms` milliseconds and says how many ticks to
    /// run in it.
    pub fn advance(&mut self, delta_ms: u64) -> (n: u64)
        requires
            old(self).wf(),
        ensures
            final(self).wf(),
            final(self).tick_ms == old(self).tick_ms,
            final(self).max_ticks == old(self).max_ticks,
            n == frame_ticks(old(self).accumulator_ms, delta_ms, old(self).tick_ms, old(self).max_ticks),
            final(self).accumulator_ms == frame_rest(old(self).accumulator_ms, delta_ms, old(self).tick_ms, old(self).max_ticks),
            n <= old(self).max_ticks,
    {
        let total = self.accumulator_ms.saturating_add(delta_ms);
        let whole = total / self.tick_ms;
        if whole > self.max_ticks {
            self.accumulator_ms = 0;
            self.max_ticks
        } else {
            self.accumulator_ms = total % self.tick_ms;
            whole
        }
    }

    /// One frame: runs the ticks it holds on the stack, each advancing held
    /// input by one tick's time, and returns how many ran.
    pub fn run_frame(&mut self, stack: &mut SceneStack, delta_ms: u64) -> (n: u64)
        requires
            old(self).wf(),
            old(stack).wf(),
        ensures
            final(self).wf(),
            final(stack).wf(),
            n == frame_ticks(old(self).accumulator_ms, delta_ms, old(self).tick_ms, old(self).max_ticks),
            final(self).accumulator_ms == frame_rest(old(self).accumulator_ms, delta_ms, old(self).tick_ms, old(self).max_ticks),
            final(stack)@ == stack_steps(old(stack)@, old(stack).world, n as nat),
            final(stack).world.scene == old(stack).world.scene,
            final(stack).world.next_scene == old(stack).world.next_scene,
            final(stack).world.input@ == advance_n(old(stack).world.input@, old(self).tick_ms, n as nat),
    {
        let n = self.advance(delta_ms);
        let ghost s0 = stack@;
        let ghost w0 = stack.world;
        let mut i: u64 = 0;
        while i < n
            invariant
                i <= n,
                stack.wf(),
                self.wf(),
                stack@ == stack_steps(s0, w0, i as nat),
                stack.world.scene == w0.scene,
                stack.world.next_scene == w0.next_scene,
                stack.world.input@ == advance_n(w0.input@, self.tick_ms, i as nat),
            decreases n - i,
        {
            stack.world.input.update(self.tick_ms);
            stack.update();
            assert(stack@ == stack_steps(s0, w0, (i + 1) as nat));
            i = i + 1;
        }
        n
    }
}

/// Catch-up is capped: no frame runs more than `max` ticks, and a frame that
/// hits the cap keeps nothing of its backlog, so the frame after it runs no
/// more ticks than its own time holds.
pub proof fn lemma_catch_up_capped(acc: u64, delta: u64, next_delta: u64, tick: u64, max: u64)
    requires
        0 < tick,
        acc < tick,
    ensures
        0 <= frame_ticks(acc, delta, tick, max) <= max,
        on_hand(acc, delta) / (tick as int) > max ==> {
            &&& frame_rest(acc, delta, tick, max) == 0
            &&& frame_ticks(0, next_delta, tick, max) <= next_delta / tick
        },
{
}

/// A key went down (`pressed`) or up: the bound event, if any, goes first to
/// the top scene and then to the held-input record. Returns the event.
pub fn handle_key(stack: &mut SceneStack, binding: &InputBinding, code: u32, pressed: bool) -> (r: Option<InputEvent>)
    requires
        old(stack).wf(),
    ensures
        final(stack).wf(),
        r == resolve_in(binding@, code),
        final(stack)@ == old(stack)@,
        r is None ==> final(stack).world == old(stack).world,
        r matches Some(e) ==> {
            let w = scene_input(old(stack)@.last(), old(stack).world, e, pressed);
            &&& final(stack).world.scene == w.scene
            &&& final(stack).world.next_scene == w.next_scene
            &&& final(stack).world.input@ == record(w.input@, event_index(e), pressed)
        },
{
    let r = binding.resolve(code);
    if let Some(e) = r {
        stack.input(e, pressed);
        stack.world.input.update_effect(e, pressed);
    }
    r
}

} // verus!
