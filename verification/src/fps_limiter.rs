//! The frame pacer: deadline arithmetic for releasing one frame per target
//! interval.
//!
//! All times are absolute monotonic timestamps or durations in whole
//! nanoseconds. The pacer itself never reads a clock and never sleeps: the
//! caller samples its clock, asks [`next_wait_step`] what to do (sleep,
//! spin, or go), and once through calls [`frame_delta`], which reports the
//! frame's delta time and schedules the next deadline. A target duration of
//! zero means uncapped: no waiting, deltas measured between calls.

use vstd::prelude::*;

verus! {

pub const NANOS_PER_SEC: u64 = 1_000_000_000;

/// Pacer state: the target frame duration (zero meaning uncapped), the
/// absolute deadline of the next frame, the sleep granularity, and how
/// close to the deadline sleeping is still trusted before busy-waiting.
pub struct FpsLimiter {
    pub target_frametime_ns: u64,
    pub next_frame_timestamp_ns: u64,
    pub poll_interval_ns: u64,
    pub spin_reserve_ns: u64,
}

/// The target frame duration for a frame-rate cap: one second divided by
/// the cap, and zero (uncapped) when the cap itself is zero.
pub open spec fn spec_target_frametime(fps_limit: u32) -> int {
    if fps_limit == 0 {
        0
    } else {
        NANOS_PER_SEC as int / fps_limit as int
    }
}

impl FpsLimiter {
    /// A pacer aiming at `fps_limit` frames per second, given the current
    /// time. A limit of zero runs uncapped.
    pub fn new(fps_limit: u32, poll_interval_ns: u64, spin_reserve_ns: u64, now_ns: u64) -> (l:
        FpsLimiter)
        requires
            now_ns + NANOS_PER_SEC <= u64::MAX,
        ensures
            l.target_frametime_ns == spec_target_frametime(fps_limit),
            l.next_frame_timestamp_ns == now_ns + l.target_frametime_ns,
            l.poll_interval_ns == poll_interval_ns,
            l.spin_reserve_ns == spin_reserve_ns,
    {
        let target: u64 = calc_target_frametime(fps_limit);
        FpsLimiter {
            target_frametime_ns: target,
            next_frame_timestamp_ns: now_ns + target,
            poll_interval_ns,
            spin_reserve_ns,
        }
    }
}

/// One second divided by the cap; zero when the cap is zero. A value of
/// zero never errors: it selects the uncapped mode.
pub fn calc_target_frametime(fps_limit: u32) -> (target: u64)
    ensures
        target == spec_target_frametime(fps_limit),
        target <= NANOS_PER_SEC,
{
    if fps_limit == 0 {
        0
    } else {
        NANOS_PER_SEC / (fps_limit as u64)
    }
}

/// Re-aim the pacer at a new frame-rate cap, rescheduling the next deadline
/// from the given current time. A value of zero means uncapped.
pub fn limit_fps(fps_limiter: &mut FpsLimiter, value: u32, now_ns: u64)
    requires
        now_ns + NANOS_PER_SEC <= u64::MAX,
    ensures
        final(fps_limiter).target_frametime_ns == spec_target_frametime(value),
        final(fps_limiter).next_frame_timestamp_ns == now_ns + final(fps_limiter).target_frametime_ns,
        final(fps_limiter).poll_interval_ns == old(fps_limiter).poll_interval_ns,
        final(fps_limiter).spin_reserve_ns == old(fps_limiter).spin_reserve_ns,
{
    let target: u64 = calc_target_frametime(value);
    fps_limiter.target_frametime_ns = target;
    fps_limiter.next_frame_timestamp_ns = now_ns + target;
}

/// What the frame loop should do next while waiting for the deadline.
#[derive(Clone, Copy, PartialEq, Eq, Structural, Debug)]
pub enum WaitStep {
    /// Yield the CPU for this many nanoseconds, then ask again.
    Sleep(u64),
    /// Busy-wait briefly, then ask again: the deadline is too close for an
    /// imprecise sleep.
    Spin,
    /// The deadline has passed (or the pacer is uncapped): run the frame.
    Ready,
}

/// Decide, from the current time, whether the loop should sleep, spin or
/// proceed. Sleeps are capped at the poll interval and stop a spin-reserve
/// short of the deadline, so an imprecise sleep cannot overshoot it.
pub fn next_wait_step(fps_limiter: &FpsLimiter, now_ns: u64) -> (step: WaitStep)
    ensures
        fps_limiter.target_frametime_ns == 0 ==> step == WaitStep::Ready,
        fps_limiter.target_frametime_ns > 0 ==> {
            let remaining = fps_limiter.next_frame_timestamp_ns - now_ns;
            if (now_ns as int) + (fps_limiter.spin_reserve_ns as int) < (fps_limiter.next_frame_timestamp_ns as int) {
                step == WaitStep::Sleep(
                    if fps_limiter.poll_interval_ns as int <= remaining - fps_limiter.spin_reserve_ns as int {
                        fps_limiter.poll_interval_ns
                    } else {
                        (remaining - fps_limiter.spin_reserve_ns as int) as u64
                    },
                )
            } else if now_ns < fps_limiter.next_frame_timestamp_ns {
                step == WaitStep::Spin
            } else {
                step == WaitStep::Ready
            }
        },
{
    if fps_limiter.target_frametime_ns == 0 {
        return WaitStep::Ready;
    }
    if now_ns >= fps_limiter.next_frame_timestamp_ns {
        return WaitStep::Ready;
    }
    let remaining: u64 = fps_limiter.next_frame_timestamp_ns - now_ns;
    if remaining > fps_limiter.spin_reserve_ns {
        let until_reserve: u64 = remaining - fps_limiter.spin_reserve_ns;
        if fps_limiter.poll_interval_ns <= until_reserve {
            WaitStep::Sleep(fps_limiter.poll_interval_ns)
        } else {
            WaitStep::Sleep(until_reserve)
        }
    } else {
        WaitStep::Spin
    }
}

/// The delta time one frame reports: elapsed since the start of the
/// interval that just elapsed (deadline minus target), never negative.
/// Uncapped, the reference point is simply the previous call's timestamp;
/// so it is when one whole target does not fit before the deadline, which
/// only happens right after a start near the clock's zero.
pub open spec fn spec_frame_delta(l: FpsLimiter, now: int) -> int {
    let reference = if l.target_frametime_ns == 0
        || l.next_frame_timestamp_ns < l.target_frametime_ns {
        l.next_frame_timestamp_ns as int
    } else {
        l.next_frame_timestamp_ns as int - l.target_frametime_ns as int
    };
    if now >= reference {
        now - reference
    } else {
        0
    }
}

/// The deadline scheduled for the following frame: one target past the
/// deadline just served, unless the frame overran that too, in which case
/// the pacer resynchronises to one target from now instead of accumulating
/// a backlog of catch-up frames.
pub open spec fn spec_next_deadline(l: FpsLimiter, now: int) -> int {
    if l.target_frametime_ns == 0 {
        now
    } else if now > l.next_frame_timestamp_ns as int + l.target_frametime_ns as int {
        now + l.target_frametime_ns as int
    } else {
        l.next_frame_timestamp_ns as int + l.target_frametime_ns as int
    }
}

/// Close out a frame at time `now_ns`: report its delta time and schedule
/// the next deadline. Under a cap the caller reaches this once
/// `next_wait_step` says `Ready`; uncapped it is called directly and never
/// blocks anything.
pub fn frame_delta(fps_limiter: &mut FpsLimiter, now_ns: u64) -> (delta_ns: u64)
    requires
        now_ns as int + old(fps_limiter).target_frametime_ns as int <= u64::MAX,
        old(fps_limiter).next_frame_timestamp_ns as int + old(fps_limiter).target_frametime_ns as int
            <= u64::MAX,
    ensures
        delta_ns as int == spec_frame_delta(*old(fps_limiter), now_ns as int),
        final(fps_limiter).next_frame_timestamp_ns as int == spec_next_deadline(
            *old(fps_limiter),
            now_ns as int,
        ),
        final(fps_limiter).target_frametime_ns == old(fps_limiter).target_frametime_ns,
        final(fps_limiter).poll_interval_ns == old(fps_limiter).poll_interval_ns,
        final(fps_limiter).spin_reserve_ns == old(fps_limiter).spin_reserve_ns,
{
    if fps_limiter.target_frametime_ns == 0 {
        let reference: u64 = fps_limiter.next_frame_timestamp_ns;
        let delta: u64 = if now_ns >= reference {
            now_ns - reference
        } else {
            0
        };
        fps_limiter.next_frame_timestamp_ns = now_ns;
        return delta;
    }
    let deadline: u64 = fps_limiter.next_frame_timestamp_ns;
    let target: u64 = fps_limiter.target_frametime_ns;
    let interval_start: u64 = if deadline >= target {
        deadline - target
    } else {
        deadline
    };
    let delta: u64 = if now_ns >= interval_start {
        now_ns - interval_start
    } else {
        0
    };
    let scheduled: u64 = deadline + target;
    fps_limiter.next_frame_timestamp_ns = if now_ns > scheduled {
        now_ns + target
    } else {
        scheduled
    };
    delta
}

/// The total of the delta times a capped pacer reports over a run of
/// frames, where `wakes[i]` is the time the loop got through the wait of
/// frame `i`, `d0` is the first frame's deadline and each later deadline
/// lies one target after the one before (which is how `frame_delta`
/// schedules it for every frame that wakes no later than one target past
/// its deadline).
pub open spec fn spec_deltas_total(d0: int, target: int, wakes: Seq<int>) -> int
    decreases wakes.len(),
{
    if wakes.len() == 0 {
        0
    } else {
        (wakes[0] - (d0 - target)) + spec_deltas_total(d0 + target, target, wakes.drop_first())
    }
}

/// Law: over any run of frames under a positive cap in which every frame
/// wakes within `jitter` of its deadline (with `jitter` at most one
/// target, so the pacer never resynchronises), the reported delta times
/// sum to the run's ideal length — frames times target — plus at most
/// `jitter` per frame. The pacer neither drifts nor accumulates error
/// beyond the waking precision.
pub proof fn lemma_pacer_interval_accuracy(d0: int, target: int, jitter: int, wakes: Seq<int>)
    requires
        0 < target,
        0 <= jitter <= target,
        forall|i: int| 0 <= i < wakes.len() ==> d0 + i * target <= #[trigger] wakes[i] <= d0 + i
            * target + jitter,
    ensures
        wakes.len() * target <= spec_deltas_total(d0, target, wakes) <= wakes.len() * target
            + wakes.len() * jitter,
    decreases wakes.len(),
{
    if wakes.len() > 0 {
        let n = wakes.len() as int;
        let tail = wakes.drop_first();
        assert(d0 + 0 * target <= wakes[0] <= d0 + 0 * target + jitter);
        assert forall|i: int| 0 <= i < tail.len() implies (d0 + target) + i * target <= #[trigger]
            tail[i] <= (d0 + target) + i * target + jitter by {
            assert(tail[i] == wakes[i + 1]);
            assert(d0 + (i + 1) * target <= wakes[i + 1] <= d0 + (i + 1) * target + jitter);
            assert((i + 1) * target == i * target + target) by (nonlinear_arith);
        }
        lemma_pacer_interval_accuracy(d0 + target, target, jitter, tail);
        assert(n * target == (n - 1) * target + target) by (nonlinear_arith);
        assert(n * jitter == (n - 1) * jitter + jitter) by (nonlinear_arith);
    }
}

} // verus!
