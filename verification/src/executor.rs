//! Turning a sampled plan into moves. The plan is sampled at a fixed
//! cadence; each sample is a position in whole motor steps, and each slice
//! becomes one move by the difference between two samples. Because the
//! positions are rounded and not the differences, no step is lost along the
//! way.

use vstd::prelude::*;
use crate::commands::magnitude;
use crate::decimal::{decimal, render_int, render_nat};
use crate::device::{invalid, Device};
use crate::error::{outcome, plain_outcome, DeviceError, Fault};
use crate::wire::{sent, Effect, Reading, Request, RequestView};

verus! {

/// A position in whole steps of the mixed axes A and B.
#[derive(Debug, Clone, Copy, PartialEq, Eq, Structural)]
pub struct StepPosition {
    pub a: i32,
    pub b: i32,
}

/// The request for one slice of `slice_ms` milliseconds that moves by `da`
/// and `db` steps, or why there is none: the duration is outside 1 to
/// 16777215 milliseconds, or a step count lies outside plus or minus
/// 16777215.
pub open spec fn slice_request(connected: bool, slice_ms: u32, da: int, db: int) -> Result<
    RequestView,
    Fault,
> {
    if !(1 <= slice_ms <= 16777215) {
        Err(Fault::Value { parameter: "step_ms"@, value: decimal(slice_ms as int) })
    } else if magnitude(da) > 16777215 {
        Err(Fault::Value { parameter: "axis_steps_a"@, value: decimal(da) })
    } else if magnitude(db) > 16777215 {
        Err(Fault::Value { parameter: "axis_steps_b"@, value: decimal(db) })
    } else {
        sent(
            connected,
            "XM,"@ + decimal(slice_ms as int) + ","@ + decimal(da) + ","@ + decimal(db),
            true,
            Reading::Text,
            Effect::Keep,
        )
    }
}

/// The number of slices of `slice_ms` milliseconds that a plan of
/// `total_ms` milliseconds takes: as many as are needed to reach its end.
pub open spec fn slices_needed(total_ms: int, slice_ms: int) -> int {
    (total_ms + slice_ms - 1) / slice_ms
}

/// The number of slices that a plan takes, or why it cannot be sliced: the
/// slice is outside the 1 to 16777215 milliseconds that a move can last.
pub open spec fn slice_count_of(total_ms: u64, slice_ms: u32) -> Result<u64, Fault> {
    if !(1 <= slice_ms <= 16777215) {
        Err(Fault::Value { parameter: "step_ms"@, value: decimal(slice_ms as int) })
    } else {
        Ok(slices_needed(total_ms as int, slice_ms as int) as u64)
    }
}

/// Counts the slices of `slice_ms` milliseconds that a plan of `total_ms`
/// milliseconds takes. Slice `k`, counted from 1, ends at `k` times
/// `slice_ms` milliseconds, or with the plan if that comes first.
pub fn slice_count(total_ms: u64, slice_ms: u32) -> (r: Result<u64, DeviceError>)
    ensures
        plain_outcome(r) == slice_count_of(total_ms, slice_ms),
{
    if slice_ms < 1 || slice_ms > 16777215 {
        return Err(invalid("step_ms", &render_nat(slice_ms as u128)));
    }
    let slice: u64 = slice_ms as u64;
    let whole: u64 = total_ms / slice;
    assert(total_ms % slice != 0 ==> whole < total_ms) by (nonlinear_arith)
        requires
            slice >= 1,
            whole == total_ms / slice,
    ;
    let count: u64 = if total_ms % slice == 0 {
        whole
    } else {
        whole + 1
    };
    assert(count == slices_needed(total_ms as int, slice_ms as int)) by (nonlinear_arith)
        requires
            slice == slice_ms,
            slice >= 1,
            whole == total_ms / slice,
            total_ms % slice == 0 ==> count == whole,
            total_ms % slice != 0 ==> count == whole + 1,
    ;
    Ok(count)
}

/// The slices cover the plan and none is idle: the last slice ends at or
/// after the plan's end, and the one before it ends before that.
pub proof fn lemma_slices_cover(total_ms: int, slice_ms: int)
    requires
        total_ms >= 0,
        slice_ms >= 1,
    ensures
        slices_needed(total_ms, slice_ms) >= 0,
        slices_needed(total_ms, slice_ms) * slice_ms >= total_ms,
        (slices_needed(total_ms, slice_ms) - 1) * slice_ms < total_ms || total_ms == 0,
{
    let n = slices_needed(total_ms, slice_ms);
    assert(n >= 0 && n * slice_ms >= total_ms && ((n - 1) * slice_ms < total_ms || total_ms == 0))
        by (nonlinear_arith)
        requires
            total_ms >= 0,
            slice_ms >= 1,
            n == (total_ms + slice_ms - 1) / slice_ms,
    ;
}

impl Device {
    /// `XM` for the slice that leads from the position `from` to the
    /// position `to` in `slice_ms` milliseconds.
    pub fn slice_move(&self, slice_ms: u32, from: StepPosition, to: StepPosition) -> (r: Result<
        Request,
        DeviceError,
    >)
        ensures
            outcome(r) == slice_request(self.connected, slice_ms, to.a - from.a, to.b - from.b),
    {
        if slice_ms < 1 || slice_ms > 16777215 {
            return self.stepper_move_mixed(slice_ms, 0, 0);
        }
        let da: i64 = to.a as i64 - from.a as i64;
        let db: i64 = to.b as i64 - from.b as i64;
        if da > 16777215 || da < -16777215 {
            return Err(invalid("axis_steps_a", &render_int(da)));
        }
        if db > 16777215 || db < -16777215 {
            return Err(invalid("axis_steps_b", &render_int(db)));
        }
        self.stepper_move_mixed(slice_ms, da as i32, db as i32)
    }
}

/// The steps along axis A that the first `k` slices of a sampled plan make,
/// where the plan starts at `start` and `samples[i]` is the position at the
/// end of slice `i`.
pub open spec fn steps_made_a(start: StepPosition, samples: Seq<StepPosition>, k: int) -> int
    decreases k,
{
    if k <= 0 {
        0
    } else {
        let before = if k == 1 {
            start
        } else {
            samples[k - 2]
        };
        steps_made_a(start, samples, k - 1) + (samples[k - 1].a - before.a)
    }
}

/// The steps along axis B that the first `k` slices of a sampled plan make.
pub open spec fn steps_made_b(start: StepPosition, samples: Seq<StepPosition>, k: int) -> int
    decreases k,
{
    if k <= 0 {
        0
    } else {
        let before = if k == 1 {
            start
        } else {
            samples[k - 2]
        };
        steps_made_b(start, samples, k - 1) + (samples[k - 1].b - before.b)
    }
}

/// The moves of a sampled plan add up to the way from its start to its last
/// sample: slicing loses no step and adds none.
pub proof fn lemma_steps_preserved(start: StepPosition, samples: Seq<StepPosition>, k: int)
    requires
        1 <= k <= samples.len(),
    ensures
        steps_made_a(start, samples, k) == samples[k - 1].a - start.a,
        steps_made_b(start, samples, k) == samples[k - 1].b - start.b,
    decreases k,
{
    reveal_with_fuel(steps_made_a, 2);
    reveal_with_fuel(steps_made_b, 2);
    if k > 1 {
        lemma_steps_preserved(start, samples, k - 1);
    }
}

} // verus!
