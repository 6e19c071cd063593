//! The order in which a drawing is put on paper: which moves are made with
//! the pen up, which with the pen down, and when the pen is raised or
//! lowered in between.

use vstd::prelude::*;
use crate::commands::{home_fault, home_text, pen_down_request, pen_up_request};
use crate::commands::set_motors_request;
use crate::device::{checked, Device, StepMode};
use crate::error::{outcome, DeviceError, Fault};
use crate::wire::{sent, Effect, Reading, Request, RequestView};

verus! {

/// What the orchestrator has to know of one polyline of a drawing.
#[derive(Debug, Clone, Copy, PartialEq, Eq, Structural)]
pub struct Stroke {
    /// The polyline has no points.
    pub empty: bool,
    /// A later polyline that is not empty exists, and the first such starts
    /// where this one ends. Empty polylines in between do not count.
    pub joins_next: bool,
}

/// One step of a drawing session.
#[derive(Debug, Clone, Copy, PartialEq, Eq, Structural)]
pub enum DrawStep {
    /// Enable both motors in the given step mode.
    EnableMotors { mode: StepMode },
    /// Make the current position the origin of the step counters.
    ZeroPosition,
    /// Raise the pen.
    PenUp,
    /// Lower the pen.
    PenDown,
    /// Move to the first point of the polyline `to`, from the last point of
    /// the polyline `from`, or from the origin where there is none.
    Travel { from: Option<usize>, to: usize },
    /// Follow the polyline `path` from its first point to its last.
    Trace { path: usize },
    /// Return to the origin at the given step frequency.
    Home { step_frequency: u32 },
}

/// The step frequency for the return to the origin: the given rate, kept
/// within the 2 to 25000 steps per second that the board accepts.
pub open spec fn home_frequency(rate: u32) -> u32 {
    if rate < 2 {
        2
    } else if rate > 25000 {
        25000
    } else {
        rate
    }
}

/// The last polyline among the first `k` that is not empty.
pub open spec fn last_drawn(strokes: Seq<Stroke>, k: int) -> Option<usize>
    decreases k,
{
    if k <= 0 {
        None
    } else if !strokes[k - 1].empty {
        Some((k - 1) as usize)
    } else {
        last_drawn(strokes, k - 1)
    }
}

/// Whether a polyline that is not empty comes after polyline `i`.
pub open spec fn drawn_after(strokes: Seq<Stroke>, i: int) -> bool {
    exists|j: int| i < j < strokes.len() && !(#[trigger] strokes[j]).empty
}

/// Whether the pen is raised after polyline `i`: it is, where a later
/// polyline that is not empty exists and does not start where this one ends.
/// Empty polylines are skipped and raise nothing.
pub open spec fn lifts_after(strokes: Seq<Stroke>, i: int) -> bool {
    drawn_after(strokes, i) && !strokes[i].joins_next
}

/// The steps for polyline `i`: none where it is empty; else the move to its
/// first point, the lowering of the pen, the polyline itself, and the
/// raising of the pen where [`lifts_after`] says so.
pub open spec fn stroke_steps(strokes: Seq<Stroke>, i: int) -> Seq<DrawStep> {
    if strokes[i].empty {
        Seq::<DrawStep>::empty()
    } else {
        seq![
            DrawStep::Travel { from: last_drawn(strokes, i), to: i as usize },
            DrawStep::PenDown,
            DrawStep::Trace { path: i as usize },
        ] + if lifts_after(strokes, i) {
            seq![DrawStep::PenUp]
        } else {
            Seq::<DrawStep>::empty()
        }
    }
}

/// The steps for the first `k` polylines.
pub open spec fn steps_upto(strokes: Seq<Stroke>, k: int) -> Seq<DrawStep>
    decreases k,
{
    if k <= 0 {
        Seq::<DrawStep>::empty()
    } else {
        steps_upto(strokes, k - 1) + stroke_steps(strokes, k - 1)
    }
}

/// The steps with which every session begins: the motors are enabled in
/// the chosen step mode, the origin is set and the pen raised.
pub open spec fn opening_steps(mode: StepMode) -> Seq<DrawStep> {
    seq![DrawStep::EnableMotors { mode }, DrawStep::ZeroPosition, DrawStep::PenUp]
}

/// The steps of a whole session: the opening; the polylines in their order;
/// at the end the pen is raised and the plotter returns to the origin. The
/// motors are left enabled: they are disabled by the shutdown, which first
/// waits for the return to come to rest.
pub open spec fn drawing_steps(strokes: Seq<Stroke>, rate: u32, mode: StepMode) -> Seq<DrawStep> {
    opening_steps(mode) + steps_upto(strokes, strokes.len() as int) + seq![
        DrawStep::PenUp,
        DrawStep::Home { step_frequency: home_frequency(rate) },
    ]
}

/// Decides [`drawn_after`].
fn followed(strokes: &Vec<Stroke>, i: usize) -> (b: bool)
    requires
        i < strokes.len(),
    ensures
        b == drawn_after(strokes@, i as int),
{
    let n = strokes.len();
    let mut j: usize = i + 1;
    while j < n
        invariant
            i < j <= n,
            n == strokes.len(),
            forall|k: int| i < k < j ==> (#[trigger] strokes@[k]).empty,
        decreases n - j,
    {
        if !strokes[j].empty {
            return true;
        }
        j += 1;
    }
    false
}

/// With which step a session begins: the first, where there is one.
pub fn first_step(steps: &Vec<DrawStep>) -> (first: Option<usize>)
    ensures
        first == if steps.len() == 0 {
            None
        } else {
            Some(0usize)
        },
{
    if steps.len() == 0 {
        None
    } else {
        Some(0)
    }
}

/// Which step comes after step `index` of a session: the next one, or none
/// where that step failed or was the last. The first failure ends the
/// drawing.
pub fn after_step(steps: &Vec<DrawStep>, index: usize, failed: bool) -> (next: Option<usize>)
    ensures
        next == if failed || index + 1 >= steps.len() {
            None
        } else {
            Some((index + 1) as usize)
        },
{
    if failed || index >= steps.len() || index + 1 >= steps.len() {
        None
    } else {
        Some(index + 1)
    }
}

/// Lays out a drawing session. `rate` is the step rate that the return to
/// the origin would take at full drawing speed, in steps per second; `mode`
/// is the step mode in which the motors are to run.
pub fn draw(strokes: &Vec<Stroke>, rate: u32, mode: StepMode) -> (steps: Vec<DrawStep>)
    ensures
        steps@ == drawing_steps(strokes@, rate, mode),
{
    let mut steps: Vec<DrawStep> = Vec::new();
    steps.push(DrawStep::EnableMotors { mode });
    steps.push(DrawStep::ZeroPosition);
    steps.push(DrawStep::PenUp);
    let n = strokes.len();
    let mut last: Option<usize> = None;
    let mut i: usize = 0;
    while i < n
        invariant
            i <= n,
            n == strokes.len(),
            last == last_drawn(strokes@, i as int),
            steps@ == opening_steps(mode) + steps_upto(strokes@, i as int),
        decreases n - i,
    {
        let ghost before = steps@;
        if !strokes[i].empty {
            steps.push(DrawStep::Travel { from: last, to: i });
            steps.push(DrawStep::PenDown);
            steps.push(DrawStep::Trace { path: i });
            if !strokes[i].joins_next && followed(strokes, i) {
                steps.push(DrawStep::PenUp);
            }
            last = Some(i);
        }
        assert(steps@ =~= before + stroke_steps(strokes@, i as int));
        i += 1;
    }
    let frequency: u32 = if rate < 2 {
        2
    } else if rate > 25000 {
        25000
    } else {
        rate
    };
    steps.push(DrawStep::PenUp);
    steps.push(DrawStep::Home { step_frequency: frequency });
    assert(steps@ =~= drawing_steps(strokes@, rate, mode));
    steps
}

/// The request that a step sends to the board, or why it sends none; a move
/// along a path sends none of its own.
pub open spec fn step_request(device: Device, step: DrawStep) -> Option<Result<RequestView, Fault>> {
    match step {
        DrawStep::EnableMotors { mode } => Some(
            set_motors_request(device, Some(true), Some(true), Some(mode)),
        ),
        DrawStep::ZeroPosition => Some(
            sent(device.connected, "CS"@, true, Reading::Text, Effect::Keep),
        ),
        DrawStep::PenUp => Some(pen_up_request(device)),
        DrawStep::PenDown => Some(pen_down_request(device)),
        DrawStep::Travel { from, to } => None,
        DrawStep::Trace { path } => None,
        DrawStep::Home { step_frequency } => Some(
            checked(
                home_fault(step_frequency, None, None),
                sent(
                    device.connected,
                    home_text(step_frequency, None, None),
                    true,
                    Reading::Text,
                    Effect::Keep,
                ),
            ),
        ),
    }
}

impl Device {
    /// The request by which the board carries out a step, where the step is
    /// one command; `None` for a move along a path, which the planner turns
    /// into many.
    pub fn perform(&self, step: &DrawStep) -> (r: Option<Result<Request, DeviceError>>)
        ensures
            match r {
                Some(made) => step_request(*self, *step) == Some(outcome(made)),
                None => step_request(*self, *step) is None,
            },
    {
        match step {
            DrawStep::EnableMotors { mode } => Some(self.enable_motors(*mode)),
            DrawStep::ZeroPosition => Some(self.zero_position()),
            DrawStep::PenUp => Some(self.pen_up()),
            DrawStep::PenDown => Some(self.pen_down()),
            DrawStep::Travel { from, to } => None,
            DrawStep::Trace { path } => None,
            DrawStep::Home { step_frequency } => Some(self.home(*step_frequency, None, None)),
        }
    }
}

/// Every session begins by enabling the motors, setting the origin and
/// raising the pen, and ends by raising the pen and returning to the origin,
/// at a frequency that the board accepts.
pub proof fn lemma_session_frame(strokes: Seq<Stroke>, rate: u32, mode: StepMode)
    ensures
        drawing_steps(strokes, rate, mode).len() >= 5,
        drawing_steps(strokes, rate, mode).take(3) == opening_steps(mode),
        drawing_steps(strokes, rate, mode)[drawing_steps(strokes, rate, mode).len() - 2]
            == DrawStep::PenUp,
        drawing_steps(strokes, rate, mode).last() == (DrawStep::Home {
            step_frequency: home_frequency(rate),
        }),
        home_fault(home_frequency(rate), None, None) is None,
{
    assert(drawing_steps(strokes, rate, mode).take(3) =~= opening_steps(mode));
}

/// Among the steps for the first `k` polylines, every polyline that is
/// traced has the lowering of the pen right before it.
proof fn lemma_trace_follows_lowering(strokes: Seq<Stroke>, k: int)
    requires
        0 <= k <= strokes.len(),
    ensures
        forall|i: int|
            0 <= i < steps_upto(strokes, k).len() && (#[trigger] steps_upto(strokes, k)[i])
                is Trace ==> i >= 1 && steps_upto(strokes, k)[i - 1] == DrawStep::PenDown,
    decreases k,
{
    if k > 0 {
        lemma_trace_follows_lowering(strokes, k - 1);
        let before = steps_upto(strokes, k - 1);
        let added = stroke_steps(strokes, k - 1);
        let all = steps_upto(strokes, k);
        assert forall|i: int| 0 <= i < all.len() && (#[trigger] all[i]) is Trace implies i >= 1
            && all[i - 1] == DrawStep::PenDown by {
            if i < before.len() {
                assert(all[i] == before[i]);
                assert(all[i - 1] == before[i - 1]);
            } else {
                let j = i - before.len();
                assert(all[i] == added[j]);
                assert(j == 2);
                assert(all[i - 1] == added[1]);
            }
        }
    }
}

/// The pen is down where it has to be and nowhere it must not be: in every
/// session, each polyline is traced right after the pen was lowered, and the
/// return to the origin comes right after the pen was raised.
pub proof fn lemma_pen_follows_the_drawing(strokes: Seq<Stroke>, rate: u32, mode: StepMode)
    ensures
        forall|i: int|
            0 <= i < drawing_steps(strokes, rate, mode).len() && (#[trigger] drawing_steps(
                strokes,
                rate,
                mode,
            )[i]) is Trace ==> i >= 1 && drawing_steps(strokes, rate, mode)[i - 1]
                == DrawStep::PenDown,
        forall|i: int|
            0 <= i < drawing_steps(strokes, rate, mode).len() && (#[trigger] drawing_steps(
                strokes,
                rate,
                mode,
            )[i]) is Home ==> i >= 1 && drawing_steps(strokes, rate, mode)[i - 1]
                == DrawStep::PenUp,
{
    let middle = steps_upto(strokes, strokes.len() as int);
    let all = drawing_steps(strokes, rate, mode);
    lemma_trace_follows_lowering(strokes, strokes.len() as int);
    lemma_no_home_within(strokes, strokes.len() as int);
    assert forall|i: int| 0 <= i < all.len() && (#[trigger] all[i]) is Trace implies i >= 1
        && all[i - 1] == DrawStep::PenDown by {
        if 3 <= i < 3 + middle.len() {
            assert(all[i] == middle[i - 3]);
            assert(middle[i - 3] is Trace);
            assert(all[i - 1] == middle[i - 4]);
        }
    }
    assert forall|i: int| 0 <= i < all.len() && (#[trigger] all[i]) is Home implies i >= 1
        && all[i - 1] == DrawStep::PenUp by {
        if 3 <= i < 3 + middle.len() {
            assert(all[i] == middle[i - 3]);
        }
    }
}

/// The steps for the polylines hold no return to the origin.
proof fn lemma_no_home_within(strokes: Seq<Stroke>, k: int)
    requires
        0 <= k <= strokes.len(),
    ensures
        forall|i: int|
            0 <= i < steps_upto(strokes, k).len() ==> !((#[trigger] steps_upto(strokes, k)[i])
                is Home),
    decreases k,
{
    if k > 0 {
        lemma_no_home_within(strokes, k - 1);
        let before = steps_upto(strokes, k - 1);
        let added = stroke_steps(strokes, k - 1);
        let all = steps_upto(strokes, k);
        assert forall|i: int| 0 <= i < all.len() implies !((#[trigger] all[i]) is Home) by {
            if i < before.len() {
                assert(all[i] == before[i]);
            } else {
                assert(all[i] == added[i - before.len()]);
            }
        }
    }
}

/// Between two polylines the pen is raised if, and only if, the second does
/// not start where the first ends: the steps of a polyline after which
/// another one is drawn end with the raising of the pen in the one case and
/// with the polyline itself in the other. After the last polyline that is
/// drawn the steps end with the polyline, whatever empty ones follow.
pub proof fn lemma_lift_between_polylines(strokes: Seq<Stroke>, i: int)
    requires
        0 <= i < strokes.len(),
        !strokes[i].empty,
    ensures
        drawn_after(strokes, i) && !strokes[i].joins_next ==> stroke_steps(strokes, i).last()
            == DrawStep::PenUp,
        !drawn_after(strokes, i) || strokes[i].joins_next ==> stroke_steps(strokes, i).last() == (
        DrawStep::Trace { path: i as usize }),
        forall|k: int|
            0 <= k < stroke_steps(strokes, i).len() - 1 ==> stroke_steps(strokes, i)[k]
                != DrawStep::PenUp,
{
}

} // verus!
