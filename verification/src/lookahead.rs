//! The bookkeeping of the planner's forward pass: which velocity profile a
//! segment gets, how many motion blocks that profile emits, and which
//! segment is solved next. The arithmetic that feeds these decisions is the
//! planner's own; here are only the decisions.

use vstd::prelude::*;

verus! {

/// The velocity profile of one segment.
#[derive(Debug, Clone, Copy, PartialEq, Eq, Structural)]
pub enum Profile {
    /// The exit velocity cannot be reached from the entry velocity over the
    /// segment's length: the entry velocity has to come down.
    TooFast,
    /// Acceleration over the whole segment.
    Accelerate,
    /// Acceleration, cruise at the ceiling, deceleration.
    Trapezoid,
    /// Acceleration, then deceleration.
    Triangle,
}

/// What the forward pass does after a segment.
#[derive(Debug, Clone, Copy, PartialEq, Eq, Structural)]
pub enum Cursor {
    /// Solve the segment with this index next.
    At(usize),
    /// Every segment is solved.
    Done,
    /// The first segment is too fast: there is no earlier one to slow down.
    Stuck,
}

/// The profile that the solver's findings call for. A segment that is too
/// short for its exit velocity is too fast, whatever else holds; else one
/// without room to decelerate only accelerates; else one whose peak lies
/// above the ceiling is a trapezoid; any other is a triangle.
pub open spec fn profile_of(too_short: bool, no_deceleration: bool, above_ceiling: bool) -> Profile {
    if too_short {
        Profile::TooFast
    } else if no_deceleration {
        Profile::Accelerate
    } else if above_ceiling {
        Profile::Trapezoid
    } else {
        Profile::Triangle
    }
}

/// Chooses the profile of a segment from the solver's findings.
pub fn classify(too_short: bool, no_deceleration: bool, above_ceiling: bool) -> (profile: Profile)
    ensures
        profile == profile_of(too_short, no_deceleration, above_ceiling),
{
    if too_short {
        Profile::TooFast
    } else if no_deceleration {
        Profile::Accelerate
    } else if above_ceiling {
        Profile::Trapezoid
    } else {
        Profile::Triangle
    }
}

impl Profile {
    /// The number of motion blocks that the profile emits.
    pub open spec fn spec_blocks(self) -> int {
        match self {
            Profile::TooFast => 0,
            Profile::Accelerate => 1,
            Profile::Trapezoid => 3,
            Profile::Triangle => 2,
        }
    }

    /// Returns the number of motion blocks that the profile emits.
    pub fn blocks(&self) -> (n: usize)
        ensures
            n == self.spec_blocks(),
    {
        match self {
            Profile::TooFast => 0,
            Profile::Accelerate => 1,
            Profile::Trapezoid => 3,
            Profile::Triangle => 2,
        }
    }
}

/// Where the pass goes after segment `index` of `segments` got `profile`.
/// The last segment is the stop anchor and is never solved. A segment that
/// is too fast sends the pass back by one, or nowhere from the first; any
/// other profile sends it on by one, until only the anchor is left.
pub open spec fn next_cursor(index: int, segments: int, profile: Profile) -> Cursor {
    if index + 1 >= segments {
        Cursor::Done
    } else if profile == Profile::TooFast {
        if index == 0 {
            Cursor::Stuck
        } else {
            Cursor::At((index - 1) as usize)
        }
    } else if index + 2 >= segments {
        Cursor::Done
    } else {
        Cursor::At((index + 1) as usize)
    }
}

/// Decides which segment the forward pass solves next.
pub fn follow(index: usize, segments: usize, profile: Profile) -> (cursor: Cursor)
    ensures
        cursor == next_cursor(index as int, segments as int, profile),
{
    if segments == 0 || index >= segments - 1 {
        return Cursor::Done;
    }
    match profile {
        Profile::TooFast => {
            if index == 0 {
                Cursor::Stuck
            } else {
                Cursor::At(index - 1)
            }
        },
        _ => {
            if index + 1 >= segments - 1 {
                Cursor::Done
            } else {
                Cursor::At(index + 1)
            }
        },
    }
}

/// The cursor after the pass has met the given profiles one after the
/// other, starting at segment `index`; the pass ends early where it is done
/// or stuck.
pub open spec fn cursor_after(index: int, segments: int, profiles: Seq<Profile>) -> Cursor
    decreases profiles.len(),
{
    if profiles.len() == 0 {
        if index + 1 >= segments {
            Cursor::Done
        } else {
            Cursor::At(index as usize)
        }
    } else {
        match next_cursor(index, segments, profiles[0]) {
            Cursor::At(next) => cursor_after(next as int, segments, profiles.drop_first()),
            other => other,
        }
    }
}

/// Where the forward pass begins: at the first segment, or nowhere where
/// there is no segment before the anchor.
pub fn begin(segments: usize) -> (cursor: Cursor)
    ensures
        cursor == cursor_after(0, segments as int, Seq::<Profile>::empty()),
{
    if segments <= 1 {
        Cursor::Done
    } else {
        Cursor::At(0)
    }
}

/// A pass in which no segment is too fast is done after one profile for
/// each segment before the anchor.
pub proof fn lemma_pass_without_backtracking(index: int, segments: int, profiles: Seq<Profile>)
    requires
        0 <= index,
        index + 1 < segments <= usize::MAX,
        profiles.len() == segments - 1 - index,
        forall|i: int| 0 <= i < profiles.len() ==> profiles[i] != Profile::TooFast,
    ensures
        cursor_after(index, segments, profiles) == Cursor::Done,
    decreases profiles.len(),
{
    if index + 2 < segments {
        let rest = profiles.drop_first();
        assert forall|i: int| 0 <= i < rest.len() implies rest[i] != Profile::TooFast by {
            assert(rest[i] == profiles[i + 1]);
        }
        lemma_pass_without_backtracking(index + 1, segments, rest);
    }
}

} // verus!
