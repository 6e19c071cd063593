//! Leaving the board in a safe state: wait until the motors have come to
//! rest, disable them, close the link. The order is fixed; closing the link
//! before the motors are disabled would leave the gantry under power.

use vstd::prelude::*;
use crate::commands::set_motors_request;
use crate::device::Device;
use crate::error::{outcome, DeviceError, Fault};
use crate::reply::Answer;
use crate::wire::{sent, Effect, Reading, Request, RequestView};

verus! {

/// How far the shutdown has come.
#[derive(Debug, Clone, Copy, PartialEq, Eq, Structural)]
pub enum Phase {
    /// The motors may still be moving; their status is being polled.
    Waiting,
    /// The motors are at rest, or cannot be asked; they are being disabled.
    Disabling,
    /// The link is closed.
    Closed,
}

/// The time between two polls of the motor status, in milliseconds.
pub const POLL_INTERVAL_MS: u64 = 10;

/// Whether the outcome of a status poll shows a motor that still moves.
pub open spec fn still_moving(reply: Option<Result<Answer, DeviceError>>) -> bool {
    reply matches Some(Ok(Answer::Motors(first, second))) && (first.moving || second.moving)
}

/// The phase that follows `phase` once the exchange of that phase has had
/// the outcome `reply` (`None` where nothing could be sent): polling goes on
/// while a motor moves and ends with any other outcome, a failure included;
/// disabling is tried once; a closed link stays closed.
pub open spec fn next_phase(phase: Phase, reply: Option<Result<Answer, DeviceError>>) -> Phase {
    match phase {
        Phase::Waiting => if still_moving(reply) {
            Phase::Waiting
        } else {
            Phase::Disabling
        },
        Phase::Disabling => Phase::Closed,
        Phase::Closed => Phase::Closed,
    }
}

/// The request that belongs to a phase, or why the device makes none:
/// the motor status while waiting, `EM,0,0` while disabling.
pub open spec fn phase_request(phase: Phase, device: Device) -> Option<Result<RequestView, Fault>> {
    match phase {
        Phase::Waiting => Some(
            sent(device.connected, "QM"@, false, Reading::Motors, Effect::Keep),
        ),
        Phase::Disabling => Some(set_motors_request(device, Some(false), Some(false), None)),
        Phase::Closed => None,
    }
}

/// The shutdown of one device.
#[derive(Debug, Clone, Copy, PartialEq, Eq, Structural)]
pub struct Shutdown {
    /// How far the shutdown has come.
    pub phase: Phase,
}

impl Shutdown {
    /// A shutdown that has not begun: the motors are still to be waited for.
    pub fn new() -> (shutdown: Shutdown)
        ensures
            shutdown.phase == Phase::Waiting,
    {
        Shutdown { phase: Phase::Waiting }
    }

    /// Whether the shutdown is over.
    pub fn is_closed(&self) -> (closed: bool)
        ensures
            closed == (self.phase == Phase::Closed),
    {
        match self.phase {
            Phase::Closed => true,
            _ => false,
        }
    }

    /// The request to send in the current phase: `None` once the link is
    /// closed, else the phase's request or the reason why it cannot be made.
    pub fn request(&self, device: &Device) -> (r: Option<Result<Request, DeviceError>>)
        ensures
            match r {
                Some(made) => phase_request(self.phase, *device) == Some(outcome(made)),
                None => phase_request(self.phase, *device) is None,
            },
    {
        match self.phase {
            Phase::Waiting => Some(device.motor_status()),
            Phase::Disabling => Some(device.disable_motors()),
            Phase::Closed => None,
        }
    }

    /// Moves on after the exchange of the current phase, whose outcome is
    /// `reply` (`None` where nothing could be sent), and returns the time to
    /// let pass before the next request, in milliseconds.
    ///
    /// The link is marked as closed when, and only when, the shutdown leaves
    /// the disabling phase; nothing else about the device changes here.
    pub fn advance(&mut self, device: &mut Device, reply: Option<Result<Answer, DeviceError>>) -> (pause:
        u64)
        ensures
            final(self).phase == next_phase(old(self).phase, reply),
            *final(device) == if old(self).phase == Phase::Disabling {
                Device { connected: false, ..*old(device) }
            } else {
                *old(device)
            },
            pause == if old(self).phase == Phase::Waiting && still_moving(reply) {
                POLL_INTERVAL_MS
            } else {
                0
            },
    {
        match self.phase {
            Phase::Waiting => {
                let moving = match reply {
                    Some(Ok(Answer::Motors(first, second))) => first.moving || second.moving,
                    _ => false,
                };
                if moving {
                    POLL_INTERVAL_MS
                } else {
                    self.phase = Phase::Disabling;
                    0
                }
            },
            Phase::Disabling => {
                device.disconnect();
                self.phase = Phase::Closed;
                0
            },
            Phase::Closed => 0,
        }
    }
}

/// The phases of a shutdown that goes through the given outcomes, one after
/// the other, starting from `phase`.
pub open spec fn phase_after(phase: Phase, replies: Seq<Option<Result<Answer, DeviceError>>>) -> Phase
    decreases replies.len(),
{
    if replies.len() == 0 {
        phase
    } else {
        next_phase(phase_after(phase, replies.drop_last()), replies.last())
    }
}

/// The order of a shutdown cannot be changed: whatever the board answers, a
/// shutdown that has reached the closed link has been through the disabling
/// phase right before, and it entered that phase only when a poll did not
/// show a moving motor.
pub proof fn lemma_shutdown_order(replies: Seq<Option<Result<Answer, DeviceError>>>)
    requires
        phase_after(Phase::Waiting, replies) == Phase::Closed,
    ensures
        exists|k: int|
            1 <= k < replies.len() && phase_after(Phase::Waiting, replies.take(k))
                == Phase::Disabling && phase_after(Phase::Waiting, replies.take(k - 1))
                == Phase::Waiting && !still_moving(#[trigger] replies[k - 1]),
    decreases replies.len(),
{
    if replies.len() == 0 {
    } else {
        let before = replies.drop_last();
        let n = replies.len() as int;
        match phase_after(Phase::Waiting, before) {
            Phase::Waiting => {},
            Phase::Disabling => {
                lemma_reached_disabling(before);
                let k = choose|k: int|
                    1 <= k <= before.len() && phase_after(Phase::Waiting, before.take(k))
                        == Phase::Disabling && phase_after(Phase::Waiting, before.take(k - 1))
                        == Phase::Waiting && !still_moving(#[trigger] before[k - 1]);
                assert(replies.take(k) =~= before.take(k));
                assert(replies.take(k - 1) =~= before.take(k - 1));
                assert(replies[k - 1] == before[k - 1]);
            },
            Phase::Closed => {
                lemma_shutdown_order(before);
                let k = choose|k: int|
                    1 <= k < before.len() && phase_after(Phase::Waiting, before.take(k))
                        == Phase::Disabling && phase_after(Phase::Waiting, before.take(k - 1))
                        == Phase::Waiting && !still_moving(#[trigger] before[k - 1]);
                assert(replies.take(k) =~= before.take(k));
                assert(replies.take(k - 1) =~= before.take(k - 1));
                assert(replies[k - 1] == before[k - 1]);
            },
        }
    }
}

/// A shutdown that is in the disabling phase got there from waiting, by a
/// poll that did not show a moving motor.
proof fn lemma_reached_disabling(replies: Seq<Option<Result<Answer, DeviceError>>>)
    requires
        phase_after(Phase::Waiting, replies) == Phase::Disabling,
    ensures
        exists|k: int|
            1 <= k <= replies.len() && phase_after(Phase::Waiting, replies.take(k))
                == Phase::Disabling && phase_after(Phase::Waiting, replies.take(k - 1))
                == Phase::Waiting && !still_moving(#[trigger] replies[k - 1]),
    decreases replies.len(),
{
    if replies.len() == 0 {
    } else {
        let before = replies.drop_last();
        let n = replies.len() as int;
        assert(replies.take(n) =~= replies);
        assert(replies.take(n - 1) =~= before);
        match phase_after(Phase::Waiting, before) {
            Phase::Waiting => {
                assert(!still_moving(replies[n - 1]));
            },
            Phase::Disabling => {},
            Phase::Closed => {},
        }
    }
}

} // verus!
