//! The board as the driver knows it: its settings, the cached state of pen
//! and motors, and the commands of its protocol.

use vstd::prelude::*;
use vstd::string::StringExecFns;
use crate::decimal::{decimal, push_int};
use crate::error::{outcome, DeviceError, Fault};
use crate::reply::{decode, decoded, payload_of, take_payload, Answer, AnswerView};
use crate::text::{chars_of, string_of};
use crate::wire::{
    all_plain, frame, framed, lemma_decimal_plain, lemma_plain_join, push_str, Effect, Reading,
    Request, RequestView,
};

verus! {

/// The global microstep mode of both motors.
#[derive(Debug, Clone, Copy, PartialEq, Eq, Structural)]
pub enum StepMode {
    /// Motors off.
    Disable,
    /// 1/16 step.
    OneSixteenth,
    /// 1/8 step.
    OneEighth,
    /// 1/4 step.
    OneQuarter,
    /// 1/2 step.
    OneHalf,
    /// Full step.
    FullStep,
}

impl StepMode {
    /// The number that stands for the mode in the `EM` command.
    pub open spec fn spec_code(self) -> int {
        match self {
            StepMode::Disable => 0,
            StepMode::OneSixteenth => 1,
            StepMode::OneEighth => 2,
            StepMode::OneQuarter => 3,
            StepMode::OneHalf => 4,
            StepMode::FullStep => 5,
        }
    }

    /// The motor steps per millimetre in this mode: 80 at sixteenth steps,
    /// half as many with each coarser mode; none with the motors off.
    pub open spec fn spec_steps_per_unit(self) -> Option<i32> {
        match self {
            StepMode::Disable => None,
            StepMode::OneSixteenth => Some(80i32),
            StepMode::OneEighth => Some(40i32),
            StepMode::OneQuarter => Some(20i32),
            StepMode::OneHalf => Some(10i32),
            StepMode::FullStep => Some(5i32),
        }
    }

    /// Returns the motor steps per millimetre in this mode.
    pub fn steps_per_unit(&self) -> (steps: Option<i32>)
        ensures
            steps == self.spec_steps_per_unit(),
    {
        match self {
            StepMode::Disable => None,
            StepMode::OneSixteenth => Some(80),
            StepMode::OneEighth => Some(40),
            StepMode::OneQuarter => Some(20),
            StepMode::OneHalf => Some(10),
            StepMode::FullStep => Some(5),
        }
    }

    /// Returns the number that stands for the mode in the `EM` command.
    pub fn code(&self) -> (c: u8)
        ensures
            c == self.spec_code(),
    {
        match self {
            StepMode::Disable => 0,
            StepMode::OneSixteenth => 1,
            StepMode::OneEighth => 2,
            StepMode::OneQuarter => 3,
            StepMode::OneHalf => 4,
            StepMode::FullStep => 5,
        }
    }
}

/// What the board reports of one motor.
#[derive(Debug, Clone, Copy, PartialEq, Eq, Structural)]
pub struct MotorStatus {
    /// Whether a motion command is being executed.
    pub executing_command: bool,
    /// Whether the motor is moving.
    pub moving: bool,
    /// Whether the queue of motion commands is empty.
    pub fifo_empty: bool,
}

/// The settings that a [`Device`] is made from.
#[derive(Debug, Clone, PartialEq, Eq)]
pub struct DeviceOptions {
    /// Motor steps per millimetre.
    pub steps_per_unit: i32,
    /// Servo position of the raised pen, in percent.
    pub pen_up_position: i32,
    /// Speed at which the pen is raised.
    pub pen_up_speed: i32,
    /// Time to wait after the pen was raised, in milliseconds.
    pub pen_up_delay: i32,
    /// Servo position of the lowered pen, in percent.
    pub pen_down_position: i32,
    /// Speed at which the pen is lowered.
    pub pen_down_speed: i32,
    /// Time to wait after the pen was lowered, in milliseconds.
    pub pen_down_delay: i32,
    /// The microstep mode to run the motors in.
    pub step_mode: StepMode,
    /// The serial port to use, where it is not to be looked for.
    pub port_name: Option<String>,
    /// How to look for the serial port, where the default is not wanted.
    pub port_config: Option<String>,
}

impl Default for DeviceOptions {
    /// 80 steps per millimetre, the pen raised at 60 percent and lowered at
    /// 30 percent, both at speed 150 and without delay, sixteenth steps, and
    /// the port to be looked for.
    fn default() -> (options: DeviceOptions)
        ensures
            options.steps_per_unit == 80,
            options.pen_up_position == 60,
            options.pen_up_speed == 150,
            options.pen_up_delay == 0,
            options.pen_down_position == 30,
            options.pen_down_speed == 150,
            options.pen_down_delay == 0,
            options.step_mode == StepMode::OneSixteenth,
            options.port_name is None,
            options.port_config is None,
    {
        DeviceOptions {
            steps_per_unit: 80,
            pen_up_position: 60,
            pen_up_speed: 150,
            pen_up_delay: 0,
            pen_down_position: 30,
            pen_down_speed: 150,
            pen_down_delay: 0,
            step_mode: StepMode::OneSixteenth,
            port_name: None,
            port_config: None,
        }
    }
}

/// The driver's record of one board: its settings and what it last learned
/// of pen and motors.
#[derive(Debug, Clone, Copy, PartialEq, Eq, Structural)]
pub struct Device {
    /// Whether the link to the board is open.
    pub connected: bool,
    /// Motor steps per millimetre.
    pub steps_per_unit: i32,
    /// Servo position of the raised pen, in percent.
    pub pen_up_position: i32,
    /// Speed at which the pen is raised.
    pub pen_up_speed: i32,
    /// Time to wait after the pen was raised, in milliseconds.
    pub pen_up_delay: i32,
    /// Servo position of the lowered pen, in percent.
    pub pen_down_position: i32,
    /// Speed at which the pen is lowered.
    pub pen_down_speed: i32,
    /// Time to wait after the pen was lowered, in milliseconds.
    pub pen_down_delay: i32,
    /// Whether the pen is down.
    pub is_lowered: bool,
    /// The microstep mode of both motors.
    pub step_mode: StepMode,
    /// Whether motor 1 is enabled.
    pub motor1_enabled: bool,
    /// Whether motor 2 is enabled.
    pub motor2_enabled: bool,
}

/// The error for an argument out of range.
pub(crate) fn invalid(parameter: &str, value: &Vec<char>) -> (e: DeviceError)
    ensures
        e@ == (Fault::Value { parameter: parameter@, value: value@ }),
{
    DeviceError::InvalidValue { parameter: String::from_str(parameter), value: string_of(value) }
}

/// Appends a text of visible ASCII characters.
pub(crate) fn put(out: &mut Vec<char>, s: &str)
    requires
        all_plain(old(out)@),
        all_plain(s@),
    ensures
        final(out)@ == old(out)@ + s@,
        all_plain(final(out)@),
{
    proof {
        lemma_plain_join(out@, s@);
    }
    push_str(out, s);
}

/// Appends the decimal notation of a number of at most eleven digits.
pub(crate) fn put_int(out: &mut Vec<char>, n: i64)
    requires
        all_plain(old(out)@),
        -100_000_000_000 < n < 100_000_000_000,
    ensures
        final(out)@ == old(out)@ + decimal(n as int),
        all_plain(final(out)@),
        old(out).len() < final(out).len() <= old(out).len() + 12,
{
    proof {
        lemma_decimal_plain(n as int);
        lemma_plain_join(out@, decimal(n as int));
    }
    push_int(out, n);
}

/// The result of a command that checks its arguments first.
pub open spec fn checked(fault: Option<Fault>, request: Result<RequestView, Fault>) -> Result<
    RequestView,
    Fault,
> {
    match fault {
        Some(f) => Err(f),
        None => request,
    }
}

/// `a / b` rounded to the nearest integer, halves away from zero, for `a`
/// that is not negative and `b` that is not zero.
pub open spec fn round_div(a: int, b: int) -> int {
    if b > 0 {
        (2 * a + b) / (2 * b)
    } else {
        -((2 * a - b) / (-2 * b))
    }
}

/// The time in milliseconds that the pen takes to travel between its two
/// positions at `speed`, plus `delay`; never negative.
pub open spec fn pen_travel_ms(up: int, down: int, speed: int, delay: int) -> int {
    let distance = if up >= down {
        up - down
    } else {
        down - up
    };
    let total = round_div(1000 * distance, speed) + delay;
    if total < 0 {
        0
    } else {
        total
    }
}

/// Computes [`pen_travel_ms`].
pub(crate) fn travel_ms(up: i32, down: i32, speed: i32, delay: i32) -> (ms: u64)
    requires
        speed != 0,
    ensures
        ms == pen_travel_ms(up as int, down as int, speed as int, delay as int),
{
    let distance: u64 = if up >= down {
        (up as i64 - down as i64) as u64
    } else {
        (down as i64 - up as i64) as u64
    };
    let magnitude: u64 = if speed > 0 {
        speed as u64
    } else {
        (-(speed as i64)) as u64
    };
    let quotient: u64 = (2000 * distance + magnitude) / (2 * magnitude);
    assert(quotient <= 2000 * distance + magnitude) by (nonlinear_arith)
        requires
            quotient == (2000 * distance + magnitude) / (2 * magnitude),
            magnitude >= 1,
    ;
    let signed: i64 = if speed > 0 {
        quotient as i64
    } else {
        -(quotient as i64)
    };
    assert(signed == round_div(1000 * distance, speed as int)) by {
        assert(2 * (1000 * distance) == 2000 * distance);
        if speed > 0 {
            assert(2 * speed == 2 * magnitude);
        } else {
            assert(-2 * speed == 2 * magnitude);
        }
    }
    let total: i64 = signed + delay as i64;
    if total < 0 {
        0
    } else {
        total as u64
    }
}

impl Device {
    /// The record of a freshly opened board: connected, pen taken as raised,
    /// motors taken as disabled, everything else as the options say.
    pub fn new(options: DeviceOptions) -> (device: Device)
        ensures
            device == (Device {
                connected: true,
                steps_per_unit: options.steps_per_unit,
                pen_up_position: options.pen_up_position,
                pen_up_speed: options.pen_up_speed,
                pen_up_delay: options.pen_up_delay,
                pen_down_position: options.pen_down_position,
                pen_down_speed: options.pen_down_speed,
                pen_down_delay: options.pen_down_delay,
                is_lowered: false,
                step_mode: options.step_mode,
                motor1_enabled: false,
                motor2_enabled: false,
            }),
    {
        Device {
            connected: true,
            steps_per_unit: options.steps_per_unit,
            pen_up_position: options.pen_up_position,
            pen_up_speed: options.pen_up_speed,
            pen_up_delay: options.pen_up_delay,
            pen_down_position: options.pen_down_position,
            pen_down_speed: options.pen_down_speed,
            pen_down_delay: options.pen_down_delay,
            is_lowered: false,
            step_mode: options.step_mode,
            motor1_enabled: false,
            motor2_enabled: false,
        }
    }

    /// The record after a confirmed command with the given effect.
    pub open spec fn after(self, effect: Effect) -> Device {
        match effect {
            Effect::Keep => self,
            Effect::Pen { lowered } => Device { is_lowered: lowered, ..self },
            Effect::TogglePen => Device { is_lowered: !self.is_lowered, ..self },
            Effect::Motors { motor1, motor2, mode } => Device {
                motor1_enabled: motor1,
                motor2_enabled: motor2,
                step_mode: mode,
                ..self
            },
        }
    }

    /// Frames an arbitrary command.
    ///
    /// The command must not be empty, must be ASCII without carriage return
    /// or line feed, and its line must fit 256 bytes; the device must be
    /// connected. The checks come in this order, and the first that fails
    /// gives the error. Whether the reply has to end in `OK` goes by the
    /// name of the command as it is sent, without the whitespace around it.
    pub fn command(&self, cmd: &str) -> (r: Result<Request, DeviceError>)
        ensures
            outcome(r) == framed(self.connected, cmd@, Reading::Text, Effect::Keep),
    {
        let chars = chars_of(cmd);
        frame(self.connected, &chars, Reading::Text, Effect::Keep)
    }
}

/// What the reply `raw` to `request` amounts to: where the confirmation is
/// expected and missing, a command error that names the command and quotes
/// the reply; else the payload read as the request calls for.
pub open spec fn answered(request: RequestView, raw: Seq<char>) -> Result<AnswerView, Fault> {
    match payload_of(request.expects_ok, raw) {
        None => Err(
            Fault::Command {
                command: request.command,
                message: "reply does not end with the expected OK: "@ + raw,
            },
        ),
        Some(payload) => decoded(request.reading, payload),
    }
}

impl Device {
    /// Takes in the board's reply to `request`.
    ///
    /// The reply is checked for the confirmation that the command expects
    /// and read as the request calls for. The cached state changes as the
    /// request says if, and only if, the reply is accepted.
    pub fn complete(&mut self, request: &Request, raw: &str) -> (r: Result<Answer, DeviceError>)
        ensures
            outcome(r) == answered(request@, raw@),
            *final(self) == if r is Ok {
                old(self).after(request.effect)
            } else {
                *old(self)
            },
    {
        let chars = chars_of(raw);
        match take_payload(request.expects_ok, &chars) {
            None => {
                let mut message = String::from_str("reply does not end with the expected OK: ");
                message.append(raw);
                Err(DeviceError::CommandError { command: request.command.clone(), message })
            },
            Some(payload) => {
                match decode(request.reading, &payload) {
                    Ok(answer) => {
                        match request.effect {
                            Effect::Keep => {},
                            Effect::Pen { lowered } => {
                                self.is_lowered = lowered;
                            },
                            Effect::TogglePen => {
                                self.is_lowered = !self.is_lowered;
                            },
                            Effect::Motors { motor1, motor2, mode } => {
                                self.motor1_enabled = motor1;
                                self.motor2_enabled = motor2;
                                self.step_mode = mode;
                            },
                        }
                        Ok(answer)
                    },
                    Err(e) => Err(e),
                }
            },
        }
    }
}

} // verus!
