//! Bringing a freshly opened board into a known state: the servo settings,
//! the position of the pen, and which motors run in which step mode.

use vstd::prelude::*;
use vstd::string::StringExecFns;
use crate::commands::{read_pin_text, set_motors_request};
use crate::decimal::{decimal, render_int};
use crate::device::{invalid, put, put_int, Device, StepMode};
use crate::error::{outcome, plain_outcome, DeviceError, Fault};
use crate::reply::Answer;
use crate::wire::{
    ascii_bytes, lemma_expects_ok_by_head, send, sent, Effect, Reading, Request, RequestView,
};

verus! {

/// The contents of a list of requests.
pub open spec fn requests_view(requests: Seq<Request>) -> Seq<RequestView> {
    Seq::new(requests.len(), |i: int| requests[i]@)
}

/// The content of a result that carries a list of requests.
pub open spec fn batch_outcome(r: Result<Vec<Request>, DeviceError>) -> Result<
    Seq<RequestView>,
    Fault,
> {
    match r {
        Ok(requests) => Ok(requests_view(requests@)),
        Err(e) => Err(e@),
    }
}

/// The servo position for a pen position in percent: 7500 at 0 percent,
/// 28000 at 100 percent, linear in between.
pub open spec fn servo_position(percent: int) -> int {
    7500 + 205 * percent
}

/// The text of `SC`.
pub open spec fn servo_text(parameter: int, value: int) -> Seq<char> {
    "SC,"@ + decimal(parameter) + ","@ + decimal(value)
}

/// The request that sets one servo parameter, for a connected device.
pub open spec fn servo_request(parameter: int, value: int) -> RequestView {
    RequestView {
        command: servo_text(parameter, value),
        line: ascii_bytes(servo_text(parameter, value)).push(13),
        expects_ok: true,
        reading: Reading::Text,
        effect: Effect::Keep,
    }
}

/// The request that asks for a pin, for a connected device.
pub open spec fn pin_request(port: char, pin: u8) -> RequestView {
    RequestView {
        command: read_pin_text(port, pin),
        line: ascii_bytes(read_pin_text(port, pin)).push(13),
        expects_ok: false,
        reading: Reading::Pin,
        effect: Effect::Keep,
    }
}

/// The request that asks for the pen, for a connected device.
pub open spec fn pen_query_request() -> RequestView {
    RequestView {
        command: "QP"@,
        line: ascii_bytes("QP"@).push(13),
        expects_ok: true,
        reading: Reading::Pen,
        effect: Effect::Keep,
    }
}

/// Why the servo cannot be configured, if it cannot: a pen position lies
/// outside 0 to 100 percent (the raised position is looked at first), or the
/// device is not connected.
pub open spec fn configure_fault(device: Device) -> Option<Fault> {
    if !(0 <= device.pen_up_position <= 100) {
        Some(
            Fault::Value {
                parameter: "pen_up_position"@,
                value: decimal(device.pen_up_position as int),
            },
        )
    } else if !(0 <= device.pen_down_position <= 100) {
        Some(
            Fault::Value {
                parameter: "pen_down_position"@,
                value: decimal(device.pen_down_position as int),
            },
        )
    } else if !device.connected {
        Some(Fault::Connection("device is not connected"@))
    } else {
        None
    }
}

/// The four requests that configure the servo, in the order in which they
/// are sent: the raised position (`SC,4`), the lowered position (`SC,5`),
/// the raising rate (`SC,11`) and the lowering rate (`SC,12`), each rate
/// five times the configured speed.
pub open spec fn configure_requests(device: Device) -> Seq<RequestView> {
    seq![
        servo_request(4, servo_position(device.pen_up_position as int)),
        servo_request(5, servo_position(device.pen_down_position as int)),
        servo_request(11, 5 * device.pen_up_speed),
        servo_request(12, 5 * device.pen_down_speed),
    ]
}

/// The five requests that ask whether the motors are enabled and in which
/// step mode: pin E0 (motor 1 enabled), C1 (motor 2 enabled), then E2, E1
/// and A6 (the lines MS1, MS2 and MS3).
pub open spec fn motor_pin_requests() -> Seq<RequestView> {
    seq![
        pin_request('E', 0),
        pin_request('C', 1),
        pin_request('E', 2),
        pin_request('E', 1),
        pin_request('A', 6),
    ]
}

/// The step mode that the lines MS1, MS2 and MS3 select, where their levels
/// are one of the five known combinations.
pub open spec fn step_mode_of(ms1: bool, ms2: bool, ms3: bool) -> Option<StepMode> {
    if ms1 && ms2 && ms3 {
        Some(StepMode::OneSixteenth)
    } else if ms1 && ms2 && !ms3 {
        Some(StepMode::OneEighth)
    } else if !ms1 && ms2 && !ms3 {
        Some(StepMode::OneQuarter)
    } else if ms1 && !ms2 && !ms3 {
        Some(StepMode::OneHalf)
    } else if !ms1 && !ms2 && !ms3 {
        Some(StepMode::FullStep)
    } else {
        None
    }
}

/// What the driver knows after the board has answered the startup requests.
pub open spec fn acquainted(
    device: Device,
    lowered: bool,
    motor1: bool,
    motor2: bool,
    mode: StepMode,
) -> Device {
    Device {
        is_lowered: lowered,
        motor1_enabled: motor1,
        motor2_enabled: motor2,
        step_mode: mode,
        ..device
    }
}

/// What [`Device::started`] makes of the board's report: levels in no known
/// combination are an invalid response and change nothing; else the cache
/// `after` holds what the board reported, and where a motor is not enabled
/// the result is the request that enables both in the step mode that was
/// found. Where that request cannot be made, its error is the result and the
/// cache stays as it was `before`.
pub open spec fn started_outcome(
    before: Device,
    after: Device,
    r: Result<Option<Request>, DeviceError>,
    lowered: bool,
    motor1: bool,
    motor2: bool,
    ms1: bool,
    ms2: bool,
    ms3: bool,
) -> bool {
    match step_mode_of(ms1, ms2, ms3) {
        None => r matches Err(e) && e@ == Fault::Response(
            "step mode pins are in no known combination"@,
        ) && after == before,
        Some(mode) => {
            let known = acquainted(before, lowered, motor1, motor2, mode);
            if motor1 && motor2 {
                r matches Ok(None) && after == known
            } else {
                match set_motors_request(known, Some(true), Some(true), Some(mode)) {
                    Ok(request) => r matches Ok(Some(q)) && q@ == request && after == known,
                    Err(fault) => r matches Err(e) && e@ == fault && after == before,
                }
            }
        },
    }
}

/// What the board reported at startup.
pub struct StartupReport {
    /// Whether the pen is lowered.
    pub lowered: bool,
    /// Whether motor 1 is enabled.
    pub motor1: bool,
    /// Whether motor 2 is enabled.
    pub motor2: bool,
    /// The level of the line MS1.
    pub ms1: bool,
    /// The level of the line MS2.
    pub ms2: bool,
    /// The level of the line MS3.
    pub ms3: bool,
}

/// The report in the answers to the requests of [`Device::startup`], where
/// the answers are ten and of the kinds that those requests call for, in
/// their order: four texts for the servo settings, the state of the pen, and
/// the levels of the five pins.
pub open spec fn startup_report(answers: Seq<Answer>) -> Option<StartupReport> {
    if answers.len() == 10 && answers[0] is Text && answers[1] is Text && answers[2] is Text
        && answers[3] is Text && answers[4] is Pen && answers[5] is Pin && answers[6] is Pin
        && answers[7] is Pin && answers[8] is Pin && answers[9] is Pin {
        Some(
            StartupReport {
                lowered: answers[4]->Pen_0,
                motor1: answers[5]->Pin_0,
                motor2: answers[6]->Pin_0,
                ms1: answers[7]->Pin_0,
                ms2: answers[8]->Pin_0,
                ms3: answers[9]->Pin_0,
            },
        )
    } else {
        None
    }
}

/// With which request a startup begins: the first, where there is one.
pub fn first_request(requests: &Vec<Request>) -> (first: Option<usize>)
    ensures
        first == if requests.len() == 0 {
            None
        } else {
            Some(0usize)
        },
{
    if requests.len() == 0 {
        None
    } else {
        Some(0)
    }
}

/// Which request of a startup comes after request `index`: the next one, or
/// none where that request failed or was the last. The first failure ends
/// the startup.
pub fn after_request(requests: &Vec<Request>, index: usize, failed: bool) -> (next: Option<usize>)
    ensures
        next == if failed || index + 1 >= requests.len() {
            None
        } else {
            Some((index + 1) as usize)
        },
{
    if failed || index >= requests.len() || index + 1 >= requests.len() {
        None
    } else {
        Some(index + 1)
    }
}

/// The level in an answer, where the answer is that of a pin.
fn pin_of(answer: &Answer) -> (level: Option<bool>)
    ensures
        level == if *answer is Pin {
            Some(answer->Pin_0)
        } else {
            None
        },
{
    match answer {
        Answer::Pin(level) => Some(*level),
        _ => None,
    }
}

/// Whether an answer is a text.
fn is_text(answer: &Answer) -> (b: bool)
    ensures
        b == (*answer is Text),
{
    match answer {
        Answer::Text(_) => true,
        _ => false,
    }
}

/// Decodes the levels of the lines MS1, MS2 and MS3.
pub fn decode_step_mode(ms1: bool, ms2: bool, ms3: bool) -> (r: Result<StepMode, DeviceError>)
    ensures
        plain_outcome(r) == match step_mode_of(ms1, ms2, ms3) {
            Some(mode) => Ok(mode),
            None => Err(Fault::Response("step mode pins are in no known combination"@)),
        },
{
    if ms1 && ms2 && ms3 {
        Ok(StepMode::OneSixteenth)
    } else if ms1 && ms2 && !ms3 {
        Ok(StepMode::OneEighth)
    } else if !ms1 && ms2 && !ms3 {
        Ok(StepMode::OneQuarter)
    } else if ms1 && !ms2 && !ms3 {
        Ok(StepMode::OneHalf)
    } else if !ms1 && !ms2 && !ms3 {
        Ok(StepMode::FullStep)
    } else {
        Err(
            DeviceError::InvalidResponse(
                String::from_str("step mode pins are in no known combination"),
            ),
        )
    }
}

impl Device {
    /// `SC`: sets one parameter of the pen servo.
    fn servo(&self, parameter: u8, value: i64) -> (r: Result<Request, DeviceError>)
        requires
            -100_000_000_000 < value < 100_000_000_000,
        ensures
            outcome(r) == sent(
                self.connected,
                servo_text(parameter as int, value as int),
                true,
                Reading::Text,
                Effect::Keep,
            ),
    {
        proof {
            reveal_strlit("SC,");
            reveal_strlit(",");
        }
        let mut text: Vec<char> = Vec::new();
        put(&mut text, "SC,");
        put_int(&mut text, parameter as i64);
        put(&mut text, ",");
        put_int(&mut text, value);
        proof {
            assert(text@ =~= servo_text(parameter as int, value as int));
            lemma_expects_ok_by_head(text@);
        }
        send(self.connected, &text, Reading::Text, Effect::Keep)
    }

    /// The requests that configure the pen servo from the device's settings,
    /// in the order in which they are to be sent.
    pub fn configure(&self) -> (r: Result<Vec<Request>, DeviceError>)
        ensures
            batch_outcome(r) == match configure_fault(*self) {
                Some(fault) => Err(fault),
                None => Ok(configure_requests(*self)),
            },
    {
        if self.pen_up_position < 0 || self.pen_up_position > 100 {
            return Err(invalid("pen_up_position", &render_int(self.pen_up_position as i64)));
        }
        if self.pen_down_position < 0 || self.pen_down_position > 100 {
            return Err(invalid("pen_down_position", &render_int(self.pen_down_position as i64)));
        }
        let up = self.servo(4, 7500 + 205 * (self.pen_up_position as i64))?;
        let down = self.servo(5, 7500 + 205 * (self.pen_down_position as i64))?;
        let up_rate = self.servo(11, 5 * (self.pen_up_speed as i64))?;
        let down_rate = self.servo(12, 5 * (self.pen_down_speed as i64))?;
        let mut requests: Vec<Request> = Vec::new();
        requests.push(up);
        requests.push(down);
        requests.push(up_rate);
        requests.push(down_rate);
        assert(requests_view(requests@) =~= configure_requests(*self));
        Ok(requests)
    }

    /// The requests that ask whether the motors are enabled and in which
    /// step mode, in the order in which they are to be sent.
    pub fn query_enable_motors(&self) -> (r: Result<Vec<Request>, DeviceError>)
        ensures
            batch_outcome(r) == if self.connected {
                Ok(motor_pin_requests())
            } else {
                Err(Fault::Connection("device is not connected"@))
            },
    {
        let motor1 = self.read_pin('E', 0)?;
        let motor2 = self.read_pin('C', 1)?;
        let ms1 = self.read_pin('E', 2)?;
        let ms2 = self.read_pin('E', 1)?;
        let ms3 = self.read_pin('A', 6)?;
        let mut requests: Vec<Request> = Vec::new();
        requests.push(motor1);
        requests.push(motor2);
        requests.push(ms1);
        requests.push(ms2);
        requests.push(ms3);
        assert(requests_view(requests@) =~= motor_pin_requests());
        Ok(requests)
    }

    /// Everything that is asked of a freshly opened board, in order: the
    /// four servo settings, the state of the pen, and the five pins that
    /// tell of the motors. Each reply is to be taken in with
    /// [`Device::complete`] before the next request is sent, and the first
    /// failure ends the startup.
    pub fn startup(&self) -> (r: Result<Vec<Request>, DeviceError>)
        ensures
            batch_outcome(r) == match configure_fault(*self) {
                Some(fault) => Err(fault),
                None => Ok(
                    configure_requests(*self) + seq![pen_query_request()] + motor_pin_requests(),
                ),
            },
    {
        let mut requests = self.configure()?;
        let pen = self.query_pen_state()?;
        let mut pins = self.query_enable_motors()?;
        let ghost servo = requests@;
        let ghost asked = pins@;
        requests.push(pen);
        requests.append(&mut pins);
        assert(requests_view(requests@) =~= requests_view(servo) + seq![pen_query_request()]
            + requests_view(asked));
        Ok(requests)
    }

    /// Takes in what the board answered at startup: whether the pen is
    /// lowered, whether each motor is enabled, and the levels of the lines
    /// MS1, MS2 and MS3.
    ///
    /// Levels in no known combination are an invalid response. Else the
    /// cache holds what the board reported, and where a motor is not
    /// enabled, the result is the request that enables both in the step
    /// mode that was found. On an error the cache is left as it was.
    pub fn started(
        &mut self,
        lowered: bool,
        motor1: bool,
        motor2: bool,
        ms1: bool,
        ms2: bool,
        ms3: bool,
    ) -> (r: Result<Option<Request>, DeviceError>)
        ensures
            started_outcome(
                *old(self),
                *final(self),
                r,
                lowered,
                motor1,
                motor2,
                ms1,
                ms2,
                ms3,
            ),
    {
        let mode = decode_step_mode(ms1, ms2, ms3)?;
        let mut known = *self;
        known.is_lowered = lowered;
        known.motor1_enabled = motor1;
        known.motor2_enabled = motor2;
        known.step_mode = mode;
        if motor1 && motor2 {
            *self = known;
            return Ok(None);
        }
        let request = known.enable_motors(mode)?;
        *self = known;
        Ok(Some(request))
    }

    /// Takes in the answers to the requests of [`Device::startup`].
    ///
    /// Where the answers are ten and of the kinds that those requests call
    /// for, in their order, the result and the cache are what
    /// [`Device::started`] makes of the pen answer and the five pin answers.
    /// Answers of any other number or kind are an invalid response, and the
    /// cache is left as it was.
    pub fn acquaint(&mut self, answers: &Vec<Answer>) -> (r: Result<Option<Request>, DeviceError>)
        ensures
            match startup_report(answers@) {
                Some(report) => started_outcome(
                    *old(self),
                    *final(self),
                    r,
                    report.lowered,
                    report.motor1,
                    report.motor2,
                    report.ms1,
                    report.ms2,
                    report.ms3,
                ),
                None => r matches Err(e) && e@ == Fault::Response(
                    "startup answers are not the ones asked for"@,
                ) && *final(self) == *old(self),
            },
    {
        if answers.len() == 10 && is_text(&answers[0]) && is_text(&answers[1]) && is_text(
            &answers[2],
        ) && is_text(&answers[3]) {
            let lowered = match &answers[4] {
                Answer::Pen(lowered) => Some(*lowered),
                _ => None,
            };
            let motor1 = pin_of(&answers[5]);
            let motor2 = pin_of(&answers[6]);
            let ms1 = pin_of(&answers[7]);
            let ms2 = pin_of(&answers[8]);
            let ms3 = pin_of(&answers[9]);
            match (lowered, motor1, motor2, ms1, ms2, ms3) {
                (Some(lowered), Some(motor1), Some(motor2), Some(ms1), Some(ms2), Some(ms3)) => {
                    return self.started(lowered, motor1, motor2, ms1, ms2, ms3);
                },
                _ => {},
            }
        }
        Err(
            DeviceError::InvalidResponse(
                String::from_str("startup answers are not the ones asked for"),
            ),
        )
    }
}

} // verus!
