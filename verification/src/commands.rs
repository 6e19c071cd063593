//! The commands of the board's protocol: for each, the check of its
//! arguments and the text that goes on the wire.

use vstd::prelude::*;
use crate::decimal::{decimal, render_int, render_nat};
use crate::device::{
    checked, invalid, pen_travel_ms, put, put_int, round_div, travel_ms, Device, StepMode,
};
use crate::error::{outcome, DeviceError, Fault};
use crate::text::chars_of;
use crate::wire::{
    all_plain, ascii_bytes, expects_ok, frame, framed, is_plain, lemma_expects_ok_by_head, send,
    sent, Effect, Reading, Request, RequestView,
};

verus! {

/// The text of a command that takes no argument.
fn bare(connected: bool, name: &str, reading: Reading, effect: Effect) -> (r: Result<
    Request,
    DeviceError,
>)
    requires
        all_plain(name@),
        0 < name@.len() <= 255,
    ensures
        outcome(r) == sent(connected, name@, expects_ok(name@), reading, effect),
{
    let mut text: Vec<char> = Vec::new();
    put(&mut text, name);
    assert(text@ =~= name@);
    send(connected, &text, reading, effect)
}

/// Why `SP` cannot be sent with these arguments, if it cannot: the value is
/// neither 0 nor 1; the pin is above 7; the duration is outside 1 to 65535
/// milliseconds; or a pin is given without a duration, for which the command
/// has no form, the pin being its third argument. The first of these that
/// holds gives the error; in the last case the error names the duration and
/// gives `none` as its value.
pub open spec fn pen_state_fault(value: u8, duration: Option<u128>, portb_pin: Option<u8>) -> Option<
    Fault,
> {
    if value != 0 && value != 1 {
        Some(Fault::Value { parameter: "value"@, value: decimal(value as int) })
    } else if portb_pin is Some && portb_pin->0 > 7 {
        Some(Fault::Value { parameter: "portb_pin"@, value: decimal(portb_pin->0 as int) })
    } else if duration is Some && !(1 <= duration->0 <= 65535) {
        Some(Fault::Value { parameter: "duration"@, value: decimal(duration->0 as int) })
    } else if duration is None && portb_pin is Some {
        Some(Fault::Value { parameter: "duration"@, value: "none"@ })
    } else {
        None
    }
}

/// The text of `SP`: the value; then the duration, where one is given; then
/// the pin, where one is given.
pub open spec fn pen_state_text(value: u8, duration: Option<u128>, portb_pin: Option<u8>) -> Seq<
    char,
> {
    "SP,"@ + decimal(value as int) + optional(
        match duration {
            Some(d) => Some(d as int),
            None => None,
        },
    ) + optional(
        match portb_pin {
            Some(p) => Some(p as int),
            None => None,
        },
    )
}

/// The request that `SP` makes, or why it makes none.
pub open spec fn pen_state_request(
    connected: bool,
    value: u8,
    duration: Option<u128>,
    portb_pin: Option<u8>,
) -> Result<RequestView, Fault> {
    checked(
        pen_state_fault(value, duration, portb_pin),
        sent(
            connected,
            pen_state_text(value, duration, portb_pin),
            true,
            Reading::Text,
            (Effect::Pen { lowered: value == 0 }),
        ),
    )
}

/// Appends one visible ASCII character.
fn put_char(out: &mut Vec<char>, c: char)
    requires
        all_plain(old(out)@),
        is_plain(c),
    ensures
        final(out)@ == old(out)@ + seq![c],
        all_plain(final(out)@),
{
    out.push(c);
    assert(final(out)@ =~= old(out)@ + seq![c]);
    assert forall|i: int| 0 <= i < out@.len() implies is_plain(#[trigger] out@[i]) by {
        if i < old(out)@.len() {
            assert(out@[i] == old(out)@[i]);
        }
    }
}

/// The absolute value of `n`.
pub open spec fn magnitude(n: int) -> int {
    if n < 0 {
        -n
    } else {
        n
    }
}

/// A comma and the number, where there is one.
pub open spec fn optional(field: Option<int>) -> Seq<char> {
    match field {
        Some(n) => ","@ + decimal(n),
        None => Seq::<char>::empty(),
    }
}

/// The request by which the pen is lowered: `SP,0` with the time that the
/// pen takes, which is the travel between the two pen positions at the
/// lowering speed, rounded to milliseconds, plus the delay after lowering.
/// A lowering speed of zero is an invalid value.
pub open spec fn pen_down_request(device: Device) -> Result<RequestView, Fault> {
    if device.pen_down_speed == 0 {
        Err(Fault::Value { parameter: "pen_down_speed"@, value: decimal(0) })
    } else {
        pen_state_request(
            device.connected,
            0,
            Some(
                pen_travel_ms(
                    device.pen_up_position as int,
                    device.pen_down_position as int,
                    device.pen_down_speed as int,
                    device.pen_down_delay as int,
                ) as u128,
            ),
            None,
        )
    }
}

/// The request by which the pen is raised: `SP,1` with the time that the pen
/// takes, which is the travel between the two pen positions at the raising
/// speed, rounded to milliseconds, plus the delay after raising. A raising
/// speed of zero is an invalid value.
pub open spec fn pen_up_request(device: Device) -> Result<RequestView, Fault> {
    if device.pen_up_speed == 0 {
        Err(Fault::Value { parameter: "pen_up_speed"@, value: decimal(0) })
    } else {
        pen_state_request(
            device.connected,
            1,
            Some(
                pen_travel_ms(
                    device.pen_up_position as int,
                    device.pen_down_position as int,
                    device.pen_up_speed as int,
                    device.pen_up_delay as int,
                ) as u128,
            ),
            None,
        )
    }
}

/// Whether `c` names one of the ports A to E.
pub open spec fn is_port(c: char) -> bool {
    c == 'A' || c == 'B' || c == 'C' || c == 'D' || c == 'E'
}

/// Why a pin cannot be addressed, if it cannot: the port is none of A to E,
/// or the pin is above 7.
pub open spec fn pin_fault(port: char, pin: u8) -> Option<Fault> {
    if !is_port(port) {
        Some(Fault::Value { parameter: "port"@, value: seq![port] })
    } else if pin > 7 {
        Some(Fault::Value { parameter: "pin"@, value: decimal(pin as int) })
    } else {
        None
    }
}

/// The text of `PI`.
pub open spec fn read_pin_text(port: char, pin: u8) -> Seq<char> {
    "PI,"@ + seq![port] + ","@ + decimal(pin as int)
}

/// Why `PD` cannot be sent, if it cannot: the pin cannot be addressed, or
/// the direction is neither 0 nor 1.
pub open spec fn pin_direction_fault(port: char, pin: u8, direction: u8) -> Option<Fault> {
    if pin_fault(port, pin) is Some {
        pin_fault(port, pin)
    } else if direction > 1 {
        Some(Fault::Value { parameter: "direction"@, value: decimal(direction as int) })
    } else {
        None
    }
}

/// The text of `PD`.
pub open spec fn pin_direction_text(port: char, pin: u8, direction: u8) -> Seq<char> {
    "PD,"@ + seq![port] + ","@ + decimal(pin as int) + ","@ + decimal(direction as int)
}

/// Why `TP` cannot be sent, if it cannot: the duration is outside 1 to 65535
/// milliseconds.
pub open spec fn pen_toggle_fault(duration: Option<u128>) -> Option<Fault> {
    if duration is Some && !(1 <= duration->0 <= 65535) {
        Some(Fault::Value { parameter: "duration"@, value: decimal(duration->0 as int) })
    } else {
        None
    }
}

/// The text of `TP`.
pub open spec fn pen_toggle_text(duration: Option<u128>) -> Seq<char> {
    "TP"@ + optional(
        match duration {
            Some(d) => Some(d as int),
            None => None,
        },
    )
}

/// Why `LM` cannot be sent, if it cannot: the clear flag is above 3, a rate
/// is above 2147483647, or a step count lies outside plus or minus 16777215;
/// the first of these that holds, the flag first, then the arguments in
/// their order.
pub open spec fn low_level_move_fault(
    rate1: u32,
    steps1: i32,
    rate2: u32,
    steps2: i32,
    clear: Option<u8>,
) -> Option<Fault> {
    if clear is Some && clear->0 > 3 {
        Some(Fault::Value { parameter: "clear"@, value: decimal(clear->0 as int) })
    } else if rate1 > 2147483647 {
        Some(Fault::Value { parameter: "rate1"@, value: decimal(rate1 as int) })
    } else if magnitude(steps1 as int) > 16777215 {
        Some(Fault::Value { parameter: "steps1"@, value: decimal(steps1 as int) })
    } else if rate2 > 2147483647 {
        Some(Fault::Value { parameter: "rate2"@, value: decimal(rate2 as int) })
    } else if magnitude(steps2 as int) > 16777215 {
        Some(Fault::Value { parameter: "steps2"@, value: decimal(steps2 as int) })
    } else {
        None
    }
}

/// The text of `LM`.
pub open spec fn low_level_move_text(
    rate1: u32,
    steps1: i32,
    accel1: i32,
    rate2: u32,
    steps2: i32,
    accel2: i32,
    clear: Option<u8>,
) -> Seq<char> {
    "LM,"@ + decimal(rate1 as int) + ","@ + decimal(steps1 as int) + ","@ + decimal(accel1 as int)
        + ","@ + decimal(rate2 as int) + ","@ + decimal(steps2 as int) + ","@ + decimal(
        accel2 as int,
    ) + optional(
        match clear {
            Some(c) => Some(c as int),
            None => None,
        },
    )
}

/// Why `HM` cannot be sent, if it cannot: the step frequency is outside 2 to
/// 25000, or a position lies outside plus or minus 4294967.
pub open spec fn home_fault(step_frequency: u32, position1: Option<i32>, position2: Option<i32>)
    -> Option<Fault> {
    if !(2 <= step_frequency <= 25000) {
        Some(Fault::Value { parameter: "step_frequency"@, value: decimal(step_frequency as int) })
    } else if position1 is Some && magnitude(position1->0 as int) > 4294967 {
        Some(Fault::Value { parameter: "position1"@, value: decimal(position1->0 as int) })
    } else if position2 is Some && magnitude(position2->0 as int) > 4294967 {
        Some(Fault::Value { parameter: "position2"@, value: decimal(position2->0 as int) })
    } else {
        None
    }
}

/// The text of `HM`: the step frequency, then each position that is given.
pub open spec fn home_text(step_frequency: u32, position1: Option<i32>, position2: Option<i32>)
    -> Seq<char> {
    "HM,"@ + decimal(step_frequency as int) + optional(
        match position1 {
            Some(p) => Some(p as int),
            None => None,
        },
    ) + optional(
        match position2 {
            Some(p) => Some(p as int),
            None => None,
        },
    )
}

/// Why `SM` cannot be sent, if it cannot: the duration is outside 1 to
/// 16777215 milliseconds, or a step count lies outside plus or minus
/// 16777215.
pub open spec fn stepper_move_fault(duration: u128, axis_steps1: i32, axis_steps2: Option<i32>)
    -> Option<Fault> {
    if !(1 <= duration <= 16777215) {
        Some(Fault::Value { parameter: "duration"@, value: decimal(duration as int) })
    } else if magnitude(axis_steps1 as int) > 16777215 {
        Some(Fault::Value { parameter: "axis_steps1"@, value: decimal(axis_steps1 as int) })
    } else if axis_steps2 is Some && magnitude(axis_steps2->0 as int) > 16777215 {
        Some(Fault::Value { parameter: "axis_steps2"@, value: decimal(axis_steps2->0 as int) })
    } else {
        None
    }
}

/// The text of `SM`.
pub open spec fn stepper_move_text(duration: u128, axis_steps1: i32, axis_steps2: Option<i32>)
    -> Seq<char> {
    "SM,"@ + decimal(duration as int) + ","@ + decimal(axis_steps1 as int) + optional(
        match axis_steps2 {
            Some(s) => Some(s as int),
            None => None,
        },
    )
}

/// Why `XM` cannot be sent, if it cannot: the duration is outside 1 to
/// 16777215 milliseconds, or a step count lies outside plus or minus
/// 16777215.
pub open spec fn stepper_move_mixed_fault(step_ms: u32, axis_steps_a: i32, axis_steps_b: i32)
    -> Option<Fault> {
    if !(1 <= step_ms <= 16777215) {
        Some(Fault::Value { parameter: "step_ms"@, value: decimal(step_ms as int) })
    } else if magnitude(axis_steps_a as int) > 16777215 {
        Some(Fault::Value { parameter: "axis_steps_a"@, value: decimal(axis_steps_a as int) })
    } else if magnitude(axis_steps_b as int) > 16777215 {
        Some(Fault::Value { parameter: "axis_steps_b"@, value: decimal(axis_steps_b as int) })
    } else {
        None
    }
}

/// The text of `XM`.
pub open spec fn stepper_move_mixed_text(step_ms: u32, axis_steps_a: i32, axis_steps_b: i32)
    -> Seq<char> {
    "XM,"@ + decimal(step_ms as int) + ","@ + decimal(axis_steps_a as int) + ","@ + decimal(
        axis_steps_b as int,
    )
}

/// The text of `EM`: the step mode's code where motor 1 is to run and 0
/// where it is not, then 1 or 0 for motor 2.
pub open spec fn enable_text(motor1: bool, motor2: bool, mode: StepMode) -> Seq<char> {
    "EM,"@ + decimal(
        if motor1 {
            mode.spec_code()
        } else {
            0
        },
    ) + ","@ + decimal(
        if motor2 {
            1
        } else {
            0
        },
    )
}

/// The request that `EM` makes for the given choice, each part of which
/// falls back on what the device has cached.
pub open spec fn set_motors_request(
    device: Device,
    motor1_enable: Option<bool>,
    motor2_enable: Option<bool>,
    step_mode: Option<StepMode>,
) -> Result<RequestView, Fault> {
    let motor1 = match motor1_enable {
        Some(b) => b,
        None => device.motor1_enabled,
    };
    let motor2 = match motor2_enable {
        Some(b) => b,
        None => device.motor2_enabled,
    };
    let mode = match step_mode {
        Some(m) => m,
        None => device.step_mode,
    };
    sent(
        device.connected,
        enable_text(motor1, motor2, mode),
        true,
        Reading::Text,
        (Effect::Motors { motor1, motor2, mode }),
    )
}

/// Whether `name` may be the board's nickname: at most 16 characters, all of
/// them ASCII.
pub open spec fn is_nickname(name: Seq<char>) -> bool {
    name.len() <= 16 && forall|i: int| 0 <= i < name.len() ==> (#[trigger] name[i]) as u32 <= 0x7f
}


impl Device {
    /// `RB`: restarts the board.
    pub fn reboot(&self) -> (r: Result<Request, DeviceError>)
        ensures
            outcome(r) == sent(self.connected, "RB"@, true, Reading::Text, Effect::Keep),
    {
        proof {
            reveal_strlit("RB");
            lemma_expects_ok_by_head("RB"@);
        }
        bare(self.connected, "RB", Reading::Text, Effect::Keep)
    }

    /// `SP`: lowers (`value` 0) or raises (`value` 1) the pen, over
    /// `duration` milliseconds where a duration is given, optionally driving
    /// a pin of port B. The line holds only the arguments that are given; a
    /// pin without a duration is refused. Once confirmed, the pen counts as
    /// lowered or raised accordingly.
    pub fn pen_state(&self, value: u8, duration: Option<u128>, portb_pin: Option<u8>) -> (r: Result<
        Request,
        DeviceError,
    >)
        ensures
            outcome(r) == pen_state_request(self.connected, value, duration, portb_pin),
    {
        if value != 0 && value != 1 {
            return Err(invalid("value", &render_nat(value as u128)));
        }
        if let Some(pin) = portb_pin {
            if pin > 7 {
                return Err(invalid("portb_pin", &render_nat(pin as u128)));
            }
        }
        proof {
            reveal_strlit("SP,");
            reveal_strlit(",");
        }
        let mut text: Vec<char> = Vec::new();
        put(&mut text, "SP,");
        put_int(&mut text, value as i64);
        match duration {
            Some(d) => {
                if d < 1 || d > 65535 {
                    return Err(invalid("duration", &render_nat(d)));
                }
                put(&mut text, ",");
                put_int(&mut text, d as i64);
            },
            None => {
                if portb_pin.is_some() {
                    return Err(invalid("duration", &chars_of("none")));
                }
            },
        }
        if let Some(pin) = portb_pin {
            put(&mut text, ",");
            put_int(&mut text, pin as i64);
        }
        proof {
            assert(text@ =~= pen_state_text(value, duration, portb_pin));
            lemma_expects_ok_by_head(text@);
        }
        send(self.connected, &text, Reading::Text, Effect::Pen { lowered: value == 0 })
    }
    /// `R`: puts the board back into its initial state.
    pub fn reset(&self) -> (r: Result<Request, DeviceError>)
        ensures
            outcome(r) == sent(self.connected, "R"@, true, Reading::Text, Effect::Keep),
    {
        proof {
            reveal_strlit("R");
            lemma_expects_ok_by_head("R"@);
        }
        bare(self.connected, "R", Reading::Text, Effect::Keep)
    }

    /// `ST`: names the board. The name has at most 16 characters, all ASCII;
    /// the command made with it is then held to the rules of
    /// [`Device::command`].
    pub fn nickname(&self, nickname: &str) -> (r: Result<Request, DeviceError>)
        ensures
            outcome(r) == if is_nickname(nickname@) {
                framed(self.connected, "ST,"@ + nickname@, Reading::Text, Effect::Keep)
            } else {
                Err(Fault::Value { parameter: "nickname"@, value: nickname@ })
            },
    {
        let name = chars_of(nickname);
        if name.len() > 16 {
            return Err(invalid("nickname", &name));
        }
        let mut i: usize = 0;
        while i < name.len()
            invariant
                i <= name.len(),
                name@ == nickname@,
                forall|k: int| 0 <= k < i ==> (#[trigger] name@[k]) as u32 <= 0x7f,
            decreases name.len() - i,
        {
            if name[i] as u32 > 0x7f {
                return Err(invalid("nickname", &name));
            }
            i += 1;
        }
        let mut text: Vec<char> = chars_of("ST,");
        let mut k: usize = 0;
        while k < name.len()
            invariant
                k <= name.len(),
                text@ == "ST,"@ + name@.subrange(0, k as int),
            decreases name.len() - k,
        {
            text.push(name[k]);
            k += 1;
            assert(text@ =~= "ST,"@ + name@.subrange(0, k as int));
        }
        assert(name@.subrange(0, name.len() as int) =~= name@);
        frame(self.connected, &text, Reading::Text, Effect::Keep)
    }

    /// `V`: asks for the firmware version.
    pub fn version(&self) -> (r: Result<Request, DeviceError>)
        ensures
            outcome(r) == sent(self.connected, "V"@, false, Reading::Text, Effect::Keep),
    {
        proof {
            reveal_strlit("V");
            lemma_expects_ok_by_head("V"@);
        }
        bare(self.connected, "V", Reading::Text, Effect::Keep)
    }

    /// `PI`: asks for the level of a pin of one of the ports A to E.
    pub fn read_pin(&self, port: char, pin: u8) -> (r: Result<Request, DeviceError>)
        ensures
            outcome(r) == checked(
                pin_fault(port, pin),
                sent(self.connected, read_pin_text(port, pin), false, Reading::Pin, Effect::Keep),
            ),
    {
        if !(port == 'A' || port == 'B' || port == 'C' || port == 'D' || port == 'E') {
            let mut value: Vec<char> = Vec::new();
            value.push(port);
            assert(value@ =~= seq![port]);
            return Err(invalid("port", &value));
        }
        if pin > 7 {
            return Err(invalid("pin", &render_nat(pin as u128)));
        }
        proof {
            reveal_strlit("PI,");
            reveal_strlit(",");
        }
        let mut text: Vec<char> = Vec::new();
        put(&mut text, "PI,");
        put_char(&mut text, port);
        put(&mut text, ",");
        put_int(&mut text, pin as i64);
        proof {
            assert(text@ =~= read_pin_text(port, pin));
            lemma_expects_ok_by_head(text@);
        }
        send(self.connected, &text, Reading::Pin, Effect::Keep)
    }

    /// `PD`: makes a pin an output (`direction` 0) or an input (1).
    pub fn pin_direction(&self, port: char, pin: u8, direction: u8) -> (r: Result<
        Request,
        DeviceError,
    >)
        ensures
            outcome(r) == checked(
                pin_direction_fault(port, pin, direction),
                sent(
                    self.connected,
                    pin_direction_text(port, pin, direction),
                    true,
                    Reading::Text,
                    Effect::Keep,
                ),
            ),
    {
        if !(port == 'A' || port == 'B' || port == 'C' || port == 'D' || port == 'E') {
            let mut value: Vec<char> = Vec::new();
            value.push(port);
            assert(value@ =~= seq![port]);
            return Err(invalid("port", &value));
        }
        if pin > 7 {
            return Err(invalid("pin", &render_nat(pin as u128)));
        }
        if direction > 1 {
            return Err(invalid("direction", &render_nat(direction as u128)));
        }
        proof {
            reveal_strlit("PD,");
            reveal_strlit(",");
        }
        let mut text: Vec<char> = Vec::new();
        put(&mut text, "PD,");
        put_char(&mut text, port);
        put(&mut text, ",");
        put_int(&mut text, pin as i64);
        put(&mut text, ",");
        put_int(&mut text, direction as i64);
        proof {
            assert(text@ =~= pin_direction_text(port, pin, direction));
            lemma_expects_ok_by_head(text@);
        }
        send(self.connected, &text, Reading::Text, Effect::Keep)
    }

    /// Lowers the pen, allowing it the time it needs.
    pub fn pen_down(&self) -> (r: Result<Request, DeviceError>)
        ensures
            outcome(r) == pen_down_request(*self),
    {
        if self.pen_down_speed == 0 {
            return Err(invalid("pen_down_speed", &render_nat(0)));
        }
        let ms = travel_ms(
            self.pen_up_position,
            self.pen_down_position,
            self.pen_down_speed,
            self.pen_down_delay,
        );
        self.pen_state(0, Some(ms as u128), None)
    }

    /// Raises the pen, allowing it the time it needs.
    pub fn pen_up(&self) -> (r: Result<Request, DeviceError>)
        ensures
            outcome(r) == pen_up_request(*self),
    {
        if self.pen_up_speed == 0 {
            return Err(invalid("pen_up_speed", &render_nat(0)));
        }
        let ms = travel_ms(
            self.pen_up_position,
            self.pen_down_position,
            self.pen_up_speed,
            self.pen_up_delay,
        );
        self.pen_state(1, Some(ms as u128), None)
    }

    /// `TP`: moves the pen to where it is not, optionally over `duration`
    /// milliseconds. Once confirmed, the cached pen state is the opposite of
    /// what it was.
    pub fn pen_toggle(&self, duration: Option<u128>) -> (r: Result<Request, DeviceError>)
        ensures
            outcome(r) == checked(
                pen_toggle_fault(duration),
                sent(
                    self.connected,
                    pen_toggle_text(duration),
                    true,
                    Reading::Text,
                    Effect::TogglePen,
                ),
            ),
    {
        proof {
            reveal_strlit("TP");
            reveal_strlit(",");
        }
        let mut text: Vec<char> = Vec::new();
        put(&mut text, "TP");
        if let Some(d) = duration {
            if d < 1 || d > 65535 {
                return Err(invalid("duration", &render_nat(d)));
            }
            put(&mut text, ",");
            put_int(&mut text, d as i64);
        }
        proof {
            assert(text@ =~= pen_toggle_text(duration));
            lemma_expects_ok_by_head(text@);
        }
        send(self.connected, &text, Reading::Text, Effect::TogglePen)
    }

    /// `QP`: asks whether the pen is lowered.
    pub fn query_pen_state(&self) -> (r: Result<Request, DeviceError>)
        ensures
            outcome(r) == sent(self.connected, "QP"@, true, Reading::Pen, Effect::Keep),
    {
        proof {
            reveal_strlit("QP");
            lemma_expects_ok_by_head("QP"@);
        }
        bare(self.connected, "QP", Reading::Pen, Effect::Keep)
    }

    /// `CS`: makes the current position the origin of the step counters.
    pub fn zero_position(&self) -> (r: Result<Request, DeviceError>)
        ensures
            outcome(r) == sent(self.connected, "CS"@, true, Reading::Text, Effect::Keep),
    {
        proof {
            reveal_strlit("CS");
            lemma_expects_ok_by_head("CS"@);
        }
        bare(self.connected, "CS", Reading::Text, Effect::Keep)
    }

    /// `LM`: a move given by initial rate, step count and acceleration of
    /// each axis, optionally clearing the step accumulators.
    pub fn low_level_move(
        &self,
        rate1: u32,
        steps1: i32,
        accel1: i32,
        rate2: u32,
        steps2: i32,
        accel2: i32,
        clear: Option<u8>,
    ) -> (r: Result<Request, DeviceError>)
        ensures
            outcome(r) == checked(
                low_level_move_fault(rate1, steps1, rate2, steps2, clear),
                sent(
                    self.connected,
                    low_level_move_text(rate1, steps1, accel1, rate2, steps2, accel2, clear),
                    true,
                    Reading::Text,
                    Effect::Keep,
                ),
            ),
    {
        if let Some(c) = clear {
            if c > 3 {
                return Err(invalid("clear", &render_nat(c as u128)));
            }
        }
        if rate1 > 2147483647 {
            return Err(invalid("rate1", &render_nat(rate1 as u128)));
        }
        if steps1 > 16777215 || steps1 < -16777215 {
            return Err(invalid("steps1", &render_int(steps1 as i64)));
        }
        if rate2 > 2147483647 {
            return Err(invalid("rate2", &render_nat(rate2 as u128)));
        }
        if steps2 > 16777215 || steps2 < -16777215 {
            return Err(invalid("steps2", &render_int(steps2 as i64)));
        }
        proof {
            reveal_strlit("LM,");
            reveal_strlit(",");
        }
        let mut text: Vec<char> = Vec::new();
        put(&mut text, "LM,");
        put_int(&mut text, rate1 as i64);
        put(&mut text, ",");
        put_int(&mut text, steps1 as i64);
        put(&mut text, ",");
        put_int(&mut text, accel1 as i64);
        put(&mut text, ",");
        put_int(&mut text, rate2 as i64);
        put(&mut text, ",");
        put_int(&mut text, steps2 as i64);
        put(&mut text, ",");
        put_int(&mut text, accel2 as i64);
        if let Some(c) = clear {
            put(&mut text, ",");
            put_int(&mut text, c as i64);
        }
        proof {
            assert(text@ =~= low_level_move_text(
                rate1,
                steps1,
                accel1,
                rate2,
                steps2,
                accel2,
                clear,
            ));
            lemma_expects_ok_by_head(text@);
        }
        send(self.connected, &text, Reading::Text, Effect::Keep)
    }

    /// `HM`: moves to the origin of the step counters, or to the given
    /// absolute position, at the given step frequency.
    pub fn home(&self, step_frequency: u32, position1: Option<i32>, position2: Option<i32>) -> (r:
        Result<Request, DeviceError>)
        ensures
            outcome(r) == checked(
                home_fault(step_frequency, position1, position2),
                sent(
                    self.connected,
                    home_text(step_frequency, position1, position2),
                    true,
                    Reading::Text,
                    Effect::Keep,
                ),
            ),
    {
        if step_frequency < 2 || step_frequency > 25000 {
            return Err(invalid("step_frequency", &render_nat(step_frequency as u128)));
        }
        proof {
            reveal_strlit("HM,");
            reveal_strlit(",");
        }
        let mut text: Vec<char> = Vec::new();
        put(&mut text, "HM,");
        put_int(&mut text, step_frequency as i64);
        if let Some(p) = position1 {
            if p > 4294967 || p < -4294967 {
                return Err(invalid("position1", &render_int(p as i64)));
            }
            put(&mut text, ",");
            put_int(&mut text, p as i64);
        }
        if let Some(p) = position2 {
            if p > 4294967 || p < -4294967 {
                return Err(invalid("position2", &render_int(p as i64)));
            }
            put(&mut text, ",");
            put_int(&mut text, p as i64);
        }
        proof {
            assert(text@ =~= home_text(step_frequency, position1, position2));
            lemma_expects_ok_by_head(text@);
        }
        send(self.connected, &text, Reading::Text, Effect::Keep)
    }

    /// `SM`: a straight move of both axes over `duration` milliseconds, or a
    /// pause where both step counts are zero.
    pub fn stepper_move(&self, duration: u128, axis_steps1: i32, axis_steps2: Option<i32>) -> (r:
        Result<Request, DeviceError>)
        ensures
            outcome(r) == checked(
                stepper_move_fault(duration, axis_steps1, axis_steps2),
                sent(
                    self.connected,
                    stepper_move_text(duration, axis_steps1, axis_steps2),
                    true,
                    Reading::Text,
                    Effect::Keep,
                ),
            ),
    {
        if duration < 1 || duration > 16777215 {
            return Err(invalid("duration", &render_nat(duration)));
        }
        if axis_steps1 > 16777215 || axis_steps1 < -16777215 {
            return Err(invalid("axis_steps1", &render_int(axis_steps1 as i64)));
        }
        if let Some(s) = axis_steps2 {
            if s > 16777215 || s < -16777215 {
                return Err(invalid("axis_steps2", &render_int(s as i64)));
            }
        }
        proof {
            reveal_strlit("SM,");
            reveal_strlit(",");
        }
        let mut text: Vec<char> = Vec::new();
        put(&mut text, "SM,");
        put_int(&mut text, duration as i64);
        put(&mut text, ",");
        put_int(&mut text, axis_steps1 as i64);
        if let Some(s) = axis_steps2 {
            put(&mut text, ",");
            put_int(&mut text, s as i64);
        }
        proof {
            assert(text@ =~= stepper_move_text(duration, axis_steps1, axis_steps2));
            lemma_expects_ok_by_head(text@);
        }
        send(self.connected, &text, Reading::Text, Effect::Keep)
    }

    /// `XM`: a move in the mixed axes A and B over `step_ms` milliseconds;
    /// the board turns it into steps of motor 1 (A plus B) and of motor 2 (A
    /// minus B).
    pub fn stepper_move_mixed(&self, step_ms: u32, axis_steps_a: i32, axis_steps_b: i32) -> (r:
        Result<Request, DeviceError>)
        ensures
            outcome(r) == checked(
                stepper_move_mixed_fault(step_ms, axis_steps_a, axis_steps_b),
                sent(
                    self.connected,
                    stepper_move_mixed_text(step_ms, axis_steps_a, axis_steps_b),
                    true,
                    Reading::Text,
                    Effect::Keep,
                ),
            ),
    {
        if step_ms < 1 || step_ms > 16777215 {
            return Err(invalid("step_ms", &render_nat(step_ms as u128)));
        }
        if axis_steps_a > 16777215 || axis_steps_a < -16777215 {
            return Err(invalid("axis_steps_a", &render_int(axis_steps_a as i64)));
        }
        if axis_steps_b > 16777215 || axis_steps_b < -16777215 {
            return Err(invalid("axis_steps_b", &render_int(axis_steps_b as i64)));
        }
        proof {
            reveal_strlit("XM,");
            reveal_strlit(",");
        }
        let mut text: Vec<char> = Vec::new();
        put(&mut text, "XM,");
        put_int(&mut text, step_ms as i64);
        put(&mut text, ",");
        put_int(&mut text, axis_steps_a as i64);
        put(&mut text, ",");
        put_int(&mut text, axis_steps_b as i64);
        proof {
            assert(text@ =~= stepper_move_mixed_text(step_ms, axis_steps_a, axis_steps_b));
            lemma_expects_ok_by_head(text@);
        }
        send(self.connected, &text, Reading::Text, Effect::Keep)
    }

    /// `EM`: enables or disables each motor and sets the step mode. What is
    /// not given stays as cached. Once confirmed, the cache holds the new
    /// choice.
    pub fn set_motors(
        &self,
        motor1_enable: Option<bool>,
        motor2_enable: Option<bool>,
        step_mode: Option<StepMode>,
    ) -> (r: Result<Request, DeviceError>)
        ensures
            outcome(r) == set_motors_request(*self, motor1_enable, motor2_enable, step_mode),
    {
        let motor1 = match motor1_enable {
            Some(b) => b,
            None => self.motor1_enabled,
        };
        let motor2 = match motor2_enable {
            Some(b) => b,
            None => self.motor2_enabled,
        };
        let mode = match step_mode {
            Some(m) => m,
            None => self.step_mode,
        };
        let enable1: u8 = if motor1 {
            mode.code()
        } else {
            0
        };
        let enable2: u8 = if motor2 {
            1
        } else {
            0
        };
        proof {
            reveal_strlit("EM,");
            reveal_strlit(",");
        }
        let mut text: Vec<char> = Vec::new();
        put(&mut text, "EM,");
        put_int(&mut text, enable1 as i64);
        put(&mut text, ",");
        put_int(&mut text, enable2 as i64);
        proof {
            assert(text@ =~= enable_text(motor1, motor2, mode));
            lemma_expects_ok_by_head(text@);
        }
        send(self.connected, &text, Reading::Text, Effect::Motors { motor1, motor2, mode })
    }

    /// `EM,0,0`: disables both motors.
    pub fn disable_motors(&self) -> (r: Result<Request, DeviceError>)
        ensures
            outcome(r) == set_motors_request(*self, Some(false), Some(false), None),
    {
        self.set_motors(Some(false), Some(false), None)
    }

    /// `EM`: enables both motors in the given step mode.
    pub fn enable_motors(&self, step_mode: StepMode) -> (r: Result<Request, DeviceError>)
        ensures
            outcome(r) == set_motors_request(*self, Some(true), Some(true), Some(step_mode)),
    {
        self.set_motors(Some(true), Some(true), Some(step_mode))
    }

    /// `ES`: stops the motors at once; with `disable_motors`, `ES,1`, which
    /// also disables them. Once that is confirmed, both motors count as
    /// disabled.
    pub fn abort_motors(&self, disable_motors: bool) -> (r: Result<Request, DeviceError>)
        ensures
            outcome(r) == if disable_motors {
                sent(
                    self.connected,
                    "ES,1"@,
                    true,
                    Reading::Text,
                    (Effect::Motors { motor1: false, motor2: false, mode: StepMode::Disable }),
                )
            } else {
                sent(self.connected, "ES"@, true, Reading::Text, Effect::Keep)
            },
    {
        proof {
            reveal_strlit("ES,1");
            reveal_strlit("ES");
            lemma_expects_ok_by_head("ES,1"@);
            lemma_expects_ok_by_head("ES"@);
        }
        if disable_motors {
            bare(
                self.connected,
                "ES,1",
                Reading::Text,
                Effect::Motors { motor1: false, motor2: false, mode: StepMode::Disable },
            )
        } else {
            bare(self.connected, "ES", Reading::Text, Effect::Keep)
        }
    }

    /// `QM`: asks whether a command is executing and whether the motors
    /// move.
    pub fn motor_status(&self) -> (r: Result<Request, DeviceError>)
        ensures
            outcome(r) == sent(self.connected, "QM"@, false, Reading::Motors, Effect::Keep),
    {
        proof {
            reveal_strlit("QM");
            lemma_expects_ok_by_head("QM"@);
        }
        bare(self.connected, "QM", Reading::Motors, Effect::Keep)
    }

    /// `QS`: asks for the global step counters of both motors.
    pub fn read_position(&self) -> (r: Result<Request, DeviceError>)
        ensures
            outcome(r) == sent(self.connected, "QS"@, true, Reading::Position, Effect::Keep),
    {
        proof {
            reveal_strlit("QS");
            lemma_expects_ok_by_head("QS"@);
        }
        bare(self.connected, "QS", Reading::Position, Effect::Keep)
    }

    /// Marks the link as closed. No command is framed after that.
    pub fn disconnect(&mut self)
        ensures
            *final(self) == (Device { connected: false, ..*old(self) }),
    {
        if self.connected {
            self.connected = false;
        }
    }
}

/// Lowering the pen puts `SP,0,` and the time in milliseconds on the wire,
/// closed by a carriage return, where the time is the travel between the two
/// pen positions at the lowering speed, rounded to milliseconds, plus the
/// delay after lowering. This holds of every connected device whose lowering
/// speed is not zero and for which that time lies within the 1 to 65535
/// milliseconds that the command can express.
pub proof fn lemma_pen_down_line(device: Device)
    requires
        device.connected,
        device.pen_down_speed != 0,
        1 <= pen_travel_ms(
            device.pen_up_position as int,
            device.pen_down_position as int,
            device.pen_down_speed as int,
            device.pen_down_delay as int,
        ) <= 65535,
    ensures
        pen_down_request(device) matches Ok(request) && request.line == ascii_bytes(
            "SP,0,"@ + decimal(
                pen_travel_ms(
                    device.pen_up_position as int,
                    device.pen_down_position as int,
                    device.pen_down_speed as int,
                    device.pen_down_delay as int,
                ),
            ),
        ).push(13) && request.expects_ok && request.effect == (Effect::Pen { lowered: true }),
        device.pen_down_speed > 0 && device.pen_down_delay >= 0 ==> pen_travel_ms(
            device.pen_up_position as int,
            device.pen_down_position as int,
            device.pen_down_speed as int,
            device.pen_down_delay as int,
        ) == round_div(
            1000 * magnitude(device.pen_up_position - device.pen_down_position),
            device.pen_down_speed as int,
        ) + device.pen_down_delay,
{
    let ms = pen_travel_ms(
        device.pen_up_position as int,
        device.pen_down_position as int,
        device.pen_down_speed as int,
        device.pen_down_delay as int,
    );
    reveal_strlit("SP,");
    reveal_strlit(",");
    reveal_strlit("SP,0,");
    assert(pen_state_text(0, Some(ms as u128), None) =~= "SP,0,"@ + decimal(ms));
    if device.pen_down_speed > 0 && device.pen_down_delay >= 0 {
        let distance = magnitude(device.pen_up_position - device.pen_down_position);
        assert(round_div(1000 * distance, device.pen_down_speed as int) >= 0) by (nonlinear_arith)
            requires
                distance >= 0,
                device.pen_down_speed > 0,
        ;
    }
}

} // verus!
