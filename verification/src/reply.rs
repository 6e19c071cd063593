//! Reading what the board answers.

use vstd::prelude::*;
use vstd::string::StringExecFns;
use crate::decimal::{
    decimal, is_decimal_char, lemma_decimal_round_trip, lemma_decimal_shape, parse_i32, parse_u8,
    read_i32, read_u8,
};
use crate::device::MotorStatus;
use crate::error::{outcome, plain_outcome, DeviceError, Fault};
use crate::text::{
    fields_view, lemma_first_index, slice_of, split, split_at, string_of, trim, trim_end,
    trimmed,
};
use crate::wire::Reading;

verus! {

/// What a reply says, read as its command calls for.
#[derive(Debug, Clone, PartialEq, Eq)]
pub enum Answer {
    /// The payload as it came.
    Text(String),
    /// The level of an input pin: `true` for high.
    Pin(bool),
    /// The state of the pen: `true` for lowered.
    Pen(bool),
    /// The status of motor 1 and of motor 2.
    Motors(MotorStatus, MotorStatus),
    /// The global step counters of motor 1 and of motor 2.
    Position(i32, i32),
}

/// The mathematical content of an [`Answer`].
pub enum AnswerView {
    Text(Seq<char>),
    Pin(bool),
    Pen(bool),
    Motors(MotorStatus, MotorStatus),
    Position(i32, i32),
}

impl View for Answer {
    type V = AnswerView;

    open spec fn view(&self) -> AnswerView {
        match self {
            Answer::Text(s) => AnswerView::Text(s@),
            Answer::Pin(b) => AnswerView::Pin(*b),
            Answer::Pen(b) => AnswerView::Pen(*b),
            Answer::Motors(a, b) => AnswerView::Motors(*a, *b),
            Answer::Position(a, b) => AnswerView::Position(*a, *b),
        }
    }
}

/// The mark that ends a confirmed reply: `OK`, carriage return, line feed.
pub open spec fn ok_mark() -> Seq<char> {
    seq!['O', 'K', '\r', '\n']
}

/// Whether `raw` ends in the [`ok_mark`].
pub open spec fn ends_with_ok(raw: Seq<char>) -> bool {
    raw.len() >= 4 && raw.subrange(raw.len() - 4, raw.len() as int) == ok_mark()
}

/// The payload of the reply `raw`: all of it where no confirmation is
/// expected; else what stands before the closing [`ok_mark`], and nothing
/// where the mark is missing.
pub open spec fn payload_of(expects_ok: bool, raw: Seq<char>) -> Option<Seq<char>> {
    if !expects_ok {
        Some(raw)
    } else if ends_with_ok(raw) {
        Some(raw.subrange(0, raw.len() - 4))
    } else {
        None
    }
}

/// The level that a `PI` reply reports: the last comma-separated field of
/// the payload, blanks aside, is `1` for high or `0` for low.
pub open spec fn pin_level(payload: Seq<char>) -> Result<bool, Fault> {
    let field = trim(split(trim(payload), ',').last());
    if field == seq!['1'] {
        Ok(true)
    } else if field == seq!['0'] {
        Ok(false)
    } else {
        Err(Fault::Response("unexpected pin level: "@ + payload))
    }
}

/// Whether a `QP` reply reports the pen as lowered: the first character of
/// the payload, blanks aside, is `0` for a lowered pen and `1` for a raised
/// one.
pub open spec fn pen_lowered(payload: Seq<char>) -> Result<bool, Fault> {
    let text = trim(payload);
    if text.len() == 0 {
        Err(Fault::Response("empty reply"@))
    } else if text[0] == '0' {
        Ok(true)
    } else if text[0] == '1' {
        Ok(false)
    } else {
        Err(Fault::Response("unknown pen state: "@ + payload))
    }
}

/// The number in a field of a `QM` reply, blanks aside; `fallback` where the
/// field holds no unsigned byte.
pub open spec fn flag(field: Seq<char>, fallback: u8) -> u8 {
    match parse_u8(trim(field)) {
        Some(v) => v,
        None => fallback,
    }
}

/// What a `QM` reply reports: five comma-separated fields, the first of them
/// `QM`, then whether a command is executing, whether motor 1 moves, whether
/// motor 2 moves, and the state of the queue.
pub open spec fn motor_status(payload: Seq<char>) -> Result<(MotorStatus, MotorStatus), Fault> {
    let parts = split(trim(payload), ',');
    if parts.len() == 5 && parts[0] == seq!['Q', 'M'] {
        let executing = flag(parts[1], 0) != 0;
        let fifo_empty = flag(parts[4], 1) == 0;
        Ok(
            (
                MotorStatus {
                    executing_command: executing,
                    moving: flag(parts[2], 0) != 0,
                    fifo_empty,
                },
                MotorStatus {
                    executing_command: executing,
                    moving: flag(parts[3], 0) != 0,
                    fifo_empty,
                },
            ),
        )
    } else {
        Err(Fault::Response("malformed motor status"@))
    }
}

/// What a `QS` reply reports: two comma-separated signed 32-bit numbers.
pub open spec fn step_position(payload: Seq<char>) -> Result<(i32, i32), Fault> {
    let parts = split(trim(payload), ',');
    if parts.len() != 2 {
        Err(Fault::Response("expected two step positions"@))
    } else {
        match parse_i32(parts[0]) {
            None => Err(Fault::Response("unreadable position of motor 1: "@ + parts[0])),
            Some(a) => match parse_i32(parts[1]) {
                None => Err(Fault::Response("unreadable position of motor 2: "@ + parts[1])),
                Some(b) => Ok((a, b)),
            },
        }
    }
}

/// What the payload says when read as `reading` calls for.
pub open spec fn decoded(reading: Reading, payload: Seq<char>) -> Result<AnswerView, Fault> {
    match reading {
        Reading::Text => Ok(AnswerView::Text(payload)),
        Reading::Pin => match pin_level(payload) {
            Ok(level) => Ok(AnswerView::Pin(level)),
            Err(fault) => Err(fault),
        },
        Reading::Pen => match pen_lowered(payload) {
            Ok(lowered) => Ok(AnswerView::Pen(lowered)),
            Err(fault) => Err(fault),
        },
        Reading::Motors => match motor_status(payload) {
            Ok(pair) => Ok(AnswerView::Motors(pair.0, pair.1)),
            Err(fault) => Err(fault),
        },
        Reading::Position => match step_position(payload) {
            Ok(pair) => Ok(AnswerView::Position(pair.0, pair.1)),
            Err(fault) => Err(fault),
        },
    }
}

/// Takes the payload out of the reply `raw`; `None` where a confirmation is
/// expected and missing.
pub fn take_payload(expects_ok: bool, raw: &Vec<char>) -> (r: Option<Vec<char>>)
    ensures
        match r {
            Some(p) => payload_of(expects_ok, raw@) == Some(p@),
            None => payload_of(expects_ok, raw@) is None,
        },
{
    let n = raw.len();
    if !expects_ok {
        let all = slice_of(raw, 0, n);
        assert(all@ =~= raw@);
        return Some(all);
    }
    if n >= 4 && raw[n - 4] == 'O' && raw[n - 3] == 'K' && raw[n - 2] == '\r' && raw[n - 1]
        == '\n' {
        assert(raw@.subrange(n - 4, n as int) =~= ok_mark());
        Some(slice_of(raw, 0, n - 4))
    } else {
        proof {
            if n >= 4 {
                let tail = raw@.subrange(n - 4, n as int);
                assert(tail[0] == raw@[n - 4] && tail[1] == raw@[n - 3] && tail[2] == raw@[n - 2]
                    && tail[3] == raw@[n - 1]);
                assert(ok_mark()[0] == 'O' && ok_mark()[1] == 'K' && ok_mark()[2] == '\r'
                    && ok_mark()[3] == '\n');
            }
        }
        None
    }
}

/// Whether `v` is the one character `c`.
fn is_single(v: &Vec<char>, c: char) -> (b: bool)
    ensures
        b == (v@ == seq![c]),
{
    if v.len() == 1 && v[0] == c {
        assert(v@ =~= seq![c]);
        true
    } else {
        assert(seq![c].len() == 1 && seq![c][0] == c);
        false
    }
}

/// `label` followed by `detail`.
fn labelled(label: &str, detail: &Vec<char>) -> (s: String)
    ensures
        s@ == label@ + detail@,
{
    let mut s = String::from_str(label);
    let tail = string_of(detail);
    s.append(tail.as_str());
    s
}

/// Reads the level of a pin from the payload of a `PI` reply.
pub fn read_pin_level(payload: &Vec<char>) -> (r: Result<bool, DeviceError>)
    ensures
        plain_outcome(r) == pin_level(payload@),
{
    let text = trimmed(payload);
    let parts = split_at(&text, ',');
    let last = &parts[parts.len() - 1];
    assert(last@ == split(trim(payload@), ',').last()) by {
        assert(fields_view(parts@)[parts.len() - 1] == last@);
    }
    let field = trimmed(last);
    if is_single(&field, '1') {
        Ok(true)
    } else if is_single(&field, '0') {
        Ok(false)
    } else {
        Err(DeviceError::InvalidResponse(labelled("unexpected pin level: ", payload)))
    }
}

/// Reads the state of the pen from the payload of a `QP` reply.
pub fn read_pen_lowered(payload: &Vec<char>) -> (r: Result<bool, DeviceError>)
    ensures
        plain_outcome(r) == pen_lowered(payload@),
{
    let text = trimmed(payload);
    if text.len() == 0 {
        Err(DeviceError::InvalidResponse(String::from_str("empty reply")))
    } else if text[0] == '0' {
        Ok(true)
    } else if text[0] == '1' {
        Ok(false)
    } else {
        Err(DeviceError::InvalidResponse(labelled("unknown pen state: ", payload)))
    }
}

/// Reads one field of a `QM` reply.
fn read_flag(field: &Vec<char>, fallback: u8) -> (v: u8)
    ensures
        v == flag(field@, fallback),
{
    let text = trimmed(field);
    match read_u8(&text) {
        Some(v) => v,
        None => fallback,
    }
}

/// Reads the status of both motors from the payload of a `QM` reply.
pub fn read_motor_status(payload: &Vec<char>) -> (r: Result<
    (MotorStatus, MotorStatus),
    DeviceError,
>)
    ensures
        plain_outcome(r) == motor_status(payload@),
{
    let text = trimmed(payload);
    let parts = split_at(&text, ',');
    proof {
        assert forall|i: int| 0 <= i < parts.len() implies (#[trigger] parts@[i])@ == split(
            trim(payload@),
            ',',
        )[i] by {
            assert(fields_view(parts@)[i] == parts@[i]@);
        }
    }
    if parts.len() != 5 {
        return Err(DeviceError::InvalidResponse(String::from_str("malformed motor status")));
    }
    let head = &parts[0];
    if head.len() == 2 && head[0] == 'Q' && head[1] == 'M' {
        assert(head@ =~= seq!['Q', 'M']);
        let executing = read_flag(&parts[1], 0) != 0;
        let moving1 = read_flag(&parts[2], 0) != 0;
        let moving2 = read_flag(&parts[3], 0) != 0;
        let fifo_empty = read_flag(&parts[4], 1) == 0;
        Ok(
            (
                MotorStatus { executing_command: executing, moving: moving1, fifo_empty },
                MotorStatus { executing_command: executing, moving: moving2, fifo_empty },
            ),
        )
    } else {
        assert(seq!['Q', 'M'].len() == 2 && seq!['Q', 'M'][0] == 'Q' && seq!['Q', 'M'][1] == 'M');
        Err(DeviceError::InvalidResponse(String::from_str("malformed motor status")))
    }
}

/// Reads the two step counters from the payload of a `QS` reply.
pub fn read_step_position(payload: &Vec<char>) -> (r: Result<(i32, i32), DeviceError>)
    ensures
        plain_outcome(r) == step_position(payload@),
{
    let text = trimmed(payload);
    let parts = split_at(&text, ',');
    proof {
        assert forall|i: int| 0 <= i < parts.len() implies (#[trigger] parts@[i])@ == split(
            trim(payload@),
            ',',
        )[i] by {
            assert(fields_view(parts@)[i] == parts@[i]@);
        }
    }
    if parts.len() != 2 {
        return Err(DeviceError::InvalidResponse(String::from_str("expected two step positions")));
    }
    match read_i32(&parts[0]) {
        None => Err(
            DeviceError::InvalidResponse(labelled("unreadable position of motor 1: ", &parts[0])),
        ),
        Some(a) => match read_i32(&parts[1]) {
            None => Err(
                DeviceError::InvalidResponse(
                    labelled("unreadable position of motor 2: ", &parts[1]),
                ),
            ),
            Some(b) => Ok((a, b)),
        },
    }
}

/// Reads the payload as `reading` calls for.
pub fn decode(reading: Reading, payload: &Vec<char>) -> (r: Result<Answer, DeviceError>)
    ensures
        outcome(r) == decoded(reading, payload@),
{
    match reading {
        Reading::Text => Ok(Answer::Text(string_of(payload))),
        Reading::Pin => match read_pin_level(payload) {
            Ok(level) => Ok(Answer::Pin(level)),
            Err(e) => Err(e),
        },
        Reading::Pen => match read_pen_lowered(payload) {
            Ok(lowered) => Ok(Answer::Pen(lowered)),
            Err(e) => Err(e),
        },
        Reading::Motors => match read_motor_status(payload) {
            Ok(pair) => Ok(Answer::Motors(pair.0, pair.1)),
            Err(e) => Err(e),
        },
        Reading::Position => match read_step_position(payload) {
            Ok(pair) => Ok(Answer::Position(pair.0, pair.1)),
            Err(e) => Err(e),
        },
    }
}

/// The payload of a confirmed reply is what stands before the mark.
pub proof fn lemma_confirmed_payload(payload: Seq<char>)
    ensures
        payload_of(true, payload + ok_mark()) == Some(payload),
        payload_of(false, payload) == Some(payload),
{
    let raw = payload + ok_mark();
    assert(raw.subrange(raw.len() - 4, raw.len() as int) =~= ok_mark());
    assert(raw.subrange(0, raw.len() - 4) =~= payload);
}

/// The step counters that the board reports are the ones that the driver
/// reads: whatever the two signed 32-bit counters, a payload made of their
/// decimal notations with a comma in between and a line end after them is
/// read as that pair.
pub proof fn lemma_position_reply(a: i32, b: i32)
    ensures
        step_position(decimal(a as int) + seq![','] + decimal(b as int) + seq!['\r', '\n'])
            == Ok::<(i32, i32), Fault>((a, b)),
{
    let first = decimal(a as int);
    let second = decimal(b as int);
    let body = first + seq![','] + second;
    let payload = body + seq!['\r', '\n'];
    lemma_decimal_shape(a as int);
    lemma_decimal_shape(b as int);
    lemma_decimal_round_trip(a as int);
    lemma_decimal_round_trip(b as int);
    assert(trim(payload) == body) by {
        assert(payload[0] == first[0]);
        assert(is_decimal_char(first[0]));
        assert(payload.drop_last() =~= body + seq!['\r']);
        assert((body + seq!['\r']).drop_last() =~= body);
        assert(body.last() == second.last());
        assert(is_decimal_char(second.last()));
        reveal_with_fuel(trim_end, 3);
    }
    assert(split(body, ',') =~= seq![first, second]) by {
        assert forall|i: int| 0 <= i < first.len() implies body[i] != ',' by {
            assert(body[i] == first[i]);
            assert(is_decimal_char(first[i]));
        }
        lemma_first_index(body, ',', first.len() as int);
        assert(body.subrange(0, first.len() as int) =~= first);
        assert(body.subrange(first.len() as int + 1, body.len() as int) =~= second);
        assert forall|i: int| 0 <= i < second.len() implies second[i] != ',' by {
            assert(is_decimal_char(second[i]));
        }
        lemma_first_index(second, ',', second.len() as int);
        reveal_with_fuel(split, 2);
    }
}

} // verus!
