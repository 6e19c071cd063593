//! Framing of command lines: what may be put on the wire, and how.

use vstd::prelude::*;
use vstd::string::StringExecFns;
use crate::device::StepMode;
use crate::error::{outcome, DeviceError, Fault};
use crate::decimal::{decimal, is_decimal_char, lemma_decimal_shape, lemma_decimal_short};
use crate::text::{
    chars_of, first_index, lemma_first_index, lemma_first_index_found, lemma_trim_end_is_prefix,
    lemma_trim_start_is_suffix, slice_of, string_of, trim, trim_bounds, trim_end, trim_start,
};

verus! {

/// How the payload of a reply is to be read.
#[derive(Debug, Clone, Copy, PartialEq, Eq, Structural)]
pub enum Reading {
    /// The payload is handed on as text.
    Text,
    /// The payload is the level of an input pin.
    Pin,
    /// The payload is the state of the pen.
    Pen,
    /// The payload is the motion status of both motors.
    Motors,
    /// The payload is the pair of global step counters.
    Position,
}

/// What a confirmed command changes in the driver's record of the board.
#[derive(Debug, Clone, Copy, PartialEq, Eq, Structural)]
pub enum Effect {
    /// Nothing.
    Keep,
    /// The pen is now down (`lowered`) or up.
    Pen { lowered: bool },
    /// The pen is now where it was not.
    TogglePen,
    /// The motors are now enabled as given, in the given step mode.
    Motors { motor1: bool, motor2: bool, mode: StepMode },
}

/// A command ready for the wire, with what the driver has to know to deal
/// with the reply.
#[derive(Debug, Clone, PartialEq, Eq)]
pub struct Request {
    /// The command as the caller wrote it.
    pub command: String,
    /// The bytes to transmit: the command without surrounding whitespace,
    /// then a carriage return.
    pub line: Vec<u8>,
    /// Whether the reply has to end in `OK`, carriage return, line feed.
    pub expects_ok: bool,
    /// How the reply's payload is read.
    pub reading: Reading,
    /// What changes once the board has confirmed the command.
    pub effect: Effect,
}

/// The mathematical content of a [`Request`].
pub struct RequestView {
    pub command: Seq<char>,
    pub line: Seq<u8>,
    pub expects_ok: bool,
    pub reading: Reading,
    pub effect: Effect,
}

impl View for Request {
    type V = RequestView;

    open spec fn view(&self) -> RequestView {
        RequestView {
            command: self.command@,
            line: self.line@,
            expects_ok: self.expects_ok,
            reading: self.reading,
            effect: self.effect,
        }
    }
}

/// Whether `c` may stand in a command: an ASCII character other than
/// carriage return and line feed.
pub open spec fn is_sendable(c: char) -> bool {
    c as u32 <= 0x7f && c as u32 != 10 && c as u32 != 13
}

/// Whether every character of `s` may stand in a command.
pub open spec fn all_sendable(s: Seq<char>) -> bool {
    forall|i: int| 0 <= i < s.len() ==> is_sendable(#[trigger] s[i])
}

/// The bytes of an ASCII text.
pub open spec fn ascii_bytes(s: Seq<char>) -> Seq<u8> {
    Seq::new(s.len(), |i: int| (s[i] as u32) as u8)
}

/// The upper-case form of an ASCII letter; any other character unchanged.
pub open spec fn upper(c: char) -> char {
    if 97 <= c as u32 <= 122 {
        ((c as u32 - 32) as u8) as char
    } else {
        c
    }
}

/// `s` with its ASCII letters in upper case.
pub open spec fn upper_text(s: Seq<char>) -> Seq<char> {
    Seq::new(s.len(), |i: int| upper(s[i]))
}

/// The name of a command: its text before the first comma, or all of it
/// where it has no comma.
pub open spec fn command_name(cmd: Seq<char>) -> Seq<char> {
    cmd.take(first_index(cmd, ',') as int)
}

/// Whether `name`, in upper case, is the name of one of the commands whose
/// reply the board does not end with `OK`: `V`, `I`, `A`, `MR`, `PI`, `QM`.
pub open spec fn is_unconfirmed(name: Seq<char>) -> bool {
    ||| name == seq!['V']
    ||| name == seq!['I']
    ||| name == seq!['A']
    ||| name == seq!['M', 'R']
    ||| name == seq!['P', 'I']
    ||| name == seq!['Q', 'M']
}

/// Whether the board ends its reply to the command `cmd` with `OK`, where
/// `cmd` is the command as it goes on the wire. It does so for every command
/// but the six whose name, in either case, is `V`, `I`, `A`, `MR`, `PI` or
/// `QM`. A command that only begins like one of them is confirmed as any
/// other.
pub open spec fn expects_ok(cmd: Seq<char>) -> bool {
    !is_unconfirmed(upper_text(command_name(cmd)))
}

/// The line that carries `cmd`: its characters without surrounding
/// whitespace, one byte each, and a carriage return.
pub open spec fn wire_line(cmd: Seq<char>) -> Seq<u8> {
    ascii_bytes(trim(cmd)).push(13)
}

/// Why `cmd` cannot be sent, if it cannot. The checks come in this order:
/// the command is empty; it holds a character that is not ASCII, or a
/// carriage return or line feed; its line is longer than 256 bytes; the
/// device is not connected. A command of blanks only is not empty: its line
/// is the carriage return alone.
pub open spec fn frame_fault(connected: bool, cmd: Seq<char>) -> Option<Fault> {
    if cmd.len() == 0 {
        Some(Fault::Command { command: cmd, message: "command must not be empty"@ })
    } else if !all_sendable(cmd) {
        Some(
            Fault::Command {
                command: cmd,
                message: "command holds characters that are not allowed"@,
            },
        )
    } else if trim(cmd).len() + 1 > 256 {
        Some(Fault::Command { command: cmd, message: "command is longer than 256 bytes"@ })
    } else if !connected {
        Some(Fault::Connection("device is not connected"@))
    } else {
        None
    }
}

/// The request that `cmd` makes, or why it makes none. The request keeps the
/// command as given; its line, and whether a confirmation is expected, go by
/// the command without its surrounding whitespace, which is what the board
/// receives.
pub open spec fn framed(connected: bool, cmd: Seq<char>, reading: Reading, effect: Effect) -> Result<
    RequestView,
    Fault,
> {
    match frame_fault(connected, cmd) {
        Some(fault) => Err(fault),
        None => Ok(
            RequestView {
                command: cmd,
                line: wire_line(cmd),
                expects_ok: expects_ok(trim(cmd)),
                reading,
                effect,
            },
        ),
    }
}

/// Decides [`expects_ok`].
pub fn needs_ok(cmd: &Vec<char>) -> (b: bool)
    ensures
        b == expects_ok(cmd@),
{
    let n = cmd.len();
    let mut k: usize = 0;
    while k < n && cmd[k] != ','
        invariant
            k <= n,
            n == cmd.len(),
            forall|i: int| 0 <= i < k ==> cmd@[i] != ',',
        decreases n - k,
    {
        k += 1;
    }
    proof {
        lemma_first_index(cmd@, ',', k as int);
        if n == 0 {
            assert(upper_text(command_name(cmd@)).len() == 0);
        } else {
            lemma_expects_ok_by_head(cmd@);
        }
    }
    if k == 1 {
        let a = upper_code(cmd[0]);
        !(a == 86 || a == 73 || a == 65)
    } else if k == 2 {
        let a = upper_code(cmd[0]);
        let b = upper_code(cmd[1]);
        !((a == 77 && b == 82) || (a == 80 && b == 73) || (a == 81 && b == 77))
    } else {
        true
    }
}

/// The code point of the upper-case form of `c`.
fn upper_code(c: char) -> (u: u32)
    ensures
        u == upper(c) as u32,
{
    let u: u32 = c as u32;
    if 97 <= u && u <= 122 {
        u - 32
    } else {
        u
    }
}

/// Frames `cmd` for the wire.
///
/// The command is refused where [`frame_fault`] says so; else the request
/// holds the line of [`wire_line`] and knows whether the reply to that line
/// ends in `OK`.
pub fn frame(connected: bool, cmd: &Vec<char>, reading: Reading, effect: Effect) -> (r: Result<
    Request,
    DeviceError,
>)
    ensures
        outcome(r) == framed(connected, cmd@, reading, effect),
{
    if cmd.len() == 0 {
        return Err(
            DeviceError::CommandError {
                command: string_of(cmd),
                message: String::from_str("command must not be empty"),
            },
        );
    }
    let mut i: usize = 0;
    while i < cmd.len()
        invariant
            i <= cmd.len(),
            cmd.len() > 0,
            forall|k: int| 0 <= k < i ==> is_sendable(#[trigger] cmd@[k]),
        decreases cmd.len() - i,
    {
        let u: u32 = cmd[i] as u32;
        if u > 0x7f || u == 10 || u == 13 {
            assert(!is_sendable(cmd@[i as int]));
            return Err(
                DeviceError::CommandError {
                    command: string_of(cmd),
                    message: String::from_str("command holds characters that are not allowed"),
                },
            );
        }
        i += 1;
    }
    let (from, to) = trim_bounds(cmd);
    if to - from > 255 {
        return Err(
            DeviceError::CommandError {
                command: string_of(cmd),
                message: String::from_str("command is longer than 256 bytes"),
            },
        );
    }
    if !connected {
        return Err(DeviceError::ConnectionError(String::from_str("device is not connected")));
    }
    let body = slice_of(cmd, from, to);
    let mut line: Vec<u8> = Vec::new();
    let mut k: usize = 0;
    while k < body.len()
        invariant
            k <= body.len(),
            body@ == cmd@.subrange(from as int, to as int),
            from <= to <= cmd.len(),
            all_sendable(cmd@),
            line@ == ascii_bytes(body@.subrange(0, k as int)),
        decreases body.len() - k,
    {
        assert(body@[k as int] == cmd@[from + k]);
        assert(is_sendable(cmd@[from + k]));
        let code: u32 = body[k] as u32;
        line.push(code as u8);
        k += 1;
        assert(line@ =~= ascii_bytes(body@.subrange(0, k as int)));
    }
    assert(body@.subrange(0, body.len() as int) =~= body@);
    line.push(13);
    Ok(
        Request {
            command: string_of(cmd),
            line,
            expects_ok: needs_ok(&body),
            reading,
            effect,
        },
    )
}

/// Whether `c` is a visible ASCII character: neither whitespace nor a
/// control character.
pub open spec fn is_plain(c: char) -> bool {
    0x21 <= c as u32 <= 0x7e
}

/// Whether `s` is made of visible ASCII characters only.
pub open spec fn all_plain(s: Seq<char>) -> bool {
    forall|i: int| 0 <= i < s.len() ==> is_plain(#[trigger] s[i])
}

/// A text of visible ASCII characters that is not empty and has at most 255
/// characters is sent as it is.
pub proof fn lemma_plain_frames(connected: bool, text: Seq<char>)
    requires
        all_plain(text),
        0 < text.len() <= 255,
    ensures
        trim(text) == text,
        wire_line(text) == ascii_bytes(text).push(13),
        frame_fault(connected, text) == if connected {
            None
        } else {
            Some(Fault::Connection("device is not connected"@))
        },
{
    assert(is_plain(text[0]));
    assert(is_plain(text.last()));
    assert(trim_start(text) == text);
    assert(trim_end(text) == text);
    assert(all_sendable(text)) by {
        assert forall|i: int| 0 <= i < text.len() implies is_sendable(#[trigger] text[i]) by {
            assert(is_plain(text[i]));
        }
    }
}

/// Joining two texts of visible ASCII characters gives another.
pub proof fn lemma_plain_join(a: Seq<char>, b: Seq<char>)
    requires
        all_plain(a),
        all_plain(b),
    ensures
        all_plain(a + b),
{
    assert forall|i: int| 0 <= i < (a + b).len() implies is_plain(#[trigger] (a + b)[i]) by {
        if i < a.len() {
            assert((a + b)[i] == a[i]);
        } else {
            assert((a + b)[i] == b[i - a.len()]);
        }
    }
}

/// The decimal notation of a number of at most eleven digits is a short text of
/// visible ASCII characters.
pub proof fn lemma_decimal_plain(n: int)
    requires
        -100_000_000_000 < n < 100_000_000_000,
    ensures
        all_plain(decimal(n)),
        1 <= decimal(n).len() <= 12,
{
    lemma_decimal_shape(n);
    lemma_decimal_short(n);
    assert forall|i: int| 0 <= i < decimal(n).len() implies is_plain(#[trigger] decimal(n)[i]) by {
        assert(is_decimal_char(decimal(n)[i]));
    }
}

/// Whether the board confirms a command can be told from its first three
/// characters: the command is one of the six without confirmation where it
/// begins with one of their names, in either case, and the name ends there
/// or at a comma.
pub proof fn lemma_expects_ok_by_head(cmd: Seq<char>)
    requires
        cmd.len() >= 1,
    ensures
        expects_ok(cmd) == !({
            let a = upper(cmd[0]);
            ||| ((a == 'V' || a == 'I' || a == 'A') && (cmd.len() == 1 || cmd[1] == ','))
            ||| (cmd.len() >= 2 && (cmd.len() == 2 || cmd[2] == ',') && {
                let b = upper(cmd[1]);
                (a == 'M' && b == 'R') || (a == 'P' && b == 'I') || (a == 'Q' && b == 'M')
            })
        }),
{
    let k = first_index(cmd, ',') as int;
    lemma_first_index_found(cmd, ',');
    let name = upper_text(command_name(cmd));
    assert(name.len() == k);
    assert(seq!['V'].len() == 1 && seq!['I'].len() == 1 && seq!['A'].len() == 1);
    assert(seq!['M', 'R'].len() == 2 && seq!['P', 'I'].len() == 2 && seq!['Q', 'M'].len() == 2);
    if k == 1 {
        let a = upper(cmd[0]);
        assert(name =~= seq![a]);
        assert(seq!['V'][0] == 'V' && seq!['I'][0] == 'I' && seq!['A'][0] == 'A');
        assert(name[0] == a);
        assert(a == 'V' ==> name =~= seq!['V']);
        assert(a == 'I' ==> name =~= seq!['I']);
        assert(a == 'A' ==> name =~= seq!['A']);
    } else if k == 2 {
        let a = upper(cmd[0]);
        let b = upper(cmd[1]);
        assert(name =~= seq![a, b]);
        assert(name[0] == a && name[1] == b);
        assert(seq!['M', 'R'][0] == 'M' && seq!['M', 'R'][1] == 'R');
        assert(seq!['P', 'I'][0] == 'P' && seq!['P', 'I'][1] == 'I');
        assert(seq!['Q', 'M'][0] == 'Q' && seq!['Q', 'M'][1] == 'M');
        assert(a == 'M' && b == 'R' ==> name =~= seq!['M', 'R']);
        assert(a == 'P' && b == 'I' ==> name =~= seq!['P', 'I']);
        assert(a == 'Q' && b == 'M' ==> name =~= seq!['Q', 'M']);
    } else {
        if cmd[0] != ',' && (cmd.len() == 1 || cmd[1] == ',') {
            lemma_first_index(cmd, ',', 1);
        }
        if cmd.len() >= 2 && cmd[0] != ',' && cmd[1] != ',' && (cmd.len() == 2 || cmd[2] == ',') {
            lemma_first_index(cmd, ',', 2);
        }
    }
}

/// What becomes of a command whose text is well-formed: the request that
/// carries it unchanged, or the refusal of a device that is not connected.
pub open spec fn sent(
    connected: bool,
    text: Seq<char>,
    expects_ok: bool,
    reading: Reading,
    effect: Effect,
) -> Result<RequestView, Fault> {
    if connected {
        Ok(
            RequestView {
                command: text,
                line: ascii_bytes(text).push(13),
                expects_ok,
                reading,
                effect,
            },
        )
    } else {
        Err(Fault::Connection("device is not connected"@))
    }
}

/// Frames a command whose text is known to be well-formed.
pub(crate) fn send(connected: bool, text: &Vec<char>, reading: Reading, effect: Effect) -> (r: Result<
    Request,
    DeviceError,
>)
    requires
        all_plain(text@),
        0 < text.len() <= 255,
    ensures
        outcome(r) == sent(connected, text@, expects_ok(text@), reading, effect),
{
    proof {
        lemma_plain_frames(connected, text@);
    }
    frame(connected, text, reading, effect)
}

/// Appends the characters of `s` to `out`.
pub fn push_str(out: &mut Vec<char>, s: &str)
    ensures
        final(out)@ == old(out)@ + s@,
{
    let chars = chars_of(s);
    let mut i: usize = 0;
    while i < chars.len()
        invariant
            i <= chars.len(),
            chars@ == s@,
            out@ == old(out)@ + chars@.subrange(0, i as int),
        decreases chars.len() - i,
    {
        out.push(chars[i]);
        i += 1;
        assert(out@ =~= old(out)@ + chars@.subrange(0, i as int));
    }
    assert(chars@.subrange(0, chars.len() as int) =~= chars@);
}

/// Whatever the command, a line that is framed is fit for the wire: it has
/// at most 256 bytes, all of them ASCII; it ends in the one carriage return
/// it holds, and it holds no line feed.
pub proof fn lemma_framed_line(connected: bool, cmd: Seq<char>, reading: Reading, effect: Effect)
    requires
        framed(connected, cmd, reading, effect) is Ok,
    ensures
        ({
            let line = framed(connected, cmd, reading, effect)->Ok_0.line;
            &&& 1 <= line.len() <= 256
            &&& line.last() == 13
            &&& forall|i: int| 0 <= i < line.len() - 1 ==> line[i] != 13
            &&& forall|i: int| 0 <= i < line.len() ==> line[i] <= 0x7f && line[i] != 10
        }),
{
    let head = trim_start(cmd);
    let body = trim(cmd);
    lemma_trim_start_is_suffix(cmd);
    lemma_trim_end_is_prefix(head);
    let line = wire_line(cmd);
    assert forall|i: int| 0 <= i < body.len() implies is_sendable(#[trigger] body[i]) by {
        let offset = cmd.len() - head.len();
        assert(body[i] == head[i]);
        assert(head[i] == cmd[offset + i]);
        assert(is_sendable(cmd[offset + i]));
    }
    assert forall|i: int| 0 <= i < line.len() - 1 implies line[i] != 13 && line[i] <= 0x7f
        && line[i] != 10 by {
        assert(is_sendable(body[i]));
        assert(line[i] == (body[i] as u32) as u8);
    }
}

} // verus!
