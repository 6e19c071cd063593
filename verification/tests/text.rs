use rsaxi::decimal::{push_int, push_nat, read_i32, read_u8, render_int, render_nat};
use rsaxi::error::DeviceError;
use rsaxi::text::{blank, chars_of, split_at, string_of, trim_bounds, trimmed};
use rsaxi::wire::{frame, needs_ok, push_str, Effect, Reading};

fn chars(s: &str) -> Vec<char> {
    s.chars().collect()
}

fn text(v: Vec<char>) -> String {
    v.into_iter().collect()
}

#[test]
fn strings_and_characters_convert_both_ways() {
    assert_eq!(chars_of("a\u{e9}\u{1f600}"), vec!['a', '\u{e9}', '\u{1f600}']);
    assert_eq!(chars_of(""), Vec::<char>::new());
    assert_eq!(string_of(&vec!['o', 'k', '\r']), "ok\r");
    assert_eq!(string_of(&chars_of("gr\u{fc}n")), "gr\u{fc}n");
}

#[test]
fn blanks_are_unicode_white_space() {
    for code in 0u32..0x3100 {
        if let Some(c) = char::from_u32(code) {
            assert_eq!(blank(c), c.is_whitespace(), "U+{:04X}", code);
        }
    }
    assert!(!blank('\u{feff}'));
    assert!(!blank('\u{10ffff}'));
}

#[test]
fn trimming_matches_str_trim() {
    for s in ["", " ", "a", " a", "a ", "  a b \t", "\r\nQM,0\r\n", "\u{a0}x\u{3000}", "\u{b}\u{c}x", "   \t\n"] {
        assert_eq!(text(trimmed(&chars(s))), s.trim(), "{:?}", s);
        let (from, to) = trim_bounds(&chars(s));
        assert_eq!(text(chars(s)[from..to].to_vec()), s.trim());
    }
}

#[test]
fn splitting_matches_str_split() {
    for s in ["", ",", "a", "a,b", ",a", "a,", "a,,b", ",,", "QM,0,0,0,0", "1, 2 ,3"] {
        let fields: Vec<String> = split_at(&chars(s), ',').into_iter().map(text).collect();
        let expected: Vec<String> = s.split(',').map(|f| f.to_string()).collect();
        assert_eq!(fields, expected, "{:?}", s);
    }
}

#[test]
fn numbers_are_written_in_decimal() {
    assert_eq!(text(render_nat(0)), "0");
    assert_eq!(text(render_nat(9)), "9");
    assert_eq!(text(render_nat(10)), "10");
    assert_eq!(text(render_nat(16777215)), "16777215");
    assert_eq!(text(render_nat(u128::MAX)), u128::MAX.to_string());
    assert_eq!(text(render_int(0)), "0");
    assert_eq!(text(render_int(-1)), "-1");
    assert_eq!(text(render_int(-50)), "-50");
    assert_eq!(text(render_int(i64::MIN)), i64::MIN.to_string());
    assert_eq!(text(render_int(i64::MAX)), i64::MAX.to_string());
    let mut out = chars("x=");
    push_int(&mut out, -12);
    push_nat(&mut out, 34);
    push_str(&mut out, "!");
    assert_eq!(text(out), "x=-1234!");
}

#[test]
fn signed_numbers_are_read_as_parse_does() {
    for s in ["0", "-0", "+0", "1", "-1", "+1", "007", "-007", "2147483647", "-2147483648", "2147483648", "-2147483649", "99999999999999999999", "000000000000000000000000000001", "", "-", "+", "--1", "+-1", "1-", "1 ", " 1", "1.0", "0x10", "\u{661}", "1,2"] {
        assert_eq!(read_i32(&chars(s)), s.parse::<i32>().ok(), "{:?}", s);
    }
}

#[test]
fn bytes_are_read_as_parse_does() {
    for s in ["0", "+0", "-0", "-1", "1", "255", "256", "0255", "00000000000000000000000255", "+255", "+256", "", "-", "+", "1a", "a", " 1", "99999999999999999999999"] {
        assert_eq!(read_u8(&chars(s)), s.parse::<u8>().ok(), "{:?}", s);
    }
}

#[test]
fn rendered_numbers_read_back() {
    for n in [0i32, 1, -1, 9, 10, -10, 99, 100, 16777215, -16777215, i32::MAX, i32::MIN] {
        assert_eq!(read_i32(&render_int(n as i64)), Some(n));
    }
    for n in 0u8..=255 {
        assert_eq!(read_u8(&render_nat(n as u128)), Some(n));
    }
}

#[test]
fn confirmation_depends_on_the_name() {
    assert!(needs_ok(&chars("")));
    assert!(!needs_ok(&chars("V")));
    assert!(!needs_ok(&chars("a")));
    assert!(!needs_ok(&chars("i")));
    assert!(needs_ok(&chars("M")));
    assert!(!needs_ok(&chars("Mr")));
    assert!(!needs_ok(&chars("pI")));
    assert!(!needs_ok(&chars("qm")));
    assert!(needs_ok(&chars("QS")));
    assert!(needs_ok(&chars("{")));
    assert!(needs_ok(&chars("\u{e9}")));
    assert!(needs_ok(&chars("Vx")));
    assert!(!needs_ok(&chars("V,1")));
    assert!(needs_ok(&chars("AC,0,1")));
    assert!(needs_ok(&chars("MRS")));
    assert!(!needs_ok(&chars("pi,E,2")));
    assert!(needs_ok(&chars(",V")));
    assert!(needs_ok(&chars(" V")));
}

#[test]
fn framing_keeps_reading_and_effect() {
    let r = frame(true, &chars("TP"), Reading::Text, Effect::TogglePen).expect("request");
    assert_eq!(r.line, b"TP\r".to_vec());
    assert_eq!(r.reading, Reading::Text);
    assert_eq!(r.effect, Effect::TogglePen);
    assert_eq!(
        frame(false, &chars("TP"), Reading::Text, Effect::TogglePen),
        Err(DeviceError::ConnectionError("device is not connected".to_string()))
    );
    let r = frame(true, &chars("\u{b} x\u{c}"), Reading::Pin, Effect::Keep).expect("request");
    assert_eq!(r.line, b"x\r".to_vec());
}

#[test]
fn errors_describe_themselves() {
    assert_eq!(
        DeviceError::ConnectionError("no device found".to_string()).describe(),
        "connection error: no device found"
    );
    assert_eq!(
        DeviceError::CommandError { command: "CS".to_string(), message: "no OK".to_string() }.describe(),
        "command 'CS' failed: no OK"
    );
    assert_eq!(
        DeviceError::InvalidValue { parameter: "value".to_string(), value: "2".to_string() }.describe(),
        "invalid value for parameter value: 2"
    );
    assert_eq!(
        DeviceError::InvalidResponse("empty reply".to_string()).describe(),
        "invalid response: empty reply"
    );
}
