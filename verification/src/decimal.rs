//! Decimal numbers as the board's protocol writes and reads them.

use vstd::prelude::*;

verus! {

/// The character of the decimal digit `d`.
pub open spec fn digit_char(d: int) -> char {
    ((48 + d) as u8) as char
}

/// Whether `c` is one of `0` to `9`.
pub open spec fn is_digit(c: char) -> bool {
    48 <= c as u32 <= 57
}

/// The value of the digit `c`.
pub open spec fn digit_value(c: char) -> int {
    c as u32 - 48
}

/// The decimal notation of a natural number: no sign, no leading zero.
pub open spec fn decimal_nat(n: nat) -> Seq<char>
    decreases n,
{
    if n < 10 {
        seq![digit_char(n as int)]
    } else {
        decimal_nat(n / 10).push(digit_char((n % 10) as int))
    }
}

/// The decimal notation of an integer, with `-` in front of a negative one.
pub open spec fn decimal(n: int) -> Seq<char> {
    if n < 0 {
        seq!['-'] + decimal_nat((-n) as nat)
    } else {
        decimal_nat(n as nat)
    }
}

/// Whether `c` may occur in the decimal notation of an integer.
pub open spec fn is_decimal_char(c: char) -> bool {
    is_digit(c) || c == '-'
}

/// A decimal notation is made of digits only and is never empty.
pub proof fn lemma_decimal_nat_shape(n: nat)
    ensures
        decimal_nat(n).len() >= 1,
        forall|i: int| 0 <= i < decimal_nat(n).len() ==> is_digit(#[trigger] decimal_nat(n)[i]),
    decreases n,
{
    if n >= 10 {
        lemma_decimal_nat_shape(n / 10);
    }
}

/// Ten to the power `k`.
pub open spec fn ten_to(k: nat) -> nat
    decreases k,
{
    if k == 0 {
        1
    } else {
        10 * ten_to((k - 1) as nat)
    }
}

/// A number below `10^k` has at most `k` digits.
pub proof fn lemma_decimal_nat_len(n: nat, k: nat)
    requires
        k >= 1,
        n < ten_to(k),
    ensures
        decimal_nat(n).len() <= k,
    decreases n,
{
    reveal_with_fuel(ten_to, 3);
    if n >= 10 {
        lemma_decimal_nat_len(n / 10, (k - 1) as nat);
    }
}

/// A number of at most eleven digits, with its sign, takes at most twelve
/// characters.
pub proof fn lemma_decimal_short(n: int)
    requires
        -100_000_000_000 < n < 100_000_000_000,
    ensures
        1 <= decimal(n).len() <= 12,
{
    assert(ten_to(11) == 100_000_000_000) by {
        reveal_with_fuel(ten_to, 12);
    }
    if n < 0 {
        lemma_decimal_nat_shape((-n) as nat);
        lemma_decimal_nat_len((-n) as nat, 11);
    } else {
        lemma_decimal_nat_shape(n as nat);
        lemma_decimal_nat_len(n as nat, 11);
    }
}

/// The decimal notation of an integer is made of digits and at most one sign.
pub proof fn lemma_decimal_shape(n: int)
    ensures
        decimal(n).len() >= 1,
        forall|i: int| 0 <= i < decimal(n).len() ==> is_decimal_char(#[trigger] decimal(n)[i]),
{
    if n < 0 {
        lemma_decimal_nat_shape((-n) as nat);
    } else {
        lemma_decimal_nat_shape(n as nat);
    }
}

/// Appends the decimal notation of `n` to `out`.
pub fn push_nat(out: &mut Vec<char>, n: u128)
    ensures
        final(out)@ == old(out)@ + decimal_nat(n as nat),
    decreases n,
{
    if n >= 10 {
        push_nat(out, n / 10);
    }
    let d: u8 = (n % 10) as u8;
    out.push((48 + d) as char);
    assert(final(out)@ =~= old(out)@ + decimal_nat(n as nat));
}

/// Appends the decimal notation of `n` to `out`.
pub fn push_int(out: &mut Vec<char>, n: i64)
    ensures
        final(out)@ == old(out)@ + decimal(n as int),
{
    if n < 0 {
        out.push('-');
        let m: u128 = (-(n as i128)) as u128;
        push_nat(out, m);
        assert(final(out)@ =~= old(out)@ + decimal(n as int));
    } else {
        push_nat(out, n as u128);
    }
}

/// The decimal notation of `n`.
pub fn render_nat(n: u128) -> (out: Vec<char>)
    ensures
        out@ == decimal_nat(n as nat),
{
    let mut out: Vec<char> = Vec::new();
    push_nat(&mut out, n);
    assert(out@ =~= decimal_nat(n as nat));
    out
}

/// The decimal notation of `n`.
pub fn render_int(n: i64) -> (out: Vec<char>)
    ensures
        out@ == decimal(n as int),
{
    let mut out: Vec<char> = Vec::new();
    push_int(&mut out, n);
    assert(out@ =~= decimal(n as int));
    out
}

/// Whether every character of `s` is a decimal digit.
pub open spec fn all_digits(s: Seq<char>) -> bool {
    forall|i: int| 0 <= i < s.len() ==> is_digit(#[trigger] s[i])
}

/// The number that the digits of `s` denote, most significant first.
pub open spec fn digits_value(s: Seq<char>) -> int
    decreases s.len(),
{
    if s.len() == 0 {
        0
    } else {
        digits_value(s.drop_last()) * 10 + digit_value(s.last())
    }
}

/// The integer that `s` denotes: an optional `+` or `-`, then one or more
/// decimal digits, and nothing else. Leading zeros are accepted.
pub open spec fn parse_signed(s: Seq<char>) -> Option<int> {
    if s.len() == 0 {
        None
    } else if s[0] == '-' || s[0] == '+' {
        let body = s.drop_first();
        if body.len() > 0 && all_digits(body) {
            Some(
                if s[0] == '-' {
                    -digits_value(body)
                } else {
                    digits_value(body)
                },
            )
        } else {
            None
        }
    } else if all_digits(s) {
        Some(digits_value(s))
    } else {
        None
    }
}

/// What `str::parse::<i32>` makes of `s`: the integer it denotes, where that
/// fits a signed 32-bit number.
pub open spec fn parse_i32(s: Seq<char>) -> Option<i32> {
    match parse_signed(s) {
        Some(v) => if i32::MIN <= v <= i32::MAX {
            Some(v as i32)
        } else {
            None
        },
        None => None,
    }
}

/// What `str::parse::<u8>` makes of `s`: the number it denotes, where that
/// fits an unsigned byte. A `-` is no part of an unsigned number.
pub open spec fn parse_u8(s: Seq<char>) -> Option<u8> {
    if s.len() > 0 && s[0] == '-' {
        None
    } else {
        match parse_signed(s) {
            Some(v) => if v <= u8::MAX {
                Some(v as u8)
            } else {
                None
            },
            None => None,
        }
    }
}

/// The digits of a text denote a number that is not negative, and no less
/// than what any of its beginnings denotes.
pub proof fn lemma_digits_value_grows(s: Seq<char>, k: int)
    requires
        all_digits(s),
        0 <= k <= s.len(),
    ensures
        0 <= digits_value(s.subrange(0, k)) <= digits_value(s),
    decreases s.len(),
{
    if k == s.len() {
        assert(s.subrange(0, k) =~= s);
        if s.len() > 0 {
            lemma_digits_value_grows(s.drop_last(), k - 1);
        }
    } else {
        lemma_digits_value_grows(s.drop_last(), k);
        assert(s.drop_last().subrange(0, k) =~= s.subrange(0, k));
    }
}

/// The number that the digits of `v` from index `from` on denote, where
/// there is at least one, all of them are digits and the number is at most
/// `limit`.
pub(crate) fn parse_digits(v: &Vec<char>, from: usize, limit: u64) -> (r: Option<u64>)
    requires
        from <= v.len(),
        limit <= 0xffff_ffff_ffff,
    ensures
        ({
            let body = v@.subrange(from as int, v.len() as int);
            let readable = body.len() > 0 && all_digits(body) && digits_value(body) <= limit;
            match r {
                Some(m) => readable && m == digits_value(body),
                None => !readable,
            }
        }),
{
    let n = v.len();
    let ghost body = v@.subrange(from as int, n as int);
    if from == n {
        return None;
    }
    let mut acc: u64 = 0;
    let mut i: usize = from;
    assert(v@.subrange(from as int, from as int) =~= Seq::<char>::empty());
    while i < n
        invariant
            from <= i <= n,
            n == v.len(),
            limit <= 0xffff_ffff_ffff,
            body == v@.subrange(from as int, n as int),
            all_digits(v@.subrange(from as int, i as int)),
            acc == digits_value(v@.subrange(from as int, i as int)),
            acc <= limit,
        decreases n - i,
    {
        let u: u32 = v[i] as u32;
        if u < 48 || u > 57 {
            assert(!is_digit(body[i - from]));
            return None;
        }
        let next: u64 = acc * 10 + (u - 48) as u64;
        proof {
            let upto = v@.subrange(from as int, i as int + 1);
            assert(upto.drop_last() =~= v@.subrange(from as int, i as int));
            assert(digits_value(upto) == next);
            assert(all_digits(upto)) by {
                assert forall|k: int| 0 <= k < upto.len() implies is_digit(#[trigger] upto[k]) by {
                    if k < upto.len() - 1 {
                        assert(upto[k] == v@.subrange(from as int, i as int)[k]);
                    }
                }
            }
            if next > limit && all_digits(body) {
                lemma_digits_value_grows(body, i + 1 - from);
                assert(body.subrange(0, i + 1 - from) =~= upto);
            }
        }
        if next > limit {
            return None;
        }
        acc = next;
        i += 1;
    }
    assert(v@.subrange(from as int, n as int) =~= body);
    Some(acc)
}

/// Reads a signed 32-bit number as `str::parse::<i32>` does.
pub fn read_i32(v: &Vec<char>) -> (r: Option<i32>)
    ensures
        r == parse_i32(v@),
{
    if v.len() == 0 {
        return None;
    }
    let first = v[0];
    proof {
        assert(v@.subrange(1, v.len() as int) =~= v@.drop_first());
        assert(v@.subrange(0, v.len() as int) =~= v@);
    }
    if first == '-' {
        match parse_digits(v, 1, 0x8000_0000) {
            Some(m) => Some((-(m as i64)) as i32),
            None => None,
        }
    } else if first == '+' {
        match parse_digits(v, 1, 0x7fff_ffff) {
            Some(m) => Some(m as i32),
            None => None,
        }
    } else {
        match parse_digits(v, 0, 0x7fff_ffff) {
            Some(m) => Some(m as i32),
            None => None,
        }
    }
}

/// Reads an unsigned byte as `str::parse::<u8>` does.
pub fn read_u8(v: &Vec<char>) -> (r: Option<u8>)
    ensures
        r == parse_u8(v@),
{
    if v.len() == 0 {
        return None;
    }
    let first = v[0];
    proof {
        assert(v@.subrange(1, v.len() as int) =~= v@.drop_first());
        assert(v@.subrange(0, v.len() as int) =~= v@);
    }
    if first == '-' {
        None
    } else if first == '+' {
        match parse_digits(v, 1, 0xff) {
            Some(m) => Some(m as u8),
            None => None,
        }
    } else {
        match parse_digits(v, 0, 0xff) {
            Some(m) => Some(m as u8),
            None => None,
        }
    }
}

/// The digits of a number denote that number.
proof fn lemma_digits_round_trip(n: nat)
    ensures
        all_digits(decimal_nat(n)),
        digits_value(decimal_nat(n)) == n,
    decreases n,
{
    reveal_with_fuel(digits_value, 2);
    if n < 10 {
        assert(decimal_nat(n).drop_last() =~= Seq::<char>::empty());
    } else {
        lemma_digits_round_trip(n / 10);
        assert(decimal_nat(n).drop_last() =~= decimal_nat(n / 10));
        assert forall|i: int| 0 <= i < decimal_nat(n).len() implies is_digit(
            #[trigger] decimal_nat(n)[i],
        ) by {
            if i < decimal_nat(n).len() - 1 {
                assert(decimal_nat(n)[i] == decimal_nat(n / 10)[i]);
            }
        }
    }
}

/// What the driver writes, it reads back: the decimal notation of an
/// integer denotes that integer, and so for every signed 32-bit number and
/// every unsigned byte in their own ranges.
pub proof fn lemma_decimal_round_trip(n: int)
    ensures
        parse_signed(decimal(n)) == Some(n),
        i32::MIN <= n <= i32::MAX ==> parse_i32(decimal(n)) == Some(n as i32),
        0 <= n <= u8::MAX ==> parse_u8(decimal(n)) == Some(n as u8),
{
    if n < 0 {
        let body = decimal_nat((-n) as nat);
        lemma_digits_round_trip((-n) as nat);
        assert(decimal(n).drop_first() =~= body);
    } else {
        lemma_digits_round_trip(n as nat);
        lemma_decimal_nat_shape(n as nat);
        assert(is_digit(decimal(n)[0]));
    }
}

} // verus!
