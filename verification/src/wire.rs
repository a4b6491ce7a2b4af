//! The pieces of the JSON mapping that are computations on text: 64-bit integers are written as
//! decimal strings and read from decimal strings or JSON numbers, and a value equal to its
//! proto3 default is left out of the encoding.

use vstd::prelude::*;
use vstd::string::StringSliceAdditionalSpecFns;
use crate::text::{digit_char, decimal, signed_decimal, str_debug, push_str, debug_str, signed_decimal_text, decimal_text};

verus! {

/// Whether `c` is an ASCII decimal digit.
pub open spec fn is_digit(c: char) -> bool {
    '0' <= c && c <= '9'
}

/// The value of a run of decimal digits.
pub open spec fn digits_value(d: Seq<char>) -> int
    decreases d.len(),
{
    if d.len() == 0 {
        0
    } else {
        digits_value(d.drop_last()) * 10 + (d.last() as int - 48)
    }
}

/// Whether `d` is a non-empty run of decimal digits.
pub open spec fn all_digits(d: Seq<char>) -> bool {
    d.len() > 0 && forall|i: int| 0 <= i < d.len() ==> is_digit(#[trigger] d[i])
}

/// The integer a text spells as `str::parse` reads unsigned integers: an optional `+`, then one
/// or more decimal digits, nothing else.
pub open spec fn parse_unsigned(text: Seq<char>) -> Option<int> {
    let d = if text.len() > 0 && text[0] == '+' { text.drop_first() } else { text };
    if all_digits(d) {
        Some(digits_value(d))
    } else {
        None
    }
}

/// The integer a text spells as `str::parse` reads signed integers: an optional `+` or `-`, then
/// one or more decimal digits, nothing else.
pub open spec fn parse_signed(text: Seq<char>) -> Option<int> {
    if text.len() > 0 && text[0] == '-' {
        if all_digits(text.drop_first()) {
            Some(-digits_value(text.drop_first()))
        } else {
            None
        }
    } else {
        parse_unsigned(text)
    }
}

proof fn lemma_decimal_digits(n: nat)
    ensures
        all_digits(decimal(n)),
        digits_value(decimal(n)) == n,
    decreases n,
{
    if n >= 10 {
        lemma_decimal_digits(n / 10);
        let d = decimal(n);
        assert(d.drop_last() == decimal(n / 10));
        assert(d.last() as int == (n % 10) + 48);
        assert(digits_value(d) == digits_value(decimal(n / 10)) * 10 + (n % 10));
        assert forall|i: int| 0 <= i < d.len() implies is_digit(#[trigger] d[i]) by {
            if i < d.len() - 1 {
                assert(d[i] == decimal(n / 10)[i]);
            }
        }
    } else {
        assert(decimal(n).drop_last() =~= Seq::<char>::empty());
        assert(decimal(n).last() as int == n + 48);
        assert(digits_value(decimal(n).drop_last()) == 0);
        assert(digits_value(decimal(n)) == digits_value(decimal(n).drop_last()) * 10 + (n as int));
    }
}

/// The decimal digits, in order of value.
pub open spec fn decimal_digits() -> Seq<char> {
    seq!['0', '1', '2', '3', '4', '5', '6', '7', '8', '9']
}

/// Decimal digits are the usual ones: the digit written for each `d < 10` is the `d`-th of
/// `0123456789`, it reads back as `d`, and the digits are the only characters read as digits.
pub proof fn law_decimal_digits()
    ensures
        forall|d: int| 0 <= d < 10 ==> #[trigger] digit_char(d) == decimal_digits()[d],
        forall|d: int| 0 <= d < 10 ==> digits_value(seq![#[trigger] decimal_digits()[d]]) == d,
        forall|c: char| #[trigger] is_digit(c) <==> decimal_digits().contains(c),
{
    let t = decimal_digits();
    assert forall|d: int| 0 <= d < 10 implies #[trigger] digit_char(d) == t[d]
        && t[d] as int - 48 == d && is_digit(t[d]) by {
        // digit by digit: with `d` fixed, both sides evaluate
        if d == 0 {
        } else if d == 1 {
        } else if d == 2 {
        } else if d == 3 {
        } else if d == 4 {
        } else if d == 5 {
        } else if d == 6 {
        } else if d == 7 {
        } else if d == 8 {
        } else {
        }
    }
    assert forall|d: int| 0 <= d < 10 implies digits_value(seq![#[trigger] t[d]]) == d by {
        let one = seq![t[d]];
        assert(one.drop_last() =~= Seq::<char>::empty());
        assert(one.last() == t[d]);
        assert(digit_char(d) == t[d]);
        assert(digits_value(one) == digits_value(one.drop_last()) * 10 + (one.last() as int - 48));
    }
    assert forall|c: char| #[trigger] is_digit(c) <==> t.contains(c) by {
        if is_digit(c) {
            let d = c as int - 48;
            assert(digit_char(d) == t[d]);
        }
        if t.contains(c) {
            let d = choose|d: int| 0 <= d < t.len() && t[d] == c;
            assert(digit_char(d) == t[d]);
        }
    }
}

/// Decimal text reads back as the number it was written from (the 64-bit integers of the
/// mapping are written as decimal strings and read from them).
pub proof fn law_decimal_round_trip(n: nat)
    ensures
        parse_unsigned(decimal(n)) == Some(n as int),
{
    lemma_decimal_digits(n);
}

/// Signed decimal text reads back as the number it was written from.
pub proof fn law_signed_decimal_round_trip(v: int)
    ensures
        parse_signed(signed_decimal(v)) == Some(v),
{
    if v < 0 {
        lemma_decimal_digits((-v) as nat);
        assert((seq!['-'] + decimal((-v) as nat)).drop_first() =~= decimal((-v) as nat));
    } else {
        lemma_decimal_digits(v as nat);
    }
}

/// The value of the first `k` characters, which are digits, given as bytes.
fn digits_prefix_value(bytes: &[u8], start: usize, text: Ghost<Seq<char>>) -> (r: Option<u64>)
    requires
        start <= bytes@.len(),
        bytes@.len() == text@.len(),
        forall|k: int| 0 <= k < bytes@.len() ==> #[trigger] bytes@[k] == text@[k] as u8,
        forall|k: int| 0 <= k < text@.len() ==> '\0' <= #[trigger] text@[k] <= '\u{7f}',
    ensures
        match r {
            Some(v) => all_digits(text@.skip(start as int)) && digits_value(text@.skip(start as int)) == v,
            None => !all_digits(text@.skip(start as int)) || digits_value(text@.skip(start as int)) > u64::MAX,
        },
{
    let n = bytes.len();
    if start == n {
        return None;
    }
    let ghost d = text@.skip(start as int);
    let mut value: u64 = 0;
    let mut i: usize = start;
    while i < n
        invariant
            start <= i <= n,
            n == bytes@.len(),
            n == text@.len(),
            d == text@.skip(start as int),
            forall|k: int| 0 <= k < bytes@.len() ==> #[trigger] bytes@[k] == text@[k] as u8,
            forall|k: int| 0 <= k < text@.len() ==> '\0' <= #[trigger] text@[k] <= '\u{7f}',
            forall|k: int| 0 <= k < i - start ==> is_digit(#[trigger] d[k]),
            value == digits_value(d.take(i - start)),
        decreases n - i,
    {
        let b = bytes[i];
        assert(d[i - start] == text@[i as int]);
        assert(d.take(i - start + 1).drop_last() =~= d.take(i - start));
        if b < 48 || b > 57 {
            return None;
        }
        let digit = (b - 48) as u64;
        match value.checked_mul(10) {
            Some(m) => match m.checked_add(digit) {
                Some(v) => {
                    value = v;
                },
                None => {
                    proof {
                        lemma_digits_value_grows(d, i - start + 1);
                    }
                    return None;
                },
            },
            None => {
                proof {
                    lemma_digits_value_grows(d, i - start + 1);
                }
                return None;
            },
        }
        i = i + 1;
    }
    assert(d.take(n - start) =~= d);
    Some(value)
}

/// A longer run of digits is worth at least as much as its prefix.
proof fn lemma_digits_value_grows(d: Seq<char>, k: int)
    requires
        0 <= k <= d.len(),
        forall|i: int| 0 <= i < k ==> is_digit(#[trigger] d[i]),
    ensures
        all_digits(d) ==> digits_value(d.take(k)) <= digits_value(d),
    decreases d.len() - k,
{
    if k < d.len() && all_digits(d) {
        assert(d.take(k + 1).drop_last() =~= d.take(k));
        lemma_digits_value_nonneg(d.take(k));
        lemma_digits_value_grows(d, k + 1);
    } else if k == d.len() {
        assert(d.take(k) =~= d);
    }
}

proof fn lemma_digits_value_nonneg(d: Seq<char>)
    requires
        forall|i: int| 0 <= i < d.len() ==> is_digit(#[trigger] d[i]),
    ensures
        digits_value(d) >= 0,
    decreases d.len(),
{
    if d.len() > 0 {
        lemma_digits_value_nonneg(d.drop_last());
    }
}

/// The text with its bytes: ASCII text is its bytes.
proof fn lemma_ascii(text: &str)
    requires
        vstd::string::is_ascii(text),
    ensures
        forall|k: int| 0 <= k < text@.len() ==> #[trigger] text.spec_bytes()[k] == text@[k] as u8,
        text.spec_bytes().len() == text@.len(),
        forall|k: int| 0 <= k < text@.len() ==> '\0' <= #[trigger] text@[k] <= '\u{7f}',
{
    vstd::string::is_ascii_spec_bytes(text);
}

/// Read a 64-bit unsigned integer written in decimal, as `str::parse` does; the refusal quotes
/// the text.
pub fn u64_from_text(text: &str) -> (r: Result<u64, String>)
    ensures
        match r {
            Ok(v) => parse_unsigned(text@) == Some(v as int),
            Err(e) => !(parse_unsigned(text@) matches Some(v) && v <= u64::MAX)
                && e@ == str_debug(text@) + " is not a 64-bit unsigned integer"@,
        },
{
    let mut message = debug_str(text);
    push_str(&mut message, " is not a 64-bit unsigned integer");
    if !text.is_ascii() {
        proof {
            lemma_non_ascii_not_number(text@);
        }
        return Err(message);
    }
    proof {
        lemma_ascii(text);
    }
    let bytes = text.as_bytes();
    let start: usize = if bytes.len() > 0 && bytes[0] == 43 { 1 } else { 0 };
    proof {
        if text@.len() > 0 {
            assert((text@[0] == '+') == (bytes@[0] == 43));
        }
        if start == 1 {
            assert(text@.skip(1) =~= text@.drop_first());
        } else {
            assert(text@.skip(0) =~= text@);
        }
    }
    match digits_prefix_value(bytes, start, Ghost(text@)) {
        Some(v) => Ok(v),
        None => Err(message),
    }
}

/// A text with a character beyond ASCII spells no number.
proof fn lemma_non_ascii_not_number(text: Seq<char>)
    requires
        !vstd::utf8::is_ascii_chars(text),
    ensures
        parse_unsigned(text) is None,
        parse_signed(text) is None,
{
    let k = choose|k: int| 0 <= k < text.len() && !('\0' <= #[trigger] text[k] && text[k] <= '\u{7f}');
    if k > 0 {
        assert(text.drop_first()[k - 1] == text[k]);
    }
}

/// Read a 64-bit signed integer written in decimal, as `str::parse` does; the refusal quotes the
/// text.
pub fn i64_from_text(text: &str) -> (r: Result<i64, String>)
    ensures
        match r {
            Ok(v) => parse_signed(text@) == Some(v as int),
            Err(e) => !(parse_signed(text@) matches Some(v) && i64::MIN <= v <= i64::MAX)
                && e@ == str_debug(text@) + " is not a 64-bit signed integer"@,
        },
{
    let mut message = debug_str(text);
    push_str(&mut message, " is not a 64-bit signed integer");
    if !text.is_ascii() {
        proof {
            lemma_non_ascii_not_number(text@);
        }
        return Err(message);
    }
    proof {
        lemma_ascii(text);
    }
    let bytes = text.as_bytes();
    let negative = bytes.len() > 0 && bytes[0] == 45;
    let start: usize = if bytes.len() > 0 && (bytes[0] == 43 || bytes[0] == 45) { 1 } else { 0 };
    proof {
        if text@.len() > 0 {
            assert((text@[0] == '+') == (bytes@[0] == 43));
            assert((text@[0] == '-') == (bytes@[0] == 45));
        }
        if start == 1 {
            assert(text@.skip(1) =~= text@.drop_first());
        } else {
            assert(text@.skip(0) =~= text@);
        }
    }
    match digits_prefix_value(bytes, start, Ghost(text@)) {
        Some(v) => {
            if negative {
                if v <= 9223372036854775808u64 {
                    if v == 9223372036854775808u64 {
                        Ok(i64::MIN)
                    } else {
                        Ok(-(v as i64))
                    }
                } else {
                    Err(message)
                }
            } else {
                if v <= 9223372036854775807u64 {
                    Ok(v as i64)
                } else {
                    Err(message)
                }
            }
        },
        None => Err(message),
    }
}

/// A signed JSON number read into an unsigned field: refused when negative.
pub fn u64_from_i64(value: i64) -> (r: Result<u64, String>)
    ensures
        match r {
            Ok(v) => value >= 0 && v == value,
            Err(e) => value < 0 && e@ == signed_decimal(value as int) + " is negative"@,
        },
{
    if value >= 0 {
        Ok(value as u64)
    } else {
        let mut message = signed_decimal_text(value);
        push_str(&mut message, " is negative");
        Err(message)
    }
}

/// An unsigned JSON number read into a signed field: refused above `i64::MAX`.
pub fn i64_from_u64(value: u64) -> (r: Result<i64, String>)
    ensures
        match r {
            Ok(v) => value <= i64::MAX && v == value,
            Err(e) => value > i64::MAX && e@ == decimal(value as nat) + " exceeds a signed 64-bit integer"@,
        },
{
    if value <= 9223372036854775807u64 {
        Ok(value as i64)
    } else {
        let mut message = decimal_text(value);
        push_str(&mut message, " exceeds a signed 64-bit integer");
        Err(message)
    }
}

/// The refusal of a number that names no value of an integer-only enum field.
pub open spec fn unknown_value(field: Seq<char>, number: Seq<char>) -> Seq<char> {
    field + " "@ + number + " is not a known value"@
}

/// An integer-only enum read from an unsigned JSON number: the number must fit in 32 bits and be
/// one that `from_u32` knows; otherwise the refusal names the field and the number.
pub fn enum_from_u64<T, F: Fn(u32) -> Option<T>>(field: &str, value: u64, from_u32: F) -> (r: Result<T, String>)
    requires
        forall|n: u32| #[trigger] call_requires(from_u32, (n,)),
    ensures
        match r {
            Ok(t) => value <= u32::MAX && call_ensures(from_u32, (value as u32,), Some(t)),
            Err(e) => {
                &&& e@ == unknown_value(field@, decimal(value as nat))
                &&& value <= u32::MAX ==> call_ensures(from_u32, (value as u32,), None)
            },
        },
{
    if value <= 4294967295u64 {
        match from_u32(value as u32) {
            Some(t) => {
                return Ok(t);
            },
            None => {},
        }
    }
    let mut message = String::new();
    push_str(&mut message, field);
    push_str(&mut message, " ");
    let number = decimal_text(value);
    push_str(&mut message, number.as_str());
    push_str(&mut message, " is not a known value");
    assert(message@ =~= unknown_value(field@, decimal(value as nat)));
    Err(message)
}

/// An integer-only enum read from a signed JSON number: a negative number is refused like an
/// unknown one, with its sign.
pub fn enum_from_i64<T, F: Fn(u32) -> Option<T>>(field: &str, value: i64, from_u32: F) -> (r: Result<T, String>)
    requires
        forall|n: u32| #[trigger] call_requires(from_u32, (n,)),
    ensures
        match r {
            Ok(t) => 0 <= value <= u32::MAX && call_ensures(from_u32, (value as u32,), Some(t)),
            Err(e) => {
                &&& e@ == unknown_value(field@, signed_decimal(value as int))
                &&& 0 <= value <= u32::MAX ==> call_ensures(from_u32, (value as u32,), None)
            },
        },
{
    if value >= 0 {
        enum_from_u64(field, value as u64, from_u32)
    } else {
        let mut message = String::new();
        push_str(&mut message, field);
        push_str(&mut message, " ");
        let number = signed_decimal_text(value);
        push_str(&mut message, number.as_str());
        push_str(&mut message, " is not a known value");
        assert(message@ =~= unknown_value(field@, signed_decimal(value as int)));
        Err(message)
    }
}

} // verus!
