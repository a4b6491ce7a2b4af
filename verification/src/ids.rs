//! Trace and span identifiers: 16 and 8 bytes, hex on the wire (either case in, lowercase out).

use vstd::prelude::*;
use crate::error::{Invalid, refusal};
use crate::text::{str_debug, push_char, push_str, debug_str};

verus! {

/// Whether `c` is a hexadecimal digit, in either case.
pub open spec fn is_hex_digit(c: char) -> bool {
    ('0' <= c && c <= '9') || ('a' <= c && c <= 'f') || ('A' <= c && c <= 'F')
}

/// The value of a hexadecimal digit.
pub open spec fn hex_value(c: char) -> int {
    if '0' <= c && c <= '9' {
        c as int - 48
    } else if 'a' <= c && c <= 'f' {
        c as int - 87
    } else {
        c as int - 55
    }
}

/// The lowercase hexadecimal digit of `v`, for `0 <= v < 16`.
pub open spec fn lower_hex_digit(v: int) -> char {
    if v < 10 {
        (v + 48) as char
    } else {
        (v + 87) as char
    }
}

/// The bytes that pairs of hexadecimal digits spell, the high half first.
pub open spec fn hex_bytes(text: Seq<char>) -> Seq<u8> {
    Seq::new(text.len() / 2, |i: int| (hex_value(text[2 * i]) * 16 + hex_value(text[2 * i + 1])) as u8)
}

/// The bytes `text` spells as exactly `2 * n` hexadecimal digits, if it does.
pub open spec fn parse_hex(text: Seq<char>, n: nat) -> Option<Seq<u8>> {
    if text.len() == 2 * n && forall|i: int| 0 <= i < text.len() ==> is_hex_digit(#[trigger] text[i]) {
        Some(hex_bytes(text))
    } else {
        None
    }
}

/// The lowercase hexadecimal text of `bytes`, two digits a byte.
pub open spec fn hex_text(bytes: Seq<u8>) -> Seq<char> {
    Seq::new(2 * bytes.len(), |i: int|
        if i % 2 == 0 {
            lower_hex_digit(bytes[i / 2] as int / 16)
        } else {
            lower_hex_digit(bytes[i / 2] as int % 16)
        })
}

/// Whether every byte is zero.
pub open spec fn all_zero(bytes: Seq<u8>) -> bool {
    forall|i: int| 0 <= i < bytes.len() ==> bytes[i] == 0
}

/// `t` with its lowercase ASCII letters made uppercase.
pub open spec fn ascii_uppercase(t: Seq<char>) -> Seq<char> {
    t.map_values(|c: char| if 'a' <= c && c <= 'z' { ((c as int) - 32) as char } else { c })
}

/// The lowercase hexadecimal digits, in order of value.
pub open spec fn hex_digits() -> Seq<char> {
    seq!['0', '1', '2', '3', '4', '5', '6', '7', '8', '9', 'a', 'b', 'c', 'd', 'e', 'f']
}

/// Hex digits are the usual ones: the digit written for each value `v < 16` is the `v`-th of
/// `0123456789abcdef`, and a digit is read, in either case, as its place in that list.
pub proof fn law_hex_digits()
    ensures
        forall|v: int| 0 <= v < 16 ==> #[trigger] lower_hex_digit(v) == hex_digits()[v],
        forall|v: int| 0 <= v < 16 ==> hex_value(#[trigger] hex_digits()[v]) == v,
        forall|v: int| 10 <= v < 16 ==> hex_value(#[trigger] ascii_upper(hex_digits()[v])) == v,
        forall|c: char| #[trigger] is_hex_digit(c) <==> (exists|v: int| 0 <= v < 16 && (c == hex_digits()[v] || c == ascii_upper(hex_digits()[v]))),
{
    let d = hex_digits();
    assert forall|v: int| 0 <= v < 16 implies #[trigger] lower_hex_digit(v) == d[v] && hex_value(d[v]) == v
        && (10 <= v ==> hex_value(ascii_upper(d[v])) == v) by {
        // digit by digit: with `v` fixed, both sides evaluate
        if v == 0 {
        } else if v == 1 {
        } else if v == 2 {
        } else if v == 3 {
        } else if v == 4 {
        } else if v == 5 {
        } else if v == 6 {
        } else if v == 7 {
        } else if v == 8 {
        } else if v == 9 {
        } else if v == 10 {
        } else if v == 11 {
        } else if v == 12 {
        } else if v == 13 {
        } else if v == 14 {
        } else {
        }
    }
    assert forall|c: char| #[trigger] is_hex_digit(c) implies (exists|v: int| 0 <= v < 16 && (c == d[v] || c == ascii_upper(d[v]))) by {
        let v = hex_value(c);
        assert(lower_hex_digit(v) == d[v]);
        if 'A' <= c && c <= 'F' {
            assert(ascii_upper(d[v]) == c);
        } else {
            assert(d[v] == c);
        }
    }
    assert forall|c: char| (exists|v: int| 0 <= v < 16 && (c == d[v] || c == ascii_upper(d[v]))) implies #[trigger] is_hex_digit(c) by {
        let v = choose|v: int| 0 <= v < 16 && (c == d[v] || c == ascii_upper(d[v]));
        assert(lower_hex_digit(v) == d[v]);
    }
}

/// The uppercase form of an ASCII letter; any other character as it is.
pub open spec fn ascii_upper(c: char) -> char {
    if 'a' <= c && c <= 'z' { ((c as int) - 32) as char } else { c }
}

proof fn lemma_lower_hex_digit(v: int)
    requires
        0 <= v < 16,
    ensures
        is_hex_digit(lower_hex_digit(v)),
        hex_value(lower_hex_digit(v)) == v,
{
}

/// Hex text reads back as the bytes it was written from: the lowercase hex of any bytes, parsed
/// as that many bytes, is those bytes.
pub proof fn law_hex_round_trip(bytes: Seq<u8>)
    ensures
        parse_hex(hex_text(bytes), bytes.len()) == Some(bytes),
{
    let t = hex_text(bytes);
    assert forall|i: int| 0 <= i < t.len() implies is_hex_digit(#[trigger] t[i]) by {
        if i % 2 == 0 {
            lemma_lower_hex_digit(bytes[i / 2] as int / 16);
        } else {
            lemma_lower_hex_digit(bytes[i / 2] as int % 16);
        }
    }
    assert forall|i: int| 0 <= i < bytes.len() implies #[trigger] hex_bytes(t)[i] == bytes[i] by {
        lemma_lower_hex_digit(bytes[i] as int / 16);
        lemma_lower_hex_digit(bytes[i] as int % 16);
        assert((2 * i) / 2 == i);
        assert((2 * i + 1) / 2 == i);
        assert(t[2 * i] == lower_hex_digit(bytes[i] as int / 16));
        assert(t[2 * i + 1] == lower_hex_digit(bytes[i] as int % 16));
    }
    assert(hex_bytes(t) =~= bytes);
}

/// A trace id written as hex reads back as itself: `TraceId::from_hex(&id.to_hex())` is
/// `Ok(id)`.
pub proof fn law_trace_id_hex_round_trip(id: TraceId)
    ensures
        parse_hex(hex_text(id@), 16) == Some(id@),
{
    law_hex_round_trip(id@);
}

/// A span id written as hex reads back as itself: `SpanId::from_hex(&id.to_hex())` is
/// `Ok(id)`.
pub proof fn law_span_id_hex_round_trip(id: SpanId)
    ensures
        parse_hex(hex_text(id@), 8) == Some(id@),
{
    law_hex_round_trip(id@);
}

/// Hex is read in either case: making the letters of a text uppercase does not change what it
/// parses to.
pub proof fn law_hex_either_case(text: Seq<char>, n: nat)
    ensures
        parse_hex(ascii_uppercase(text), n) == parse_hex(text, n),
{
    let u = ascii_uppercase(text);
    assert forall|i: int| 0 <= i < text.len() implies (is_hex_digit(#[trigger] u[i]) <==> is_hex_digit(text[i]))
        && (is_hex_digit(text[i]) ==> hex_value(u[i]) == hex_value(text[i])) by {
    }
    if parse_hex(text, n) is Some {
        assert forall|i: int| 0 <= i < u.len() implies is_hex_digit(#[trigger] u[i]) by {
            assert(is_hex_digit(text[i]));
        }
        assert(hex_bytes(u) =~= hex_bytes(text));
    }
    if parse_hex(u, n) is Some {
        assert forall|i: int| 0 <= i < text.len() implies is_hex_digit(#[trigger] text[i]) by {
            assert(is_hex_digit(u[i]));
        }
    }
}

/// The value of a hexadecimal digit, if the byte is one.
pub fn hex_digit(byte: u8) -> (r: Option<u8>)
    ensures
        match r {
            Some(v) => is_hex_digit(byte as char) && v as int == hex_value(byte as char) && v < 16,
            None => !is_hex_digit(byte as char),
        },
{
    if 48 <= byte && byte <= 57 {
        Some(byte - 48)
    } else if 97 <= byte && byte <= 102 {
        Some(byte - 87)
    } else if 65 <= byte && byte <= 70 {
        Some(byte - 55)
    } else {
        None
    }
}

/// The bytes `text` spells as exactly `2 * n` hexadecimal digits.
fn hex_to_bytes(text: &str, n: usize) -> (r: Option<Vec<u8>>)
    requires
        n <= 16,
    ensures
        match r {
            Some(v) => parse_hex(text@, n as nat) == Some(v@),
            None => parse_hex(text@, n as nat) is None,
        },
{
    let bytes = text.as_bytes();
    if bytes.len() != 2 * n || !text.is_ascii() {
        proof {
            if text@.len() == 2 * n && forall|i: int| 0 <= i < text@.len() ==> is_hex_digit(#[trigger] text@[i]) {
                assert(vstd::string::is_ascii(text)) by {
                    assert forall|i: int| 0 <= i < text@.len() implies '\0' <= #[trigger] text@[i] <= '\u{7f}' by {
                        assert(is_hex_digit(text@[i]));
                    }
                }
                vstd::string::is_ascii_spec_bytes(text);
            }
        }
        return None;
    }
    proof {
        vstd::string::is_ascii_spec_bytes(text);
    }
    assert(bytes@.len() == text@.len());
    let mut out: Vec<u8> = Vec::new();
    let mut i: usize = 0;
    while i < n
        invariant
            i <= n,
            n <= 16,
            bytes@.len() == 2 * n,
            text@.len() == 2 * n,
            forall|k: int| 0 <= k < bytes@.len() ==> #[trigger] bytes@[k] == text@[k] as u8,
            forall|k: int| 0 <= k < bytes@.len() ==> '\0' <= #[trigger] text@[k] <= '\u{7f}',
            forall|k: int| 0 <= k < 2 * i ==> is_hex_digit(#[trigger] text@[k]),
            out@ == hex_bytes(text@).take(i as int),
        decreases n - i,
    {
        let a = bytes[2 * i];
        let b = bytes[2 * i + 1];
        assert(text@[2 * i as int] == a as char);
        assert(text@[2 * i + 1] == b as char);
        match (hex_digit(a), hex_digit(b)) {
            (Some(hi), Some(lo)) => {
                out.push(hi * 16 + lo);
                proof {
                    assert forall|k: int| 0 <= k < 2 * (i + 1) implies is_hex_digit(#[trigger] text@[k]) by {
                        if k >= 2 * i {
                            assert(k == 2 * i || k == 2 * i + 1);
                        }
                    }
                }
                assert(out@ =~= hex_bytes(text@).take(i + 1));
            },
            _ => {
                return None;
            },
        }
        i = i + 1;
    }
    assert(out@ =~= hex_bytes(text@));
    Some(out)
}

/// The message of an identifier that is not hex of the right length.
fn hex_refusal(field: &str, expected: &str, text: &str) -> (r: Invalid)
    ensures
        r@ == refusal(field@, expected@ + str_debug(text@)),
{
    let mut reason = String::new();
    push_str(&mut reason, expected);
    let quoted = debug_str(text);
    push_str(&mut reason, quoted.as_str());
    Invalid { at: field.to_owned(), reason, value: None }
}

/// Appends the lowercase hex of `bytes`.
fn write_hex(out: &mut String, bytes: &[u8])
    ensures
        final(out)@ == old(out)@ + hex_text(bytes@),
{
    let ghost start = out@;
    for i in 0..bytes.len()
        invariant
            out@ == start + hex_text(bytes@.take(i as int)),
    {
        let b = bytes[i];
        let hi = b / 16;
        let lo = b % 16;
        push_char(out, if hi < 10 { (hi + 48) as char } else { (hi + 87) as char });
        push_char(out, if lo < 10 { (lo + 48) as char } else { (lo + 87) as char });
        assert(hex_text(bytes@.take(i + 1)) =~= hex_text(bytes@.take(i as int)).push(lower_hex_digit(b as int / 16)).push(lower_hex_digit(b as int % 16)));
    }
    assert(bytes@.take(bytes@.len() as int) =~= bytes@);
}

/// The identifier of a trace: 16 bytes, 32 hexadecimal digits on the wire.
#[derive(Clone, Copy, PartialEq, Eq, Hash, PartialOrd, Ord, Default, Debug)]
pub struct TraceId([u8; 16]);

impl View for TraceId {
    type V = Seq<u8>;

    closed spec fn view(&self) -> Seq<u8> {
        self.0@
    }
}

/// An identifier always holds 16 bytes.
pub broadcast proof fn lemma_trace_id_len(id: TraceId)
    ensures
        #[trigger] id@.len() == 16,
{
}

impl TraceId {
    /// The number of bytes of the identifier.
    pub const LEN: usize = 16;

    /// The identifier over these bytes; all zeros is the invalid identifier the protocol
    /// describes and [`is_zero`](Self::is_zero) reports it.
    pub fn new(bytes: [u8; 16]) -> (id: Self)
        ensures
            id@ == bytes@,
    {
        TraceId(bytes)
    }

    /// The identifier written as hex, in either case, exactly the right number of digits.
    pub fn from_hex(text: &str) -> (r: Result<Self, Invalid>)
        ensures
            match r {
                Ok(id) => parse_hex(text@, 16) == Some(id@),
                Err(e) => parse_hex(text@, 16) is None
                    && e@ == refusal("traceId"@, "expected 32 hexadecimal digits, got "@ + str_debug(text@)),
            },
    {
        match hex_to_bytes(text, 16) {
            Some(v) => {
                let mut bytes = [0u8; 16];
                for i in 0..16
                    invariant
                        v@.len() == 16,
                        forall|k: int| 0 <= k < i ==> bytes@[k] == v@[k],
                {
                    bytes[i] = v[i];
                }
                assert(bytes@ =~= v@);
                Ok(TraceId(bytes))
            },
            None => Err(hex_refusal("traceId", "expected 32 hexadecimal digits, got ", text)),
        }
    }

    /// The bytes of the identifier.
    pub fn as_bytes(&self) -> (b: &[u8; 16])
        ensures
            b@ == self@,
    {
        &self.0
    }

    /// Whether every byte is zero: the protocol calls such an identifier invalid.
    pub fn is_zero(&self) -> (r: bool)
        ensures
            r == all_zero(self@),
    {
        for i in 0..16
            invariant
                forall|k: int| 0 <= k < i ==> self@[k] == 0,
        {
            if self.0[i] != 0 {
                return false;
            }
        }
        true
    }

    /// The identifier as lowercase hex, the way this crate writes it.
    pub fn to_hex(&self) -> (s: String)
        ensures
            s@ == hex_text(self@),
    {
        let mut s = String::new();
        write_hex(&mut s, self.0.as_slice());
        assert(s@ =~= hex_text(self@));
        s
    }

    /// The identifier as lowercase hex; the same text as [`to_hex`](Self::to_hex).
    pub fn to_string(&self) -> (s: String)
        ensures
            s@ == hex_text(self@),
    {
        self.to_hex()
    }

    /// The identifier for reading in a log: `TraceId(` and its hex and `)`.
    pub fn debug_text(&self) -> (s: String)
        ensures
            s@ == "TraceId("@ + hex_text(self@) + ")"@,
    {
        let mut s = String::new();
        push_str(&mut s, "TraceId(");
        write_hex(&mut s, self.0.as_slice());
        push_str(&mut s, ")");
        s
    }
}

impl vstd::std_specs::convert::FromSpecImpl<[u8; 16]> for TraceId {
    open spec fn obeys_from_spec() -> bool {
        true
    }

    closed spec fn from_spec(bytes: [u8; 16]) -> Self {
        TraceId(bytes)
    }
}

impl From<[u8; 16]> for TraceId {
    fn from(bytes: [u8; 16]) -> (id: Self)
        ensures
            id@ == bytes@,
    {
        TraceId(bytes)
    }
}

impl std::str::FromStr for TraceId {
    type Err = Invalid;

    fn from_str(text: &str) -> (r: Result<Self, Invalid>)
        ensures
            match r {
                Ok(id) => parse_hex(text@, 16) == Some(id@),
                Err(e) => parse_hex(text@, 16) is None
                    && e@ == refusal("traceId"@, "expected 32 hexadecimal digits, got "@ + str_debug(text@)),
            },
    {
        Self::from_hex(text)
    }
}

/// The identifier of a span within its trace: 8 bytes, 16 hexadecimal digits on the wire.
#[derive(Clone, Copy, PartialEq, Eq, Hash, PartialOrd, Ord, Default, Debug)]
pub struct SpanId([u8; 8]);

impl View for SpanId {
    type V = Seq<u8>;

    closed spec fn view(&self) -> Seq<u8> {
        self.0@
    }
}

/// An identifier always holds 8 bytes.
pub broadcast proof fn lemma_span_id_len(id: SpanId)
    ensures
        #[trigger] id@.len() == 8,
{
}

impl SpanId {
    /// The number of bytes of the identifier.
    pub const LEN: usize = 8;

    /// The identifier over these bytes; all zeros is the invalid identifier the protocol
    /// describes and [`is_zero`](Self::is_zero) reports it.
    pub fn new(bytes: [u8; 8]) -> (id: Self)
        ensures
            id@ == bytes@,
    {
        SpanId(bytes)
    }

    /// The identifier written as hex, in either case, exactly the right number of digits.
    pub fn from_hex(text: &str) -> (r: Result<Self, Invalid>)
        ensures
            match r {
                Ok(id) => parse_hex(text@, 8) == Some(id@),
                Err(e) => parse_hex(text@, 8) is None
                    && e@ == refusal("spanId"@, "expected 16 hexadecimal digits, got "@ + str_debug(text@)),
            },
    {
        match hex_to_bytes(text, 8) {
            Some(v) => {
                let mut bytes = [0u8; 8];
                for i in 0..8
                    invariant
                        v@.len() == 8,
                        forall|k: int| 0 <= k < i ==> bytes@[k] == v@[k],
                {
                    bytes[i] = v[i];
                }
                assert(bytes@ =~= v@);
                Ok(SpanId(bytes))
            },
            None => Err(hex_refusal("spanId", "expected 16 hexadecimal digits, got ", text)),
        }
    }

    /// The bytes of the identifier.
    pub fn as_bytes(&self) -> (b: &[u8; 8])
        ensures
            b@ == self@,
    {
        &self.0
    }

    /// Whether every byte is zero: the protocol calls such an identifier invalid.
    pub fn is_zero(&self) -> (r: bool)
        ensures
            r == all_zero(self@),
    {
        for i in 0..8
            invariant
                forall|k: int| 0 <= k < i ==> self@[k] == 0,
        {
            if self.0[i] != 0 {
                return false;
            }
        }
        true
    }

    /// The identifier as lowercase hex, the way this crate writes it.
    pub fn to_hex(&self) -> (s: String)
        ensures
            s@ == hex_text(self@),
    {
        let mut s = String::new();
        write_hex(&mut s, self.0.as_slice());
        assert(s@ =~= hex_text(self@));
        s
    }

    /// The identifier as lowercase hex; the same text as [`to_hex`](Self::to_hex).
    pub fn to_string(&self) -> (s: String)
        ensures
            s@ == hex_text(self@),
    {
        self.to_hex()
    }

    /// The identifier for reading in a log: `SpanId(` and its hex and `)`.
    pub fn debug_text(&self) -> (s: String)
        ensures
            s@ == "SpanId("@ + hex_text(self@) + ")"@,
    {
        let mut s = String::new();
        push_str(&mut s, "SpanId(");
        write_hex(&mut s, self.0.as_slice());
        push_str(&mut s, ")");
        s
    }
}

impl vstd::std_specs::convert::FromSpecImpl<[u8; 8]> for SpanId {
    open spec fn obeys_from_spec() -> bool {
        true
    }

    closed spec fn from_spec(bytes: [u8; 8]) -> Self {
        SpanId(bytes)
    }
}

impl From<[u8; 8]> for SpanId {
    fn from(bytes: [u8; 8]) -> (id: Self)
        ensures
            id@ == bytes@,
    {
        SpanId(bytes)
    }
}

impl std::str::FromStr for SpanId {
    type Err = Invalid;

    fn from_str(text: &str) -> (r: Result<Self, Invalid>)
        ensures
            match r {
                Ok(id) => parse_hex(text@, 8) == Some(id@),
                Err(e) => parse_hex(text@, 8) is None
                    && e@ == refusal("spanId"@, "expected 16 hexadecimal digits, got "@ + str_debug(text@)),
            },
    {
        Self::from_hex(text)
    }
}

} // verus!
