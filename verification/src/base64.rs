//! Standard base64 (RFC 4648 §4) for `bytesValue`: written with padding, read from either alphabet
//! with or without padding, the leniency the Protobuf JSON mapping grants a parser.

use vstd::prelude::*;
use vstd::string::StringSliceAdditionalSpecFns;
use crate::text::{decimal, str_debug, char_debug, push_char, push_str, write_decimal, debug_str, debug_char};

verus! {

/// The code of the padding symbol `=`.
pub open spec fn pad_code() -> u8 {
    61
}

/// The symbol of the 6-bit value `v` in the standard alphabet
/// `A`–`Z`, `a`–`z`, `0`–`9`, `+`, `/` (as its ASCII code).
pub open spec fn symbol(v: int) -> u8 {
    if v < 26 {
        (65 + v) as u8
    } else if v < 52 {
        (71 + v) as u8
    } else if v < 62 {
        (v - 4) as u8
    } else if v == 62 {
        43
    } else {
        47
    }
}

/// The 6-bit value of a symbol of the standard or the URL-safe alphabet (`-` for `+`, `_` for
/// `/`); -1 for any other byte.
pub open spec fn symbol_value(b: u8) -> int {
    if 65 <= b <= 90 {
        b - 65
    } else if 97 <= b <= 122 {
        b - 71
    } else if 48 <= b <= 57 {
        b + 4
    } else if b == 43 || b == 45 {
        62
    } else if b == 47 || b == 95 {
        63
    } else {
        -1
    }
}

/// The four symbols (codes) of a group of one to three bytes, `=` standing for the symbols that
/// no byte reaches.
pub open spec fn group_codes(g: Seq<u8>) -> Seq<u8> {
    let b0 = g[0] as int;
    let b1 = if g.len() > 1 { g[1] as int } else { 0 };
    let b2 = if g.len() > 2 { g[2] as int } else { 0 };
    seq![
        symbol(b0 / 4),
        symbol((b0 % 4) * 16 + b1 / 16),
        if g.len() > 1 { symbol((b1 % 16) * 4 + b2 / 64) } else { pad_code() },
        if g.len() > 2 { symbol(b2 % 64) } else { pad_code() },
    ]
}

/// The padded standard base64 of `bytes`, as symbol codes: each group of three bytes (the last
/// one possibly shorter) becomes four symbols.
pub open spec fn encode_codes(bytes: Seq<u8>) -> Seq<u8>
    decreases bytes.len(),
{
    if bytes.len() == 0 {
        seq![]
    } else if bytes.len() <= 3 {
        group_codes(bytes)
    } else {
        group_codes(bytes.take(3)) + encode_codes(bytes.skip(3))
    }
}

/// The characters of ASCII codes.
pub open spec fn chars_of(codes: Seq<u8>) -> Seq<char> {
    Seq::new(codes.len(), |i: int| codes[i] as char)
}

/// The padded standard base64 of `bytes`, as text.
pub open spec fn encode_spec(bytes: Seq<u8>) -> Seq<char> {
    chars_of(encode_codes(bytes))
}

/// How many `=` end `t`.
pub open spec fn trailing_pad(t: Seq<u8>) -> nat
    decreases t.len(),
{
    if t.len() > 0 && t.last() == pad_code() {
        1 + trailing_pad(t.drop_last())
    } else {
        0
    }
}

/// The index of the first byte of `t` that is no symbol of either alphabet.
pub open spec fn first_non_symbol(t: Seq<u8>) -> Option<int>
    decreases t.len(),
{
    if t.len() == 0 {
        None
    } else {
        let before = first_non_symbol(t.drop_last());
        if before is Some {
            before
        } else if symbol_value(t.last()) < 0 {
            Some(t.len() - 1)
        } else {
            None
        }
    }
}

/// The bytes of a run of 6-bit values: each group of four values gives three bytes, a final
/// group of three gives two and a final group of two gives one.
pub open spec fn decode_values(v: Seq<int>) -> Seq<u8>
    decreases v.len(),
{
    if v.len() < 2 {
        seq![]
    } else if v.len() == 2 {
        seq![(v[0] * 4 + v[1] / 16) as u8]
    } else if v.len() == 3 {
        seq![(v[0] * 4 + v[1] / 16) as u8, ((v[1] % 16) * 16 + v[2] / 4) as u8]
    } else {
        seq![
            (v[0] * 4 + v[1] / 16) as u8,
            ((v[1] % 16) * 16 + v[2] / 4) as u8,
            ((v[2] % 4) * 64 + v[3]) as u8,
        ] + decode_values(v.skip(4))
    }
}

/// The bits of the last value that no byte takes are zero.
pub open spec fn trailing_bits_zero(v: Seq<int>) -> bool {
    if v.len() % 4 == 2 {
        v.last() % 16 == 0
    } else if v.len() % 4 == 3 {
        v.last() % 4 == 0
    } else {
        true
    }
}

/// The 6-bit values of the symbols of `t`.
pub open spec fn values_of(t: Seq<u8>) -> Seq<int> {
    t.map_values(|b: u8| symbol_value(b))
}

/// What decoding the bytes `t` of the text `shown` gives: the bytes, or why the text is no
/// base64. The trailing `=` are set aside first; there may be none (unpadded input) or, when
/// the text's length is a multiple of four, one or two.
pub open spec fn decode_spec(t: Seq<u8>, shown: Seq<char>) -> Result<Seq<u8>, Seq<char>> {
    let pad = trailing_pad(t);
    let trimmed = t.take(t.len() - pad);
    if pad > 2 || (pad > 0 && t.len() % 4 != 0) {
        Err("not base64: misplaced padding in "@ + str_debug(shown))
    } else if trimmed.len() % 4 == 1 {
        Err("not base64: "@ + decimal(trimmed.len()) + " symbols encode no byte string"@)
    } else if first_non_symbol(trimmed) is Some {
        Err("not base64: the symbol "@ + char_debug(trimmed[first_non_symbol(trimmed)->0] as char) + " in "@ + str_debug(shown))
    } else if !trailing_bits_zero(values_of(trimmed)) {
        Err("not base64: non-zero trailing bits in "@ + str_debug(shown))
    } else {
        Ok(decode_values(values_of(trimmed)))
    }
}

/// The symbol of a 6-bit value.
fn symbol_char(v: u8) -> (c: char)
    requires
        v < 64,
    ensures
        c == symbol(v as int) as char,
{
    let code: u8 = if v < 26 {
        65 + v
    } else if v < 52 {
        71 + v
    } else if v < 62 {
        v - 4
    } else if v == 62 {
        43
    } else {
        47
    };
    code as char
}

/// Encode `bytes` in the standard alphabet with `=` padding.
pub fn encode(bytes: &[u8]) -> (s: String)
    ensures
        s@ == encode_spec(bytes@),
{
    let n = bytes.len();
    let mut out = String::new();
    let ghost mut codes: Seq<u8> = seq![];
    let mut i: usize = 0;
    assert(bytes@.skip(0) =~= bytes@);
    assert(codes + encode_codes(bytes@) =~= encode_codes(bytes@));
    assert(out@ =~= chars_of(codes));
    while i < n
        invariant
            i <= n,
            n == bytes@.len(),
            out@ == chars_of(codes),
            encode_codes(bytes@) == codes + encode_codes(bytes@.skip(i as int)),
        decreases n - i,
    {
        let ghost rest = bytes@.skip(i as int);
        let b0 = bytes[i];
        let b1: u8 = if n - i > 1 { bytes[i + 1] } else { 0 };
        let b2: u8 = if n - i > 2 { bytes[i + 2] } else { 0 };
        let s0 = b0 / 4;
        let s1 = (b0 % 4) * 16 + b1 / 16;
        let s2 = (b1 % 16) * 4 + b2 / 64;
        let s3 = b2 % 64;
        let c0 = symbol_char(s0);
        let c1 = symbol_char(s1);
        let c2 = if n - i > 1 { symbol_char(s2) } else { '=' };
        let c3 = if n - i > 2 { symbol_char(s3) } else { '=' };
        push_char(&mut out, c0);
        push_char(&mut out, c1);
        push_char(&mut out, c2);
        push_char(&mut out, c3);
        let ghost group = if rest.len() <= 3 { rest } else { rest.take(3) };
        assert(group_codes(group) == seq![
            symbol(s0 as int),
            symbol(s1 as int),
            if n - i > 1 { symbol(s2 as int) } else { pad_code() },
            if n - i > 2 { symbol(s3 as int) } else { pad_code() },
        ]);
        proof {
            let g = group_codes(group);
            assert(out@ =~= chars_of(codes + g));
            if rest.len() <= 3 {
                assert(encode_codes(rest) == g);
                assert(bytes@.skip(n as int) =~= Seq::<u8>::empty());
            } else {
                assert(rest.skip(3) =~= bytes@.skip(i + 3));
            }
            codes = codes + g;
        }
        if n - i > 3 {
            i = i + 3;
        } else {
            i = n;
        }
        assert(encode_codes(bytes@) =~= codes + encode_codes(bytes@.skip(i as int)));
    }
    assert(bytes@.skip(n as int) =~= Seq::<u8>::empty());
    assert(codes + encode_codes(bytes@.skip(n as int)) =~= codes);
    out
}

/// The 6-bit value of a symbol of either alphabet, if `b` is one.
fn value_of_symbol(b: u8) -> (r: Option<u8>)
    ensures
        match r {
            Some(v) => symbol_value(b) == v as int && v < 64,
            None => symbol_value(b) < 0,
        },
{
    if 65 <= b && b <= 90 {
        Some(b - 65)
    } else if 97 <= b && b <= 122 {
        Some(b - 71)
    } else if 48 <= b && b <= 57 {
        Some(b + 4)
    } else if b == 43 || b == 45 {
        Some(62)
    } else if b == 47 || b == 95 {
        Some(63)
    } else {
        None
    }
}

/// The 6-bit value of a byte known to be a symbol.
fn symbol_bits(b: u8) -> (v: u8)
    requires
        symbol_value(b) >= 0,
    ensures
        v as int == symbol_value(b),
        v < 64,
{
    match value_of_symbol(b) {
        Some(v) => v,
        None => 0,
    }
}

/// No first non-symbol means every byte is a symbol.
pub proof fn lemma_all_symbols(t: Seq<u8>)
    ensures
        first_non_symbol(t) is None <==> forall|i: int| 0 <= i < t.len() ==> symbol_value(#[trigger] t[i]) >= 0,
    decreases t.len(),
{
    if t.len() > 0 {
        lemma_all_symbols(t.drop_last());
        if first_non_symbol(t) is None {
            assert forall|i: int| 0 <= i < t.len() implies symbol_value(#[trigger] t[i]) >= 0 by {
                if i < t.len() - 1 {
                    assert(t.drop_last()[i] == t[i]);
                }
            }
        }
        if forall|i: int| 0 <= i < t.len() ==> symbol_value(#[trigger] t[i]) >= 0 {
            assert forall|i: int| 0 <= i < t.drop_last().len() implies symbol_value(#[trigger] t.drop_last()[i]) >= 0 by {
                assert(t.drop_last()[i] == t[i]);
            }
            assert(symbol_value(t[t.len() - 1]) >= 0);
        }
    }
}

/// The message of a refusal that quotes the text.
fn quoting_message(prefix: &str, text: &str) -> (m: String)
    ensures
        m@ == prefix@ + str_debug(text@),
{
    let mut m = String::new();
    push_str(&mut m, prefix);
    let quoted = debug_str(text);
    push_str(&mut m, quoted.as_str());
    assert(m@ =~= prefix@ + str_debug(text@));
    m
}

/// How many `=` end `bytes`.
fn count_trailing_pad(bytes: &[u8]) -> (pad: usize)
    ensures
        pad as int == trailing_pad(bytes@),
        pad <= bytes@.len(),
{
    let n = bytes.len();
    let mut pad: usize = 0;
    assert(bytes@.take(n as int) =~= bytes@);
    while pad < n && bytes[n - 1 - pad] == 61u8
        invariant
            pad <= n,
            n == bytes@.len(),
            trailing_pad(bytes@) == pad + trailing_pad(bytes@.take(n - pad)),
        decreases n - pad,
    {
        assert(bytes@.take(n - pad).drop_last() =~= bytes@.take(n - pad - 1));
        pad = pad + 1;
    }
    proof {
        let rest = bytes@.take(n - pad);
        if pad < n {
            assert(rest.last() == bytes@[n - 1 - pad]);
        }
    }
    pad
}

/// The index of the first of the first `m` bytes that is no symbol.
fn find_non_symbol(bytes: &[u8], m: usize) -> (r: Option<usize>)
    requires
        m <= bytes@.len(),
    ensures
        match r {
            Some(i) => i < m && first_non_symbol(bytes@.take(m as int)) == Some(i as int),
            None => first_non_symbol(bytes@.take(m as int)) is None,
        },
{
    let ghost trimmed = bytes@.take(m as int);
    let mut i: usize = 0;
    while i < m
        invariant
            i <= m,
            m <= bytes@.len(),
            trimmed == bytes@.take(m as int),
            first_non_symbol(trimmed.take(i as int)) is None,
        decreases m - i,
    {
        assert(trimmed.take(i + 1).drop_last() =~= trimmed.take(i as int));
        if value_of_symbol(bytes[i]).is_none() {
            proof {
                assert(trimmed.take(i + 1).last() == bytes@[i as int]);
                assert(first_non_symbol(trimmed.take(i + 1)) == Some(i as int));
                lemma_first_non_symbol_extends(trimmed, i + 1);
            }
            return Some(i);
        }
        assert(trimmed.take(i + 1).last() == bytes@[i as int]);
        i = i + 1;
    }
    assert(trimmed.take(m as int) =~= trimmed);
    None
}

/// The bytes of the first `m` symbols of `bytes`, all of them symbols.
fn decode_symbols(bytes: &[u8], m: usize) -> (out: Vec<u8>)
    requires
        m <= bytes@.len(),
        m % 4 != 1,
        forall|k: int| 0 <= k < m ==> symbol_value(#[trigger] bytes@[k]) >= 0,
    ensures
        out@ == decode_values(values_of(bytes@.take(m as int))),
{
    let ghost values = values_of(bytes@.take(m as int));
    let mut out: Vec<u8> = Vec::new();
    let mut j: usize = 0;
    assert(values.skip(0) =~= values);
    while m - j >= 4
        invariant
            j <= m,
            j % 4 == 0,
            m % 4 != 1,
            m <= bytes@.len(),
            values == values_of(bytes@.take(m as int)),
            forall|k: int| 0 <= k < m ==> symbol_value(#[trigger] bytes@[k]) >= 0,
            decode_values(values) == out@ + decode_values(values.skip(j as int)),
        decreases m - j,
    {
        let v0 = symbol_bits(bytes[j]);
        let v1 = symbol_bits(bytes[j + 1]);
        let v2 = symbol_bits(bytes[j + 2]);
        let v3 = symbol_bits(bytes[j + 3]);
        out.push(v0 * 4 + v1 / 16);
        out.push((v1 % 16) * 16 + v2 / 4);
        out.push((v2 % 4) * 64 + v3);
        proof {
            let rest = values.skip(j as int);
            assert(rest[0] == v0 as int && rest[1] == v1 as int && rest[2] == v2 as int && rest[3] == v3 as int);
            assert(rest.skip(4) =~= values.skip(j + 4));
        }
        j = j + 4;
        assert(decode_values(values) =~= out@ + decode_values(values.skip(j as int)));
    }
    if m - j >= 2 {
        let v0 = symbol_bits(bytes[j]);
        let v1 = symbol_bits(bytes[j + 1]);
        out.push(v0 * 4 + v1 / 16);
        if m - j == 3 {
            let v2 = symbol_bits(bytes[j + 2]);
            out.push((v1 % 16) * 16 + v2 / 4);
            assert(values.skip(j as int)[2] == v2 as int);
        }
        assert(values.skip(j as int)[0] == v0 as int && values.skip(j as int)[1] == v1 as int);
        assert(decode_values(values) =~= out@);
    } else {
        assert(values.skip(j as int).len() == 0);
        assert(decode_values(values) =~= out@);
    }
    out
}

/// Decode text in the standard or the URL-safe alphabet, padded or not.
///
/// Refuses a symbol outside both alphabets, padding in the wrong place and a length that no byte
/// string encodes to.
pub fn decode(text: &str) -> (r: Result<Vec<u8>, String>)
    ensures
        match r {
            Ok(v) => decode_spec(text.spec_bytes(), text@) == Ok::<Seq<u8>, Seq<char>>(v@),
            Err(e) => decode_spec(text.spec_bytes(), text@) == Err::<Seq<u8>, Seq<char>>(e@),
        },
{
    let bytes = text.as_bytes();
    let ghost t = text.spec_bytes();
    let n = bytes.len();
    let pad = count_trailing_pad(bytes);
    let m = n - pad;
    let ghost trimmed = t.take(m as int);
    if pad > 2 || (pad > 0 && n % 4 != 0) {
        return Err(quoting_message("not base64: misplaced padding in ", text));
    }
    if m % 4 == 1 {
        let mut msg = String::new();
        push_str(&mut msg, "not base64: ");
        write_decimal(&mut msg, m as u64);
        push_str(&mut msg, " symbols encode no byte string");
        assert(msg@ =~= "not base64: "@ + decimal(trimmed.len()) + " symbols encode no byte string"@);
        return Err(msg);
    }
    match find_non_symbol(bytes, m) {
        Some(i) => {
            let mut msg = String::new();
            push_str(&mut msg, "not base64: the symbol ");
            let shown = debug_char(bytes[i] as char);
            push_str(&mut msg, shown.as_str());
            push_str(&mut msg, " in ");
            let quoted = debug_str(text);
            push_str(&mut msg, quoted.as_str());
            assert(trimmed[i as int] == bytes@[i as int]);
            assert(msg@ =~= "not base64: the symbol "@ + char_debug(trimmed[i as int] as char) + " in "@ + str_debug(text@));
            return Err(msg);
        },
        None => {},
    }
    proof {
        lemma_all_symbols(trimmed);
        assert forall|k: int| 0 <= k < m implies symbol_value(#[trigger] bytes@[k]) >= 0 by {
            assert(trimmed[k] == bytes@[k]);
        }
    }
    let ghost values = values_of(trimmed);
    if m % 4 == 2 && symbol_bits(bytes[m - 1]) % 16 != 0 {
        return Err(quoting_message("not base64: non-zero trailing bits in ", text));
    }
    if m % 4 == 3 && symbol_bits(bytes[m - 1]) % 4 != 0 {
        return Err(quoting_message("not base64: non-zero trailing bits in ", text));
    }
    assert(trailing_bits_zero(values));
    Ok(decode_symbols(bytes, m))
}

/// Once a prefix has a first non-symbol, the whole sequence has the same one.
proof fn lemma_first_non_symbol_extends(t: Seq<u8>, k: int)
    requires
        0 <= k <= t.len(),
        first_non_symbol(t.take(k)) is Some,
    ensures
        first_non_symbol(t) == first_non_symbol(t.take(k)),
    decreases t.len() - k,
{
    if k == t.len() {
        assert(t.take(k) =~= t);
    } else {
        assert(t.take(k + 1).drop_last() =~= t.take(k));
        lemma_first_non_symbol_extends(t, k + 1);
    }
}

/// The 6-bit values of a group of one to three bytes: two, three or four of them.
pub open spec fn group_values(g: Seq<u8>) -> Seq<int> {
    let b0 = g[0] as int;
    let b1 = if g.len() > 1 { g[1] as int } else { 0 };
    let b2 = if g.len() > 2 { g[2] as int } else { 0 };
    seq![b0 / 4, (b0 % 4) * 16 + b1 / 16, (b1 % 16) * 4 + b2 / 64, b2 % 64].take((g.len() + 1) as int)
}

/// The 6-bit values whose symbols encode `bytes`, the padding left out.
pub open spec fn encode_values(bytes: Seq<u8>) -> Seq<int>
    decreases bytes.len(),
{
    if bytes.len() == 0 {
        seq![]
    } else if bytes.len() <= 3 {
        group_values(bytes)
    } else {
        group_values(bytes.take(3)) + encode_values(bytes.skip(3))
    }
}

/// How many `=` pad the encoding of `n` bytes.
pub open spec fn pad_count(n: nat) -> nat {
    if n % 3 == 0 {
        0
    } else {
        (3 - n % 3) as nat
    }
}

/// `n` padding symbols.
pub open spec fn pads(n: nat) -> Seq<u8> {
    Seq::new(n, |i: int| pad_code())
}

/// The symbols of 6-bit values.
pub open spec fn symbols_of(values: Seq<int>) -> Seq<u8> {
    values.map_values(|v: int| symbol(v))
}

proof fn lemma_symbol_round_trip(v: int)
    requires
        0 <= v < 64,
    ensures
        symbol_value(symbol(v)) == v,
        symbol(v) != pad_code(),
{
}

proof fn lemma_group(g: Seq<u8>)
    requires
        1 <= g.len() <= 3,
    ensures
        group_codes(g) == symbols_of(group_values(g)) + pads(pad_count(g.len())),
        decode_values(group_values(g)) == g,
        forall|k: int| 0 <= k < group_values(g).len() ==> 0 <= #[trigger] group_values(g)[k] < 64,
        trailing_bits_zero(group_values(g)),
        group_values(g).len() == g.len() + 1,
{
    let b0 = g[0] as int;
    let b1 = if g.len() > 1 { g[1] as int } else { 0 };
    let b2 = if g.len() > 2 { g[2] as int } else { 0 };
    assert((b0 / 4) * 4 + ((b0 % 4) * 16 + b1 / 16) / 16 == b0);
    assert((((b0 % 4) * 16 + b1 / 16) % 16) * 16 + ((b1 % 16) * 4 + b2 / 64) / 4 == b1);
    assert((((b1 % 16) * 4 + b2 / 64) % 4) * 64 + b2 % 64 == b2);
    assert(group_codes(g) =~= symbols_of(group_values(g)) + pads(pad_count(g.len())));
    let v = group_values(g);
    if g.len() == 1 {
        assert(decode_values(v) =~= g);
    } else if g.len() == 2 {
        assert(decode_values(v) =~= g);
    } else {
        assert(v.skip(4) =~= Seq::<int>::empty());
        assert(decode_values(v.skip(4)) == Seq::<u8>::empty());
        assert(v[0] * 4 + v[1] / 16 == b0);
        assert((v[1] % 16) * 16 + v[2] / 4 == b1);
        assert((v[2] % 4) * 64 + v[3] == b2);
        assert(decode_values(v) =~= g);
    }
}

/// Decoding a full group of four values, then the rest, is decoding them together.
proof fn lemma_decode_full_group(gv: Seq<int>, rv: Seq<int>)
    requires
        gv.len() == 4,
    ensures
        decode_values(gv + rv) == decode_values(gv) + decode_values(rv),
{
    let v = gv + rv;
    assert(v.skip(4) =~= rv);
    assert(gv.skip(4) =~= Seq::<int>::empty());
    assert(decode_values(gv.skip(4)) == Seq::<u8>::empty());
    assert(v[0] == gv[0] && v[1] == gv[1] && v[2] == gv[2] && v[3] == gv[3]);
    assert(decode_values(gv) =~= seq![
        (gv[0] * 4 + gv[1] / 16) as u8,
        ((gv[1] % 16) * 16 + gv[2] / 4) as u8,
        ((gv[2] % 4) * 64 + gv[3]) as u8,
    ]);
    assert(decode_values(v) =~= decode_values(gv) + decode_values(rv));
}

#[verifier::spinoff_prover]
proof fn lemma_encode_values(bytes: Seq<u8>)
    ensures
        encode_codes(bytes) == symbols_of(encode_values(bytes)) + pads(pad_count(bytes.len())),
        decode_values(encode_values(bytes)) == bytes,
        forall|k: int| 0 <= k < encode_values(bytes).len() ==> 0 <= #[trigger] encode_values(bytes)[k] < 64,
        trailing_bits_zero(encode_values(bytes)),
        encode_values(bytes).len() % 4 != 1,
        encode_codes(bytes).len() % 4 == 0,
    decreases bytes.len(),
{
    if bytes.len() == 0 {
        assert(encode_codes(bytes) =~= symbols_of(encode_values(bytes)) + pads(0));
    } else if bytes.len() <= 3 {
        lemma_group(bytes);
    } else {
        let g = bytes.take(3);
        let rest = bytes.skip(3);
        lemma_group(g);
        lemma_encode_values(rest);
        let gv = group_values(g);
        let rv = encode_values(rest);
        assert(pad_count(bytes.len()) == pad_count(rest.len()));
        assert(symbols_of(gv + rv) =~= symbols_of(gv) + symbols_of(rv));
        assert(pads(0) =~= Seq::<u8>::empty());
        assert(encode_codes(bytes) =~= symbols_of(encode_values(bytes)) + pads(pad_count(bytes.len())));
        let v = gv + rv;
        lemma_decode_full_group(gv, rv);
        assert(g + rest =~= bytes);
        assert forall|k: int| 0 <= k < v.len() implies 0 <= #[trigger] v[k] < 64 by {
            if k >= 4 {
                assert(v[k] == rv[k - 4]);
            }
        }
        if rv.len() > 0 {
            assert(v.last() == rv.last());
        }
    }
}

proof fn lemma_trailing_pad_of_symbols(values: Seq<int>, p: nat)
    requires
        forall|k: int| 0 <= k < values.len() ==> 0 <= #[trigger] values[k] < 64,
    ensures
        trailing_pad(symbols_of(values) + pads(p)) == p,
        (symbols_of(values) + pads(p)).take(symbols_of(values).len() as int) == symbols_of(values),
    decreases p,
{
    let x = symbols_of(values);
    if p == 0 {
        assert(x + pads(0) =~= x);
        if x.len() > 0 {
            lemma_symbol_round_trip(values.last());
        }
    } else {
        assert((x + pads(p)).drop_last() =~= x + pads((p - 1) as nat));
        lemma_trailing_pad_of_symbols(values, (p - 1) as nat);
    }
    assert((x + pads(p)).take(x.len() as int) =~= x);
}

proof fn lemma_decode_symbols(values: Seq<int>, shown: Seq<char>, extra: nat)
    requires
        forall|k: int| 0 <= k < values.len() ==> 0 <= #[trigger] values[k] < 64,
        values.len() % 4 != 1,
        trailing_bits_zero(values),
        extra <= 2,
        extra > 0 ==> (values.len() + extra) % 4 == 0,
    ensures
        decode_spec(symbols_of(values) + pads(extra), shown) == Ok::<Seq<u8>, Seq<char>>(decode_values(values)),
{
    let x = symbols_of(values);
    let t = x + pads(extra);
    lemma_trailing_pad_of_symbols(values, extra);
    assert(t.take(t.len() - extra) == x);
    assert forall|k: int| 0 <= k < x.len() implies symbol_value(#[trigger] x[k]) >= 0 by {
        lemma_symbol_round_trip(values[k]);
    }
    lemma_all_symbols(x);
    assert forall|k: int| 0 <= k < x.len() implies #[trigger] values_of(x)[k] == values[k] by {
        lemma_symbol_round_trip(values[k]);
    }
    assert(values_of(x) =~= values);
}

/// Decoding gives back what encoding was given: the padded standard base64 of `bytes`, read as
/// text, decodes to `bytes`.
pub proof fn law_decode_inverts_encode(bytes: Seq<u8>, text: &str)
    requires
        text@ == encode_spec(bytes),
    ensures
        decode_spec(text.spec_bytes(), text@) == Ok::<Seq<u8>, Seq<char>>(bytes),
{
    lemma_encode_values(bytes);
    let values = encode_values(bytes);
    let codes = encode_codes(bytes);
    lemma_ascii_text(codes, text);
    lemma_decode_symbols(values, text@, pad_count(bytes.len()));
}

/// Decoding accepts the encoding without its padding: the symbols of the padded standard base64
/// of `bytes` before the first `=`, read as text, decode to `bytes`.
pub proof fn law_decode_unpadded(bytes: Seq<u8>, text: &str)
    requires
        text@ == encode_spec(bytes).take(encode_spec(bytes).len() - pad_count(bytes.len())),
    ensures
        decode_spec(text.spec_bytes(), text@) == Ok::<Seq<u8>, Seq<char>>(bytes),
{
    lemma_encode_values(bytes);
    let values = encode_values(bytes);
    let codes = encode_codes(bytes);
    lemma_trailing_pad_of_symbols(values, pad_count(bytes.len()));
    let unpadded = symbols_of(values);
    assert(codes.take(codes.len() - pad_count(bytes.len())) == unpadded);
    assert(text@ =~= chars_of(unpadded));
    lemma_ascii_text(unpadded, text);
    assert(unpadded + pads(0) =~= unpadded);
    lemma_decode_symbols(values, text@, 0);
}

/// The URL-safe spelling of symbol codes: `-` for `+` and `_` for `/`.
pub open spec fn url_safe(codes: Seq<u8>) -> Seq<u8> {
    codes.map_values(|c: u8| if c == 43 { 45u8 } else if c == 47 { 95u8 } else { c })
}

/// Decoding reads the URL-safe alphabet too: the padded base64 of `bytes` with `-` for `+` and
/// `_` for `/`, read as text, decodes to `bytes`.
pub proof fn law_decode_url_safe(bytes: Seq<u8>, text: &str)
    requires
        text@ == chars_of(url_safe(encode_codes(bytes))),
    ensures
        decode_spec(text.spec_bytes(), text@) == Ok::<Seq<u8>, Seq<char>>(bytes),
{
    lemma_encode_values(bytes);
    let values = encode_values(bytes);
    let codes = encode_codes(bytes);
    let p = pad_count(bytes.len());
    let safe = url_safe(codes);
    lemma_ascii_text(safe, text);
    let x = symbols_of(values);
    lemma_trailing_pad_of_symbols(values, p);
    // the URL-safe text has the same padding and the same symbol values
    let safe_x = url_safe(x);
    assert(safe =~= safe_x + pads(p));
    lemma_url_safe_pad(values, p);
    assert(safe.take(safe.len() - p) =~= safe_x);
    assert forall|k: int| 0 <= k < safe_x.len() implies symbol_value(#[trigger] safe_x[k]) == values[k] by {
        lemma_symbol_round_trip(values[k]);
    }
    assert forall|k: int| 0 <= k < safe_x.len() implies symbol_value(#[trigger] safe_x[k]) >= 0 by {
        assert(symbol_value(safe_x[k]) == values[k]);
    }
    lemma_all_symbols(safe_x);
    assert(values_of(safe_x) =~= values);
}

/// The standard spelling of symbol codes: `+` for `-` and `/` for `_`.
pub open spec fn standard(codes: Seq<u8>) -> Seq<u8> {
    codes.map_values(|c: u8| if c == 45 { 43u8 } else if c == 95 { 47u8 } else { c })
}

/// The bytes of a text before its trailing `=`.
pub open spec fn unpadded(t: Seq<u8>) -> Seq<u8> {
    t.take(t.len() - trailing_pad(t))
}

/// How many `=` pad `n` symbols to a multiple of four.
pub open spec fn pad_to_four(n: nat) -> nat {
    ((4 - n % 4) % 4) as nat
}

/// The symbol of the value of a symbol is that symbol in the standard alphabet.
proof fn lemma_symbol_standard(b: u8)
    requires
        symbol_value(b) >= 0,
    ensures
        symbol(symbol_value(b)) == (if b == 45 { 43u8 } else if b == 95 { 47u8 } else { b }),
{
}

/// Decoding values that a decode accepts and encoding the bytes gives the values back; every
/// four values give three bytes, a final two one and a final three two.
proof fn lemma_values_round_trip(v: Seq<int>)
    requires
        forall|k: int| 0 <= k < v.len() ==> 0 <= #[trigger] v[k] < 64,
        v.len() % 4 != 1,
        trailing_bits_zero(v),
    ensures
        encode_values(decode_values(v)) == v,
        decode_values(v).len() == v.len() * 3 / 4,
    decreases v.len(),
{
    let d = decode_values(v);
    if v.len() == 0 {
        assert(encode_values(d) =~= v);
    } else if v.len() == 2 {
        let b0 = v[0] * 4 + v[1] / 16;
        assert(d == seq![b0 as u8]);
        assert(b0 / 4 == v[0] && b0 % 4 == v[1] / 16);
        assert((v[1] / 16) * 16 == v[1]);
        assert(encode_values(d) =~= v);
    } else if v.len() == 3 {
        let b0 = v[0] * 4 + v[1] / 16;
        let b1 = (v[1] % 16) * 16 + v[2] / 4;
        assert(d == seq![b0 as u8, b1 as u8]);
        assert(b0 / 4 == v[0] && b0 % 4 == v[1] / 16);
        assert(b1 / 16 == v[1] % 16 && b1 % 16 == v[2] / 4);
        assert((v[1] / 16) * 16 + v[1] % 16 == v[1]);
        assert((v[2] / 4) * 4 == v[2]);
        assert(encode_values(d) =~= v);
    } else {
        let rest = v.skip(4);
        if rest.len() > 0 {
            assert(rest.last() == v.last());
        }
        lemma_values_round_trip(rest);
        let b0 = v[0] * 4 + v[1] / 16;
        let b1 = (v[1] % 16) * 16 + v[2] / 4;
        let b2 = (v[2] % 4) * 64 + v[3];
        let g = seq![b0 as u8, b1 as u8, b2 as u8];
        assert(d == g + decode_values(rest));
        assert(b0 / 4 == v[0] && b0 % 4 == v[1] / 16);
        assert(b1 / 16 == v[1] % 16 && b1 % 16 == v[2] / 4);
        assert(b2 / 64 == v[2] % 4 && b2 % 64 == v[3]);
        assert((v[1] / 16) * 16 + v[1] % 16 == v[1]);
        assert((v[2] / 4) * 4 + v[2] % 4 == v[2]);
        assert(group_values(g) =~= v.take(4));
        if rest.len() == 0 {
            assert(d =~= g);
            assert(encode_values(d) =~= v);
        } else {
            assert(d.take(3) =~= g);
            assert(d.skip(3) =~= decode_values(rest));
            assert(encode_values(d) == group_values(g) + encode_values(decode_values(rest)));
            assert(encode_values(d) =~= v);
        }
    }
}

/// The standard alphabet of RFC 4648 §4: the symbol of each 6-bit value, in order.
pub open spec fn standard_alphabet() -> Seq<char> {
    seq!['A', 'B', 'C', 'D', 'E', 'F', 'G', 'H', 'I', 'J', 'K', 'L', 'M', 'N', 'O', 'P', 'Q', 'R', 'S', 'T', 'U', 'V', 'W', 'X', 'Y', 'Z', 'a', 'b', 'c', 'd', 'e', 'f', 'g', 'h', 'i', 'j', 'k', 'l', 'm', 'n', 'o', 'p', 'q', 'r', 's', 't', 'u', 'v', 'w', 'x', 'y', 'z', '0', '1', '2', '3', '4', '5', '6', '7', '8', '9', '+', '/']
}

/// The symbols are those of RFC 4648: the symbol of each 6-bit value `v` is the `v`-th
/// character of the standard alphabet `A`–`Z`, `a`–`z`, `0`–`9`, `+`, `/`; reading a symbol gives
/// its value back; the URL-safe `-` and `_` read as 62 and 63; and no other byte is a symbol.
pub proof fn law_standard_alphabet()
    ensures
        forall|v: int| 0 <= v < 64 ==> #[trigger] symbol(v) as char == standard_alphabet()[v],
        forall|v: int| 0 <= v < 64 ==> symbol_value(#[trigger] symbol(v)) == v,
        symbol_value(45) == 62,
        symbol_value(95) == 63,
        forall|b: u8| symbol_value(b) >= 0 ==> (b == 45 || b == 95 || #[trigger] symbol(symbol_value(b)) == b),
{
    let a = standard_alphabet();
    assert forall|v: int| 0 <= v < 64 implies #[trigger] symbol(v) as char == a[v] by {
        // value by value: with `v` fixed, both sides evaluate
        if v == 0 {
        } else if v == 1 {
        } else if v == 2 {
        } else if v == 3 {
        } else if v == 4 {
        } else if v == 5 {
        } else if v == 6 {
        } else if v == 7 {
        } else if v == 8 {
        } else if v == 9 {
        } else if v == 10 {
        } else if v == 11 {
        } else if v == 12 {
        } else if v == 13 {
        } else if v == 14 {
        } else if v == 15 {
        } else if v == 16 {
        } else if v == 17 {
        } else if v == 18 {
        } else if v == 19 {
        } else if v == 20 {
        } else if v == 21 {
        } else if v == 22 {
        } else if v == 23 {
        } else if v == 24 {
        } else if v == 25 {
        } else if v == 26 {
        } else if v == 27 {
        } else if v == 28 {
        } else if v == 29 {
        } else if v == 30 {
        } else if v == 31 {
        } else if v == 32 {
        } else if v == 33 {
        } else if v == 34 {
        } else if v == 35 {
        } else if v == 36 {
        } else if v == 37 {
        } else if v == 38 {
        } else if v == 39 {
        } else if v == 40 {
        } else if v == 41 {
        } else if v == 42 {
        } else if v == 43 {
        } else if v == 44 {
        } else if v == 45 {
        } else if v == 46 {
        } else if v == 47 {
        } else if v == 48 {
        } else if v == 49 {
        } else if v == 50 {
        } else if v == 51 {
        } else if v == 52 {
        } else if v == 53 {
        } else if v == 54 {
        } else if v == 55 {
        } else if v == 56 {
        } else if v == 57 {
        } else if v == 58 {
        } else if v == 59 {
        } else if v == 60 {
        } else if v == 61 {
        } else if v == 62 {
        } else {
        }
    }
    assert forall|v: int| 0 <= v < 64 implies symbol_value(#[trigger] symbol(v)) == v by {
        lemma_symbol_round_trip(v);
    }
    assert forall|b: u8| symbol_value(b) >= 0 implies (b == 45 || b == 95 || #[trigger] symbol(symbol_value(b)) == b) by {
        lemma_symbol_standard(b);
    }
}

/// Encoding gives back the canonical form of what decoding accepted: when `text` decodes to
/// `bytes`, the padded standard base64 of `bytes` is the text's symbols spelled in the standard
/// alphabet, padded with `=` to a multiple of four; and `bytes` holds three bytes for every four
/// of those symbols.
pub proof fn law_encode_inverts_decode(text: &str, bytes: Seq<u8>)
    requires
        decode_spec(text.spec_bytes(), text@) == Ok::<Seq<u8>, Seq<char>>(bytes),
    ensures
        encode_spec(bytes) == chars_of(
            standard(unpadded(text.spec_bytes())) + pads(pad_to_four(unpadded(text.spec_bytes()).len())),
        ),
        bytes.len() == unpadded(text.spec_bytes()).len() * 3 / 4,
{
    let t = text.spec_bytes();
    let trimmed = unpadded(t);
    let values = values_of(trimmed);
    lemma_all_symbols(trimmed);
    assert forall|k: int| 0 <= k < values.len() implies 0 <= #[trigger] values[k] < 64 by {
        assert(symbol_value(trimmed[k]) >= 0);
    }
    lemma_values_round_trip(values);
    lemma_encode_values(bytes);
    assert forall|k: int| 0 <= k < trimmed.len() implies #[trigger] symbols_of(values)[k] == standard(trimmed)[k] by {
        lemma_symbol_standard(trimmed[k]);
    }
    assert(symbols_of(values) =~= standard(trimmed));
    let n = trimmed.len();
    assert(pad_count(bytes.len()) == pad_to_four(n)) by {
        assert(bytes.len() == n * 3 / 4);
        assert(n % 4 != 1);
        if n % 4 == 0 {
            assert((n * 3 / 4) % 3 == 0) by (nonlinear_arith)
                requires n % 4 == 0;
        } else if n % 4 == 2 {
            assert((n * 3 / 4) % 3 == 1) by (nonlinear_arith)
                requires n % 4 == 2;
        } else {
            assert((n * 3 / 4) % 3 == 2) by (nonlinear_arith)
                requires n % 4 == 3;
        }
    }
}

/// The URL-safe symbols of 6-bit values end in no `=`, so the padding after them is all the
/// padding.
proof fn lemma_url_safe_pad(values: Seq<int>, p: nat)
    requires
        forall|k: int| 0 <= k < values.len() ==> 0 <= #[trigger] values[k] < 64,
    ensures
        trailing_pad(url_safe(symbols_of(values)) + pads(p)) == p,
    decreases p,
{
    let x = url_safe(symbols_of(values));
    if p == 0 {
        assert(x + pads(0) =~= x);
        if x.len() > 0 {
            lemma_symbol_round_trip(values.last());
        }
    } else {
        assert((x + pads(p)).drop_last() =~= x + pads((p - 1) as nat));
        lemma_url_safe_pad(values, (p - 1) as nat);
    }
}

/// The bytes of a text of ASCII symbols are their codes.
proof fn lemma_ascii_text(codes: Seq<u8>, text: &str)
    requires
        text@ == chars_of(codes),
        forall|k: int| 0 <= k < codes.len() ==> #[trigger] codes[k] < 128,
    ensures
        text.spec_bytes() == codes,
{
    assert(vstd::string::is_ascii(text));
    vstd::string::is_ascii_spec_bytes(text);
    assert(text.spec_bytes() =~= codes);
}

} // verus!
