//! Doubles by their IEEE 754 bit patterns (`f64::to_bits`): the order and the equality the
//! comparison operators give them, with a NaN unordered and unequal to everything.

use vstd::prelude::*;
use vstd::std_specs::cmp::PartialEqSpecImpl;

verus! {

/// A double, by its IEEE 754 bit pattern (`f64::to_bits`). `==` compares the doubles, not the
/// bits: `-0.0` equals `0.0`, and a NaN equals nothing, itself included.
#[derive(Clone, Copy, Debug, Default)]
pub struct Double(pub u64);

/// The bit of the sign.
pub open spec fn sign_bit() -> int {
    0x8000_0000_0000_0000
}

/// Whether the bits are a NaN: all exponent bits set and a non-zero fraction.
pub open spec fn is_nan(bits: u64) -> bool {
    (bits as int) % sign_bit() > 0x7FF0_0000_0000_0000
}

/// A key that orders the non-NaN doubles as their values: the magnitude bits, negated for a
/// negative sign (so that both zeros have key 0).
pub open spec fn order_key(bits: u64) -> int {
    if bits >= sign_bit() {
        -((bits as int) % sign_bit())
    } else {
        bits as int
    }
}

/// `a < b` between the doubles with these bits.
pub open spec fn double_lt(a: u64, b: u64) -> bool {
    !is_nan(a) && !is_nan(b) && order_key(a) < order_key(b)
}

/// `a <= b` between the doubles with these bits.
pub open spec fn double_le(a: u64, b: u64) -> bool {
    !is_nan(a) && !is_nan(b) && order_key(a) <= order_key(b)
}

/// `a == b` between the doubles with these bits: equal values, the two zeros equal, a NaN
/// equal to nothing.
pub open spec fn double_eq(a: u64, b: u64) -> bool {
    !is_nan(a) && !is_nan(b) && order_key(a) == order_key(b)
}

/// The bits of `1.0`.
pub open spec fn one_bits() -> u64 {
    0x3FF0_0000_0000_0000
}

/// The bits of `0.0`.
pub open spec fn zero_bits() -> u64 {
    0
}

/// The order of doubles by their bits, as IEEE 754 has it: among non-negative doubles the larger
/// bits are the larger double, among negative ones the smaller; a negative double lies below a
/// non-negative one except that the two zeros are equal; a NaN is neither below, above nor
/// equal to anything; and `<=` is `<` or `==`.
pub proof fn law_double_order(a: u64, b: u64)
    ensures
        !is_nan(a) && !is_nan(b) && a < 0x8000_0000_0000_0000 && b < 0x8000_0000_0000_0000
            ==> (double_lt(a, b) <==> a < b),
        !is_nan(a) && !is_nan(b) && a >= 0x8000_0000_0000_0000 && b >= 0x8000_0000_0000_0000
            ==> (double_lt(a, b) <==> b < a),
        !is_nan(a) && !is_nan(b) && a >= 0x8000_0000_0000_0000 && b < 0x8000_0000_0000_0000
            ==> (double_lt(a, b) <==> !(a == 0x8000_0000_0000_0000 && b == 0)),
        a < 0x8000_0000_0000_0000 && b >= 0x8000_0000_0000_0000 ==> !double_lt(a, b),
        is_nan(a) || is_nan(b) ==> !double_lt(a, b) && !double_le(a, b) && !double_eq(a, b),
        double_le(a, b) <==> (double_lt(a, b) || double_eq(a, b)),
        double_eq(a, b) <==> (!is_nan(a) && !is_nan(b) && (a == b
            || ((a == 0 || a == 0x8000_0000_0000_0000) && (b == 0 || b == 0x8000_0000_0000_0000)))),
{
}

/// Whether the double with bits `a` is NaN.
pub fn bits_are_nan(a: u64) -> (r: bool)
    ensures
        r == is_nan(a),
{
    a % 0x8000_0000_0000_0000 > 0x7FF0_0000_0000_0000
}

/// `a < b` between the doubles with these bits: false when either is NaN.
pub fn less_than(a: u64, b: u64) -> (r: bool)
    ensures
        r == double_lt(a, b),
{
    if bits_are_nan(a) || bits_are_nan(b) {
        return false;
    }
    let ma = a % 0x8000_0000_0000_0000;
    let mb = b % 0x8000_0000_0000_0000;
    let na = a >= 0x8000_0000_0000_0000;
    let nb = b >= 0x8000_0000_0000_0000;
    if !na && !nb {
        ma < mb
    } else if na && nb {
        mb < ma
    } else if na {
        !(ma == 0 && mb == 0)
    } else {
        false
    }
}

/// `a <= b` between the doubles with these bits: false when either is NaN.
pub fn less_or_equal(a: u64, b: u64) -> (r: bool)
    ensures
        r == double_le(a, b),
{
    if bits_are_nan(a) || bits_are_nan(b) {
        return false;
    }
    !less_than(b, a)
}

/// `a == b` between the doubles with these bits: false when either is NaN.
pub fn equal(a: u64, b: u64) -> (r: bool)
    ensures
        r == double_eq(a, b),
{
    less_or_equal(a, b) && less_or_equal(b, a)
}

impl PartialEq for Double {
    fn eq(&self, other: &Self) -> (r: bool) {
        equal(self.0, other.0)
    }
}

impl PartialEqSpecImpl for Double {
    open spec fn obeys_eq_spec() -> bool {
        true
    }

    open spec fn eq_spec(&self, other: &Self) -> bool {
        double_eq(self.0, other.0)
    }
}

} // verus!
