//! Proto3 defaults: a field equal to its type's default value is left out of the encoding.

use vstd::prelude::*;
use vstd::std_specs::cmp::PartialEqSpec;

verus! {

/// Whether a value is its proto3 default and is left out of the encoding: it equals what
/// `T::default()` gives.
pub fn is_default<T: Default + PartialEq>(value: &T) -> (r: bool)
    ensures
        exists|d: T| #[trigger] call_ensures(T::default, (), d) && (T::obeys_eq_spec() ==> r == value.eq_spec(&d)),
{
    let d = T::default();
    let r = value.eq(&d);
    assert(call_ensures(T::default, (), d) && (T::obeys_eq_spec() ==> r == value.eq_spec(&d)));
    r
}

} // verus!
