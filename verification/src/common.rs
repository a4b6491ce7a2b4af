//! The messages every signal shares: `AnyValue`, `KeyValue` and the instrumentation scope.

use vstd::prelude::*;
use crate::double::Double;
use crate::error::{Invalid, Refusal};
use crate::validate::{Path, field_path, keys_refusal, matches_refusal, unique_keys, distinct_keys, lemma_keys_refusal_iff};

verus! {

/// A value of any type: an attribute value, a log body, an element of an array or a map.
///
/// A double is held by its IEEE 754 bit pattern ([`Double`]).
#[derive(Debug, PartialEq)]
pub enum AnyValue {
    /// A string.
    String(String),
    /// A boolean.
    Bool(bool),
    /// A 64-bit signed integer.
    Int(i64),
    /// A double.
    Double(Double),
    /// An array of values, possibly empty and possibly of mixed kinds.
    Array(Vec<AnyValue>),
    /// A list of key-value pairs, a map whose keys must be unique.
    KvList(Vec<KeyValue>),
    /// Raw bytes.
    Bytes(Vec<u8>),
}

/// A key and its value; the element of every attribute list and of a `kvlistValue`.
#[derive(Debug, Default, PartialEq)]
pub struct KeyValue {
    /// The key; unique within its list.
    pub key: String,
    /// The value; absent when the producer set none.
    pub value: Option<AnyValue>,
}

/// The instrumentation scope that produced a signal: a library, a module, a service.
#[derive(Clone, Debug, Default, PartialEq)]
pub struct InstrumentationScope {
    /// The name of the scope; empty means unknown.
    pub name: String,
    /// The version of the scope; empty means unknown.
    pub version: String,
    /// Attributes describing the scope; keys unique.
    pub attributes: Vec<KeyValue>,
    /// How many attributes the producer dropped.
    pub dropped_attributes_count: u32,
}

/// Whether `b` holds what `a` holds: the same kind, equal strings, bytes, booleans, integers
/// and double bits, and arrays and key-value lists of the same length whose items hold the
/// same, item by item.
pub open spec fn same_value(a: AnyValue, b: AnyValue) -> bool
    decreases a,
{
    match a {
        AnyValue::String(s) => b is String && b->String_0@ == s@,
        AnyValue::Bool(x) => b == AnyValue::Bool(x),
        AnyValue::Int(x) => b == AnyValue::Int(x),
        AnyValue::Double(d) => b is Double && b->Double_0.0 == d.0,
        AnyValue::Array(values) => {
            &&& b is Array
            &&& b->Array_0@.len() == values@.len()
            &&& forall|i: int| 0 <= i < values@.len() ==> same_value(#[trigger] values@[i], b->Array_0@[i])
        },
        AnyValue::KvList(pairs) => {
            &&& b is KvList
            &&& b->KvList_0@.len() == pairs@.len()
            &&& forall|i: int| 0 <= i < pairs@.len() ==> same_pair(#[trigger] pairs@[i], b->KvList_0@[i])
        },
        AnyValue::Bytes(x) => b is Bytes && b->Bytes_0@ == x@,
    }
}

/// Whether `q` holds what `p` holds: an equal key, and a value holding the same, or none.
pub open spec fn same_pair(p: KeyValue, q: KeyValue) -> bool
    decreases p,
{
    &&& q.key@ == p.key@
    &&& match p.value {
        Some(v) => q.value is Some && same_value(v, q.value->0),
        None => q.value is None,
    }
}

/// A copy of a value, element by element. The copy recurses on the value itself: arrays hold
/// values and key-value lists hold pairs whose values are values again, so the copy of each
/// item is a call on that item.
fn copy_value(v: &AnyValue) -> (r: AnyValue)
    ensures
        same_value(*v, r),
    decreases v,
{
    match v {
        AnyValue::String(s) => AnyValue::String(s.clone()),
        AnyValue::Bool(b) => AnyValue::Bool(*b),
        AnyValue::Int(i) => AnyValue::Int(*i),
        AnyValue::Double(d) => AnyValue::Double(*d),
        AnyValue::Array(values) => {
            let mut out: Vec<AnyValue> = Vec::new();
            for i in 0..values.len()
                invariant
                    *v == AnyValue::Array(*values),
                    out@.len() == i,
                    forall|j: int| 0 <= j < i ==> same_value(#[trigger] values@[j], out@[j]),
            {
                proof {
                    assert(decreases_to!(*v => v->Array_0));
                    assert(decreases_to!(v->Array_0 => v->Array_0@));
                    assert(decreases_to!(values@ => values@[i as int]));
                }
                out.push(copy_value(&values[i]));
            }
            AnyValue::Array(out)
        },
        AnyValue::KvList(pairs) => {
            let mut out: Vec<KeyValue> = Vec::new();
            for i in 0..pairs.len()
                invariant
                    *v == AnyValue::KvList(*pairs),
                    out@.len() == i,
                    forall|j: int| 0 <= j < i ==> same_pair(#[trigger] pairs@[j], out@[j]),
            {
                let pair = &pairs[i];
                let value = match &pair.value {
                    Some(x) => {
                        proof {
                            assert(decreases_to!(*v => v->KvList_0));
                            assert(decreases_to!(v->KvList_0 => v->KvList_0@));
                            assert(decreases_to!(pairs@ => pairs@[i as int]));
                            assert(decreases_to!(pairs@[i as int] => pairs@[i as int].value));
                            assert(decreases_to!(pairs@[i as int].value => pairs@[i as int].value->0));
                        }
                        Some(copy_value(x))
                    },
                    None => None,
                };
                out.push(KeyValue { key: pair.key.clone(), value });
            }
            AnyValue::KvList(out)
        },
        AnyValue::Bytes(b) => AnyValue::Bytes(b.clone()),
    }
}

impl Clone for AnyValue {
    /// A copy holding the same: see [`same_value`].
    fn clone(&self) -> (r: Self)
        ensures
            same_value(*self, r),
    {
        copy_value(self)
    }
}

impl Clone for KeyValue {
    /// A copy holding the same: see [`same_pair`].
    fn clone(&self) -> (r: Self)
        ensures
            same_pair(*self, r),
    {
        let value = match &self.value {
            Some(x) => Some(copy_value(x)),
            None => None,
        };
        KeyValue { key: self.key.clone(), value }
    }
}

impl vstd::std_specs::convert::FromSpecImpl<String> for AnyValue {
    open spec fn obeys_from_spec() -> bool {
        true
    }

    open spec fn from_spec(v: String) -> AnyValue {
        AnyValue::String(v)
    }
}

impl From<String> for AnyValue {
    fn from(v: String) -> (r: AnyValue)
        ensures
            r == AnyValue::String(v),
    {
        AnyValue::String(v)
    }
}

impl vstd::std_specs::convert::FromSpecImpl<bool> for AnyValue {
    open spec fn obeys_from_spec() -> bool {
        true
    }

    open spec fn from_spec(v: bool) -> AnyValue {
        AnyValue::Bool(v)
    }
}

impl From<bool> for AnyValue {
    fn from(v: bool) -> (r: AnyValue)
        ensures
            r == AnyValue::Bool(v),
    {
        AnyValue::Bool(v)
    }
}

impl vstd::std_specs::convert::FromSpecImpl<i64> for AnyValue {
    open spec fn obeys_from_spec() -> bool {
        true
    }

    open spec fn from_spec(v: i64) -> AnyValue {
        AnyValue::Int(v)
    }
}

impl From<i64> for AnyValue {
    fn from(v: i64) -> (r: AnyValue)
        ensures
            r == AnyValue::Int(v),
    {
        AnyValue::Int(v)
    }
}

impl vstd::std_specs::convert::FromSpecImpl<Vec<AnyValue>> for AnyValue {
    open spec fn obeys_from_spec() -> bool {
        true
    }

    open spec fn from_spec(v: Vec<AnyValue>) -> AnyValue {
        AnyValue::Array(v)
    }
}

impl From<Vec<AnyValue>> for AnyValue {
    fn from(v: Vec<AnyValue>) -> (r: AnyValue)
        ensures
            r == AnyValue::Array(v),
    {
        AnyValue::Array(v)
    }
}

impl vstd::std_specs::convert::FromSpecImpl<Vec<KeyValue>> for AnyValue {
    open spec fn obeys_from_spec() -> bool {
        true
    }

    open spec fn from_spec(v: Vec<KeyValue>) -> AnyValue {
        AnyValue::KvList(v)
    }
}

impl From<Vec<KeyValue>> for AnyValue {
    fn from(v: Vec<KeyValue>) -> (r: AnyValue)
        ensures
            r == AnyValue::KvList(v),
    {
        AnyValue::KvList(v)
    }
}

impl vstd::std_specs::convert::FromSpecImpl<Vec<u8>> for AnyValue {
    open spec fn obeys_from_spec() -> bool {
        true
    }

    open spec fn from_spec(v: Vec<u8>) -> AnyValue {
        AnyValue::Bytes(v)
    }
}

impl From<Vec<u8>> for AnyValue {
    fn from(v: Vec<u8>) -> (r: AnyValue)
        ensures
            r == AnyValue::Bytes(v),
    {
        AnyValue::Bytes(v)
    }
}

impl<'a> vstd::std_specs::convert::FromSpecImpl<&'a str> for AnyValue {
    /// The value from a string slice holds a new `String`, which no spec expression can name:
    /// the conversion states its result in its own `ensures` instead.
    open spec fn obeys_from_spec() -> bool {
        false
    }

    open spec fn from_spec(v: &'a str) -> AnyValue {
        arbitrary()
    }
}

impl<'a> From<&'a str> for AnyValue {
    fn from(v: &'a str) -> (r: AnyValue)
        ensures
            r matches AnyValue::String(s) && s@ == v@,
    {
        AnyValue::String(v.to_owned())
    }
}

impl KeyValue {
    /// The pair `key` = `value`.
    pub fn new<V>(key: &str, value: V) -> (kv: KeyValue)
        where
            AnyValue: From<V>,
        ensures
            kv.key@ == key@,
            exists|v: AnyValue| #[trigger] call_ensures(AnyValue::from, (value,), v) && kv.value == Some(v),
    {
        let v = AnyValue::from(value);
        KeyValue { key: key.to_owned(), value: Some(v) }
    }
}

/// Whether the scope of a group, if it has one, keeps its rule: its attribute keys are pairwise
/// distinct.
pub open spec fn scope_ok(scope: Option<InstrumentationScope>) -> bool {
    scope matches Some(s) ==> distinct_keys(s.attributes@)
}

/// The rule of a scope refuses nothing exactly when the scope keeps it.
pub proof fn lemma_scope_refusal_iff(scope: Option<InstrumentationScope>, at: Seq<char>)
    ensures
        scope_refusal(scope, at) is None <==> scope_ok(scope),
{
    if let Some(s) = scope {
        lemma_keys_refusal_iff(s.attributes@, field_path(at, "scope"@));
    }
}

/// What the rules refuse of the scope of a group at `at`: a repeated attribute key, named at
/// `at.scope`.
pub open spec fn scope_refusal(scope: Option<InstrumentationScope>, at: Seq<char>) -> Option<Refusal> {
    match scope {
        Some(s) => keys_refusal(s.attributes@, field_path(at, "scope"@)),
        None => None,
    }
}

/// The rules of the scope of a group at `at`: its attribute keys are unique.
pub fn check_scope(scope: &Option<InstrumentationScope>, at: &Path) -> (r: Result<(), Invalid>)
    ensures
        matches_refusal(r, scope_refusal(*scope, at@)),
{
    match scope {
        Some(s) => unique_keys(s.attributes.as_slice(), &at.field("scope")),
        None => Ok(()),
    }
}

} // verus!
