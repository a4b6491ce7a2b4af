//! The path a refusal names, and the rule shared by every signal: attribute keys are unique.

use vstd::prelude::*;
use crate::common::KeyValue;
use crate::error::{Invalid, Refusal, refusal};
use crate::text::{decimal, str_debug, push_char, push_str, write_decimal, debug_str};

verus! {

/// Where a message sits in a payload, in the JSON mapping's own names:
/// `resourceSpans[0].scopeSpans[0].spans[2].events[1]`.
#[derive(Clone, Debug)]
pub struct Path(pub String);

impl View for Path {
    type V = Seq<char>;

    open spec fn view(&self) -> Seq<char> {
        self.0@
    }
}

/// The path of field `name` of the message at `at`: `at.name`, or `name` at the root.
pub open spec fn field_path(at: Seq<char>, name: Seq<char>) -> Seq<char> {
    if at.len() == 0 {
        name
    } else {
        at + seq!['.'] + name
    }
}

/// The path of element `index` of the repeated field `name`: `at.name[index]`.
pub open spec fn item_path(at: Seq<char>, name: Seq<char>, index: int) -> Seq<char> {
    field_path(at, name) + seq!['['] + decimal(index as nat) + seq![']']
}

/// The first refusal among `items`, in order, where `f` says what the item at an index refuses.
pub open spec fn first_refusal<T>(items: Seq<T>, f: spec_fn(int, T) -> Option<Refusal>) -> Option<Refusal>
    decreases items.len(),
{
    if items.len() == 0 {
        None
    } else {
        let before = first_refusal(items.drop_last(), f);
        if before is Some {
            before
        } else {
            f(items.len() - 1, items.last())
        }
    }
}

/// `a` if it refuses, else `b`: the order in which rules are checked.
pub open spec fn or_else(a: Option<Refusal>, b: Option<Refusal>) -> Option<Refusal> {
    if a is Some {
        a
    } else {
        b
    }
}

/// The result a check returns for the refusal its specification names.
pub open spec fn matches_refusal(r: Result<(), Invalid>, expected: Option<Refusal>) -> bool {
    match r {
        Ok(()) => expected is None,
        Err(e) => expected == Some(e@),
    }
}

/// Extending a prefix by one item extends the search for the first refusal by that item.
pub proof fn lemma_first_refusal_step<T>(items: Seq<T>, f: spec_fn(int, T) -> Option<Refusal>, i: int)
    requires
        0 <= i < items.len(),
    ensures
        first_refusal(items.take(i + 1), f) == or_else(first_refusal(items.take(i), f), f(i, items[i])),
{
    assert(items.take(i + 1).drop_last() =~= items.take(i));
}

/// A list passes a rule exactly when every item does: no first refusal means none at all.
pub proof fn law_first_refusal_none_iff_all<T>(items: Seq<T>, f: spec_fn(int, T) -> Option<Refusal>)
    ensures
        first_refusal(items, f) is None <==> forall|i: int| 0 <= i < items.len() ==> #[trigger] f(i, items[i]) is None,
    decreases items.len(),
{
    if items.len() > 0 {
        let prefix = items.drop_last();
        law_first_refusal_none_iff_all(prefix, f);
        if first_refusal(items, f) is None {
            assert forall|i: int| 0 <= i < items.len() implies #[trigger] f(i, items[i]) is None by {
                if i < items.len() - 1 {
                    assert(prefix[i] == items[i]);
                    assert(f(i, prefix[i]) is None);
                }
            }
        }
        if forall|i: int| 0 <= i < items.len() ==> #[trigger] f(i, items[i]) is None {
            assert forall|i: int| 0 <= i < prefix.len() implies #[trigger] f(i, prefix[i]) is None by {
                assert(prefix[i] == items[i]);
                assert(f(i, items[i]) is None);
            }
            assert(f(items.len() - 1, items[items.len() - 1]) is None);
        }
    }
}

/// Attribute keys are refused exactly when two of them are equal.
pub proof fn law_unique_keys_iff_distinct(attributes: Seq<KeyValue>)
    ensures
        first_duplicate_key(attributes) is None <==> forall|i: int, j: int|
            0 <= i < j < attributes.len() ==> #[trigger] attributes[i].key@ != #[trigger] attributes[j].key@,
    decreases attributes.len(),
{
    if attributes.len() > 0 {
        let prefix = attributes.drop_last();
        law_unique_keys_iff_distinct(prefix);
        let n = attributes.len();
        if first_duplicate_key(attributes) is None {
            assert forall|i: int, j: int| 0 <= i < j < n implies #[trigger] attributes[i].key@ != #[trigger] attributes[j].key@ by {
                if j < n - 1 {
                    assert(prefix[i] == attributes[i] && prefix[j] == attributes[j]);
                } else {
                    if attributes[i].key@ == attributes[j].key@ {
                        assert(attributes[i].key@ == attributes.last().key@);
                    }
                }
            }
        }
        if forall|i: int, j: int| 0 <= i < j < n ==> #[trigger] attributes[i].key@ != #[trigger] attributes[j].key@ {
            assert forall|i: int, j: int| 0 <= i < j < prefix.len() implies #[trigger] prefix[i].key@ != #[trigger] prefix[j].key@ by {
                assert(prefix[i] == attributes[i] && prefix[j] == attributes[j]);
                assert(attributes[i].key@ != attributes[j].key@);
            }
            assert(!exists|i: int| 0 <= i < n - 1 && #[trigger] attributes[i].key@ == attributes.last().key@) by {
                assert forall|i: int| 0 <= i < n - 1 implies #[trigger] attributes[i].key@ != attributes.last().key@ by {
                    assert(attributes[i].key@ != attributes[n - 1].key@);
                }
            }
        }
    }
}

/// Whether the keys of `attributes` are pairwise distinct.
pub open spec fn distinct_keys(attributes: Seq<KeyValue>) -> bool {
    forall|i: int, j: int|
        0 <= i < j < attributes.len() ==> #[trigger] attributes[i].key@ != #[trigger] attributes[j].key@
}

/// The rule of unique keys refuses nothing exactly when the keys are pairwise distinct.
pub proof fn lemma_keys_refusal_iff(attributes: Seq<KeyValue>, at: Seq<char>)
    ensures
        keys_refusal(attributes, at) is None <==> distinct_keys(attributes),
{
    law_unique_keys_iff_distinct(attributes);
}

/// A list passes a rule exactly when every item meets the condition the rule checks.
pub proof fn lemma_first_refusal_iff<T>(
    items: Seq<T>,
    f: spec_fn(int, T) -> Option<Refusal>,
    ok: spec_fn(T) -> bool,
)
    requires
        forall|i: int| 0 <= i < items.len() ==> (#[trigger] f(i, items[i]) is None <==> ok(items[i])),
    ensures
        first_refusal(items, f) is None <==> forall|i: int| 0 <= i < items.len() ==> ok(#[trigger] items[i]),
{
    law_first_refusal_none_iff_all(items, f);
    if first_refusal(items, f) is None {
        assert forall|i: int| 0 <= i < items.len() implies ok(#[trigger] items[i]) by {
            assert(f(i, items[i]) is None);
        }
    }
    if forall|i: int| 0 <= i < items.len() ==> ok(#[trigger] items[i]) {
        assert forall|i: int| 0 <= i < items.len() implies #[trigger] f(i, items[i]) is None by {
            assert(ok(items[i]));
        }
    }
}

/// Once a prefix has a first refusal, the whole sequence has the same one.
pub proof fn lemma_first_refusal_extends<T>(items: Seq<T>, f: spec_fn(int, T) -> Option<Refusal>, k: int)
    requires
        0 <= k <= items.len(),
        first_refusal(items.take(k), f) is Some,
    ensures
        first_refusal(items, f) == first_refusal(items.take(k), f),
    decreases items.len() - k,
{
    if k == items.len() {
        assert(items.take(k) =~= items);
    } else {
        assert(items.take(k + 1).drop_last() =~= items.take(k));
        lemma_first_refusal_extends(items, f, k + 1);
    }
}

/// The whole sequence is its own prefix.
pub proof fn lemma_take_all<T>(items: Seq<T>)
    ensures
        items.take(items.len() as int) == items,
{
    assert(items.take(items.len() as int) =~= items);
}

impl Path {
    /// The root of a payload: the empty path.
    pub fn root() -> (p: Path)
        ensures
            p@ == Seq::<char>::empty(),
    {
        Path(String::new())
    }

    /// A field of this message: `.name`.
    pub fn field(&self, name: &str) -> (p: Path)
        ensures
            p@ == field_path(self@, name@),
    {
        if self.0.as_str().is_empty() {
            Path(name.to_owned())
        } else {
            let mut s = self.0.clone();
            push_char(&mut s, '.');
            push_str(&mut s, name);
            assert(s@ =~= field_path(self@, name@));
            Path(s)
        }
    }

    /// An element of a repeated field of this message: `.name[index]`.
    pub fn item(&self, name: &str, index: usize) -> (p: Path)
        ensures
            p@ == item_path(self@, name@, index as int),
    {
        let Path(mut s) = self.field(name);
        push_char(&mut s, '[');
        write_decimal(&mut s, index as u64);
        push_char(&mut s, ']');
        assert(s@ =~= item_path(self@, name@, index as int));
        Path(s)
    }

    /// A refusal at this path.
    pub fn refuse(&self, reason: &str) -> (r: Invalid)
        ensures
            r@ == refusal(self@, reason@),
    {
        Invalid { at: self.0.clone(), reason: reason.to_owned(), value: None }
    }

    /// A refusal at this path whose reason names a double: `template` holds `{}` where the
    /// double's text goes, and `bits` is the double.
    pub fn refuse_value(&self, template: &str, bits: u64) -> (r: Invalid)
        ensures
            r@ == (self@, template@, Some(bits)),
    {
        Invalid { at: self.0.clone(), reason: template.to_owned(), value: Some(bits) }
    }
}

/// The first key of `attributes` that repeats a key before it.
pub open spec fn first_duplicate_key(attributes: Seq<KeyValue>) -> Option<Seq<char>>
    decreases attributes.len(),
{
    if attributes.len() == 0 {
        None
    } else {
        let before = first_duplicate_key(attributes.drop_last());
        if before is Some {
            before
        } else if exists|i: int| 0 <= i < attributes.len() - 1 && #[trigger] attributes[i].key@ == attributes.last().key@ {
            Some(attributes.last().key@)
        } else {
            None
        }
    }
}

/// What the rule of unique attribute keys refuses at `at`.
pub open spec fn keys_refusal(attributes: Seq<KeyValue>, at: Seq<char>) -> Option<Refusal> {
    match first_duplicate_key(attributes) {
        Some(key) => Some(refusal(at, "duplicate attribute key "@ + str_debug(key))),
        None => None,
    }
}

/// Attribute keys must be unique within one attribute list; the first key that repeats an earlier
/// one is named.
pub fn unique_keys(attributes: &[KeyValue], at: &Path) -> (r: Result<(), Invalid>)
    ensures
        matches_refusal(r, keys_refusal(attributes@, at@)),
{
    let n = attributes.len();
    for j in 0..n
        invariant
            n == attributes@.len(),
            first_duplicate_key(attributes@.take(j as int)) is None,
    {
        assert(attributes@.take(j + 1).drop_last() =~= attributes@.take(j as int));
        for i in 0..j
            invariant
                n == attributes@.len(),
                j < n,
                first_duplicate_key(attributes@.take(j as int)) is None,
                forall|k: int| 0 <= k < i ==> attributes@[k].key@ != attributes@[j as int].key@,
        {
            if attributes[i].key == attributes[j].key {
                proof {
                    lemma_first_duplicate_prefix(attributes@, j as int);
                }
                let mut reason = String::new();
                push_str(&mut reason, "duplicate attribute key ");
                let quoted = debug_str(attributes[j].key.as_str());
                push_str(&mut reason, quoted.as_str());
                return Err(at.refuse(reason.as_str()));
            }
        }
        assert forall|k: int| 0 <= k < j implies #[trigger] attributes@.take(j + 1)[k].key@ != attributes@.take(j + 1).last().key@ by {
            assert(attributes@.take(j + 1)[k] == attributes@[k]);
        }
    }
    proof {
        lemma_take_all(attributes@);
    }
    Ok(())
}

/// If a prefix has no duplicate and its next key repeats an earlier one, that key is the first
/// duplicate of the whole list.
proof fn lemma_first_duplicate_prefix(attributes: Seq<KeyValue>, j: int)
    requires
        0 <= j < attributes.len(),
        first_duplicate_key(attributes.take(j)) is None,
        exists|i: int| 0 <= i < j && #[trigger] attributes[i].key@ == attributes[j].key@,
    ensures
        first_duplicate_key(attributes) == Some(attributes[j].key@),
    decreases attributes.len(),
{
    assert(attributes.take(j + 1).drop_last() =~= attributes.take(j));
    let i = choose|i: int| 0 <= i < j && #[trigger] attributes[i].key@ == attributes[j].key@;
    assert(attributes.take(j + 1)[i] == attributes[i]);
    assert(first_duplicate_key(attributes.take(j + 1)) == Some(attributes[j].key@));
    lemma_first_duplicate_extends(attributes, j + 1);
}

/// Once a prefix has a first duplicate, every longer prefix has the same one.
proof fn lemma_first_duplicate_extends(attributes: Seq<KeyValue>, k: int)
    requires
        0 <= k <= attributes.len(),
        first_duplicate_key(attributes.take(k)) is Some,
    ensures
        first_duplicate_key(attributes) == first_duplicate_key(attributes.take(k)),
    decreases attributes.len() - k,
{
    if k == attributes.len() {
        lemma_take_all(attributes);
    } else {
        assert(attributes.take(k + 1).drop_last() =~= attributes.take(k));
        lemma_first_duplicate_extends(attributes, k + 1);
    }
}

} // verus!
