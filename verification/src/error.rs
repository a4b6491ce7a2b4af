//! A rule of the protocol broken by a value, with where it was found.

use vstd::prelude::*;
use vstd::string::StrSliceExecFns;
use crate::text::push_str;

verus! {

/// A rule of the protocol broken by a value, with where it was found.
///
/// `at` is the path of the offending message in the JSON mapping's own names
/// (`resourceSpans[0].scopeSpans[0].spans[2]`); `reason` names the rule in the mapping's field
/// names (`endTimeUnixNano 10 precedes startTimeUnixNano 20`).
///
/// A reason that names a double (`quantile 1.5 is outside [0, 1]`) is held as a template with
/// `{}` where the double's text goes (`quantile {} is outside [0, 1]`), and `value` holds the
/// double by its bits (`f64::to_bits`): this library holds no floating-point numbers, so the
/// caller writes the number in with [`Invalid::with_value_text`], giving it the double's
/// display text (`f64::from_bits(bits).to_string()`).
#[derive(Clone, Debug, PartialEq, Eq)]
pub struct Invalid {
    /// Where: the path of the message that breaks the rule.
    pub at: String,
    /// What: the rule, in the wire names of the fields involved.
    pub reason: String,
    /// The double the reason names, by its bits, while its text is still to be written in
    /// place of the `{}` of the reason; `None` when the reason is complete.
    pub value: Option<u64>,
}

/// A refusal as the contracts see it: the path, the reason, and the bits of the double whose
/// text the reason still waits for.
pub type Refusal = (Seq<char>, Seq<char>, Option<u64>);

impl View for Invalid {
    type V = Refusal;

    open spec fn view(&self) -> Refusal {
        (self.at@, self.reason@, self.value)
    }
}

/// A complete refusal: at `at`, for `reason`.
pub open spec fn refusal(at: Seq<char>, reason: Seq<char>) -> Refusal {
    (at, reason, None)
}

/// The text of a refusal: the path, a colon and a space, the reason.
pub open spec fn refusal_text(r: Refusal) -> Seq<char> {
    r.0 + ": "@ + r.1
}

/// Whether `t` holds `{}` at `i`.
pub open spec fn hole_at(t: Seq<char>, i: int) -> bool {
    0 <= i && i + 1 < t.len() && t[i] == '{' && t[i + 1] == '}'
}

/// The first place at or after `k` where `t` holds `{}`.
pub open spec fn first_hole_from(t: Seq<char>, k: int) -> Option<int>
    decreases t.len() - k,
{
    if k < 0 || k + 1 >= t.len() {
        None
    } else if hole_at(t, k) {
        Some(k)
    } else {
        first_hole_from(t, k + 1)
    }
}

/// `t` with its first `{}` replaced by `shown`; `t` itself when it holds none.
pub open spec fn fill_hole(t: Seq<char>, shown: Seq<char>) -> Seq<char> {
    match first_hole_from(t, 0) {
        Some(i) => t.take(i) + shown + t.skip(i + 2),
        None => t,
    }
}

/// The first `{}` found is one.
proof fn lemma_first_hole_is_hole(t: Seq<char>, k: int)
    ensures
        first_hole_from(t, k) matches Some(i) ==> k <= i && hole_at(t, i),
    decreases t.len() - k,
{
    if k >= 0 && k + 1 < t.len() && !hole_at(t, k) {
        lemma_first_hole_is_hole(t, k + 1);
    }
}

/// Where the first `{}` of `t` is.
fn find_hole(t: &str) -> (r: Option<usize>)
    ensures
        match r {
            Some(i) => first_hole_from(t@, 0) == Some(i as int),
            None => first_hole_from(t@, 0) is None,
        },
{
    let n = t.unicode_len();
    let mut i: usize = 0;
    while n > 0 && i < n - 1
        invariant
            n == t@.len(),
            i <= n,
            first_hole_from(t@, 0) == first_hole_from(t@, i as int),
        decreases n - i,
    {
        if t.get_char(i) == '{' && t.get_char(i + 1) == '}' {
            return Some(i);
        }
        i = i + 1;
    }
    None
}

impl Invalid {
    /// A refusal at `at` for `reason`.
    pub fn new(at: &str, reason: &str) -> (r: Invalid)
        ensures
            r@ == refusal(at@, reason@),
    {
        Invalid { at: at.to_owned(), reason: reason.to_owned(), value: None }
    }

    /// The refusal with the display text of its double written in: where `value` holds a
    /// double, `shown` replaces the first `{}` of the reason and `value` is cleared; a complete
    /// refusal is returned as it is.
    pub fn with_value_text(&self, shown: &str) -> (r: Invalid)
        ensures
            self.value is None ==> r@ == self@,
            self.value is Some ==> r@ == refusal(self.at@, fill_hole(self.reason@, shown@)),
    {
        let at = self.at.clone();
        match self.value {
            None => Invalid { at, reason: self.reason.clone(), value: None },
            Some(_) => {
                let template = self.reason.as_str();
                let mut reason = String::new();
                match find_hole(template) {
                    Some(i) => {
                        proof {
                            lemma_first_hole_is_hole(template@, 0);
                        }
                        let n = template.unicode_len();
                        push_str(&mut reason, template.substring_char(0, i));
                        push_str(&mut reason, shown);
                        push_str(&mut reason, template.substring_char(i + 2, n));
                        assert(template@.subrange(0, i as int) =~= template@.take(i as int));
                        assert(template@.subrange(i + 2, n as int) =~= template@.skip(i + 2));
                    },
                    None => {
                        push_str(&mut reason, template);
                    },
                }
                assert(reason@ =~= fill_hole(self.reason@, shown@));
                Invalid { at, reason, value: None }
            },
        }
    }

    /// The refusal as text: `at: reason`.
    pub fn to_string(&self) -> (s: String)
        ensures
            s@ == refusal_text(self@),
    {
        let mut s = self.at.clone();
        push_str(&mut s, ": ");
        push_str(&mut s, self.reason.as_str());
        s
    }
}

} // verus!
