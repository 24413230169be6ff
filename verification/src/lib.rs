//! Python's `all` and `any` over iterators of booleans, and adapters that
//! drain an iterator into a `Vec` or a `HashMap`.
//!
//! What an iterator will yield is modelled by its sequence of remaining
//! items; the contracts speak of that sequence.

use vstd::prelude::*;
use vstd::std_specs::iter::IteratorSpec;

pub mod extension_traits;
pub mod prelude;

verus! {

/// Whether every element of `s` is `true`; vacuously so for the empty sequence.
pub open spec fn all_true(s: Seq<bool>) -> bool {
    forall|i: int| 0 <= i < s.len() ==> s[i]
}

/// Whether some element of `s` is `true`; never so for the empty sequence.
pub open spec fn any_true(s: Seq<bool>) -> bool {
    exists|i: int| 0 <= i < s.len() && s[i]
}

/// A non-empty sequence is all `true` exactly when its head is `true` and
/// its tail is all `true`.
pub proof fn lemma_all_true_unfold(s: Seq<bool>)
    requires
        s.len() > 0,
    ensures
        all_true(s) == (s[0] && all_true(s.drop_first())),
{
    let tail = s.drop_first();
    if s[0] && all_true(tail) {
        assert forall|i: int| 0 <= i < s.len() implies s[i] by {
            if i > 0 {
                assert(s[i] == tail[i - 1]);
            }
        }
    }
    if all_true(s) {
        assert forall|i: int| 0 <= i < tail.len() implies tail[i] by {
            assert(tail[i] == s[i + 1]);
        }
    }
}

/// A non-empty sequence holds a `true` exactly when its head is `true` or
/// its tail holds one.
pub proof fn lemma_any_true_unfold(s: Seq<bool>)
    requires
        s.len() > 0,
    ensures
        any_true(s) == (s[0] || any_true(s.drop_first())),
{
    let tail = s.drop_first();
    if any_true(tail) {
        let i = choose|i: int| 0 <= i < tail.len() && tail[i];
        assert(s[i + 1]);
    }
    if any_true(s) && !s[0] {
        let i = choose|i: int| 0 <= i < s.len() && s[i];
        assert(tail[i - 1]);
    }
}

/// Some element is `true` exactly when not every negated element is `true`.
pub proof fn lemma_any_is_not_all_not(s: Seq<bool>)
    ensures
        any_true(s) == !all_true(s.map_values(|b: bool| !b)),
{
    let negated = s.map_values(|b: bool| !b);
    if any_true(s) {
        let i = choose|i: int| 0 <= i < s.len() && s[i];
        assert(!negated[i]);
    }
    if !all_true(negated) {
        let i = choose|i: int| 0 <= i < negated.len() && !negated[i];
        assert(s[i]);
    }
}

/// Python's `all(iterable)`: whether every item is `true`.
///
/// Stops at the first `false`; `true` for an iterator that yields nothing.
#[inline]
pub fn all(iterable: impl Iterator<Item = bool>) -> (result: bool)
    requires
        iterable.obeys_prophetic_iter_laws(),
        iterable.decrease() is Some,
    ensures
        result == all_true(iterable.remaining()),
{
    let mut iter = iterable;
    loop
        invariant
            iter.obeys_prophetic_iter_laws(),
            iter.decrease() is Some,
            all_true(iterable.remaining()) == all_true(iter.remaining()),
        decreases iter.decrease()->0,
    {
        let ghost ahead = iter.remaining();
        match iter.next() {
            None => {
                return true;
            },
            Some(item) => {
                proof {
                    lemma_all_true_unfold(ahead);
                }
                if !item {
                    return false;
                }
            },
        }
    }
}

/// Python's `any(iterable)`: whether some item is `true`.
///
/// Stops at the first `true`; `false` for an iterator that yields nothing.
#[inline]
pub fn any(iterable: impl Iterator<Item = bool>) -> (result: bool)
    requires
        iterable.obeys_prophetic_iter_laws(),
        iterable.decrease() is Some,
    ensures
        result == any_true(iterable.remaining()),
{
    let mut iter = iterable;
    loop
        invariant
            iter.obeys_prophetic_iter_laws(),
            iter.decrease() is Some,
            any_true(iterable.remaining()) == any_true(iter.remaining()),
        decreases iter.decrease()->0,
    {
        let ghost ahead = iter.remaining();
        match iter.next() {
            None => {
                return false;
            },
            Some(item) => {
                proof {
                    lemma_any_true_unfold(ahead);
                }
                if item {
                    return true;
                }
            },
        }
    }
}

} // verus!
