//! The first element of a sequence of ids that satisfies a predicate.

use vstd::prelude::*;

verus! {

/// `r` is the first element of `s` satisfying `p`, or `None` when none does.
pub open spec fn first_in(s: Seq<u32>, p: spec_fn(u32) -> bool, r: Option<u32>) -> bool {
    match r {
        Some(x) => exists|i: int| 0 <= i < s.len() && s[i] == x && p(x) && forall|j: int| 0 <= j < i ==> !p(#[trigger] s[j]),
        None => forall|i: int| 0 <= i < s.len() ==> !p(#[trigger] s[i]),
    }
}

/// The first element of `s` satisfying `p`, if any.
pub open spec fn first_of(s: Seq<u32>, p: spec_fn(u32) -> bool) -> Option<u32>
    decreases s.len(),
{
    if s.len() == 0 {
        None
    } else if p(s[0]) {
        Some(s[0])
    } else {
        first_of(s.subrange(1, s.len() as int), p)
    }
}

/// `first_of` finds the first element satisfying `p`.
pub proof fn lemma_first_of(s: Seq<u32>, p: spec_fn(u32) -> bool)
    ensures
        first_in(s, p, first_of(s, p)),
    decreases s.len(),
{
    if s.len() > 0 && !p(s[0]) {
        let t = s.subrange(1, s.len() as int);
        lemma_first_of(t, p);
        match first_of(t, p) {
            Some(x) => {
                let i = choose|i: int| 0 <= i < t.len() && t[i] == x && p(x) && forall|j: int| 0 <= j < i ==> !p(#[trigger] t[j]);
                assert(s[i + 1] == x);
                assert forall|j: int| 0 <= j < i + 1 implies !p(#[trigger] s[j]) by {
                    if j > 0 {
                        assert(s[j] == t[j - 1]);
                    }
                }
            },
            None => {
                assert forall|i: int| 0 <= i < s.len() implies !p(#[trigger] s[i]) by {
                    if i > 0 {
                        assert(s[i] == t[i - 1]);
                    }
                }
            },
        }
    }
    if s.len() > 0 && p(s[0]) {
        assert(s[0] == s[0] && forall|j: int| 0 <= j < 0 ==> !p(#[trigger] s[j]));
    }
}

/// Only one element is the first to satisfy `p`.
pub proof fn lemma_first_unique(s: Seq<u32>, p: spec_fn(u32) -> bool, r: Option<u32>)
    requires
        first_in(s, p, r),
    ensures
        r == first_of(s, p),
{
    lemma_first_of(s, p);
    match (r, first_of(s, p)) {
        (Some(x), Some(y)) => {
            let i = choose|i: int| 0 <= i < s.len() && s[i] == x && p(x) && forall|j: int| 0 <= j < i ==> !p(#[trigger] s[j]);
            let k = choose|k: int| 0 <= k < s.len() && s[k] == y && p(y) && forall|j: int| 0 <= j < k ==> !p(#[trigger] s[j]);
            if i < k {
                assert(!p(s[i]));
            } else if k < i {
                assert(!p(s[k]));
            }
        },
        (Some(x), None) => {
            let i = choose|i: int| 0 <= i < s.len() && s[i] == x && p(x) && forall|j: int| 0 <= j < i ==> !p(#[trigger] s[j]);
            assert(!p(s[i]));
        },
        (None, Some(y)) => {
            let k = choose|k: int| 0 <= k < s.len() && s[k] == y && p(y) && forall|j: int| 0 <= j < k ==> !p(#[trigger] s[j]);
            assert(!p(s[k]));
        },
        (None, None) => {},
    }
}

} // verus!
