//! The first element of a sequence that meets a condition.

use vstd::prelude::*;

verus! {

/// The least index below `n` at which `s` holds an element that meets `p`, if
/// there is one.
pub open spec fn first_match<T>(s: Seq<T>, p: spec_fn(T) -> bool, n: int) -> Option<int>
    decreases n,
{
    if n <= 0 {
        None
    } else {
        match first_match(s, p, n - 1) {
            Some(i) => Some(i),
            None => if p(s[n - 1]) {
                Some(n - 1)
            } else {
                None
            },
        }
    }
}

/// What `first_match` finds is the least matching index, and it finds nothing
/// only where nothing matches.
pub proof fn lemma_first_match<T>(s: Seq<T>, p: spec_fn(T) -> bool, n: int)
    ensures
        match first_match(s, p, n) {
            Some(i) => 0 <= i < n && p(s[i]) && forall|j: int| 0 <= j < i ==> !p(#[trigger] s[j]),
            None => forall|j: int| 0 <= j < n ==> !p(#[trigger] s[j]),
        },
    decreases n,
{
    if n > 0 {
        lemma_first_match(s, p, n - 1);
    }
}

/// A match found among the first `n` elements is the match among the first `m`,
/// for every `m` from `n` on.
pub proof fn lemma_first_match_stays<T>(s: Seq<T>, p: spec_fn(T) -> bool, n: int, m: int)
    requires
        first_match(s, p, n) is Some,
        n <= m,
    ensures
        first_match(s, p, m) == first_match(s, p, n),
    decreases m,
{
    if n < m {
        lemma_first_match_stays(s, p, n, m - 1);
    }
}

/// The index `i` is what `first_match` finds where it matches and nothing
/// before it does.
pub proof fn lemma_first_match_is<T>(s: Seq<T>, p: spec_fn(T) -> bool, n: int, i: int)
    requires
        0 <= i < n,
        p(s[i]),
        forall|j: int| 0 <= j < i ==> !p(#[trigger] s[j]),
    ensures
        first_match(s, p, n) == Some(i),
{
    lemma_first_match(s, p, n);
}

/// Two sequences that agree on their first `n` elements have the same first
/// match among them, under conditions that agree on those elements.
pub proof fn lemma_first_match_agree<T>(
    s: Seq<T>,
    t: Seq<T>,
    p: spec_fn(T) -> bool,
    q: spec_fn(T) -> bool,
    n: int,
)
    requires
        n <= s.len(),
        n <= t.len(),
        forall|j: int| 0 <= j < n ==> s[j] == t[j] && p(s[j]) == q(t[j]),
    ensures
        first_match(s, p, n) == first_match(t, q, n),
    decreases n,
{
    if n > 0 {
        lemma_first_match_agree(s, t, p, q, n - 1);
    }
}

} // verus!
