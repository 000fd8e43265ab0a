//! Choosing among the rules that match.
//!
//! Each rule reports how many bytes it matches at the cursor, or that it does
//! not match there. The longest match wins; among equally long matches, the
//! rule that was added first.

use vstd::prelude::*;

verus! {

/// Rule `w` is the one to apply: it matches, no rule matches more, and no
/// rule before it matches as much.
pub open spec fn is_winner(lens: Seq<Option<int>>, w: int) -> bool {
    &&& 0 <= w < lens.len()
    &&& lens[w] is Some
    &&& forall|j: int| 0 <= j < lens.len() && lens[j] is Some ==> lens[j]->0 <= lens[w]->0
    &&& forall|j: int| 0 <= j < w && lens[j] is Some ==> lens[j]->0 < lens[w]->0
}

/// The rule to apply, if any rule matches.
pub open spec fn winner(lens: Seq<Option<int>>) -> Option<int> {
    if exists|w: int| is_winner(lens, w) {
        Some(choose|w: int| is_winner(lens, w))
    } else {
        None
    }
}

/// A rule or a length as the engine holds it, seen as a mathematical integer.
pub open spec fn as_int(value: Option<usize>) -> Option<int> {
    match value {
        Some(n) => Some(n as int),
        None => None,
    }
}

/// Match lengths as the engine holds them, seen as mathematical integers.
pub open spec fn lengths(lens: Seq<Option<usize>>) -> Seq<Option<int>> {
    Seq::new(lens.len(), |i: int| as_int(lens[i]))
}

/// At most one rule is the winner.
pub proof fn lemma_winner_unique(lens: Seq<Option<int>>, a: int, b: int)
    requires
        is_winner(lens, a),
        is_winner(lens, b),
    ensures
        a == b,
{
    if a < b {
        assert(lens[a]->0 < lens[b]->0);
        assert(lens[b]->0 <= lens[a]->0);
    } else if b < a {
        assert(lens[b]->0 < lens[a]->0);
        assert(lens[a]->0 <= lens[b]->0);
    }
}

/// The winner among the first `n` rules, found by going through them in order.
proof fn lemma_winner_among(lens: Seq<Option<int>>, n: int) -> (w: Option<int>)
    requires
        0 <= n <= lens.len(),
    ensures
        match w {
            Some(i) => is_winner(lens.take(n), i),
            None => forall|j: int| 0 <= j < n ==> lens[j] is None,
        },
    decreases n,
{
    if n == 0 {
        None
    } else {
        let before = lemma_winner_among(lens, n - 1);
        let last = n - 1;
        match (before, lens[last]) {
            (None, None) => None,
            (None, Some(_)) => Some(last),
            (Some(i), None) => Some(i),
            (Some(i), Some(l)) => if l > lens[i]->0 {
                Some(last)
            } else {
                Some(i)
            },
        }
    }
}

/// `winner` picks the one rule that `is_winner` describes, and finds none
/// exactly when no rule matches.
pub proof fn lemma_winner(lens: Seq<Option<int>>)
    ensures
        winner(lens) matches Some(w) ==> is_winner(lens, w),
        winner(lens) is None <==> forall|j: int| 0 <= j < lens.len() ==> lens[j] is None,
        forall|w: int| is_winner(lens, w) ==> winner(lens) == Some(w),
{
    lemma_winner_among(lens, lens.len() as int);
    assert(lens.take(lens.len() as int) == lens);
    assert forall|w: int| is_winner(lens, w) implies winner(lens) == Some(w) by {
        lemma_winner_unique(lens, w, choose|v: int| is_winner(lens, v));
    }
}

/// Picks the rule to apply from the match length of every rule, `None` for
/// a rule that does not match.
pub fn longest_first(lens: &Vec<Option<usize>>) -> (rule: Option<usize>)
    ensures
        as_int(rule) == winner(lengths(lens@)),
{
    let mut best: Option<usize> = None;
    let mut best_len: usize = 0;
    let mut i: usize = 0;
    while i < lens.len()
        invariant
            i <= lens@.len(),
            match best {
                Some(w) => is_winner(lengths(lens@).take(i as int), w as int) && lens@[w as int]
                    == Some(best_len),
                None => forall|j: int| 0 <= j < i ==> lens@[j] is None,
            },
        decreases lens@.len() - i,
    {
        match lens[i] {
            Some(len) => {
                if best.is_none() || len > best_len {
                    best = Some(i);
                    best_len = len;
                }
            },
            None => {},
        }
        i = i + 1;
    }
    proof {
        assert(lengths(lens@).take(i as int) == lengths(lens@));
        lemma_winner(lengths(lens@));
    }
    best
}

} // verus!
