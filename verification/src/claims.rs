//! The theory of one round of claims: every source cell names at most one
//! destination, the first source to name a destination wins it, and every
//! later one is recorded as a contender.
//!
//! Sources are taken in index order. Any order would do for safety; a fixed
//! one makes the outcome a function of the destinations alone.

use vstd::prelude::*;

verus! {

/// How many of the first `upto` numbers satisfy `p`.
pub open spec fn count(p: spec_fn(int) -> bool, upto: int) -> nat
    decreases upto,
{
    if upto <= 0 {
        0
    } else {
        count(p, upto - 1) + if p(upto - 1) {
            1nat
        } else {
            0nat
        }
    }
}

/// How many of the first `upto` sources name `d` as their destination.
pub open spec fn claims(dests: Seq<Option<int>>, d: int, upto: int) -> nat
    decreases upto,
{
    if upto <= 0 {
        0
    } else {
        claims(dests, d, upto - 1) + if dests[upto - 1] == Some(d) {
            1nat
        } else {
            0nat
        }
    }
}

/// The first of the first `upto` sources that names `d`, if any does.
pub open spec fn winner(dests: Seq<Option<int>>, d: int, upto: int) -> Option<int>
    decreases upto,
{
    if upto <= 0 {
        None
    } else {
        match winner(dests, d, upto - 1) {
            Some(w) => Some(w),
            None => if dests[upto - 1] == Some(d) {
                Some(upto - 1)
            } else {
                None
            },
        }
    }
}

/// Whether source `s` names a destination that no earlier source names.
pub open spec fn wins(dests: Seq<Option<int>>, s: int) -> bool {
    dests[s].is_some() && claims(dests, dests[s].unwrap(), s) == 0
}

/// Whether source `s` names a destination that an earlier source names.
pub open spec fn loses(dests: Seq<Option<int>>, s: int) -> bool {
    dests[s].is_some() && claims(dests, dests[s].unwrap(), s) > 0
}

/// The contenders among the first `upto` sources, each with its
/// destination, in the order of the sources.
pub open spec fn contenders(dests: Seq<Option<int>>, upto: int) -> Seq<(int, int)>
    decreases upto,
{
    if upto <= 0 {
        Seq::empty()
    } else if loses(dests, upto - 1) {
        contenders(dests, upto - 1).push((upto - 1, dests[upto - 1].unwrap()))
    } else {
        contenders(dests, upto - 1)
    }
}

/// A predicate that implies another is satisfied no more often.
pub proof fn lemma_count_monotone(p: spec_fn(int) -> bool, q: spec_fn(int) -> bool, upto: int)
    requires
        forall|i: int| 0 <= i < upto && #[trigger] p(i) ==> q(i),
    ensures
        count(p, upto) <= count(q, upto),
    decreases upto,
{
    if upto > 0 {
        lemma_count_monotone(p, q, upto - 1);
    }
}

/// Two predicates that agree but at one number are satisfied equally often
/// but for one.
pub proof fn lemma_count_differs_at_one(
    p: spec_fn(int) -> bool,
    q: spec_fn(int) -> bool,
    upto: int,
    at: int,
)
    requires
        forall|i: int| 0 <= i < upto && i != at ==> #[trigger] p(i) == q(i),
    ensures
        count(q, upto) <= count(p, upto) + 1,
        at < 0 || at >= upto ==> count(q, upto) == count(p, upto),
        upto <= at ==> count(q, upto) == count(p, upto),
    decreases upto,
{
    if upto > 0 {
        lemma_count_differs_at_one(p, q, upto - 1, at);
        if at == upto - 1 {
            lemma_count_differs_at_one(p, q, upto - 1, -1);
        } else {
            assert(p(upto - 1) == q(upto - 1));
        }
    }
}

/// A destination has no more claims than there are sources, and a later
/// view never shows fewer claims.
pub proof fn lemma_claims_bound(dests: Seq<Option<int>>, d: int, from: int, upto: int)
    requires
        0 <= from <= upto,
    ensures
        claims(dests, d, from) <= claims(dests, d, upto) <= claims(dests, d, from) + (upto - from),
        claims(dests, d, upto) <= upto,
    decreases upto,
{
    if upto > from {
        lemma_claims_bound(dests, d, from, upto - 1);
    } else if upto > 0 {
        lemma_claims_bound(dests, d, 0, upto - 1);
    }
    if upto > 0 {
        lemma_claims_bound(dests, d, 0, upto - 1);
    }
}

/// A destination has a winner exactly when it has a claim. The winner names
/// the destination, and no source before the winner does.
pub proof fn lemma_winner(dests: Seq<Option<int>>, d: int, upto: int)
    requires
        0 <= upto,
    ensures
        winner(dests, d, upto).is_none() <==> claims(dests, d, upto) == 0,
        match winner(dests, d, upto) {
            Some(w) => 0 <= w < upto && dests[w] == Some(d) && wins(dests, w),
            None => true,
        },
    decreases upto,
{
    if upto > 0 {
        lemma_winner(dests, d, upto - 1);
    }
}

/// A source that names `d` and wins is the winner of `d`; one that names
/// `d` and loses is not.
pub proof fn lemma_winner_is_the_one_that_wins(dests: Seq<Option<int>>, s: int, upto: int)
    requires
        0 <= s < upto,
        dests[s].is_some(),
    ensures
        wins(dests, s) <==> winner(dests, dests[s].unwrap(), upto) == Some(s),
    decreases upto,
{
    let d = dests[s].unwrap();
    lemma_winner(dests, d, upto - 1);
    lemma_winner(dests, d, s);
    if s < upto - 1 {
        lemma_winner_is_the_one_that_wins(dests, s, upto - 1);
        lemma_claims_bound(dests, d, s + 1, upto - 1);
    } else {
        match winner(dests, d, upto - 1) {
            Some(w) => {
                assert(claims(dests, d, s) > 0);
            },
            None => {},
        }
    }
}

/// The contenders are listed by rising source, each is a source that loses,
/// and it stands with its own destination.
pub proof fn lemma_contenders_sorted(dests: Seq<Option<int>>, upto: int)
    requires
        0 <= upto,
    ensures
        contenders(dests, upto).len() <= upto,
        forall|k: int|
            0 <= k < contenders(dests, upto).len() ==> {
                let r = #[trigger] contenders(dests, upto)[k];
                0 <= r.0 < upto && loses(dests, r.0) && dests[r.0] == Some(r.1)
            },
        forall|j: int, k: int|
            0 <= j < k < contenders(dests, upto).len() ==> (#[trigger] contenders(dests, upto)[j]).0
                < (#[trigger] contenders(dests, upto)[k]).0,
    decreases upto,
{
    if upto > 0 {
        lemma_contenders_sorted(dests, upto - 1);
    }
}

/// The list of contenders only grows as more sources are taken.
pub proof fn lemma_contenders_prefix(dests: Seq<Option<int>>, from: int, upto: int)
    requires
        0 <= from <= upto,
    ensures
        contenders(dests, from).len() <= contenders(dests, upto).len(),
        forall|k: int|
            0 <= k < contenders(dests, from).len() ==> #[trigger] contenders(dests, upto)[k]
                == contenders(dests, from)[k],
    decreases upto,
{
    if upto > from {
        lemma_contenders_prefix(dests, from, upto - 1);
    }
}

/// Single claim. Of the sources that name one destination, exactly one wins
/// it, the first; every other one is listed among the contenders exactly
/// once, at `place`, with that destination; and a source that wins, or names
/// no destination, is not listed at all.
pub proof fn lemma_single_claim(dests: Seq<Option<int>>, upto: int, s: int) -> (place: int)
    requires
        0 <= s < upto,
    ensures
        dests[s].is_some() ==> (wins(dests, s) <==> winner(dests, dests[s].unwrap(), upto) == Some(
            s,
        )),
        loses(dests, s) ==> {
            &&& 0 <= place < contenders(dests, upto).len()
            &&& contenders(dests, upto)[place] == (s, dests[s].unwrap())
            &&& forall|k: int|
                0 <= k < contenders(dests, upto).len() && (#[trigger] contenders(dests, upto)[k]).0
                    == s ==> k == place
        },
        !loses(dests, s) ==> forall|k: int|
            0 <= k < contenders(dests, upto).len() ==> (#[trigger] contenders(dests, upto)[k]).0
                != s,
{
    if dests[s].is_some() {
        lemma_winner_is_the_one_that_wins(dests, s, upto);
    }
    lemma_contenders_sorted(dests, upto);
    lemma_contenders_sorted(dests, s);
    lemma_contenders_prefix(dests, s, s + 1);
    lemma_contenders_prefix(dests, s + 1, upto);
    let place = contenders(dests, s).len() as int;
    if loses(dests, s) {
        assert(contenders(dests, s + 1) == contenders(dests, s).push((s, dests[s].unwrap())));
        assert(contenders(dests, upto)[place] == contenders(dests, s + 1)[place]);
        assert forall|k: int|
            0 <= k < contenders(dests, upto).len() && (#[trigger] contenders(dests, upto)[k]).0
                == s implies k == place by {
            if k < place {
                assert(contenders(dests, upto)[k].0 < contenders(dests, upto)[place].0);
            } else if k > place {
                assert(contenders(dests, upto)[place].0 < contenders(dests, upto)[k].0);
            }
        }
    }
    place
}

/// Two sources that win the same destination are the same source.
pub proof fn lemma_one_winner(dests: Seq<Option<int>>, s1: int, s2: int)
    requires
        0 <= s1,
        0 <= s2,
        wins(dests, s1),
        wins(dests, s2),
        dests[s1] == dests[s2],
    ensures
        s1 == s2,
{
    let d = dests[s1].unwrap();
    if s1 < s2 {
        lemma_claims_bound(dests, d, s1 + 1, s2);
    } else if s2 < s1 {
        lemma_claims_bound(dests, d, s2 + 1, s1);
    }
}

/// No more destinations are claimed than there are sources that name one.
pub proof fn lemma_claimed_at_most_claiming(dests: Seq<Option<int>>, sources: int, cells: int)
    requires
        0 <= sources,
    ensures
        count(|d: int| claims(dests, d, sources) > 0, cells) <= count(
            |s: int| dests[s].is_some(),
            sources,
        ),
    decreases sources,
{
    let claimed = |d: int| claims(dests, d, sources) > 0;
    if sources == 0 {
        lemma_count_monotone(claimed, |d: int| false, cells);
        lemma_count_none(cells);
    } else {
        let before = |d: int| claims(dests, d, sources - 1) > 0;
        lemma_claimed_at_most_claiming(dests, sources - 1, cells);
        match dests[sources - 1] {
            Some(at) => {
                lemma_count_differs_at_one(before, claimed, cells, at);
            },
            None => {
                lemma_count_differs_at_one(before, claimed, cells, -1);
            },
        }
    }
}

/// The predicate that never holds is never counted.
pub proof fn lemma_count_none(upto: int)
    ensures
        count(|d: int| false, upto) == 0,
    decreases upto,
{
    if upto > 0 {
        lemma_count_none(upto - 1);
    }
}

} // verus!
