//! The decisions of the iterative refinement. After each solve over the
//! current candidate set, the refinement either stops (converged, or out of
//! iterations) or moves on to the next candidate set: the current times whose
//! contact stayed near the boundary, plus the newly violated local maxima,
//! sorted and free of repeats. The floating-point work behind each decision
//! (the solve and the contact evaluation) is summarized by the caller as
//! plain values.

use crate::indices::{sorted_unique, strictly_increasing};
use vstd::prelude::*;

verus! {

/// What the refinement does after a solve.
#[derive(Debug)]
pub enum RefineDecision {
    /// Converged: the active set, sorted and free of repeats.
    Converged(Vec<usize>),
    /// The iteration cap was reached without converging.
    NotConverged,
    /// Solve again over this candidate set (sorted, free of repeats, non-empty).
    Continue(Vec<usize>),
    /// The next candidate set would be empty.
    Empty,
}

/// `x` is a current candidate that was kept.
pub open spec fn kept_candidate(t_est: Seq<usize>, kept: Seq<bool>, x: usize) -> bool {
    exists|i: int| 0 <= i < t_est.len() && kept[i] && t_est[i] == x
}

/// `x` belongs to the next candidate set: a kept candidate or a newly added one.
pub open spec fn in_next_set(t_est: Seq<usize>, kept: Seq<bool>, added: Seq<usize>, x: usize) -> bool {
    kept_candidate(t_est, kept, x) || added.contains(x)
}

/// Every violated local maximum joins the next candidate set.
pub proof fn lemma_added_maxima_join(t_est: Seq<usize>, kept: Seq<bool>, added: Seq<usize>, k: int)
    requires
        0 <= k < added.len(),
    ensures
        in_next_set(t_est, kept, added, added[k]),
{
    assert(added.contains(added[k]));
}

/// Every kept candidate stays in the next candidate set.
pub proof fn lemma_kept_candidates_stay(t_est: Seq<usize>, kept: Seq<bool>, added: Seq<usize>, i: int)
    requires
        0 <= i < t_est.len(),
        i < kept.len(),
        kept[i],
    ensures
        in_next_set(t_est, kept, added, t_est[i]),
{
}

/// Nothing else enters the next candidate set: a member is a kept candidate
/// or one of the added maxima.
pub proof fn lemma_next_set_members(t_est: Seq<usize>, kept: Seq<bool>, added: Seq<usize>, x: usize)
    requires
        in_next_set(t_est, kept, added, x),
    ensures
        (exists|i: int| 0 <= i < t_est.len() && kept[i] && t_est[i] == x) || (exists|k: int|
            0 <= k < added.len() && added[k] == x),
{
    if !kept_candidate(t_est, kept, x) {
        assert(added.contains(x));
    }
}

/// Decide the step after a solve over `t_est`.
///
/// `converged` says whether the largest contact over the grid met the
/// convergence threshold; `iterations` counts the solves so far, including
/// this one; `kept[i]` says whether candidate `t_est[i]` stays (its contact is
/// at least the keep threshold); `added` lists the violated local maxima.
///
/// Convergence wins over the cap; otherwise the cap ends the refinement;
/// otherwise the kept candidates and the added ones form the next set.
pub fn refine_decision(
    t_est: &[usize],
    kept: &[bool],
    added: &[usize],
    converged: bool,
    iterations: usize,
    max_iters: usize,
) -> (d: RefineDecision)
    requires
        kept.len() == t_est.len(),
    ensures
        converged ==> (d matches RefineDecision::Converged(t_opt) && strictly_increasing(t_opt@)
            && forall|x: usize| t_opt@.contains(x) <==> t_est@.contains(x)),
        !converged && iterations >= max_iters ==> d is NotConverged,
        !converged && iterations < max_iters ==> (d is Continue || d is Empty),
        d matches RefineDecision::Continue(next) ==> next@.len() > 0 && strictly_increasing(
            next@,
        ) && forall|x: usize| next@.contains(x) <==> in_next_set(t_est@, kept@, added@, x),
        d is Empty ==> forall|x: usize| !in_next_set(t_est@, kept@, added@, x),
        !converged && iterations < max_iters ==> forall|k: int|
            0 <= k < added@.len() ==> (d matches RefineDecision::Continue(next) && next@.contains(
                #[trigger] added@[k],
            )),
        !converged && iterations < max_iters ==> forall|i: int|
            0 <= i < t_est@.len() && kept@[i] ==> (d matches RefineDecision::Continue(next)
                && next@.contains(#[trigger] t_est@[i])),
        d matches RefineDecision::Continue(next) ==> forall|x: usize|
            #[trigger] next@.contains(x) ==> (exists|i: int|
                0 <= i < t_est@.len() && kept@[i] && t_est@[i] == x) || added@.contains(x),
        d is Empty ==> added@.len() == 0 && forall|i: int| 0 <= i < kept@.len() ==> !#[trigger] kept@[i],
{
    if converged {
        return RefineDecision::Converged(sorted_unique(t_est));
    }
    if iterations >= max_iters {
        return RefineDecision::NotConverged;
    }
    let mut pool: Vec<usize> = Vec::new();
    let mut i: usize = 0;
    while i < t_est.len()
        invariant
            kept.len() == t_est.len(),
            i <= t_est.len(),
            forall|x: usize|
                pool@.contains(x) <==> exists|j: int| 0 <= j < i && kept@[j] && t_est@[j] == x,
        decreases t_est.len() - i,
    {
        let ghost before = pool@;
        if kept[i] {
            pool.push(t_est[i]);
            assert forall|x: usize|
                pool@.contains(x) <==> exists|j: int| 0 <= j < i + 1 && kept@[j] && t_est@[j] == x by {
                if pool@.contains(x) {
                    let w = choose|w: int| 0 <= w < pool@.len() && pool@[w] == x;
                    if w < before.len() {
                        assert(before.contains(x));
                    }
                }
                if exists|j: int| 0 <= j < i + 1 && kept@[j] && t_est@[j] == x {
                    let j = choose|j: int| 0 <= j < i + 1 && kept@[j] && t_est@[j] == x;
                    if j < i {
                        assert(before.contains(x));
                        let w = choose|w: int| 0 <= w < before.len() && before[w] == x;
                        assert(pool@[w] == x);
                    } else {
                        assert(pool@[before.len() as int] == x);
                    }
                }
            }
        } else {
            assert forall|x: usize|
                pool@.contains(x) <==> exists|j: int| 0 <= j < i + 1 && kept@[j] && t_est@[j] == x by {
                if exists|j: int| 0 <= j < i + 1 && kept@[j] && t_est@[j] == x {
                    let j = choose|j: int| 0 <= j < i + 1 && kept@[j] && t_est@[j] == x;
                    assert(j < i);
                }
            }
        }
        i = i + 1;
    }
    let mut k: usize = 0;
    let ghost kept_part = pool@;
    while k < added.len()
        invariant
            k <= added.len(),
            pool@ == kept_part + added@.subrange(0, k as int),
        decreases added.len() - k,
    {
        pool.push(added[k]);
        k = k + 1;
        assert(pool@ =~= kept_part + added@.subrange(0, k as int));
    }
    assert(added@.subrange(0, added@.len() as int) =~= added@);
    assert forall|x: usize| pool@.contains(x) <==> in_next_set(t_est@, kept@, added@, x) by {
        if pool@.contains(x) {
            let w = choose|w: int| 0 <= w < pool@.len() && pool@[w] == x;
            if w < kept_part.len() {
                assert(kept_part.contains(x));
            } else {
                assert(added@[w - kept_part.len()] == x);
            }
        }
        if kept_candidate(t_est@, kept@, x) {
            assert(kept_part.contains(x));
            let w = choose|w: int| 0 <= w < kept_part.len() && kept_part[w] == x;
            assert(pool@[w] == x);
        }
        if added@.contains(x) {
            let w = choose|w: int| 0 <= w < added@.len() && added@[w] == x;
            assert(pool@[kept_part.len() + w] == x);
        }
    }
    let next = sorted_unique(&pool);
    proof {
        assert forall|k: int| 0 <= k < added@.len() implies next@.contains(#[trigger] added@[k]) by {
            lemma_added_maxima_join(t_est@, kept@, added@, k);
        }
        assert forall|i: int| 0 <= i < t_est@.len() && kept@[i] implies next@.contains(
            #[trigger] t_est@[i],
        ) by {
            lemma_kept_candidates_stay(t_est@, kept@, added@, i);
        }
        assert forall|x: usize| #[trigger] next@.contains(x) implies (exists|i: int|
            0 <= i < t_est@.len() && kept@[i] && t_est@[i] == x) || added@.contains(x) by {
            lemma_next_set_members(t_est@, kept@, added@, x);
        }
    }
    if next.len() == 0 {
        assert forall|x: usize| !in_next_set(t_est@, kept@, added@, x) by {
            if in_next_set(t_est@, kept@, added@, x) {
                assert(pool@.contains(x));
                assert(!next@.contains(x));
            }
        }
        proof {
            if added@.len() > 0 {
                assert(next@.contains(added@[0]));
            }
            assert forall|i: int| 0 <= i < kept@.len() implies !#[trigger] kept@[i] by {
                if kept@[i] {
                    assert(next@.contains(t_est@[i]));
                }
            }
        }
        RefineDecision::Empty
    } else {
        RefineDecision::Continue(next)
    }
}

} // verus!
