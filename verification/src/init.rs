//! Initialization: the coarse candidate set, a handful of grid indices spread
//! evenly over the whole grid, from which the initial candidate times are
//! chosen.

use vstd::arithmetic::div_mod::{
    lemma_div_is_ordered, lemma_div_plus_one, lemma_fundamental_div_mod,
    lemma_fundamental_div_mod_converse,
};
use vstd::arithmetic::mul::lemma_mul_inequality;
use vstd::prelude::*;

verus! {

/// `p / d` rounded to the nearest integer, halves rounded up (`d > 0`).
pub open spec fn round_div(p: nat, d: nat) -> nat
    recommends
        d > 0,
{
    ((2 * p + d) / (2 * d)) as nat
}

/// How many coarse indices are drawn: `n_coarse` clamped into `[1, grid_len]`.
pub open spec fn coarse_count(grid_len: nat, n_coarse: nat) -> nat {
    if n_coarse < 1 {
        1
    } else if n_coarse > grid_len {
        grid_len
    } else {
        n_coarse
    }
}

/// The `j`-th of `n` evenly spaced indices over a grid of `grid_len` points:
/// `j * (grid_len - 1) / (n - 1)` rounded to the nearest integer, and `0`
/// when only one index is drawn.
pub open spec fn coarse_index(j: nat, n: nat, grid_len: nat) -> nat {
    if n <= 1 {
        0
    } else {
        round_div(j * ((grid_len - 1) as nat), (n - 1) as nat)
    }
}

/// Rounding a quotient given its floor and remainder.
proof fn lemma_round_div_parts(p: nat, d: nat, q: nat, r: nat)
    requires
        d > 0,
        p == q * d + r,
        r < d,
    ensures
        round_div(p, d) == q + (if 2 * r >= d {
            1nat
        } else {
            0nat
        }),
{
    let b: int = if 2 * r >= d {
        1
    } else {
        0
    };
    let rem: int = 2 * r + d - 2 * d * b;
    assert(2 * p + d == (q + b) * (2 * d) + rem) by (nonlinear_arith)
        requires
            p == q * d + r,
            rem == 2 * r + d - 2 * d * b,
    ;
    lemma_fundamental_div_mod_converse((2 * p + d) as int, (2 * d) as int, q + b, rem);
}

/// Rounding is monotone in the numerator.
proof fn lemma_round_div_monotone(p1: nat, p2: nat, d: nat)
    requires
        d > 0,
        p1 <= p2,
    ensures
        round_div(p1, d) <= round_div(p2, d),
{
    lemma_div_is_ordered((2 * p1 + d) as int, (2 * p2 + d) as int, (2 * d) as int);
}

/// Adding a whole divisor to the numerator adds one to the rounded quotient.
proof fn lemma_round_div_shift(p: nat, d: nat)
    requires
        d > 0,
    ensures
        round_div(p + d, d) == round_div(p, d) + 1,
{
    lemma_div_plus_one((2 * p + d) as int, (2 * d) as int);
    assert(2 * (p + d) + d == 2 * d + (2 * p + d));
}

/// An exact multiple rounds to its quotient.
proof fn lemma_round_div_exact(k: nat, d: nat)
    requires
        d > 0,
    ensures
        round_div(k * d, d) == k,
{
    lemma_round_div_parts(k * d, d, k, 0);
}

/// Consecutive coarse indices are at least one apart whenever no more indices
/// are drawn than the grid has points.
proof fn lemma_coarse_step(j: nat, n: nat, grid_len: nat)
    requires
        2 <= n <= grid_len,
        j + 1 < n,
    ensures
        coarse_index(j, n, grid_len) + 1 <= coarse_index(j + 1, n, grid_len),
{
    let s = (grid_len - 1) as nat;
    let d = (n - 1) as nat;
    assert((j + 1) * s == j * s + s) by (nonlinear_arith);
    lemma_round_div_shift(j * s, d);
    lemma_round_div_monotone(j * s + d, (j + 1) * s, d);
}

/// Every coarse index lies on the grid; the last one is the grid's last point.
proof fn lemma_coarse_bounds(j: nat, n: nat, grid_len: nat)
    requires
        2 <= n <= grid_len,
        j < n,
    ensures
        coarse_index(j, n, grid_len) <= grid_len - 1,
        coarse_index((n - 1) as nat, n, grid_len) == grid_len - 1,
{
    let s = (grid_len - 1) as nat;
    let d = (n - 1) as nat;
    lemma_mul_inequality(j as int, d as int, s as int);
    assert(d * s == s * d) by (nonlinear_arith);
    lemma_round_div_exact(s, d);
    lemma_round_div_monotone(j * s, d * s, d);
}

/// Asking for at least as many coarse samples as the grid has points draws
/// every grid index: the `j`-th of `grid_len` indices is `j` itself.
pub proof fn lemma_coarse_full_grid(j: nat, grid_len: nat)
    requires
        2 <= grid_len,
        j < grid_len,
    ensures
        coarse_index(j, coarse_count(grid_len, grid_len), grid_len) == j,
{
    lemma_round_div_exact(j, (grid_len - 1) as nat);
}

/// Rounding to nearest, halves up: `q` is the rounded value of `p / d` exactly
/// when `p / d` lies in `[q - 1/2, q + 1/2)`.
pub proof fn lemma_round_div_nearest(p: nat, d: nat)
    requires
        d > 0,
    ensures
        2 * d * round_div(p, d) <= 2 * p + d,
        2 * p + d < 2 * d * round_div(p, d) + 2 * d,
{
    let q = round_div(p, d);
    lemma_fundamental_div_mod((2 * p + d) as int, (2 * d) as int);
    assert((2 * d) * q == 2 * d * q) by (nonlinear_arith);
}

/// The number of coarse indices is `n_coarse` clamped into `[1, grid_len]`:
/// exactly `n_coarse` whenever the grid has that many points, the whole grid
/// when more are asked for, and a single index when none are.
pub proof fn lemma_coarse_count_clamps(grid_len: nat, n_coarse: nat)
    requires
        grid_len >= 1,
    ensures
        1 <= n_coarse <= grid_len ==> coarse_count(grid_len, n_coarse) == n_coarse,
        n_coarse > grid_len ==> coarse_count(grid_len, n_coarse) == grid_len,
        n_coarse == 0 ==> coarse_count(grid_len, n_coarse) == 1,
{
}

/// Each coarse index is the grid point nearest to its evenly spaced position
/// `j * (grid_len - 1) / (n - 1)`, halves rounded up; with a single index it
/// is the first grid point.
pub proof fn lemma_coarse_index_nearest(j: nat, n: nat, grid_len: nat)
    requires
        grid_len >= 1,
    ensures
        n <= 1 ==> coarse_index(j, n, grid_len) == 0,
        n >= 2 ==> 2 * (n - 1) * coarse_index(j, n, grid_len) <= 2 * j * (grid_len - 1) + (n
            - 1),
        n >= 2 ==> 2 * j * (grid_len - 1) + (n - 1) < 2 * (n - 1) * coarse_index(j, n, grid_len)
            + 2 * (n - 1),
{
    if n >= 2 {
        let s = (grid_len - 1) as nat;
        let d = (n - 1) as nat;
        lemma_round_div_nearest(j * s, d);
        assert(2 * (j * s) == 2 * j * s) by (nonlinear_arith);
    }
}

/// Up to `n_coarse` evenly spaced grid indices (the coarse candidate set),
/// spanning the grid from its first to its last point.
///
/// The count is `n_coarse` clamped into `[1, grid_len]`; index `j` of `n` is
/// `j * (grid_len - 1) / (n - 1)` rounded to the nearest integer. Because the
/// count never exceeds the grid length, consecutive indices are at least one
/// apart, so the indices come out strictly increasing with no duplicates.
pub fn coarse_indices(grid_len: usize, n_coarse: usize) -> (idx: Vec<usize>)
    requires
        grid_len >= 1,
    ensures
        idx@.len() == coarse_count(grid_len as nat, n_coarse as nat),
        forall|j: int|
            0 <= j < idx@.len() ==> #[trigger] idx@[j] as nat == coarse_index(
                j as nat,
                idx@.len(),
                grid_len as nat,
            ),
        forall|i: int, k: int| 0 <= i < k < idx@.len() ==> idx@[i] < idx@[k],
        forall|j: int| 0 <= j < idx@.len() ==> #[trigger] idx@[j] < grid_len,
        idx@[0] == 0,
        idx@[idx@.len() - 1] == grid_len - 1 || idx@.len() == 1,
        1 <= n_coarse <= grid_len ==> idx@.len() == n_coarse,
        n_coarse > grid_len ==> idx@.len() == grid_len,
        n_coarse == 0 ==> idx@.len() == 1,
        forall|j: int|
            0 <= j < idx@.len() && idx@.len() >= 2 ==> 2 * (idx@.len() - 1) * (#[trigger] idx@[j])
                <= 2 * j * (grid_len - 1) + (idx@.len() - 1) && 2 * j * (grid_len - 1) + (
            idx@.len() - 1) < 2 * (idx@.len() - 1) * idx@[j] + 2 * (idx@.len() - 1),
{
    let n: usize = if n_coarse < 1 {
        1
    } else if n_coarse > grid_len {
        grid_len
    } else {
        n_coarse
    };
    if n == 1 {
        let mut one: Vec<usize> = Vec::new();
        one.push(0);
        return one;
    }
    let span: u128 = (grid_len - 1) as u128;
    let d: u128 = (n - 1) as u128;
    let mut idx: Vec<usize> = Vec::new();
    let mut j: usize = 0;
    while j < n
        invariant
            2 <= n <= grid_len,
            n as nat == coarse_count(grid_len as nat, n_coarse as nat),
            span == grid_len - 1,
            d == n - 1,
            j <= n,
            idx@.len() == j,
            forall|i: int|
                0 <= i < j ==> #[trigger] idx@[i] as nat == coarse_index(
                    i as nat,
                    n as nat,
                    grid_len as nat,
                ),
            forall|i: int, k: int| 0 <= i < k < j ==> idx@[i] < idx@[k],
            forall|i: int| 0 <= i < j ==> #[trigger] idx@[i] < grid_len,
        decreases n - j,
    {
        proof {
            assert(j * span <= (n - 1) * span) by (nonlinear_arith)
                requires
                    j < n,
            ;
            assert((n - 1) * span <= 0xffff_ffff_ffff_ffff * 0xffff_ffff_ffff_ffffu128)
                by (nonlinear_arith)
                requires
                    n - 1 <= 0xffff_ffff_ffff_ffff,
                    span <= 0xffff_ffff_ffff_ffff,
            ;
        }
        let p: u128 = (j as u128) * span;
        let q: u128 = p / d;
        let r: u128 = p % d;
        let up: bool = r >= d - r;
        proof {
            lemma_fundamental_div_mod(p as int, d as int);
            assert(p == q * d + r) by (nonlinear_arith)
                requires
                    p == d * (p / d) + p % d,
                    q == p / d,
                    r == p % d,
            ;
            lemma_round_div_parts(p as nat, d as nat, q as nat, r as nat);
            lemma_coarse_bounds(j as nat, n as nat, grid_len as nat);
            if j > 0 {
                lemma_coarse_step((j - 1) as nat, n as nat, grid_len as nat);
            }
        }
        let value: u128 = if up {
            q + 1
        } else {
            q
        };
        assert(value == coarse_index(j as nat, n as nat, grid_len as nat));
        let ghost before = idx@;
        idx.push(value as usize);
        assert forall|i: int, k: int| 0 <= i < k < j + 1 implies idx@[i] < idx@[k] by {
            if k == j as int && i < j - 1 {
                assert(before[i] < before[j - 1]);
            }
        }
        j = j + 1;
    }
    proof {
        lemma_coarse_bounds(0, n as nat, grid_len as nat);
        assert(coarse_index(0, n as nat, grid_len as nat) == 0) by {
            lemma_round_div_parts(0, (n - 1) as nat, 0, 0);
        }
        lemma_coarse_count_clamps(grid_len as nat, n_coarse as nat);
        assert forall|j: int| 0 <= j < idx@.len() && idx@.len() >= 2 implies 2 * (idx@.len() - 1)
            * (#[trigger] idx@[j]) <= 2 * j * (grid_len - 1) + (idx@.len() - 1) && 2 * j * (
        grid_len - 1) + (idx@.len() - 1) < 2 * (idx@.len() - 1) * idx@[j] + 2 * (idx@.len() - 1) by {
            lemma_coarse_index_nearest(j as nat, n as nat, grid_len as nat);
        }
    }
    idx
}

} // verus!
