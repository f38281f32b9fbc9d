//! Candidate-time index sets: grid indices kept sorted and free of repeats.

use vstd::prelude::*;

verus! {

/// `s` is strictly increasing (hence sorted and free of repeats).
pub open spec fn strictly_increasing(s: Seq<usize>) -> bool {
    forall|i: int, k: int| 0 <= i < k < s.len() ==> s[i] < s[k]
}

/// The indices of `values`, sorted ascending with repeats removed.
pub fn sorted_unique(values: &[usize]) -> (out: Vec<usize>)
    ensures
        strictly_increasing(out@),
        forall|x: usize| out@.contains(x) <==> values@.contains(x),
{
    let mut out: Vec<usize> = Vec::new();
    let mut i: usize = 0;
    while i < values.len()
        invariant
            i <= values.len(),
            strictly_increasing(out@),
            forall|x: usize| out@.contains(x) <==> values@.subrange(0, i as int).contains(x),
        decreases values.len() - i,
    {
        let x = values[i];
        let mut pos: usize = 0;
        while pos < out.len() && out[pos] < x
            invariant
                pos <= out.len(),
                forall|q: int| 0 <= q < pos ==> out@[q] < x,
            decreases out.len() - pos,
        {
            pos = pos + 1;
        }
        let ghost before = out@;
        let ghost prefix = values@.subrange(0, i as int);
        let ghost next = values@.subrange(0, i as int + 1);
        assert(next =~= prefix.push(x));
        if pos < out.len() && out[pos] == x {
            assert forall|y: usize| out@.contains(y) <==> next.contains(y) by {
                if next.contains(y) {
                    let w = choose|w: int| 0 <= w < next.len() && next[w] == y;
                    if w < prefix.len() {
                        assert(prefix[w] == y);
                    } else {
                        assert(out@[pos as int] == y);
                    }
                }
                if out@.contains(y) {
                    assert(prefix.contains(y));
                    let w = choose|w: int| 0 <= w < prefix.len() && prefix[w] == y;
                    assert(next[w] == y);
                }
            }
        } else {
            out.insert(pos, x);
            assert(out@ =~= before.subrange(0, pos as int).push(x) + before.subrange(
                pos as int,
                before.len() as int,
            ));
            assert forall|a: int, b: int| 0 <= a < b < out@.len() implies out@[a] < out@[b] by {
                if b < pos {
                } else if b == pos {
                    assert(out@[a] == before[a]);
                } else if a < pos {
                    assert(out@[b] == before[b - 1]);
                    assert(before[pos as int] > x);
                    if b - 1 > pos {
                        assert(before[pos as int] < before[b - 1]);
                    }
                } else if a == pos {
                    assert(out@[b] == before[b - 1]);
                    if b - 1 > pos {
                        assert(before[pos as int] < before[b - 1]);
                    }
                } else {
                    assert(out@[a] == before[a - 1]);
                    assert(out@[b] == before[b - 1]);
                }
            }
            assert forall|y: usize| out@.contains(y) <==> next.contains(y) by {
                if next.contains(y) {
                    let w = choose|w: int| 0 <= w < next.len() && next[w] == y;
                    if w < prefix.len() {
                        assert(prefix[w] == y);
                        assert(before.contains(y));
                        let v = choose|v: int| 0 <= v < before.len() && before[v] == y;
                        if v < pos {
                            assert(out@[v] == y);
                        } else {
                            assert(out@[v + 1] == y);
                        }
                    } else {
                        assert(out@[pos as int] == y);
                    }
                }
                if out@.contains(y) {
                    let v = choose|v: int| 0 <= v < out@.len() && out@[v] == y;
                    if v == pos {
                        assert(next[i as int] == y);
                    } else {
                        if v < pos {
                            assert(before[v] == y);
                        } else {
                            assert(before[v - 1] == y);
                        }
                        assert(before.contains(y));
                        assert(prefix.contains(y));
                        let w = choose|w: int| 0 <= w < prefix.len() && prefix[w] == y;
                        assert(next[w] == y);
                    }
                }
            }
        }
        i = i + 1;
    }
    assert(values@.subrange(0, values@.len() as int) =~= values@);
    out
}

/// A sorted, repeat-free index list is determined by its elements: two
/// strictly increasing sequences holding the same elements are equal. So the
/// normalized form of an index set is canonical, and normalizing an already
/// normalized list gives it back unchanged.
pub proof fn lemma_strictly_increasing_canonical(a: Seq<usize>, b: Seq<usize>)
    requires
        strictly_increasing(a),
        strictly_increasing(b),
        forall|x: usize| a.contains(x) <==> b.contains(x),
    ensures
        a == b,
    decreases a.len(),
{
    if a.len() == 0 {
        if b.len() > 0 {
            assert(b.contains(b[0]));
        }
        assert(a =~= b);
    } else {
        assert(a.contains(a[0]));
        assert(b.len() > 0);
        assert(b.contains(b[0]));
        let ia = choose|i: int| 0 <= i < a.len() && a[i] == b[0];
        let ib = choose|i: int| 0 <= i < b.len() && b[i] == a[0];
        if ia > 0 {
            assert(a[0] < a[ia]);
        }
        if ib > 0 {
            assert(b[0] < b[ib]);
        }
        assert(a[0] == b[0]);
        let ta = a.drop_first();
        let tb = b.drop_first();
        assert forall|x: usize| ta.contains(x) <==> tb.contains(x) by {
            if ta.contains(x) {
                let i = choose|i: int| 0 <= i < ta.len() && ta[i] == x;
                assert(a[i + 1] == x);
                assert(a[0] < a[i + 1]);
                assert(a.contains(x));
                let j = choose|j: int| 0 <= j < b.len() && b[j] == x;
                assert(j != 0);
                assert(tb[j - 1] == x);
            }
            if tb.contains(x) {
                let i = choose|i: int| 0 <= i < tb.len() && tb[i] == x;
                assert(b[i + 1] == x);
                assert(b[0] < b[i + 1]);
                assert(b.contains(x));
                let j = choose|j: int| 0 <= j < a.len() && a[j] == x;
                assert(j != 0);
                assert(ta[j - 1] == x);
            }
        }
        assert(strictly_increasing(ta)) by {
            assert forall|i: int, k: int| 0 <= i < k < ta.len() implies ta[i] < ta[k] by {
                assert(a[i + 1] < a[k + 1]);
            }
        }
        assert(strictly_increasing(tb)) by {
            assert forall|i: int, k: int| 0 <= i < k < tb.len() implies tb[i] < tb[k] by {
                assert(b[i + 1] < b[k + 1]);
            }
        }
        lemma_strictly_increasing_canonical(ta, tb);
        assert(a =~= seq![a[0]] + ta);
        assert(b =~= seq![b[0]] + tb);
    }
}

} // verus!
