use vstd::prelude::*;
use crate::cells::{CellModel, CellValue, cell_le, cell_le_exec, lemma_cell_le_total,
    lemma_cell_le_trans};

verus! {

/// The models of a vector of cells.
pub open spec fn cell_views(s: Seq<CellValue>) -> Seq<CellModel> {
    s.map_values(|c: CellValue| c@)
}

/// A vector of indices, as mathematical integers.
pub open spec fn idxs(perm: Seq<usize>) -> Seq<int> {
    perm.map_values(|u: usize| u as int)
}

/// `perm` lists each position of `0..n` exactly once.
pub open spec fn is_perm_of(perm: Seq<int>, n: int) -> bool {
    &&& perm.len() == n
    &&& forall|i: int| 0 <= i < n ==> 0 <= #[trigger] perm[i] < n
    &&& forall|i: int, j: int| 0 <= i < j < n ==> perm[i] != perm[j]
}

/// All keys share one physical type.
pub open spec fn uniform_keys(keys: Seq<CellModel>) -> bool {
    forall|i: int, j: int|
        0 <= i < keys.len() && 0 <= j < keys.len() ==> (#[trigger] keys[i]).ty() == (
        #[trigger] keys[j]).ty()
}

/// Walking `perm` visits the keys in ascending `cell_le` order, and rows
/// with equal keys in their original relative order.
pub open spec fn stable_ordered(perm: Seq<int>, keys: Seq<CellModel>) -> bool {
    forall|i: int, j: int|
        0 <= i < j < perm.len() ==> {
            &&& cell_le(keys[#[trigger] perm[i]], keys[#[trigger] perm[j]])
            &&& (cell_le(keys[perm[j]], keys[perm[i]]) ==> perm[i] < perm[j])
        }
}

/// `perm` is the unique stable-sort permutation of `keys`.
pub open spec fn is_stable_sort_perm(perm: Seq<int>, keys: Seq<CellModel>) -> bool {
    is_perm_of(perm, keys.len() as int) && stable_ordered(perm, keys)
}

/// The sequence reordered by a permutation: position `k` of the result holds
/// position `perm[k]` of the input.
pub open spec fn apply_perm<A>(s: Seq<A>, perm: Seq<int>) -> Seq<A> {
    Seq::new(perm.len(), |i: int| s[perm[i]])
}

/// The sort key of each row: its cell in column `k`.
pub open spec fn keys_of(rows: Seq<Seq<CellModel>>, k: int) -> Seq<CellModel> {
    rows.map_values(|r: Seq<CellModel>| r[k])
}

/// A permutation of `0..n` visits every position.
pub proof fn lemma_perm_covers(perm: Seq<int>, n: int)
    requires
        is_perm_of(perm, n),
    ensures
        forall|v: int| 0 <= v < n ==> perm.contains(v),
{
    broadcast use vstd::seq_lib::seq_to_set_is_finite;

    let vals = perm.to_set();
    let range = vstd::set_lib::set_int_range(0, n);
    assert(perm.no_duplicates());
    perm.unique_seq_to_set();
    vstd::set_lib::lemma_int_range(0, n);
    assert(vals.subset_of(range)) by {
        assert forall|a: int| vals.contains(a) implies range.contains(a) by {
            let i = choose|i: int| 0 <= i < perm.len() && perm[i] == a;
            assert(0 <= perm[i] < n);
        }
    }
    vstd::set_lib::lemma_subset_equality(vals, range);
    assert forall|v: int| 0 <= v < n implies perm.contains(v) by {
        assert(range.contains(v));
        assert(vals.contains(v));
    }
}

/// Reordering by a permutation neither loses, invents nor duplicates an
/// element: the result is the same multiset.
pub proof fn lemma_apply_perm_multiset<A>(s: Seq<A>, perm: Seq<int>)
    requires
        is_perm_of(perm, s.len() as int),
    ensures
        apply_perm(s, perm).to_multiset() =~= s.to_multiset(),
    decreases s.len(),
{
    broadcast use vstd::seq_lib::group_to_multiset_ensures;
    broadcast use vstd::multiset::group_multiset_axioms;

    let n = s.len() as int;
    let out = apply_perm(s, perm);
    if n == 0 {
        assert(out =~= s);
    } else {
        lemma_perm_covers(perm, n);
        assert(perm.contains(n - 1));
        let j = choose|j: int| 0 <= j < perm.len() && perm[j] == n - 1;
        let perm2 = perm.remove(j);
        let s2 = s.drop_last();
        assert forall|i: int| 0 <= i < n - 1 implies 0 <= #[trigger] perm2[i] < n - 1 by {
            if i < j {
                assert(perm2[i] == perm[i]);
                assert(perm[i] != perm[j]);
            } else {
                assert(perm2[i] == perm[i + 1]);
                assert(perm[i + 1] != perm[j]);
            }
        }
        assert forall|i: int, k: int| 0 <= i < k < n - 1 implies perm2[i] != perm2[k] by {
            if k < j {
            } else if i < j {
                assert(perm2[i] == perm[i] && perm2[k] == perm[k + 1]);
            } else {
                assert(perm2[i] == perm[i + 1] && perm2[k] == perm[k + 1]);
            }
        }
        assert(is_perm_of(perm2, n - 1));
        lemma_apply_perm_multiset(s2, perm2);
        assert(out.remove(j) =~= apply_perm(s2, perm2)) by {
            assert forall|i: int| 0 <= i < n - 1 implies out.remove(j)[i] == apply_perm(
                s2,
                perm2,
            )[i] by {
                if i < j {
                    assert(out.remove(j)[i] == out[i]);
                    assert(perm2[i] == perm[i]);
                } else {
                    assert(out.remove(j)[i] == out[i + 1]);
                    assert(perm2[i] == perm[i + 1]);
                }
                assert(0 <= perm2[i] < n - 1);
                assert(s2[perm2[i]] == s[perm2[i]]);
            }
        }
        assert(out.remove(j).to_multiset() =~= out.to_multiset().remove(out[j]));
        assert(out[j] == s.last());
        assert(s =~= s2.push(s.last()));
        assert(s.to_multiset() =~= s2.to_multiset().insert(s.last()));
        assert(out.contains(s.last()));
        assert(out.to_multiset().count(s.last()) > 0);
        assert(out.to_multiset() =~= out.to_multiset().remove(s.last()).insert(s.last()));
        assert(out.to_multiset() =~= s2.to_multiset().insert(s.last()));
    }
}

/// Computes the stable-sort permutation of `keys` under the `cell_le`
/// order, by insertion in original index order.
pub fn stable_sort_perm(keys: &Vec<CellValue>) -> (perm: Vec<usize>)
    requires
        uniform_keys(cell_views(keys@)),
    ensures
        is_stable_sort_perm(idxs(perm@), cell_views(keys@)),
{
    let ghost kv = cell_views(keys@);
    let n = keys.len();
    let mut perm: Vec<usize> = Vec::new();
    let mut idx: usize = 0;
    while idx < n
        invariant
            idx <= n,
            n == keys@.len(),
            uniform_keys(kv),
            kv == cell_views(keys@),
            kv.len() == n as int,
            is_perm_of(idxs(perm@), idx as int),
            stable_ordered(idxs(perm@), kv),
            forall|j: int| 0 <= j < perm@.len() ==> #[trigger] perm@[j] < idx,
        decreases n - idx,
    {
        let ghost p0 = idxs(perm@);
        let mut pos: usize = 0;
        while pos < perm.len() && cell_le_exec(&keys[perm[pos]], &keys[idx])
            invariant
                pos <= perm@.len(),
                idx < n,
                n == keys@.len(),
                kv == cell_views(keys@),
                kv.len() == n as int,
                p0 == idxs(perm@),
                is_perm_of(p0, idx as int),
                forall|j: int| 0 <= j < perm@.len() ==> #[trigger] perm@[j] < idx,
                forall|j: int| 0 <= j < pos ==> cell_le(kv[#[trigger] p0[j]], kv[idx as int]),
            decreases perm@.len() - pos,
        {
            pos = pos + 1;
        }
        proof {
            assert(pos < p0.len() ==> !cell_le(kv[p0[pos as int]], kv[idx as int]));
        }
        perm.insert(pos, idx);
        proof {
            let p1 = idxs(perm@);
            assert(p1 =~= p0.insert(pos as int, idx as int));
            // p1 lists 0..idx+1 exactly once
            assert forall|i: int| 0 <= i < idx as int + 1 implies 0 <= #[trigger] p1[i] < idx
                as int + 1 by {
                if i < pos {
                } else if i == pos {
                } else {
                    assert(p1[i] == p0[i - 1]);
                }
            }
            assert forall|i: int, j: int| 0 <= i < j < idx as int + 1 implies p1[i] != p1[j] by {
                if j < pos {
                } else if i > pos {
                    assert(p1[i] == p0[i - 1] && p1[j] == p0[j - 1]);
                } else if i < pos && j == pos {
                    assert(p1[i] == p0[i] && p1[j] == idx);
                } else if i < pos && j > pos {
                    assert(p1[i] == p0[i] && p1[j] == p0[j - 1]);
                } else if i == pos {
                    assert(p1[i] == idx && p1[j] == p0[j - 1]);
                }
            }
            assert(is_perm_of(p1, idx as int + 1));
            // the new entry is ordered against everything after `pos`
            assert forall|j: int| pos as int <= j < p0.len() implies cell_le(
                kv[idx as int],
                kv[#[trigger] p0[j]],
            ) && !cell_le(kv[p0[j]], kv[idx as int]) by {
                lemma_cell_le_total(kv[p0[pos as int]], kv[idx as int]);
                if j > pos {
                    lemma_cell_le_trans(kv[idx as int], kv[p0[pos as int]], kv[p0[j]]);
                    if cell_le(kv[p0[j]], kv[idx as int]) {
                        lemma_cell_le_trans(kv[p0[pos as int]], kv[p0[j]], kv[idx as int]);
                    }
                }
            }
            assert forall|i: int, j: int| 0 <= i < j < p1.len() implies cell_le(
                kv[#[trigger] p1[i]],
                kv[#[trigger] p1[j]],
            ) && (cell_le(kv[p1[j]], kv[p1[i]]) ==> p1[i] < p1[j]) by {
                if i < pos && j < pos {
                    assert(p1[i] == p0[i] && p1[j] == p0[j]);
                } else if i < pos && j == pos {
                    assert(p1[i] == p0[i] && p1[j] == idx);
                } else if i < pos && j > pos {
                    assert(p1[i] == p0[i] && p1[j] == p0[j - 1]);
                } else if i == pos {
                    assert(p1[i] == idx && p1[j] == p0[j - 1]);
                } else {
                    assert(p1[i] == p0[i - 1] && p1[j] == p0[j - 1]);
                }
            }
            assert(stable_ordered(p1, kv));
        }
        idx = idx + 1;
    }
    perm
}

} // verus!
