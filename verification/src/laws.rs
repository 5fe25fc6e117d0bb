use vstd::prelude::*;
use crate::cells::{CellModel, cell_le};
use crate::chunk::Chunk;
use crate::pipeline::{Pipeline, chunk_of_rows};
use crate::sort::{apply_perm, is_stable_sort_perm, keys_of, lemma_apply_perm_multiset};
use crate::tables::IntoRowGroups;

verus! {

/// Row-count conservation: at every moment, the rows a pipeline has
/// processed are exactly the rows already emitted to the writer plus the
/// rows still buffered in its accumulator; after `close`, whose contract
/// forces `emitted == pushed`, nothing buffered is lost.
pub proof fn lemma_row_count_conservation<T: IntoRowGroups>(p: &Pipeline<T>)
    requires
        p.wf(),
    ensures
        p.pushed() == p.emitted() + p.acc_rows().len(),
{
}

/// Row conservation, row by row: at every moment, the rows emitted to the
/// writer together with the rows still buffered in the accumulator are
/// exactly the rows the pipeline has processed — the same multiset, nothing
/// lost, nothing invented, nothing duplicated.
pub proof fn lemma_row_conservation_by_content<T: IntoRowGroups>(p: &Pipeline<T>)
    requires
        p.wf(),
    ensures
        p.emitted_rows().add(p.acc_rows().to_multiset()) == p.history().to_multiset(),
        p.pushed() == p.history().len(),
{
}

/// Row correspondence under sort: every position of a sorted batch holds
/// one whole input row — all column values at one output position originate
/// from the same input row — and no input row lands in two positions.
pub proof fn lemma_row_correspondence(rows: Seq<Seq<CellModel>>, perm: Seq<int>, k: int)
    requires
        is_stable_sort_perm(perm, keys_of(rows, k)),
    ensures
        apply_perm(rows, perm).len() == rows.len(),
        forall|i: int|
            0 <= i < rows.len() ==> 0 <= perm[i] < rows.len() && apply_perm(rows, perm)[i]
                == rows[perm[i]],
        forall|i: int, j: int| 0 <= i < j < rows.len() ==> perm[i] != perm[j],
{
}

/// Sort order: across one sorted batch the designated key column is
/// non-decreasing under the cell order — heights ascending for the block
/// kind, identifiers in lexical order for the derived kinds, absent keys
/// last.
pub proof fn lemma_sort_order(rows: Seq<Seq<CellModel>>, perm: Seq<int>, k: int)
    requires
        is_stable_sort_perm(perm, keys_of(rows, k)),
    ensures
        forall|a: int, b: int|
            0 <= a < b < perm.len() ==> cell_le(
                #[trigger] keys_of(apply_perm(rows, perm), k)[a],
                #[trigger] keys_of(apply_perm(rows, perm), k)[b],
            ),
{
    assert forall|a: int, b: int| 0 <= a < b < perm.len() implies cell_le(
        #[trigger] keys_of(apply_perm(rows, perm), k)[a],
        #[trigger] keys_of(apply_perm(rows, perm), k)[b],
    ) by {
        assert(keys_of(apply_perm(rows, perm), k)[a] == keys_of(rows, k)[perm[a]]);
        assert(keys_of(apply_perm(rows, perm), k)[b] == keys_of(rows, k)[perm[b]]);
    }
}

/// Stability: rows with equal keys keep their original relative order
/// through the sort.
pub proof fn lemma_sort_stability(rows: Seq<Seq<CellModel>>, perm: Seq<int>, k: int)
    requires
        is_stable_sort_perm(perm, keys_of(rows, k)),
    ensures
        forall|a: int, b: int|
            0 <= a < b < perm.len() && keys_of(rows, k)[#[trigger] perm[a]] == keys_of(rows, k)[
                #[trigger] perm[b]
            ] ==> perm[a] < perm[b],
{
    assert forall|a: int, b: int|
        0 <= a < b < perm.len() && keys_of(rows, k)[#[trigger] perm[a]] == keys_of(rows, k)[
            #[trigger] perm[b]
        ] implies perm[a] < perm[b] by {
        crate::cells::lemma_cell_le_total(keys_of(rows, k)[perm[a]], keys_of(rows, k)[perm[b]]);
    }
}

/// Row conservation through the sort, row by row: an emitted chunk holds
/// exactly the rows of the batch it came from — nothing lost, nothing
/// invented, nothing duplicated — only reordered.
pub proof fn lemma_chunk_holds_the_batch<T: IntoRowGroups>(c: Chunk, rows: Seq<Seq<CellModel>>)
    requires
        chunk_of_rows::<T>(c, rows),
    ensures
        c.rows().to_multiset() =~= rows.to_multiset(),
{
    let perm = choose|perm: Seq<int>|
        #![auto]
        is_stable_sort_perm(perm, keys_of(rows, T::spec_key_col())) && c.rows() == apply_perm(
            rows,
            perm,
        );
    assert(keys_of(rows, T::spec_key_col()).len() == rows.len());
    lemma_apply_perm_multiset(rows, perm);
}

} // verus!
