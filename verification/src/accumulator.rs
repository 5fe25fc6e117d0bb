use vstd::prelude::*;
use crate::cells::{CellModel, CellValue};
use crate::chunk::Chunk;
use crate::columns::ColumnData;
use crate::error::Error;
use crate::schema::SchemaDescriptor;
use crate::schema::PhysicalType;
use crate::sort::{apply_perm, cell_views, idxs, is_stable_sort_perm, keys_of, stable_sort_perm,
    uniform_keys};

verus! {

/// A row's cells line up with a list of column types, type for type.
pub open spec fn row_matches(cells: Seq<CellModel>, tys: Seq<PhysicalType>) -> bool {
    &&& cells.len() == tys.len()
    &&& forall|j: int| 0 <= j < cells.len() ==> (#[trigger] cells[j]).ty() == tys[j]
}

/// One record kind's in-memory batch: one column buffer per schema field,
/// all of one length, plus the field designated as the sort key.
pub struct RowGroupAccumulator {
    columns: Vec<ColumnData>,
    key_col: usize,
    len: usize,
}

impl RowGroupAccumulator {
    /// The columns of the batch.
    pub closed spec fn columns_seq(&self) -> Seq<ColumnData> {
        self.columns@
    }

    /// The position of the sort-key column.
    pub closed spec fn spec_key_col(&self) -> int {
        self.key_col as int
    }

    /// Rows accumulated so far.
    pub closed spec fn num_rows(&self) -> int {
        self.len as int
    }

    /// Number of columns.
    pub open spec fn num_cols(&self) -> int {
        self.columns_seq().len() as int
    }

    /// At least one column, all well formed, all of the one shared length,
    /// and a sort-key position inside the schema.
    pub open spec fn wf(&self) -> bool {
        &&& self.num_cols() > 0
        &&& self.spec_key_col() < self.num_cols()
        &&& forall|j: int| 0 <= j < self.num_cols() ==> (#[trigger] self.columns_seq()[j]).wf()
        &&& forall|j: int|
            0 <= j < self.num_cols() ==> (#[trigger] self.columns_seq()[j]).num_rows()
                == self.num_rows()
    }

    /// The physical type of each column, in order.
    pub open spec fn col_types(&self) -> Seq<PhysicalType> {
        self.columns_seq().map_values(|c: ColumnData| c.col_type())
    }

    /// The batch as a sequence of rows.
    pub open spec fn rows(&self) -> Seq<Seq<CellModel>> {
        Seq::new(
            self.num_rows() as nat,
            |i: int| Seq::new(self.num_cols() as nat, |j: int| self.columns_seq()[j].cells()[i]),
        )
    }

    /// An empty batch shaped by a schema, sorting on column `key_col`.
    pub fn new(schema: &SchemaDescriptor, key_col: usize) -> (a: Self)
        requires
            schema@.len() > 0,
            key_col < schema@.len(),
        ensures
            a.wf(),
            a.num_rows() == 0,
            a.rows() == Seq::<Seq<CellModel>>::empty(),
            a.col_types() == schema@.map_values(|f: crate::schema::FieldModel| f.ty),
            a.spec_key_col() == key_col,
    {
        let n = schema.len();
        let mut columns: Vec<ColumnData> = Vec::new();
        let mut j: usize = 0;
        while j < n
            invariant
                j <= n,
                n == schema@.len(),
                columns@.len() == j as int,
                forall|k: int| 0 <= k < j ==> (#[trigger] columns@[k]).wf(),
                forall|k: int| 0 <= k < j ==> (#[trigger] columns@[k]).num_rows() == 0,
                forall|k: int|
                    0 <= k < j ==> (#[trigger] columns@[k]).col_type() == schema@[k].ty,
            decreases n - j,
        {
            let f = schema.field(j);
            columns.push(ColumnData::new(f.ty));
            j = j + 1;
        }
        let a = RowGroupAccumulator { columns, key_col, len: 0 };
        proof {
            assert(a.rows() =~= Seq::<Seq<CellModel>>::empty());
            assert(a.col_types() =~= schema@.map_values(|f: crate::schema::FieldModel| f.ty));
        }
        a
    }

    /// Rows accumulated so far.
    pub fn len(&self) -> (n: usize)
        ensures
            n as int == self.num_rows(),
    {
        self.len
    }

    /// Appends one decomposed record: every column receives exactly one
    /// cell, in schema order.  A row whose cells do not line up with the
    /// column types, type for type, is refused whole and the batch left
    /// unchanged.
    pub fn push_row(&mut self, row: Vec<CellValue>) -> (r: Result<usize, Error>)
        requires
            old(self).wf(),
            old(self).num_rows() < usize::MAX,
        ensures
            final(self).wf(),
            final(self).col_types() == old(self).col_types(),
            final(self).spec_key_col() == old(self).spec_key_col(),
            row_matches(cell_views(row@), old(self).col_types()) ==> {
                &&& r is Ok
                &&& r matches Ok(n) && n as int == old(self).num_rows() + 1
                &&& final(self).rows() == old(self).rows().push(cell_views(row@))
            },
            !row_matches(cell_views(row@), old(self).col_types()) ==> {
                &&& r matches Err(Error::SchemaInvariant(_))
                &&& *final(self) == *old(self)
            },
    {
        let ghost pre = *self;
        let ghost rowv = cell_views(row@);
        if row.len() != self.columns.len() {
            return Result::Err(
                Error::SchemaInvariant("row does not match the schema width".to_owned()),
            );
        }
        let ncols = self.columns.len();
        let mut j: usize = 0;
        while j < ncols
            invariant
                j <= ncols,
                *self == pre,
                ncols as int == self.num_cols(),
                row@.len() == ncols as int,
                rowv == cell_views(row@),
                self.wf(),
                forall|k: int| 0 <= k < j ==> (#[trigger] rowv[k]).ty() == self.col_types()[k],
            decreases ncols - j,
        {
            proof {
                assert(rowv[j as int] == row@[j as int]@);
                assert(self.col_types()[j as int] == self.columns_seq()[j as int].col_type());
            }
            if row[j].ty() != self.columns[j].ty() {
                return Result::Err(
                    Error::SchemaInvariant("cell does not match its column type".to_owned()),
                );
            }
            j = j + 1;
        }
        proof {
            assert(row_matches(rowv, self.col_types()));
        }
        // every cell checked; now append one cell to each column in order
        let ghost cols0 = self.columns@;
        let mut j: usize = 0;
        while j < ncols
            invariant
                j <= ncols,
                ncols as int == cols0.len(),
                self.columns@.len() == cols0.len(),
                self.key_col == pre.key_col,
                self.len == pre.len,
                row@.len() == ncols as int,
                rowv == cell_views(row@),
                row_matches(rowv, pre.col_types()),
                cols0 == pre.columns@,
                forall|k: int| 0 <= k < cols0.len() ==> (#[trigger] cols0[k]).wf(),
                forall|k: int|
                    0 <= k < rowv.len() ==> (#[trigger] rowv[k]).ty() == cols0[k].col_type(),
                forall|k: int| j <= k < cols0.len() ==> #[trigger] self.columns@[k] == cols0[k],
                forall|k: int| 0 <= k < j ==> (#[trigger] self.columns@[k]).wf(),
                forall|k: int|
                    0 <= k < j ==> (#[trigger] self.columns@[k]).col_type()
                        == cols0[k].col_type(),
                forall|k: int|
                    0 <= k < j ==> (#[trigger] self.columns@[k]).cells() == cols0[k].cells().push(
                        rowv[k],
                    ),
            decreases ncols - j,
        {
            let cell = row[j].duplicate();
            proof {
                assert(cell@ == rowv[j as int]);
            }
            let ghost colsj = self.columns@;
            let mut col = self.columns.remove(j);
            proof {
                assert(col == cols0[j as int]);
            }
            let res = col.append_cell(cell);
            self.columns.insert(j, col);
            proof {
                assert(self.columns@ =~= colsj.update(j as int, col));
            }
            match res {
                Result::Ok(()) => {},
                Result::Err(e) => {
                    return Result::Err(e);
                },
            }
            j = j + 1;
        }
        self.len = self.len + 1;
        proof {
            assert forall|i: int| 0 <= i < self.rows().len() implies self.rows()[i] =~= (pre.rows().push(
                rowv,
            ))[i] by {
                if i < pre.num_rows() {
                    assert forall|k: int| 0 <= k < self.num_cols() implies self.rows()[i][k]
                        == pre.rows()[i][k] by {
                        assert(self.columns@[k].cells() == cols0[k].cells().push(rowv[k]));
                    }
                } else {
                    assert forall|k: int| 0 <= k < self.num_cols() implies self.rows()[i][k]
                        == rowv[k] by {
                        assert(self.columns@[k].cells() == cols0[k].cells().push(rowv[k]));
                    }
                }
            }
            assert(self.rows() =~~= pre.rows().push(rowv));
            assert forall|k: int| 0 <= k < self.num_cols() implies self.col_types()[k]
                == pre.col_types()[k] by {
                assert(self.columns@[k].cells() == cols0[k].cells().push(rowv[k]));
                assert(self.columns@[k].col_type() == cols0[k].col_type());
            }
            assert(self.col_types() =~= pre.col_types());
        }
        Result::Ok(self.len)
    }

    /// Sorts the batch by its key column — ascending, stable, absent keys
    /// last — applies the one shared permutation to every column, and hands
    /// back the materialized chunk.
    pub fn sorted_chunk(self) -> (c: Chunk)
        requires
            self.wf(),
        ensures
            c.wf(),
            c.num_rows() == self.num_rows(),
            c.col_types() == self.col_types(),
            exists|perm: Seq<int>|
                #![auto]
                is_stable_sort_perm(perm, keys_of(self.rows(), self.spec_key_col()))
                    && c.rows() == apply_perm(self.rows(), perm),
    {
        let nrows = self.len;
        let mut keys: Vec<CellValue> = Vec::new();
        let key_column = &self.columns[self.key_col];
        let mut i: usize = 0;
        while i < nrows
            invariant
                i <= nrows,
                self.wf(),
                nrows as int == self.num_rows(),
                key_column == &self.columns_seq()[self.spec_key_col()],
                keys@.len() == i as int,
                forall|k: int| 0 <= k < i ==> (#[trigger] keys@[k])@ == key_column.cells()[k],
            decreases nrows - i,
        {
            keys.push(key_column.get_cell(i));
            i = i + 1;
        }
        proof {
            assert(cell_views(keys@) =~= keys_of(self.rows(), self.spec_key_col())) by {
                assert forall|k: int| 0 <= k < nrows as int implies keys_of(
                    self.rows(),
                    self.spec_key_col(),
                )[k] == cell_views(keys@)[k] by {
                    assert(self.rows()[k][self.spec_key_col()] == self.columns_seq()[self.spec_key_col()].cells()[k]);
                }
            }
            key_column.lemma_cells_typed();
            assert(uniform_keys(cell_views(keys@)));
        }
        let perm = stable_sort_perm(&keys);
        let ghost permi = idxs(perm@);
        proof {
            assert(keys_of(self.rows(), self.spec_key_col()).len() == self.num_rows());
            assert forall|k: int| 0 <= k < perm@.len() implies #[trigger] perm@[k]
                < self.num_rows() by {
                assert(permi[k] == perm@[k] as int);
            }
        }
        let ncols = self.columns.len();
        let mut sorted: Vec<ColumnData> = Vec::new();
        let mut j: usize = 0;
        while j < ncols
            invariant
                j <= ncols,
                self.wf(),
                ncols as int == self.num_cols(),
                permi == idxs(perm@),
                perm@.len() == self.num_rows(),
                forall|k: int| 0 <= k < perm@.len() ==> #[trigger] perm@[k] < self.num_rows(),
                sorted@.len() == j as int,
                forall|k: int| 0 <= k < j ==> (#[trigger] sorted@[k]).wf(),
                forall|k: int|
                    0 <= k < j ==> (#[trigger] sorted@[k]).col_type()
                        == self.columns_seq()[k].col_type(),
                forall|k: int| 0 <= k < j ==> (#[trigger] sorted@[k]).num_rows() == perm@.len(),
                forall|k: int, i2: int|
                    0 <= k < j && 0 <= i2 < perm@.len() ==> (#[trigger] sorted@[k].cells()[i2])
                        == self.columns_seq()[k].cells()[perm@[i2] as int],
            decreases ncols - j,
        {
            let col = self.columns[j].permuted(&perm);
            sorted.push(col);
            j = j + 1;
        }
        let c = Chunk::from_columns(sorted);
        proof {
            assert(c.rows() =~~= apply_perm(self.rows(), permi));
            assert(c.col_types() =~= self.col_types());
        }
        c
    }
}

} // verus!
