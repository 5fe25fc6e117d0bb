use vstd::prelude::*;
use crate::cells::{CellModel, CellValue, opt_text_view};
use crate::column::{ColumnBuffer, Dup};
use crate::error::Error;
use crate::schema::PhysicalType;

verus! {

broadcast use ColumnBuffer::lemma_cells_len;

/// One column of a row group: a column buffer of one of the four physical
/// types.  The match at each use is the defensive dispatch point; the engine
/// proves that its own pushes never reach a mismatching arm.
#[derive(Debug)]
pub enum ColumnData {
    Text(ColumnBuffer<String>),
    Int32(ColumnBuffer<i32>),
    Int64(ColumnBuffer<i64>),
    Boolean(ColumnBuffer<bool>),
}

impl ColumnData {
    /// The physical type of this column.
    pub open spec fn col_type(&self) -> PhysicalType {
        match self {
            ColumnData::Text(_) => PhysicalType::ByteString,
            ColumnData::Int32(_) => PhysicalType::Int32,
            ColumnData::Int64(_) => PhysicalType::Int64,
            ColumnData::Boolean(_) => PhysicalType::Boolean,
        }
    }

    /// The underlying buffer's well-formedness.
    pub open spec fn wf(&self) -> bool {
        match self {
            ColumnData::Text(b) => b.wf(),
            ColumnData::Int32(b) => b.wf(),
            ColumnData::Int64(b) => b.wf(),
            ColumnData::Boolean(b) => b.wf(),
        }
    }

    /// The per-row contents of the column.
    pub open spec fn cells(&self) -> Seq<CellModel> {
        match self {
            ColumnData::Text(b) => b.cells().map_values(
                |v: Option<String>| CellModel::Text(opt_text_view(v)),
            ),
            ColumnData::Int32(b) => b.cells().map_values(|v: Option<i32>| CellModel::Int32(v)),
            ColumnData::Int64(b) => b.cells().map_values(|v: Option<i64>| CellModel::Int64(v)),
            ColumnData::Boolean(b) => b.cells().map_values(
                |v: Option<bool>| CellModel::Boolean(v),
            ),
        }
    }

    /// Total rows in the column.
    pub open spec fn num_rows(&self) -> int {
        self.cells().len() as int
    }

    /// Every cell of a column carries the column's physical type.
    pub proof fn lemma_cells_typed(&self)
        ensures
            forall|i: int|
                0 <= i < self.cells().len() ==> (#[trigger] self.cells()[i]).ty()
                    == self.col_type(),
    {
    }

    /// An empty column of the given physical type.
    pub fn new(ty: PhysicalType) -> (c: Self)
        ensures
            c.wf(),
            c.col_type() == ty,
            c.cells() == Seq::<CellModel>::empty(),
    {
        let c = match ty {
            PhysicalType::ByteString => ColumnData::Text(ColumnBuffer::new()),
            PhysicalType::Int32 => ColumnData::Int32(ColumnBuffer::new()),
            PhysicalType::Int64 => ColumnData::Int64(ColumnBuffer::new()),
            PhysicalType::Boolean => ColumnData::Boolean(ColumnBuffer::new()),
        };
        proof {
            assert(c.cells() =~= Seq::<CellModel>::empty());
        }
        c
    }

    /// Total rows in the column.
    pub fn len(&self) -> (n: usize)
        ensures
            n as int == self.num_rows(),
    {
        match self {
            ColumnData::Text(b) => b.len(),
            ColumnData::Int32(b) => b.len(),
            ColumnData::Int64(b) => b.len(),
            ColumnData::Boolean(b) => b.len(),
        }
    }

    /// The physical type of this column.
    pub fn ty(&self) -> (t: PhysicalType)
        ensures
            t == self.col_type(),
    {
        match self {
            ColumnData::Text(_) => PhysicalType::ByteString,
            ColumnData::Int32(_) => PhysicalType::Int32,
            ColumnData::Int64(_) => PhysicalType::Int64,
            ColumnData::Boolean(_) => PhysicalType::Boolean,
        }
    }

    /// Appends one cell.  A cell of the column's type extends the column by
    /// one row; any other cell is refused and the column left unchanged.
    pub fn append_cell(&mut self, v: CellValue) -> (r: Result<(), Error>)
        requires
            old(self).wf(),
        ensures
            final(self).wf(),
            final(self).col_type() == old(self).col_type(),
            v@.ty() == old(self).col_type() ==> r is Ok && final(self).cells() == old(
                self,
            ).cells().push(v@),
            v@.ty() != old(self).col_type() ==> *final(self) == *old(self) && (r matches Err(
                Error::SchemaInvariant(_),
            )),
    {
        let ghost pre = *self;
        match self {
            ColumnData::Text(b) => match v {
                CellValue::Text(x) => {
                    b.append(x);
                    proof {
                        assert(self.cells() =~= pre.cells().push(
                            CellModel::Text(opt_text_view(x)),
                        ));
                    }
                    Result::Ok(())
                },
                _ => Result::Err(
                    Error::SchemaInvariant("cell does not match column type".to_owned()),
                ),
            },
            ColumnData::Int32(b) => match v {
                CellValue::Int32(x) => {
                    b.append(x);
                    proof {
                        assert(self.cells() =~= pre.cells().push(CellModel::Int32(x)));
                    }
                    Result::Ok(())
                },
                _ => Result::Err(
                    Error::SchemaInvariant("cell does not match column type".to_owned()),
                ),
            },
            ColumnData::Int64(b) => match v {
                CellValue::Int64(x) => {
                    b.append(x);
                    proof {
                        assert(self.cells() =~= pre.cells().push(CellModel::Int64(x)));
                    }
                    Result::Ok(())
                },
                _ => Result::Err(
                    Error::SchemaInvariant("cell does not match column type".to_owned()),
                ),
            },
            ColumnData::Boolean(b) => match v {
                CellValue::Boolean(x) => {
                    b.append(x);
                    proof {
                        assert(self.cells() =~= pre.cells().push(CellModel::Boolean(x)));
                    }
                    Result::Ok(())
                },
                _ => Result::Err(
                    Error::SchemaInvariant("cell does not match column type".to_owned()),
                ),
            },
        }
    }

    /// The cell at row `i`.
    pub fn get_cell(&self, i: usize) -> (c: CellValue)
        requires
            self.wf(),
            i < self.num_rows(),
        ensures
            c@ == self.cells()[i as int],
    {
        match self {
            ColumnData::Text(b) => match b.get(i) {
                Option::Some(s) => CellValue::Text(Option::Some(s.dup())),
                Option::None => CellValue::Text(Option::None),
            },
            ColumnData::Int32(b) => match b.get(i) {
                Option::Some(x) => CellValue::Int32(Option::Some(*x)),
                Option::None => CellValue::Int32(Option::None),
            },
            ColumnData::Int64(b) => match b.get(i) {
                Option::Some(x) => CellValue::Int64(Option::Some(*x)),
                Option::None => CellValue::Int64(Option::None),
            },
            ColumnData::Boolean(b) => match b.get(i) {
                Option::Some(x) => CellValue::Boolean(Option::Some(*x)),
                Option::None => CellValue::Boolean(Option::None),
            },
        }
    }

    /// A new column whose row `k` is this column's row `perm[k]`.
    pub fn permuted(&self, perm: &Vec<usize>) -> (r: Self)
        requires
            self.wf(),
            forall|k: int| 0 <= k < perm@.len() ==> perm@[k] < self.num_rows(),
        ensures
            r.wf(),
            r.col_type() == self.col_type(),
            r.cells().len() == perm@.len(),
            forall|k: int|
                0 <= k < perm@.len() ==> #[trigger] r.cells()[k] == self.cells()[perm@[k] as int],
    {
        match self {
            ColumnData::Text(b) => ColumnData::Text(b.permuted(perm)),
            ColumnData::Int32(b) => ColumnData::Int32(b.permuted(perm)),
            ColumnData::Int64(b) => ColumnData::Int64(b.permuted(perm)),
            ColumnData::Boolean(b) => ColumnData::Boolean(b.permuted(perm)),
        }
    }
}

} // verus!
