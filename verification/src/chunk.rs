use vstd::prelude::*;
use crate::cells::CellModel;
use crate::columns::ColumnData;
use crate::schema::{FieldModel, SchemaDescriptor};
use crate::schema::PhysicalType;

verus! {

/// A materialized row group: one column per schema field, all reordered by
/// the one shared sort permutation, ready for the columnar file writer.
pub struct Chunk {
    columns: Vec<ColumnData>,
}

impl Chunk {
    /// The columns of the chunk.
    pub closed spec fn columns_seq(&self) -> Seq<ColumnData> {
        self.columns@
    }

    /// Number of columns.
    pub open spec fn num_cols(&self) -> int {
        self.columns_seq().len() as int
    }

    /// Number of rows, shared by every column.
    pub open spec fn num_rows(&self) -> int {
        self.columns_seq()[0].num_rows()
    }

    /// At least one column, all well formed, all of one length.
    pub open spec fn wf(&self) -> bool {
        &&& self.num_cols() > 0
        &&& forall|j: int| 0 <= j < self.num_cols() ==> (#[trigger] self.columns_seq()[j]).wf()
        &&& forall|j: int|
            0 <= j < self.num_cols() ==> (#[trigger] self.columns_seq()[j]).num_rows()
                == self.num_rows()
    }

    /// The physical type of each column, in order.
    pub open spec fn col_types(&self) -> Seq<PhysicalType> {
        self.columns_seq().map_values(|c: ColumnData| c.col_type())
    }

    /// The chunk as a sequence of rows; row `i` is the cell of each column
    /// at position `i`.
    pub open spec fn rows(&self) -> Seq<Seq<CellModel>> {
        Seq::new(
            self.num_rows() as nat,
            |i: int| Seq::new(self.num_cols() as nat, |j: int| self.columns_seq()[j].cells()[i]),
        )
    }

    /// The chunk's columns line up with a schema's fields, type for type.
    pub open spec fn spec_matches_schema(&self, schema: Seq<FieldModel>) -> bool {
        &&& self.num_cols() == schema.len()
        &&& forall|j: int|
            0 <= j < self.num_cols() ==> (#[trigger] self.columns_seq()[j]).col_type()
                == schema[j].ty
    }

    /// Assembles a chunk from already-permuted columns.
    pub fn from_columns(columns: Vec<ColumnData>) -> (c: Self)
        requires
            columns@.len() > 0,
            forall|j: int| 0 <= j < columns@.len() ==> (#[trigger] columns@[j]).wf(),
            forall|j: int|
                0 <= j < columns@.len() ==> (#[trigger] columns@[j]).num_rows()
                    == columns@[0].num_rows(),
        ensures
            c.wf(),
            c.columns_seq() == columns@,
    {
        Chunk { columns }
    }

    /// Number of columns.
    pub fn num_columns(&self) -> (n: usize)
        ensures
            n as int == self.num_cols(),
    {
        self.columns.len()
    }

    /// Number of rows.
    pub fn len(&self) -> (n: usize)
        requires
            self.wf(),
        ensures
            n as int == self.num_rows(),
    {
        self.columns[0].len()
    }

    /// The column at position `j`, for hand-off to the file writer.
    pub fn column(&self, j: usize) -> (c: &ColumnData)
        requires
            j < self.num_cols(),
        ensures
            *c == self.columns_seq()[j as int],
    {
        &self.columns[j]
    }

    /// The defensive schema check at the writer hand-off: true exactly when
    /// every column carries the physical type its field declares.
    pub fn matches_schema(&self, schema: &SchemaDescriptor) -> (r: bool)
        ensures
            r == self.spec_matches_schema(schema@),
    {
        if self.columns.len() != schema.len() {
            return false;
        }
        let n = self.columns.len();
        let mut j: usize = 0;
        while j < n
            invariant
                j <= n,
                n as int == self.num_cols(),
                n == schema@.len(),
                forall|k: int|
                    0 <= k < j ==> (#[trigger] self.columns_seq()[k]).col_type() == schema@[k].ty,
            decreases n - j,
        {
            let f = schema.field(j);
            if self.columns[j].ty() != f.ty {
                return false;
            }
            j = j + 1;
        }
        true
    }
}

} // verus!
