use vstd::prelude::*;
use crate::accumulator::{RowGroupAccumulator, row_matches};
use crate::cells::{CellModel, CellValue, opt_text_view};
use crate::chunk::Chunk;
use crate::entities::{Block, Call, Event, Extrinsic};
use crate::schema::{FieldModel, SchemaDescriptor};
use crate::schema::PhysicalType;
use crate::sort::{apply_perm, cell_views, is_stable_sort_perm, keys_of};

verus! {

/// The capability interface of one record kind's batch: schema, push,
/// sorted materialization, and count.  The rotation policy, pipeline and
/// dispatcher are written once against this interface and never duplicated
/// per kind.
pub trait IntoRowGroups: Sized {
    type Elem;

    /// The batch invariant.
    spec fn wf(&self) -> bool;

    /// The batch as rows of cells, in insertion order.
    spec fn rows(&self) -> Seq<Seq<CellModel>>;

    /// The decomposition of one record into its row of cells, in schema
    /// order.
    spec fn spec_row_of(e: &Self::Elem) -> Seq<CellModel>;

    /// The kind's physical schema.
    spec fn spec_schema() -> Seq<FieldModel>;

    /// The position of the sort-key column.
    spec fn spec_key_col() -> int;

    /// The schema is nonempty and the sort key lies inside it.
    proof fn lemma_schema_wf()
        ensures
            Self::spec_schema().len() > 0,
            0 <= Self::spec_key_col() < Self::spec_schema().len(),
    ;

    /// Every record's row lines up with the schema, type for type.
    proof fn lemma_row_of_matches(e: &Self::Elem)
        ensures
            row_matches(
                Self::spec_row_of(e),
                Self::spec_schema().map_values(|f: FieldModel| f.ty),
            ),
    ;

    /// The kind's schema descriptor, for the columnar file writer.
    fn schema() -> (s: SchemaDescriptor)
        ensures
            s@ == Self::spec_schema(),
    ;

    /// An empty batch.
    fn new_table() -> (t: Self)
        ensures
            t.wf(),
            t.rows() == Seq::<Seq<CellModel>>::empty(),
    ;

    /// Appends one record: every column receives exactly one cell, in
    /// schema order.  Returns the new total row count.
    fn push(&mut self, e: Self::Elem) -> (n: usize)
        requires
            old(self).wf(),
            old(self).rows().len() < usize::MAX,
        ensures
            final(self).wf(),
            final(self).rows() == old(self).rows().push(Self::spec_row_of(&e)),
            n as int == final(self).rows().len(),
    ;

    /// Rows accumulated so far.
    fn len(&self) -> (n: usize)
        requires
            self.wf(),
        ensures
            n as int == self.rows().len(),
    ;

    /// Sorts the batch by its key column — ascending, stable, absent keys
    /// last — applies the one shared permutation to every column, and
    /// materializes the chunk.
    fn into_chunk(self) -> (c: Chunk)
        requires
            self.wf(),
        ensures
            c.wf(),
            c.num_rows() == self.rows().len(),
            c.spec_matches_schema(Self::spec_schema()),
            exists|perm: Seq<int>|
                #![auto]
                is_stable_sort_perm(perm, keys_of(self.rows(), Self::spec_key_col()))
                    && c.rows() == apply_perm(self.rows(), perm),
    ;
}

/// The batch of block header records; sorted by the height column.
pub struct Blocks {
    acc: RowGroupAccumulator,
}

impl IntoRowGroups for Blocks {
    type Elem = Block;

    closed spec fn wf(&self) -> bool {
        &&& self.acc.wf()
        &&& self.acc.col_types() == Self::spec_schema().map_values(|f: FieldModel| f.ty)
        &&& self.acc.spec_key_col() == Self::spec_key_col()
    }

    closed spec fn rows(&self) -> Seq<Seq<CellModel>> {
        self.acc.rows()
    }

    open spec fn spec_row_of(e: &Block) -> Seq<CellModel> {
        seq![
            CellModel::Text(Option::Some(e.id@)),
            CellModel::Int32(Option::Some(e.height)),
            CellModel::Text(Option::Some(e.hash@)),
            CellModel::Text(Option::Some(e.parent_hash@)),
            CellModel::Text(Option::Some(e.state_root@)),
            CellModel::Text(Option::Some(e.extrinsics_root@)),
            CellModel::Text(Option::Some(e.timestamp@)),
            CellModel::Text(Option::Some(e.spec_id@)),
            CellModel::Text(opt_text_view(e.validator)),
        ]
    }

    open spec fn spec_schema() -> Seq<FieldModel> {
        seq![
            (FieldModel { name: "id"@, ty: PhysicalType::ByteString, required: true }),
            (FieldModel { name: "height"@, ty: PhysicalType::Int32, required: true }),
            (FieldModel { name: "hash"@, ty: PhysicalType::ByteString, required: true }),
            (FieldModel { name: "parent_hash"@, ty: PhysicalType::ByteString, required: true }),
            (FieldModel { name: "state_root"@, ty: PhysicalType::ByteString, required: true }),
            (FieldModel {
                name: "extrinsics_root"@,
                ty: PhysicalType::ByteString,
                required: true,
            }),
            (FieldModel { name: "timestamp"@, ty: PhysicalType::ByteString, required: true }),
            (FieldModel { name: "spec_id"@, ty: PhysicalType::ByteString, required: true }),
            (FieldModel { name: "validator"@, ty: PhysicalType::ByteString, required: false }),
        ]
    }

    open spec fn spec_key_col() -> int {
        1
    }

    proof fn lemma_schema_wf() {
    }

    proof fn lemma_row_of_matches(e: &Block) {
        let row = Self::spec_row_of(e);
        let tys = Self::spec_schema().map_values(|f: FieldModel| f.ty);
        assert forall|j: int| 0 <= j < row.len() implies (#[trigger] row[j]).ty() == tys[j] by {
            assert(tys[j] == Self::spec_schema()[j].ty);
        }
    }

    fn schema() -> (s: SchemaDescriptor) {
        let mut s = SchemaDescriptor::new();
        s.push_field("id", PhysicalType::ByteString, true);
        s.push_field("height", PhysicalType::Int32, true);
        s.push_field("hash", PhysicalType::ByteString, true);
        s.push_field("parent_hash", PhysicalType::ByteString, true);
        s.push_field("state_root", PhysicalType::ByteString, true);
        s.push_field("extrinsics_root", PhysicalType::ByteString, true);
        s.push_field("timestamp", PhysicalType::ByteString, true);
        s.push_field("spec_id", PhysicalType::ByteString, true);
        s.push_field("validator", PhysicalType::ByteString, false);
        proof {
            assert(s@ =~= Self::spec_schema());
        }
        s
    }

    fn new_table() -> (t: Self) {
        let schema = Self::schema();
        proof {
            Self::lemma_schema_wf();
        }
        let acc = RowGroupAccumulator::new(&schema, 1);
        let t = Blocks { acc };
        proof {
            assert(t.rows() =~= Seq::<Seq<CellModel>>::empty());
        }
        t
    }

    fn push(&mut self, e: Block) -> (n: usize) {
        let ghost e0 = e;
        let Block { id, height, hash, parent_hash, state_root, extrinsics_root, timestamp,
            spec_id, validator } = e;
        let mut row: Vec<CellValue> = Vec::new();
        row.push(CellValue::Text(Option::Some(id)));
        row.push(CellValue::Int32(Option::Some(height)));
        row.push(CellValue::Text(Option::Some(hash)));
        row.push(CellValue::Text(Option::Some(parent_hash)));
        row.push(CellValue::Text(Option::Some(state_root)));
        row.push(CellValue::Text(Option::Some(extrinsics_root)));
        row.push(CellValue::Text(Option::Some(timestamp)));
        row.push(CellValue::Text(Option::Some(spec_id)));
        row.push(CellValue::Text(validator));
        proof {
            assert(cell_views(row@) =~= Self::spec_row_of(&e0));
            Self::lemma_row_of_matches(&e0);
        }
        let r = self.acc.push_row(row);
        match r {
            Result::Ok(n) => n,
            Result::Err(_) => vstd::pervasive::unreached(),
        }
    }

    fn len(&self) -> (n: usize) {
        self.acc.len()
    }

    fn into_chunk(self) -> (c: Chunk) {
        let c = self.acc.sorted_chunk();
        proof {
            let tys = Self::spec_schema().map_values(|f: FieldModel| f.ty);
            assert(c.col_types() == tys);
            assert(c.col_types().len() == c.num_cols());
            assert forall|j: int| 0 <= j < c.num_cols() implies (
            #[trigger] c.columns_seq()[j]).col_type() == Self::spec_schema()[j].ty by {
                assert(c.col_types()[j] == c.columns_seq()[j].col_type());
                assert(tys[j] == Self::spec_schema()[j].ty);
            }
            let perm = choose|perm: Seq<int>|
                #![auto]
                is_stable_sort_perm(perm, keys_of(self.acc.rows(), self.acc.spec_key_col()))
                    && c.rows() == apply_perm(self.acc.rows(), perm);
            assert(is_stable_sort_perm(perm, keys_of(self.rows(), Self::spec_key_col()))
                && c.rows() == apply_perm(self.rows(), perm));
        }
        c
    }
}

/// The batch of extrinsic records; sorted lexically by the identifier
/// column.  Lexical order diverges from numeric height order once heights
/// differ in digit count; the identifier column is the designed sort key
/// for every derived kind, so that divergence is kept, not hidden.
pub struct Extrinsics {
    acc: RowGroupAccumulator,
}

impl IntoRowGroups for Extrinsics {
    type Elem = Extrinsic;

    closed spec fn wf(&self) -> bool {
        &&& self.acc.wf()
        &&& self.acc.col_types() == Self::spec_schema().map_values(|f: FieldModel| f.ty)
        &&& self.acc.spec_key_col() == Self::spec_key_col()
    }

    closed spec fn rows(&self) -> Seq<Seq<CellModel>> {
        self.acc.rows()
    }

    open spec fn spec_row_of(e: &Extrinsic) -> Seq<CellModel> {
        seq![
            CellModel::Text(Option::Some(e.id@)),
            CellModel::Text(Option::Some(e.block_id@)),
            CellModel::Int32(Option::Some(e.index_in_block)),
            CellModel::Int32(Option::Some(e.version)),
            CellModel::Text(opt_text_view(e.signature)),
            CellModel::Text(Option::Some(e.call_id@)),
            CellModel::Int64(e.fee),
            CellModel::Int64(e.tip),
            CellModel::Boolean(Option::Some(e.success)),
            CellModel::Text(opt_text_view(e.error)),
            CellModel::Text(Option::Some(e.hash@)),
            CellModel::Int32(Option::Some(e.pos)),
        ]
    }

    open spec fn spec_schema() -> Seq<FieldModel> {
        seq![
            (FieldModel { name: "id"@, ty: PhysicalType::ByteString, required: true }),
            (FieldModel { name: "block_id"@, ty: PhysicalType::ByteString, required: true }),
            (FieldModel { name: "index_in_block"@, ty: PhysicalType::Int32, required: true }),
            (FieldModel { name: "version"@, ty: PhysicalType::Int32, required: true }),
            (FieldModel { name: "signature"@, ty: PhysicalType::ByteString, required: false }),
            (FieldModel { name: "call_id"@, ty: PhysicalType::ByteString, required: true }),
            (FieldModel { name: "fee"@, ty: PhysicalType::Int64, required: false }),
            (FieldModel { name: "tip"@, ty: PhysicalType::Int64, required: false }),
            (FieldModel { name: "success"@, ty: PhysicalType::Boolean, required: true }),
            (FieldModel { name: "error"@, ty: PhysicalType::ByteString, required: false }),
            (FieldModel { name: "hash"@, ty: PhysicalType::ByteString, required: true }),
            (FieldModel { name: "pos"@, ty: PhysicalType::Int32, required: true }),
        ]
    }

    open spec fn spec_key_col() -> int {
        0
    }

    proof fn lemma_schema_wf() {
    }

    proof fn lemma_row_of_matches(e: &Extrinsic) {
        let row = Self::spec_row_of(e);
        let tys = Self::spec_schema().map_values(|f: FieldModel| f.ty);
        assert forall|j: int| 0 <= j < row.len() implies (#[trigger] row[j]).ty() == tys[j] by {
            assert(tys[j] == Self::spec_schema()[j].ty);
        }
    }

    fn schema() -> (s: SchemaDescriptor) {
        let mut s = SchemaDescriptor::new();
        s.push_field("id", PhysicalType::ByteString, true);
        s.push_field("block_id", PhysicalType::ByteString, true);
        s.push_field("index_in_block", PhysicalType::Int32, true);
        s.push_field("version", PhysicalType::Int32, true);
        s.push_field("signature", PhysicalType::ByteString, false);
        s.push_field("call_id", PhysicalType::ByteString, true);
        s.push_field("fee", PhysicalType::Int64, false);
        s.push_field("tip", PhysicalType::Int64, false);
        s.push_field("success", PhysicalType::Boolean, true);
        s.push_field("error", PhysicalType::ByteString, false);
        s.push_field("hash", PhysicalType::ByteString, true);
        s.push_field("pos", PhysicalType::Int32, true);
        proof {
            assert(s@ =~= Self::spec_schema());
        }
        s
    }

    fn new_table() -> (t: Self) {
        let schema = Self::schema();
        proof {
            Self::lemma_schema_wf();
        }
        let acc = RowGroupAccumulator::new(&schema, 0);
        let t = Extrinsics { acc };
        proof {
            assert(t.rows() =~= Seq::<Seq<CellModel>>::empty());
        }
        t
    }

    fn push(&mut self, e: Extrinsic) -> (n: usize) {
        let ghost e0 = e;
        let Extrinsic { id, block_id, index_in_block, version, signature, call_id, fee, tip,
            success, error, hash, pos } = e;
        let mut row: Vec<CellValue> = Vec::new();
        row.push(CellValue::Text(Option::Some(id)));
        row.push(CellValue::Text(Option::Some(block_id)));
        row.push(CellValue::Int32(Option::Some(index_in_block)));
        row.push(CellValue::Int32(Option::Some(version)));
        row.push(CellValue::Text(signature));
        row.push(CellValue::Text(Option::Some(call_id)));
        row.push(CellValue::Int64(fee));
        row.push(CellValue::Int64(tip));
        row.push(CellValue::Boolean(Option::Some(success)));
        row.push(CellValue::Text(error));
        row.push(CellValue::Text(Option::Some(hash)));
        row.push(CellValue::Int32(Option::Some(pos)));
        proof {
            assert(cell_views(row@) =~= Self::spec_row_of(&e0));
            Self::lemma_row_of_matches(&e0);
        }
        let r = self.acc.push_row(row);
        match r {
            Result::Ok(n) => n,
            Result::Err(_) => vstd::pervasive::unreached(),
        }
    }

    fn len(&self) -> (n: usize) {
        self.acc.len()
    }

    fn into_chunk(self) -> (c: Chunk) {
        let c = self.acc.sorted_chunk();
        proof {
            let tys = Self::spec_schema().map_values(|f: FieldModel| f.ty);
            assert(c.col_types() == tys);
            assert(c.col_types().len() == c.num_cols());
            assert forall|j: int| 0 <= j < c.num_cols() implies (
            #[trigger] c.columns_seq()[j]).col_type() == Self::spec_schema()[j].ty by {
                assert(c.col_types()[j] == c.columns_seq()[j].col_type());
                assert(tys[j] == Self::spec_schema()[j].ty);
            }
            let perm = choose|perm: Seq<int>|
                #![auto]
                is_stable_sort_perm(perm, keys_of(self.acc.rows(), self.acc.spec_key_col()))
                    && c.rows() == apply_perm(self.acc.rows(), perm);
            assert(is_stable_sort_perm(perm, keys_of(self.rows(), Self::spec_key_col()))
                && c.rows() == apply_perm(self.rows(), perm));
        }
        c
    }
}

/// The batch of call records; sorted lexically by the identifier column.
pub struct Calls {
    acc: RowGroupAccumulator,
}

impl IntoRowGroups for Calls {
    type Elem = Call;

    closed spec fn wf(&self) -> bool {
        &&& self.acc.wf()
        &&& self.acc.col_types() == Self::spec_schema().map_values(|f: FieldModel| f.ty)
        &&& self.acc.spec_key_col() == Self::spec_key_col()
    }

    closed spec fn rows(&self) -> Seq<Seq<CellModel>> {
        self.acc.rows()
    }

    open spec fn spec_row_of(e: &Call) -> Seq<CellModel> {
        seq![
            CellModel::Text(Option::Some(e.id@)),
            CellModel::Text(opt_text_view(e.parent_id)),
            CellModel::Text(Option::Some(e.block_id@)),
            CellModel::Text(Option::Some(e.extrinsic_id@)),
            CellModel::Text(opt_text_view(e.origin)),
            CellModel::Boolean(Option::Some(e.success)),
            CellModel::Text(opt_text_view(e.error)),
            CellModel::Text(Option::Some(e.name@)),
            CellModel::Text(opt_text_view(e.args)),
            CellModel::Int32(Option::Some(e.pos)),
        ]
    }

    open spec fn spec_schema() -> Seq<FieldModel> {
        seq![
            (FieldModel { name: "id"@, ty: PhysicalType::ByteString, required: true }),
            (FieldModel { name: "parent_id"@, ty: PhysicalType::ByteString, required: false }),
            (FieldModel { name: "block_id"@, ty: PhysicalType::ByteString, required: true }),
            (FieldModel { name: "extrinsic_id"@, ty: PhysicalType::ByteString, required: true }),
            (FieldModel { name: "origin"@, ty: PhysicalType::ByteString, required: false }),
            (FieldModel { name: "success"@, ty: PhysicalType::Boolean, required: true }),
            (FieldModel { name: "error"@, ty: PhysicalType::ByteString, required: false }),
            (FieldModel { name: "name"@, ty: PhysicalType::ByteString, required: true }),
            (FieldModel { name: "args"@, ty: PhysicalType::ByteString, required: false }),
            (FieldModel { name: "pos"@, ty: PhysicalType::Int32, required: true }),
        ]
    }

    open spec fn spec_key_col() -> int {
        0
    }

    proof fn lemma_schema_wf() {
    }

    proof fn lemma_row_of_matches(e: &Call) {
        let row = Self::spec_row_of(e);
        let tys = Self::spec_schema().map_values(|f: FieldModel| f.ty);
        assert forall|j: int| 0 <= j < row.len() implies (#[trigger] row[j]).ty() == tys[j] by {
            assert(tys[j] == Self::spec_schema()[j].ty);
        }
    }

    fn schema() -> (s: SchemaDescriptor) {
        let mut s = SchemaDescriptor::new();
        s.push_field("id", PhysicalType::ByteString, true);
        s.push_field("parent_id", PhysicalType::ByteString, false);
        s.push_field("block_id", PhysicalType::ByteString, true);
        s.push_field("extrinsic_id", PhysicalType::ByteString, true);
        s.push_field("origin", PhysicalType::ByteString, false);
        s.push_field("success", PhysicalType::Boolean, true);
        s.push_field("error", PhysicalType::ByteString, false);
        s.push_field("name", PhysicalType::ByteString, true);
        s.push_field("args", PhysicalType::ByteString, false);
        s.push_field("pos", PhysicalType::Int32, true);
        proof {
            assert(s@ =~= Self::spec_schema());
        }
        s
    }

    fn new_table() -> (t: Self) {
        let schema = Self::schema();
        proof {
            Self::lemma_schema_wf();
        }
        let acc = RowGroupAccumulator::new(&schema, 0);
        let t = Calls { acc };
        proof {
            assert(t.rows() =~= Seq::<Seq<CellModel>>::empty());
        }
        t
    }

    fn push(&mut self, e: Call) -> (n: usize) {
        let ghost e0 = e;
        let Call { id, parent_id, block_id, extrinsic_id, origin, success, error, name, args,
            pos } = e;
        let mut row: Vec<CellValue> = Vec::new();
        row.push(CellValue::Text(Option::Some(id)));
        row.push(CellValue::Text(parent_id));
        row.push(CellValue::Text(Option::Some(block_id)));
        row.push(CellValue::Text(Option::Some(extrinsic_id)));
        row.push(CellValue::Text(origin));
        row.push(CellValue::Boolean(Option::Some(success)));
        row.push(CellValue::Text(error));
        row.push(CellValue::Text(Option::Some(name)));
        row.push(CellValue::Text(args));
        row.push(CellValue::Int32(Option::Some(pos)));
        proof {
            assert(cell_views(row@) =~= Self::spec_row_of(&e0));
            Self::lemma_row_of_matches(&e0);
        }
        let r = self.acc.push_row(row);
        match r {
            Result::Ok(n) => n,
            Result::Err(_) => vstd::pervasive::unreached(),
        }
    }

    fn len(&self) -> (n: usize) {
        self.acc.len()
    }

    fn into_chunk(self) -> (c: Chunk) {
        let c = self.acc.sorted_chunk();
        proof {
            let tys = Self::spec_schema().map_values(|f: FieldModel| f.ty);
            assert(c.col_types() == tys);
            assert(c.col_types().len() == c.num_cols());
            assert forall|j: int| 0 <= j < c.num_cols() implies (
            #[trigger] c.columns_seq()[j]).col_type() == Self::spec_schema()[j].ty by {
                assert(c.col_types()[j] == c.columns_seq()[j].col_type());
                assert(tys[j] == Self::spec_schema()[j].ty);
            }
            let perm = choose|perm: Seq<int>|
                #![auto]
                is_stable_sort_perm(perm, keys_of(self.acc.rows(), self.acc.spec_key_col()))
                    && c.rows() == apply_perm(self.acc.rows(), perm);
            assert(is_stable_sort_perm(perm, keys_of(self.rows(), Self::spec_key_col()))
                && c.rows() == apply_perm(self.rows(), perm));
        }
        c
    }
}

/// The batch of event records; sorted lexically by the identifier column.
pub struct Events {
    acc: RowGroupAccumulator,
}

impl IntoRowGroups for Events {
    type Elem = Event;

    closed spec fn wf(&self) -> bool {
        &&& self.acc.wf()
        &&& self.acc.col_types() == Self::spec_schema().map_values(|f: FieldModel| f.ty)
        &&& self.acc.spec_key_col() == Self::spec_key_col()
    }

    closed spec fn rows(&self) -> Seq<Seq<CellModel>> {
        self.acc.rows()
    }

    open spec fn spec_row_of(e: &Event) -> Seq<CellModel> {
        seq![
            CellModel::Text(Option::Some(e.id@)),
            CellModel::Text(Option::Some(e.block_id@)),
            CellModel::Int32(Option::Some(e.index_in_block)),
            CellModel::Text(Option::Some(e.phase@)),
            CellModel::Text(opt_text_view(e.extrinsic_id)),
            CellModel::Text(opt_text_view(e.call_id)),
            CellModel::Text(Option::Some(e.name@)),
            CellModel::Text(opt_text_view(e.args)),
            CellModel::Int32(Option::Some(e.pos)),
        ]
    }

    open spec fn spec_schema() -> Seq<FieldModel> {
        seq![
            (FieldModel { name: "id"@, ty: PhysicalType::ByteString, required: true }),
            (FieldModel { name: "block_id"@, ty: PhysicalType::ByteString, required: true }),
            (FieldModel { name: "index_in_block"@, ty: PhysicalType::Int32, required: true }),
            (FieldModel { name: "phase"@, ty: PhysicalType::ByteString, required: true }),
            (FieldModel { name: "extrinsic_id"@, ty: PhysicalType::ByteString, required: false }),
            (FieldModel { name: "call_id"@, ty: PhysicalType::ByteString, required: false }),
            (FieldModel { name: "name"@, ty: PhysicalType::ByteString, required: true }),
            (FieldModel { name: "args"@, ty: PhysicalType::ByteString, required: false }),
            (FieldModel { name: "pos"@, ty: PhysicalType::Int32, required: true }),
        ]
    }

    open spec fn spec_key_col() -> int {
        0
    }

    proof fn lemma_schema_wf() {
    }

    proof fn lemma_row_of_matches(e: &Event) {
        let row = Self::spec_row_of(e);
        let tys = Self::spec_schema().map_values(|f: FieldModel| f.ty);
        assert forall|j: int| 0 <= j < row.len() implies (#[trigger] row[j]).ty() == tys[j] by {
            assert(tys[j] == Self::spec_schema()[j].ty);
        }
    }

    fn schema() -> (s: SchemaDescriptor) {
        let mut s = SchemaDescriptor::new();
        s.push_field("id", PhysicalType::ByteString, true);
        s.push_field("block_id", PhysicalType::ByteString, true);
        s.push_field("index_in_block", PhysicalType::Int32, true);
        s.push_field("phase", PhysicalType::ByteString, true);
        s.push_field("extrinsic_id", PhysicalType::ByteString, false);
        s.push_field("call_id", PhysicalType::ByteString, false);
        s.push_field("name", PhysicalType::ByteString, true);
        s.push_field("args", PhysicalType::ByteString, false);
        s.push_field("pos", PhysicalType::Int32, true);
        proof {
            assert(s@ =~= Self::spec_schema());
        }
        s
    }

    fn new_table() -> (t: Self) {
        let schema = Self::schema();
        proof {
            Self::lemma_schema_wf();
        }
        let acc = RowGroupAccumulator::new(&schema, 0);
        let t = Events { acc };
        proof {
            assert(t.rows() =~= Seq::<Seq<CellModel>>::empty());
        }
        t
    }

    fn push(&mut self, e: Event) -> (n: usize) {
        let ghost e0 = e;
        let Event { id, block_id, index_in_block, phase, extrinsic_id, call_id, name, args, pos }
            = e;
        let mut row: Vec<CellValue> = Vec::new();
        row.push(CellValue::Text(Option::Some(id)));
        row.push(CellValue::Text(Option::Some(block_id)));
        row.push(CellValue::Int32(Option::Some(index_in_block)));
        row.push(CellValue::Text(Option::Some(phase)));
        row.push(CellValue::Text(extrinsic_id));
        row.push(CellValue::Text(call_id));
        row.push(CellValue::Text(Option::Some(name)));
        row.push(CellValue::Text(args));
        row.push(CellValue::Int32(Option::Some(pos)));
        proof {
            assert(cell_views(row@) =~= Self::spec_row_of(&e0));
            Self::lemma_row_of_matches(&e0);
        }
        let r = self.acc.push_row(row);
        match r {
            Result::Ok(n) => n,
            Result::Err(_) => vstd::pervasive::unreached(),
        }
    }

    fn len(&self) -> (n: usize) {
        self.acc.len()
    }

    fn into_chunk(self) -> (c: Chunk) {
        let c = self.acc.sorted_chunk();
        proof {
            let tys = Self::spec_schema().map_values(|f: FieldModel| f.ty);
            assert(c.col_types() == tys);
            assert(c.col_types().len() == c.num_cols());
            assert forall|j: int| 0 <= j < c.num_cols() implies (
            #[trigger] c.columns_seq()[j]).col_type() == Self::spec_schema()[j].ty by {
                assert(c.col_types()[j] == c.columns_seq()[j].col_type());
                assert(tys[j] == Self::spec_schema()[j].ty);
            }
            let perm = choose|perm: Seq<int>|
                #![auto]
                is_stable_sort_perm(perm, keys_of(self.acc.rows(), self.acc.spec_key_col()))
                    && c.rows() == apply_perm(self.acc.rows(), perm);
            assert(is_stable_sort_perm(perm, keys_of(self.rows(), Self::spec_key_col()))
                && c.rows() == apply_perm(self.rows(), perm));
        }
        c
    }
}

} // verus!
