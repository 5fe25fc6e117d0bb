use vstd::prelude::*;
use vstd::string::StrSliceExecFns;
use crate::schema::PhysicalType;

verus! {

/// Lexicographic "less or equal" on character sequences, by code point.
pub open spec fn lex_le(a: Seq<char>, b: Seq<char>) -> bool
    decreases a.len(),
{
    if a.len() == 0 {
        true
    } else if b.len() == 0 {
        false
    } else if (a[0] as u32) < (b[0] as u32) {
        true
    } else if (b[0] as u32) < (a[0] as u32) {
        false
    } else {
        lex_le(a.skip(1), b.skip(1))
    }
}

/// The lexicographic order is total.
pub proof fn lemma_lex_le_total(a: Seq<char>, b: Seq<char>)
    ensures
        lex_le(a, b) || lex_le(b, a),
    decreases a.len(),
{
    if a.len() == 0 || b.len() == 0 {
    } else if (a[0] as u32) < (b[0] as u32) || (b[0] as u32) < (a[0] as u32) {
    } else {
        lemma_lex_le_total(a.skip(1), b.skip(1));
    }
}

/// The lexicographic order is transitive.
pub proof fn lemma_lex_le_trans(a: Seq<char>, b: Seq<char>, c: Seq<char>)
    requires
        lex_le(a, b),
        lex_le(b, c),
    ensures
        lex_le(a, c),
    decreases a.len(),
{
    if a.len() == 0 {
    } else {
        assert(b.len() > 0);
        assert(c.len() > 0);
        if (a[0] as u32) < (b[0] as u32) {
            assert((b[0] as u32) <= (c[0] as u32));
        } else if (b[0] as u32) < (c[0] as u32) {
        } else {
            lemma_lex_le_trans(a.skip(1), b.skip(1), c.skip(1));
        }
    }
}

/// Exec comparison of two string slices under `lex_le`.
pub fn str_lex_le(a: &str, b: &str) -> (r: bool)
    ensures
        r == lex_le(a@, b@),
{
    let alen = a.unicode_len();
    let blen = b.unicode_len();
    let mut i: usize = 0;
    proof {
        assert(a@.skip(0) =~= a@);
        assert(b@.skip(0) =~= b@);
    }
    loop
        invariant
            i <= alen,
            i <= blen,
            alen == a@.len(),
            blen == b@.len(),
            lex_le(a@, b@) == lex_le(a@.skip(i as int), b@.skip(i as int)),
        decreases alen - i,
    {
        if i == alen {
            return true;
        }
        if i == blen {
            proof {
                assert(a@.skip(i as int).len() > 0);
            }
            return false;
        }
        let ca = a.get_char(i);
        let cb = b.get_char(i);
        proof {
            assert(a@.skip(i as int)[0] == a@[i as int]);
            assert(b@.skip(i as int)[0] == b@[i as int]);
        }
        if (ca as u32) < (cb as u32) {
            return true;
        }
        if (cb as u32) < (ca as u32) {
            return false;
        }
        proof {
            assert(a@.skip(i as int).skip(1) =~= a@.skip(i as int + 1));
            assert(b@.skip(i as int).skip(1) =~= b@.skip(i as int + 1));
        }
        i = i + 1;
    }
}

/// One field value on its way into a column: a physical type and either a
/// value of that type or an explicit absence.
#[derive(Debug)]
pub enum CellValue {
    Text(Option<String>),
    Int32(Option<i32>),
    Int64(Option<i64>),
    Boolean(Option<bool>),
}

/// The mathematical shape of a cell.
pub enum CellModel {
    Text(Option<Seq<char>>),
    Int32(Option<i32>),
    Int64(Option<i64>),
    Boolean(Option<bool>),
}

pub open spec fn opt_text_view(v: Option<String>) -> Option<Seq<char>> {
    match v {
        Option::Some(s) => Option::Some(s@),
        Option::None => Option::None,
    }
}

impl View for CellValue {
    type V = CellModel;

    open spec fn view(&self) -> CellModel {
        match self {
            CellValue::Text(v) => CellModel::Text(opt_text_view(*v)),
            CellValue::Int32(v) => CellModel::Int32(*v),
            CellValue::Int64(v) => CellModel::Int64(*v),
            CellValue::Boolean(v) => CellModel::Boolean(*v),
        }
    }
}

impl CellModel {
    /// The physical type this cell belongs to.
    pub open spec fn ty(self) -> PhysicalType {
        match self {
            CellModel::Text(_) => PhysicalType::ByteString,
            CellModel::Int32(_) => PhysicalType::Int32,
            CellModel::Int64(_) => PhysicalType::Int64,
            CellModel::Boolean(_) => PhysicalType::Boolean,
        }
    }

    /// Whether a value is present (as opposed to an explicit null).
    pub open spec fn present(self) -> bool {
        match self {
            CellModel::Text(v) => v is Some,
            CellModel::Int32(v) => v is Some,
            CellModel::Int64(v) => v is Some,
            CellModel::Boolean(v) => v is Some,
        }
    }
}

impl CellValue {
    /// The physical type this cell belongs to.
    pub fn ty(&self) -> (t: PhysicalType)
        ensures
            t == self@.ty(),
    {
        match self {
            CellValue::Text(_) => PhysicalType::ByteString,
            CellValue::Int32(_) => PhysicalType::Int32,
            CellValue::Int64(_) => PhysicalType::Int64,
            CellValue::Boolean(_) => PhysicalType::Boolean,
        }
    }

    /// Whether a value is present.
    pub fn present(&self) -> (p: bool)
        ensures
            p == self@.present(),
    {
        match self {
            CellValue::Text(v) => v.is_some(),
            CellValue::Int32(v) => v.is_some(),
            CellValue::Int64(v) => v.is_some(),
            CellValue::Boolean(v) => v.is_some(),
        }
    }

    /// An equal copy of the cell.
    pub fn duplicate(&self) -> (c: CellValue)
        ensures
            c == *self,
    {
        match self {
            CellValue::Text(Option::Some(s)) => CellValue::Text(Option::Some(s.clone())),
            CellValue::Text(Option::None) => CellValue::Text(Option::None),
            CellValue::Int32(v) => CellValue::Int32(*v),
            CellValue::Int64(v) => CellValue::Int64(*v),
            CellValue::Boolean(v) => CellValue::Boolean(*v),
        }
    }
}

/// Order on optional text values: ascending, absent values last.
pub open spec fn opt_text_le(x: Option<Seq<char>>, y: Option<Seq<char>>) -> bool {
    match (x, y) {
        (Option::Some(a), Option::Some(b)) => lex_le(a, b),
        (Option::Some(_), Option::None) => true,
        (Option::None, Option::Some(_)) => false,
        (Option::None, Option::None) => true,
    }
}

/// Order on optional 32-bit integers: ascending, absent values last.
pub open spec fn opt_i32_le(x: Option<i32>, y: Option<i32>) -> bool {
    match (x, y) {
        (Option::Some(a), Option::Some(b)) => a <= b,
        (Option::Some(_), Option::None) => true,
        (Option::None, Option::Some(_)) => false,
        (Option::None, Option::None) => true,
    }
}

/// Order on optional 64-bit integers: ascending, absent values last.
pub open spec fn opt_i64_le(x: Option<i64>, y: Option<i64>) -> bool {
    match (x, y) {
        (Option::Some(a), Option::Some(b)) => a <= b,
        (Option::Some(_), Option::None) => true,
        (Option::None, Option::Some(_)) => false,
        (Option::None, Option::None) => true,
    }
}

/// Order on optional booleans: `false` before `true`, absent values last.
pub open spec fn opt_bool_le(x: Option<bool>, y: Option<bool>) -> bool {
    match (x, y) {
        (Option::Some(a), Option::Some(b)) => !a || b,
        (Option::Some(_), Option::None) => true,
        (Option::None, Option::Some(_)) => false,
        (Option::None, Option::None) => true,
    }
}

/// A rank used to compare cells of different physical types, so that the
/// order is defined on every pair.
pub open spec fn cell_rank(c: CellModel) -> int {
    match c {
        CellModel::Text(_) => 0,
        CellModel::Int32(_) => 1,
        CellModel::Int64(_) => 2,
        CellModel::Boolean(_) => 3,
    }
}

/// The sort-key order on cells: within one physical type, ascending with
/// absent values last; across types, by rank.
pub open spec fn cell_le(a: CellModel, b: CellModel) -> bool {
    match (a, b) {
        (CellModel::Text(x), CellModel::Text(y)) => opt_text_le(x, y),
        (CellModel::Int32(x), CellModel::Int32(y)) => opt_i32_le(x, y),
        (CellModel::Int64(x), CellModel::Int64(y)) => opt_i64_le(x, y),
        (CellModel::Boolean(x), CellModel::Boolean(y)) => opt_bool_le(x, y),
        _ => cell_rank(a) <= cell_rank(b),
    }
}

/// On cells of one physical type the order is total.
pub proof fn lemma_cell_le_total(a: CellModel, b: CellModel)
    requires
        a.ty() == b.ty(),
    ensures
        cell_le(a, b) || cell_le(b, a),
{
    match (a, b) {
        (CellModel::Text(Option::Some(x)), CellModel::Text(Option::Some(y))) => {
            lemma_lex_le_total(x, y);
        },
        _ => {},
    }
}

/// On cells of one physical type the order is transitive.
pub proof fn lemma_cell_le_trans(a: CellModel, b: CellModel, c: CellModel)
    requires
        a.ty() == b.ty(),
        b.ty() == c.ty(),
        cell_le(a, b),
        cell_le(b, c),
    ensures
        cell_le(a, c),
{
    match (a, b, c) {
        (
            CellModel::Text(Option::Some(x)),
            CellModel::Text(Option::Some(y)),
            CellModel::Text(Option::Some(z)),
        ) => {
            lemma_lex_le_trans(x, y, z);
        },
        _ => {},
    }
}

/// Exec rank of a cell.
fn cell_rank_exec(c: &CellValue) -> (r: u8)
    ensures
        r as int == cell_rank(c@),
{
    match c {
        CellValue::Text(_) => 0,
        CellValue::Int32(_) => 1,
        CellValue::Int64(_) => 2,
        CellValue::Boolean(_) => 3,
    }
}

/// Exec comparison of two cells under `cell_le`.
pub fn cell_le_exec(a: &CellValue, b: &CellValue) -> (r: bool)
    ensures
        r == cell_le(a@, b@),
{
    match (a, b) {
        (CellValue::Text(x), CellValue::Text(y)) => match (x, y) {
            (Option::Some(s), Option::Some(t)) => str_lex_le(s.as_str(), t.as_str()),
            (Option::Some(_), Option::None) => true,
            (Option::None, Option::Some(_)) => false,
            (Option::None, Option::None) => true,
        },
        (CellValue::Int32(x), CellValue::Int32(y)) => match (x, y) {
            (Option::Some(s), Option::Some(t)) => *s <= *t,
            (Option::Some(_), Option::None) => true,
            (Option::None, Option::Some(_)) => false,
            (Option::None, Option::None) => true,
        },
        (CellValue::Int64(x), CellValue::Int64(y)) => match (x, y) {
            (Option::Some(s), Option::Some(t)) => *s <= *t,
            (Option::Some(_), Option::None) => true,
            (Option::None, Option::Some(_)) => false,
            (Option::None, Option::None) => true,
        },
        (CellValue::Boolean(x), CellValue::Boolean(y)) => match (x, y) {
            (Option::Some(s), Option::Some(t)) => !*s || *t,
            (Option::Some(_), Option::None) => true,
            (Option::None, Option::Some(_)) => false,
            (Option::None, Option::None) => true,
        },
        _ => cell_rank_exec(a) <= cell_rank_exec(b),
    }
}

} // verus!
