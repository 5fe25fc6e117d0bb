use columnar_archive::chunk::Chunk;
use columnar_archive::columns::ColumnData;
use columnar_archive::entities::{Block, Extrinsic};
use columnar_archive::tables::{Blocks, Extrinsics, IntoRowGroups};

fn block(id: &str, height: i32, validator: Option<&str>) -> Block {
    Block {
        id: id.to_owned(),
        height,
        hash: format!("hash-{}", id),
        parent_hash: format!("parent-{}", id),
        state_root: "sr".to_owned(),
        extrinsics_root: "er".to_owned(),
        timestamp: "ts".to_owned(),
        spec_id: "spec".to_owned(),
        validator: validator.map(|v| v.to_owned()),
    }
}

fn extrinsic(id: &str, fee: Option<i64>) -> Extrinsic {
    Extrinsic {
        id: id.to_owned(),
        block_id: format!("{}b", id),
        index_in_block: 0,
        version: 4,
        signature: None,
        call_id: format!("{}c", id),
        fee,
        tip: None,
        success: true,
        error: Some("{\"module\":1}".to_owned()),
        hash: format!("h{}", id),
        pos: 0,
    }
}

fn text_at(c: &Chunk, col: usize, row: usize) -> Option<String> {
    match c.column(col) {
        ColumnData::Text(b) => b.get(row).cloned(),
        _ => panic!("expected a text column"),
    }
}

fn i32_at(c: &Chunk, col: usize, row: usize) -> Option<i32> {
    match c.column(col) {
        ColumnData::Int32(b) => b.get(row).copied(),
        _ => panic!("expected an int32 column"),
    }
}

fn i64_at(c: &Chunk, col: usize, row: usize) -> Option<i64> {
    match c.column(col) {
        ColumnData::Int64(b) => b.get(row).copied(),
        _ => panic!("expected an int64 column"),
    }
}

#[test]
fn block_schema_names_and_kinds() {
    let s = Blocks::schema();
    assert_eq!(s.len(), 9);
    assert_eq!(s.field(0).name, "id");
    assert_eq!(s.field(1).name, "height");
    assert_eq!(s.field(8).name, "validator");
    assert!(!s.field(8).required);
    assert!(s.field(0).required);
}

#[test]
fn extrinsic_schema_has_both_fee_and_tip() {
    let s = Extrinsics::schema();
    assert_eq!(s.len(), 12);
    assert_eq!(s.field(6).name, "fee");
    assert_eq!(s.field(7).name, "tip");
    assert_eq!(s.field(11).name, "pos");
}

#[test]
fn blocks_sort_by_height_ascending() {
    let mut t = Blocks::new_table();
    t.push(block("3-a", 3, None));
    t.push(block("1-a", 1, Some("val-1")));
    t.push(block("2-a", 2, None));
    let chunk = t.into_chunk();
    assert_eq!(chunk.len(), 3);
    // heights ascending, and every other column carried along with its row
    assert_eq!(i32_at(&chunk, 1, 0), Some(1));
    assert_eq!(i32_at(&chunk, 1, 1), Some(2));
    assert_eq!(i32_at(&chunk, 1, 2), Some(3));
    assert_eq!(text_at(&chunk, 0, 0), Some("1-a".to_owned()));
    assert_eq!(text_at(&chunk, 2, 0), Some("hash-1-a".to_owned()));
    assert_eq!(text_at(&chunk, 8, 0), Some("val-1".to_owned()));
    assert_eq!(text_at(&chunk, 8, 1), None);
    assert_eq!(text_at(&chunk, 0, 2), Some("3-a".to_owned()));
}

#[test]
fn extrinsics_sort_lexically_by_identifier() {
    let mut t = Extrinsics::new_table();
    t.push(extrinsic("2-0", Some(5)));
    t.push(extrinsic("10-0", None));
    let chunk = t.into_chunk();
    assert_eq!(chunk.len(), 2);
    // "10-0" sorts before "2-0": lexical order of the identifier string,
    // not numeric height order
    assert_eq!(text_at(&chunk, 0, 0), Some("10-0".to_owned()));
    assert_eq!(text_at(&chunk, 0, 1), Some("2-0".to_owned()));
    // the absent fee travels with its row
    assert_eq!(i64_at(&chunk, 6, 0), None);
    assert_eq!(i64_at(&chunk, 6, 1), Some(5));
    // flattened JSON text lands as bytes of the error column
    assert_eq!(text_at(&chunk, 9, 0), Some("{\"module\":1}".to_owned()));
}

#[test]
fn push_returns_the_running_count() {
    let mut t = Blocks::new_table();
    assert_eq!(t.push(block("1-a", 1, None)), 1);
    assert_eq!(t.push(block("2-a", 2, None)), 2);
    assert_eq!(t.len(), 2);
}
