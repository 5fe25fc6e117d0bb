use columnar_archive::accumulator::RowGroupAccumulator;
use columnar_archive::cells::CellValue;
use columnar_archive::chunk::Chunk;
use columnar_archive::columns::ColumnData;
use columnar_archive::error::Error;
use columnar_archive::schema::{PhysicalType, SchemaDescriptor};

fn two_column_schema() -> SchemaDescriptor {
    let mut s = SchemaDescriptor::new();
    s.push_field("key", PhysicalType::Int32, true);
    s.push_field("tag", PhysicalType::ByteString, true);
    s
}

fn text_at(c: &Chunk, col: usize, row: usize) -> Option<String> {
    match c.column(col) {
        ColumnData::Text(b) => b.get(row).cloned(),
        _ => panic!("expected a text column"),
    }
}

fn i32_at(c: &Chunk, col: usize, row: usize) -> Option<i32> {
    match c.column(col) {
        ColumnData::Int32(b) => b.get(row).copied(),
        _ => panic!("expected an int32 column"),
    }
}

#[test]
fn push_row_counts_rows() {
    let mut acc = RowGroupAccumulator::new(&two_column_schema(), 0);
    let n = acc
        .push_row(vec![CellValue::Int32(Some(7)), CellValue::Text(Some("a".to_owned()))])
        .unwrap();
    assert_eq!(n, 1);
    let n = acc
        .push_row(vec![CellValue::Int32(Some(3)), CellValue::Text(Some("b".to_owned()))])
        .unwrap();
    assert_eq!(n, 2);
    assert_eq!(acc.len(), 2);
}

#[test]
fn push_row_refuses_a_mismatching_cell() {
    let mut acc = RowGroupAccumulator::new(&two_column_schema(), 0);
    let r = acc.push_row(vec![
        CellValue::Text(Some("wrong".to_owned())),
        CellValue::Text(Some("a".to_owned())),
    ]);
    assert!(matches!(r, Err(Error::SchemaInvariant(_))));
    assert_eq!(acc.len(), 0);
}

#[test]
fn push_row_refuses_a_short_row() {
    let mut acc = RowGroupAccumulator::new(&two_column_schema(), 0);
    let r = acc.push_row(vec![CellValue::Int32(Some(1))]);
    assert!(matches!(r, Err(Error::SchemaInvariant(_))));
}

#[test]
fn rows_travel_whole_through_the_sort() {
    // distinguishable values in every column: after the sort, each output
    // position holds the key and the tag of the same input row
    let mut acc = RowGroupAccumulator::new(&two_column_schema(), 0);
    acc.push_row(vec![CellValue::Int32(Some(30)), CellValue::Text(Some("t30".to_owned()))])
        .unwrap();
    acc.push_row(vec![CellValue::Int32(Some(10)), CellValue::Text(Some("t10".to_owned()))])
        .unwrap();
    acc.push_row(vec![CellValue::Int32(Some(20)), CellValue::Text(Some("t20".to_owned()))])
        .unwrap();
    let chunk = acc.sorted_chunk();
    assert_eq!(chunk.len(), 3);
    let expected = [(10, "t10"), (20, "t20"), (30, "t30")];
    for (i, (k, t)) in expected.iter().enumerate() {
        assert_eq!(i32_at(&chunk, 0, i), Some(*k));
        assert_eq!(text_at(&chunk, 1, i), Some((*t).to_owned()));
    }
}

#[test]
fn chunk_matches_its_schema_and_not_another() {
    let schema = two_column_schema();
    let mut acc = RowGroupAccumulator::new(&schema, 0);
    acc.push_row(vec![CellValue::Int32(Some(1)), CellValue::Text(Some("x".to_owned()))])
        .unwrap();
    let chunk = acc.sorted_chunk();
    assert!(chunk.matches_schema(&schema));

    let mut other = SchemaDescriptor::new();
    other.push_field("key", PhysicalType::Int64, true);
    other.push_field("tag", PhysicalType::ByteString, true);
    assert!(!chunk.matches_schema(&other));
}
