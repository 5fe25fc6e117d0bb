use columnar_archive::chunk::Chunk;
use columnar_archive::columns::ColumnData;
use columnar_archive::entities::{Call, Event};
use columnar_archive::error::Error;
use columnar_archive::tables::{Calls, Events, IntoRowGroups};

fn call(id: &str, parent_id: Option<&str>) -> Call {
    Call {
        id: id.to_owned(),
        parent_id: parent_id.map(|p| p.to_owned()),
        block_id: "1-b".to_owned(),
        extrinsic_id: "1-0".to_owned(),
        origin: Some("{\"kind\":\"signed\"}".to_owned()),
        success: true,
        error: None,
        name: "balances.transfer".to_owned(),
        args: None,
        pos: 0,
    }
}

fn event(id: &str, extrinsic_id: Option<&str>) -> Event {
    Event {
        id: id.to_owned(),
        block_id: "1-b".to_owned(),
        index_in_block: 0,
        phase: "ApplyExtrinsic".to_owned(),
        extrinsic_id: extrinsic_id.map(|e| e.to_owned()),
        call_id: None,
        name: "balances.Transfer".to_owned(),
        args: Some("[1,2]".to_owned()),
        pos: 0,
    }
}

fn text_at(c: &Chunk, col: usize, row: usize) -> Option<String> {
    match c.column(col) {
        ColumnData::Text(b) => b.get(row).cloned(),
        _ => panic!("expected a text column"),
    }
}

fn bool_at(c: &Chunk, col: usize, row: usize) -> Option<bool> {
    match c.column(col) {
        ColumnData::Boolean(b) => b.get(row).copied(),
        _ => panic!("expected a boolean column"),
    }
}

#[test]
fn call_schema_shape() {
    let s = Calls::schema();
    assert_eq!(s.len(), 10);
    assert_eq!(s.field(0).name, "id");
    assert_eq!(s.field(1).name, "parent_id");
    assert!(!s.field(1).required);
    assert_eq!(s.field(5).name, "success");
    assert_eq!(s.field(9).name, "pos");
}

#[test]
fn event_schema_shape() {
    let s = Events::schema();
    assert_eq!(s.len(), 9);
    assert_eq!(s.field(3).name, "phase");
    assert_eq!(s.field(4).name, "extrinsic_id");
    assert!(!s.field(4).required);
}

#[test]
fn calls_sort_by_identifier_with_null_parents_tracked() {
    let mut t = Calls::new_table();
    t.push(call("1-0-1", Some("1-0-0")));
    t.push(call("1-0-0", None));
    let chunk = t.into_chunk();
    assert_eq!(chunk.len(), 2);
    assert_eq!(text_at(&chunk, 0, 0), Some("1-0-0".to_owned()));
    assert_eq!(text_at(&chunk, 0, 1), Some("1-0-1".to_owned()));
    // the absent parent travels with its row
    assert_eq!(text_at(&chunk, 1, 0), None);
    assert_eq!(text_at(&chunk, 1, 1), Some("1-0-0".to_owned()));
    assert_eq!(bool_at(&chunk, 5, 0), Some(true));
    // flattened origin text
    assert_eq!(text_at(&chunk, 4, 0), Some("{\"kind\":\"signed\"}".to_owned()));
}

#[test]
fn events_keep_optional_attribution() {
    let mut t = Events::new_table();
    t.push(event("1-2", None));
    t.push(event("1-1", Some("1-0")));
    let chunk = t.into_chunk();
    assert_eq!(chunk.len(), 2);
    assert_eq!(text_at(&chunk, 0, 0), Some("1-1".to_owned()));
    assert_eq!(text_at(&chunk, 4, 0), Some("1-0".to_owned()));
    assert_eq!(text_at(&chunk, 0, 1), Some("1-2".to_owned()));
    assert_eq!(text_at(&chunk, 4, 1), None);
    assert_eq!(text_at(&chunk, 7, 0), Some("[1,2]".to_owned()));
}

#[test]
fn every_error_kind_carries_its_message() {
    let cases = vec![
        Error::Decode("bad line".to_owned()),
        Error::MalformedIdentifier("x".to_owned()),
        Error::Encoding("field".to_owned()),
        Error::Io("disk".to_owned()),
        Error::SchemaInvariant("type".to_owned()),
    ];
    let expected = vec!["bad line", "x", "field", "disk", "type"];
    for (e, m) in cases.iter().zip(expected) {
        assert_eq!(e.message(), m);
    }
}
