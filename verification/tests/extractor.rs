use columnar_archive::entities::{Block, Call, Event, Extrinsic};
use columnar_archive::error::Error;
use columnar_archive::ids::extract_block_num;

fn block(height: i32) -> Block {
    Block {
        id: format!("{}-x", height),
        height,
        hash: "0xh".to_owned(),
        parent_hash: "0xp".to_owned(),
        state_root: "0xs".to_owned(),
        extrinsics_root: "0xe".to_owned(),
        timestamp: "t".to_owned(),
        spec_id: "spec".to_owned(),
        validator: None,
    }
}

#[test]
fn parses_simple_prefix() {
    assert_eq!(extract_block_num(&"12-3".to_owned()).unwrap(), 12);
}

#[test]
fn parses_zero_prefix() {
    assert_eq!(extract_block_num(&"0-abc".to_owned()).unwrap(), 0);
}

#[test]
fn parses_prefix_with_long_suffix() {
    assert_eq!(extract_block_num(&"421-000018-c49ab".to_owned()).unwrap(), 421);
}

#[test]
fn rejects_missing_separator() {
    let r = extract_block_num(&"12345".to_owned());
    assert!(matches!(r, Err(Error::MalformedIdentifier(m)) if m == "12345"));
}

#[test]
fn rejects_empty_prefix() {
    let r = extract_block_num(&"-5".to_owned());
    assert!(matches!(r, Err(Error::MalformedIdentifier(_))));
}

#[test]
fn rejects_non_numeric_prefix() {
    let r = extract_block_num(&"abc-1".to_owned());
    assert!(matches!(r, Err(Error::MalformedIdentifier(_))));
}

#[test]
fn rejects_empty_string() {
    let r = extract_block_num(&"".to_owned());
    assert!(matches!(r, Err(Error::MalformedIdentifier(_))));
}

#[test]
fn accepts_largest_height() {
    assert_eq!(extract_block_num(&"2147483647-0".to_owned()).unwrap(), i32::MAX);
}

#[test]
fn rejects_height_overflow() {
    let r = extract_block_num(&"2147483648-0".to_owned());
    assert!(matches!(r, Err(Error::MalformedIdentifier(_))));
    let r = extract_block_num(&"99999999999999999999-0".to_owned());
    assert!(matches!(r, Err(Error::MalformedIdentifier(_))));
}

#[test]
fn error_message_carries_the_identifier() {
    match extract_block_num(&"bad".to_owned()) {
        Err(e) => assert_eq!(e.message(), "bad"),
        Ok(_) => panic!("expected an error"),
    }
}

#[test]
fn block_num_of_block_is_its_height() {
    assert_eq!(block(7).block_num(), 7i64);
}

#[test]
fn block_num_of_derived_kinds_parses_the_block_id() {
    let e = Extrinsic {
        id: "5-0".to_owned(),
        block_id: "5-deadbeef".to_owned(),
        index_in_block: 0,
        version: 4,
        signature: None,
        call_id: "5-0-0".to_owned(),
        fee: None,
        tip: None,
        success: true,
        error: None,
        hash: "0xa".to_owned(),
        pos: 1,
    };
    assert_eq!(e.block_num().unwrap(), 5i64);

    let ev = Event {
        id: "9-1".to_owned(),
        block_id: "9-aa".to_owned(),
        index_in_block: 1,
        phase: "ApplyExtrinsic".to_owned(),
        extrinsic_id: None,
        call_id: None,
        name: "balances.Transfer".to_owned(),
        args: None,
        pos: 3,
    };
    assert_eq!(ev.block_num().unwrap(), 9i64);

    let c = Call {
        id: "11-0-0".to_owned(),
        parent_id: None,
        block_id: "11-bb".to_owned(),
        extrinsic_id: "11-0".to_owned(),
        origin: None,
        success: true,
        error: None,
        name: "balances.transfer".to_owned(),
        args: None,
        pos: 2,
    };
    assert_eq!(c.block_num().unwrap(), 11i64);

    let bad = Event { block_id: "nope".to_owned(), ..ev };
    assert!(matches!(bad.block_num(), Err(Error::MalformedIdentifier(_))));
}
