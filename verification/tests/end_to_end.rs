use columnar_archive::chunk::Chunk;
use columnar_archive::columns::ColumnData;
use columnar_archive::dispatcher::{DispatchOutput, Dispatcher};
use columnar_archive::entities::{Block, BlockData, Extrinsic, Metadata};
use columnar_archive::pipeline::StepOutput;

fn header(height: i32) -> Block {
    Block {
        id: format!("{}-h", height),
        height,
        hash: format!("hash{}", height),
        parent_hash: "p".to_owned(),
        state_root: "s".to_owned(),
        extrinsics_root: "e".to_owned(),
        timestamp: "t".to_owned(),
        spec_id: "spec".to_owned(),
        validator: None,
    }
}

fn extrinsic(id: &str, block_height: i32) -> Extrinsic {
    Extrinsic {
        id: id.to_owned(),
        block_id: format!("{}-h", block_height),
        index_in_block: 0,
        version: 4,
        signature: None,
        call_id: format!("{}-0", id),
        fee: Some(10),
        tip: None,
        success: true,
        error: None,
        hash: format!("xh{}", id),
        pos: 0,
    }
}

fn unit(height: i32, extrinsics: Vec<Extrinsic>, metadata: Option<Metadata>) -> BlockData {
    BlockData { header: header(height), extrinsics, events: Vec::new(), calls: Vec::new(), metadata }
}

fn text_at(c: &Chunk, col: usize, row: usize) -> Option<String> {
    match c.column(col) {
        ColumnData::Text(b) => b.get(row).cloned(),
        _ => panic!("expected a text column"),
    }
}

fn i32_at(c: &Chunk, col: usize, row: usize) -> Option<i32> {
    match c.column(col) {
        ColumnData::Int32(b) => b.get(row).copied(),
        _ => panic!("expected an int32 column"),
    }
}

fn chunks_of(steps: Vec<StepOutput>) -> Vec<Chunk> {
    steps.into_iter().filter_map(|s| s.row_group).collect()
}

#[test]
fn two_lines_end_to_end() {
    // two input units, one extrinsic each; both thresholds at two rows:
    // one block file with rows [height 1, height 2] and one extrinsic file
    // with two rows
    let mut d = Dispatcher::new(16, 2, 2);

    let out1 = d.dispatch(unit(1, vec![extrinsic("1-0", 1)], None));
    assert!(chunks_of(out1.block_steps).is_empty());
    assert!(chunks_of(out1.extrinsic_steps).is_empty());

    let out2 = d.dispatch(unit(2, vec![extrinsic("2-0", 2)], None));

    let block_chunks = chunks_of(out2.block_steps);
    assert_eq!(block_chunks.len(), 1);
    let bc = &block_chunks[0];
    assert_eq!(bc.len(), 2);
    assert_eq!(i32_at(bc, 1, 0), Some(1));
    assert_eq!(i32_at(bc, 1, 1), Some(2));
    assert_eq!(text_at(bc, 0, 0), Some("1-h".to_owned()));
    assert_eq!(text_at(bc, 0, 1), Some("2-h".to_owned()));

    let ex_chunks = chunks_of(out2.extrinsic_steps);
    assert_eq!(ex_chunks.len(), 1);
    let xc = &ex_chunks[0];
    assert_eq!(xc.len(), 2);
    assert_eq!(text_at(xc, 0, 0), Some("1-0".to_owned()));
    assert_eq!(text_at(xc, 0, 1), Some("2-0".to_owned()));

    // both files closed at the boundary
    let closed: Vec<u64> = out2.event_steps.iter().filter_map(|s| s.closed_file).collect();
    assert!(closed.is_empty());

    let final_out: DispatchOutput = d.close_all();
    assert!(chunks_of(final_out.block_steps).is_empty());
    assert!(chunks_of(final_out.extrinsic_steps).is_empty());
}

#[test]
fn metadata_passes_through_to_the_sidecar() {
    let mut d = Dispatcher::new(16, 64, 4096);
    let md = Metadata {
        id: "1".to_owned(),
        spec_name: "kusama".to_owned(),
        spec_version: Some(9),
        block_height: 1,
        block_hash: "0xabc".to_owned(),
        hex: "0x00".to_owned(),
    };
    let out = d.dispatch(unit(1, Vec::new(), Some(md)));
    let got = out.metadata.expect("metadata handed back for insertion");
    assert_eq!(got.spec_name, "kusama");
    assert_eq!(got.spec_version, Some(9));
    assert_eq!(got.block_height, 1);

    let out = d.dispatch(unit(2, Vec::new(), None));
    assert!(out.metadata.is_none());
}

#[test]
fn drain_on_close_flushes_every_pipeline() {
    let mut d = Dispatcher::new(16, 64, 4096);
    // three units, all far below the thresholds: nothing flushes until the
    // end-of-input drain
    for h in 1..=3 {
        let out = d.dispatch(unit(h, vec![extrinsic(&format!("{}-0", h), h)], None));
        assert!(chunks_of(out.block_steps).is_empty());
        assert!(chunks_of(out.extrinsic_steps).is_empty());
    }
    let out = d.close_all();
    let bc = chunks_of(out.block_steps);
    assert_eq!(bc.len(), 1);
    assert_eq!(bc[0].len(), 3);
    let xc = chunks_of(out.extrinsic_steps);
    assert_eq!(xc.len(), 1);
    assert_eq!(xc[0].len(), 3);
    // empty pipelines close no file and write no group
    assert!(chunks_of(out.call_steps).is_empty());
    assert!(chunks_of(out.event_steps).is_empty());
}
