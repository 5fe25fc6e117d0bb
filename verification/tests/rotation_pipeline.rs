use columnar_archive::entities::Block;
use columnar_archive::pipeline::{Pipeline, StepOutput};
use columnar_archive::tables::Blocks;

fn block(height: i32) -> Block {
    Block {
        id: format!("{}-x", height),
        height,
        hash: format!("h{}", height),
        parent_hash: "p".to_owned(),
        state_root: "s".to_owned(),
        extrinsics_root: "e".to_owned(),
        timestamp: "t".to_owned(),
        spec_id: "spec".to_owned(),
        validator: None,
    }
}

fn submit_and_process(p: &mut Pipeline<Blocks>, height: i32) -> StepOutput {
    assert!(p.try_submit(block(height)));
    p.process_next().expect("one queued record")
}

#[test]
fn rotation_boundaries_two_per_group_four_per_file() {
    // rows_per_row_group = 2, rows_per_file = 4: four rows give one file
    // with two row groups of two rows each; a fifth row begins a new file
    let mut p: Pipeline<Blocks> = Pipeline::new(8, 2, 4);

    let st = submit_and_process(&mut p, 1);
    assert!(st.row_group.is_none());
    assert!(st.closed_file.is_none());

    let st = submit_and_process(&mut p, 2);
    let g1 = st.row_group.expect("first row group at the second row");
    assert_eq!(g1.len(), 2);
    assert!(st.closed_file.is_none());

    let st = submit_and_process(&mut p, 3);
    assert!(st.row_group.is_none());
    assert!(st.closed_file.is_none());

    let st = submit_and_process(&mut p, 4);
    let g2 = st.row_group.expect("second row group at the fourth row");
    assert_eq!(g2.len(), 2);
    assert_eq!(st.closed_file, Some(0));

    // the fifth row begins a new file: nothing is flushed yet
    let st = submit_and_process(&mut p, 5);
    assert!(st.row_group.is_none());
    assert!(st.closed_file.is_none());

    // the drain at end of input emits the one-row tail and closes file 1
    let st = p.close();
    assert_eq!(st.row_group.expect("tail row group").len(), 1);
    assert_eq!(st.closed_file, Some(1));
}

#[test]
fn file_threshold_flushes_a_partial_group() {
    // rows_per_row_group = 3, rows_per_file = 4: the file threshold forces
    // a second, partial group of one row
    let mut p: Pipeline<Blocks> = Pipeline::new(8, 3, 4);
    assert!(submit_and_process(&mut p, 1).row_group.is_none());
    assert!(submit_and_process(&mut p, 2).row_group.is_none());
    let st = submit_and_process(&mut p, 3);
    assert_eq!(st.row_group.expect("full group").len(), 3);
    assert!(st.closed_file.is_none());
    let st = submit_and_process(&mut p, 4);
    assert_eq!(st.row_group.expect("partial group at file boundary").len(), 1);
    assert_eq!(st.closed_file, Some(0));
}

#[test]
fn row_count_conservation_with_drain_on_close() {
    let mut p: Pipeline<Blocks> = Pipeline::new(8, 2, 4);
    let pushed = 7usize;
    let mut emitted = 0usize;
    for h in 0..pushed {
        let st = submit_and_process(&mut p, h as i32);
        if let Some(c) = st.row_group {
            emitted += c.len();
        }
    }
    let st = p.close();
    if let Some(c) = st.row_group {
        emitted += c.len();
    }
    // the sum of row counts across all emitted row groups equals the
    // number of processed records
    assert_eq!(emitted, pushed);
}

#[test]
fn backpressure_with_queue_capacity_one() {
    let mut p: Pipeline<Blocks> = Pipeline::new(1, 2, 4);
    assert!(p.try_submit(block(1)));
    // the queue is full: a second submit is refused until a drain
    assert!(!p.try_submit(block(2)));
    assert_eq!(p.queue_len(), 1);
    let _ = p.process_next().expect("one queued record");
    assert!(p.try_submit(block(2)));
    assert_eq!(p.queue_len(), 1);
}

#[test]
fn close_on_an_empty_pipeline_emits_nothing() {
    let mut p: Pipeline<Blocks> = Pipeline::new(4, 2, 4);
    let st = p.close();
    assert!(st.row_group.is_none());
    assert!(st.closed_file.is_none());
}

#[test]
fn boundaries_increase_per_closed_file() {
    let mut p: Pipeline<Blocks> = Pipeline::new(8, 1, 1);
    // every row is its own group and its own file
    let st = submit_and_process(&mut p, 1);
    assert_eq!(st.row_group.unwrap().len(), 1);
    assert_eq!(st.closed_file, Some(0));
    let st = submit_and_process(&mut p, 2);
    assert_eq!(st.closed_file, Some(1));
    let st = submit_and_process(&mut p, 3);
    assert_eq!(st.closed_file, Some(2));
}
