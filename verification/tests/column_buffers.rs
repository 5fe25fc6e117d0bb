use columnar_archive::cells::CellValue;
use columnar_archive::column::ColumnBuffer;
use columnar_archive::sort::stable_sort_perm;

#[test]
fn null_round_trip_in_one_column() {
    let mut col: ColumnBuffer<String> = ColumnBuffer::new();
    col.append(Some("a".to_owned()));
    col.append(None);
    col.append(Some("b".to_owned()));
    col.append(None);

    // one presence flag per row, one dense entry per present row
    assert_eq!(col.len(), 4);
    assert_eq!(col.presence_flags(), &vec![true, false, true, false]);
    assert_eq!(col.dense_values(), &vec!["a".to_owned(), "b".to_owned()]);

    // decoding reproduces absence at the absent rows and the values, in
    // original relative order, at the present ones
    assert_eq!(col.get(0), Some(&"a".to_owned()));
    assert_eq!(col.get(1), None);
    assert_eq!(col.get(2), Some(&"b".to_owned()));
    assert_eq!(col.get(3), None);
}

#[test]
fn permute_carries_values_and_presence_together() {
    let mut col: ColumnBuffer<i64> = ColumnBuffer::new();
    col.append(Some(10));
    col.append(None);
    col.append(Some(30));

    let perm = vec![2usize, 0, 1];
    let out = col.permuted(&perm);
    assert_eq!(out.len(), 3);
    assert_eq!(out.get(0), Some(&30));
    assert_eq!(out.get(1), Some(&10));
    assert_eq!(out.get(2), None);
    assert_eq!(out.presence_flags(), &vec![true, true, false]);
    assert_eq!(out.dense_values(), &vec![30, 10]);
}

#[test]
fn sort_permutation_is_ascending_and_stable() {
    let keys = vec![
        CellValue::Int32(Some(3)),
        CellValue::Int32(Some(1)),
        CellValue::Int32(Some(3)),
        CellValue::Int32(Some(2)),
    ];
    let perm = stable_sort_perm(&keys);
    // ascending; the two equal keys keep their original relative order
    assert_eq!(perm, vec![1, 3, 0, 2]);
}

#[test]
fn sort_permutation_puts_absent_keys_last() {
    let keys = vec![
        CellValue::Int32(None),
        CellValue::Int32(Some(5)),
        CellValue::Int32(None),
        CellValue::Int32(Some(4)),
    ];
    let perm = stable_sort_perm(&keys);
    assert_eq!(perm, vec![3, 1, 0, 2]);
}

#[test]
fn text_keys_sort_lexically_not_numerically() {
    // lexical order of the identifier string exactly: "10-" sorts before
    // "2-" although its height is larger
    let keys = vec![
        CellValue::Text(Some("2-0".to_owned())),
        CellValue::Text(Some("10-0".to_owned())),
    ];
    let perm = stable_sort_perm(&keys);
    assert_eq!(perm, vec![1, 0]);
}
