use lcs_diff::{create_table, diff, DiffElement, DiffResult};

#[test]
fn shoud_create_table_with_numbers() {
    let table = create_table(&vec![2, 3], &vec![0, 1, 2]);
    let expected = vec![vec![1, 0, 0], vec![1, 0, 0], vec![1, 0, 0], vec![0, 0, 0]];
    assert_eq!(table, expected);
}

#[test]
fn shoud_create_table_with_char() {
    let table = create_table(&vec!["a", "d"], &vec!["a", "b", "c"]);
    let expected = vec![vec![1, 0, 0], vec![0, 0, 0], vec![0, 0, 0], vec![0, 0, 0]];
    assert_eq!(table, expected);
}

#[test]
fn shoud_create_table_with_string() {
    let table = create_table(&vec!["abc", "bcd"], &vec!["abc", "bcd", "c"]);
    let expected = vec![vec![2, 1, 0], vec![1, 1, 0], vec![0, 0, 0], vec![0, 0, 0]];
    assert_eq!(table, expected);
}

#[test]
fn shoud_create_diff_result_with_added() {
    let result = diff(&vec!["abc", "c"], &vec!["abc", "bcd", "c"]);
    let expected = vec![
        DiffResult::Common(DiffElement {
            old_index: Some(0),
            new_index: Some(0),
            data: "abc",
        }),
        DiffResult::Added(DiffElement {
            old_index: None,
            new_index: Some(1),
            data: "bcd",
        }),
        DiffResult::Common(DiffElement {
            old_index: Some(1),
            new_index: Some(2),
            data: "c",
        }),
    ];

    assert_eq!(result, expected);
}

#[test]
fn shoud_create_diff_result_with_removed() {
    let result = diff(&vec!["abc", "bcd", "c"], &vec!["abc", "c"]);
    let expected = vec![
        DiffResult::Common(DiffElement {
            old_index: Some(0),
            new_index: Some(0),
            data: "abc",
        }),
        DiffResult::Removed(DiffElement {
            old_index: Some(1),
            new_index: None,
            data: "bcd",
        }),
        DiffResult::Common(DiffElement {
            old_index: Some(2),
            new_index: Some(1),
            data: "c",
        }),
    ];
    assert_eq!(result, expected);
}

#[test]
fn shoud_create_diff_result_without_new() {
    let result = diff(&vec!["abc", "bcd", "c"], &vec![]);
    let expected = vec![
        DiffResult::Removed(DiffElement {
            old_index: Some(0),
            new_index: None,
            data: "abc",
        }),
        DiffResult::Removed(DiffElement {
            old_index: Some(1),
            new_index: None,
            data: "bcd",
        }),
        DiffResult::Removed(DiffElement {
            old_index: Some(2),
            new_index: None,
            data: "c",
        }),
    ];
    assert_eq!(result, expected);
}

#[test]
fn shoud_create_diff_result_without_old() {
    let result = diff(&vec![], &vec!["abc", "bcd", "c"]);
    let expected = vec![
        DiffResult::Added(DiffElement {
            old_index: None,
            new_index: Some(0),
            data: "abc",
        }),
        DiffResult::Added(DiffElement {
            old_index: None,
            new_index: Some(1),
            data: "bcd",
        }),
        DiffResult::Added(DiffElement {
            old_index: None,
            new_index: Some(2),
            data: "c",
        }),
    ];
    assert_eq!(result, expected);
}

#[test]
fn shoud_create_empty_result_with_empty_input() {
    let result = diff(&vec![0u8; 0], &vec![0u8; 0]);
    let expected = vec![];
    assert_eq!(result, expected);
}
