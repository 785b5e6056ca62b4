use lcs_diff::{diff, DiffElement, DiffResult};

fn old_side<T: PartialEq + Clone>(script: &[DiffResult<T>]) -> Vec<T> {
    let mut out = Vec::new();
    for rec in script {
        match rec {
            DiffResult::Removed(e) => out.push(e.data.clone()),
            DiffResult::Common(e) => out.push(e.data.clone()),
            DiffResult::Added(_) => {}
        }
    }
    out
}

fn new_side<T: PartialEq + Clone>(script: &[DiffResult<T>]) -> Vec<T> {
    let mut out = Vec::new();
    for rec in script {
        match rec {
            DiffResult::Added(e) => out.push(e.data.clone()),
            DiffResult::Common(e) => out.push(e.data.clone()),
            DiffResult::Removed(_) => {}
        }
    }
    out
}

fn counts<T: PartialEq + Clone>(script: &[DiffResult<T>]) -> (usize, usize, usize) {
    let mut removed = 0;
    let mut common = 0;
    let mut added = 0;
    for rec in script {
        match rec {
            DiffResult::Removed(_) => removed += 1,
            DiffResult::Common(_) => common += 1,
            DiffResult::Added(_) => added += 1,
        }
    }
    (removed, common, added)
}

#[test]
fn identity_yields_only_common_records() {
    let v = vec![10, 20, 30];
    let result = diff(&v, &v);
    let expected = vec![
        DiffResult::Common(DiffElement {
            old_index: Some(0),
            new_index: Some(0),
            data: 10,
        }),
        DiffResult::Common(DiffElement {
            old_index: Some(1),
            new_index: Some(1),
            data: 20,
        }),
        DiffResult::Common(DiffElement {
            old_index: Some(2),
            new_index: Some(2),
            data: 30,
        }),
    ];
    assert_eq!(result, expected);
}

#[test]
fn disjoint_singletons_prefer_added_on_tie() {
    let result = diff(&vec!["x"], &vec!["y"]);
    let expected = vec![
        DiffResult::Added(DiffElement {
            old_index: None,
            new_index: Some(0),
            data: "y",
        }),
        DiffResult::Removed(DiffElement {
            old_index: Some(0),
            new_index: None,
            data: "x",
        }),
    ];
    assert_eq!(result, expected);
}

#[test]
fn fully_disjoint_equal_length_sequences() {
    let old: Vec<u32> = vec![0; 1000];
    let new: Vec<u32> = vec![1; 1000];
    let result = diff(&old, &new);
    assert_eq!(result.len(), 2000);
    // the tie-break prefers consuming from `new`: first every new element
    // as Added in order, then every old element as Removed in order
    for (k, rec) in result.iter().take(1000).enumerate() {
        assert_eq!(
            rec,
            &DiffResult::Added(DiffElement {
                old_index: None,
                new_index: Some(k),
                data: 1u32,
            })
        );
    }
    for (k, rec) in result.iter().skip(1000).enumerate() {
        assert_eq!(
            rec,
            &DiffResult::Removed(DiffElement {
                old_index: Some(k),
                new_index: None,
                data: 0u32,
            })
        );
    }
}

#[test]
fn reconstruction_replays_both_inputs() {
    let old = vec!["p", "q", "x", "s"];
    let new = vec!["p", "x", "y", "s"];
    let result = diff(&old, &new);
    assert_eq!(old_side(&result), old);
    assert_eq!(new_side(&result), new);
}

#[test]
fn count_invariant_holds_on_mixed_script() {
    let old = vec![1, 2, 3, 4, 5];
    let new = vec![2, 3, 9, 5, 6];
    let result = diff(&old, &new);
    let (removed, common, added) = counts(&result);
    assert_eq!(common + removed, old.len());
    assert_eq!(common + added, new.len());
}

#[test]
fn minimal_edit_count_matches_lcs_formula() {
    // LCS of ["a","b","c"] and ["b","c","d"] is ["b","c"], of length 2:
    // the script carries 3 + 3 - 2*2 == 2 edit records
    let old = vec!["a", "b", "c"];
    let new = vec!["b", "c", "d"];
    let result = diff(&old, &new);
    let (removed, _, added) = counts(&result);
    assert_eq!(added + removed, old.len() + new.len() - 2 * 2);
    let expected = vec![
        DiffResult::Removed(DiffElement {
            old_index: Some(0),
            new_index: None,
            data: "a",
        }),
        DiffResult::Common(DiffElement {
            old_index: Some(1),
            new_index: Some(0),
            data: "b",
        }),
        DiffResult::Common(DiffElement {
            old_index: Some(2),
            new_index: Some(1),
            data: "c",
        }),
        DiffResult::Added(DiffElement {
            old_index: None,
            new_index: Some(2),
            data: "d",
        }),
    ];
    assert_eq!(result, expected);
}

#[test]
fn trimmed_prefix_and_suffix_come_back_as_common() {
    let old = vec!["p", "q", "x", "s"];
    let new = vec!["p", "x", "y", "s"];
    let result = diff(&old, &new);
    let expected = vec![
        DiffResult::Common(DiffElement {
            old_index: Some(0),
            new_index: Some(0),
            data: "p",
        }),
        DiffResult::Removed(DiffElement {
            old_index: Some(1),
            new_index: None,
            data: "q",
        }),
        DiffResult::Common(DiffElement {
            old_index: Some(2),
            new_index: Some(1),
            data: "x",
        }),
        DiffResult::Added(DiffElement {
            old_index: None,
            new_index: Some(2),
            data: "y",
        }),
        DiffResult::Common(DiffElement {
            old_index: Some(3),
            new_index: Some(3),
            data: "s",
        }),
    ];
    assert_eq!(result, expected);
}

#[test]
fn identity_of_empty_sequence() {
    let v: Vec<u8> = Vec::new();
    let result = diff(&v, &v);
    assert_eq!(result, vec![]);
}

#[test]
fn repeated_equal_elements_trim_as_prefix() {
    let old = vec![7, 7];
    let new = vec![7];
    let result = diff(&old, &new);
    let expected = vec![
        DiffResult::Common(DiffElement {
            old_index: Some(0),
            new_index: Some(0),
            data: 7,
        }),
        DiffResult::Removed(DiffElement {
            old_index: Some(1),
            new_index: None,
            data: 7,
        }),
    ];
    assert_eq!(result, expected);
}
