use bijoux::state::{flag_from_stored, group_by_owner, next_sort_order, stored_flag};

fn strings(v: &[&str]) -> Vec<String> {
    v.iter().map(|s| s.to_string()).collect()
}

#[test]
fn rows_go_under_their_owner_in_order() {
    let owners = strings(&["c1", "c2", "c3"]);
    let rows = strings(&["c2", "c1", "c2", "x", "c1"]);
    assert_eq!(group_by_owner(&owners, &rows), vec![vec![1, 4], vec![0, 2], vec![]]);
}

#[test]
fn grouping_with_no_rows_or_owners() {
    assert_eq!(group_by_owner(&strings(&["a"]), &strings(&[])), vec![Vec::<usize>::new()]);
    assert_eq!(group_by_owner(&strings(&[]), &strings(&["a"])), Vec::<Vec<usize>>::new());
}

#[test]
fn every_row_is_listed_exactly_under_its_owner() {
    let owners = strings(&["a", "b"]);
    let rows = strings(&["b", "a", "a", "b", "b"]);
    let groups = group_by_owner(&owners, &rows);
    for (j, row) in rows.iter().enumerate() {
        for (i, owner) in owners.iter().enumerate() {
            assert_eq!(groups[i].contains(&j), row == owner);
        }
    }
}

#[test]
fn flags_read_back_as_stored() {
    assert_eq!(stored_flag(true), 1);
    assert_eq!(stored_flag(false), 0);
    assert!(flag_from_stored(stored_flag(true)));
    assert!(!flag_from_stored(stored_flag(false)));
    assert!(flag_from_stored(-3));
    assert!(flag_from_stored(7));
}

#[test]
fn sort_order_follows_the_highest() {
    assert_eq!(next_sort_order(-1), 0);
    assert_eq!(next_sort_order(4), 5);
}
