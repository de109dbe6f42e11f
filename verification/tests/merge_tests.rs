use deltakit::merging::{
    add_to_inventory, count_in_array, merge_inventories, merge_max, merge_same, merge_simple,
    merge_values, Diagnostic, MergeResult,
};

fn resolved<T>(m: MergeResult<T>) -> T {
    match m {
        MergeResult::Resolved(v) => v,
        MergeResult::Conflict { .. } => panic!("expected a resolved outcome"),
    }
}

#[test]
fn test_merge_markers() {
    let conflict = MergeResult::Conflict {
        ours: String::from("A"),
        theirs: String::from("B"),
        ancestor: Some(String::from("C")),
    };

    assert_eq!(
        conflict.to_merge_string(5),
        "<<<<< ours\nA\n||||| ancestor\nC\n=====\nB\n>>>>> theirs",
    );
}

#[test]
fn test_merge_markers_two_way() {
    let conflict = MergeResult::Conflict {
        ours: String::from("A"),
        theirs: String::from("B"),
        ancestor: None,
    };

    assert_eq!(conflict.to_merge_string(7), "<<<<<<< ours\nA\n=======\nB\n>>>>>>> theirs");
}

#[test]
fn test_merge_inventories() {
    let mut ours = vec![0, 1, 0, 2, 0, 3];
    let theirs = vec![1, 1, 2, 3, 4];

    let expected = vec![1, 1, 0, 2, 4, 3];

    let mut diag: Vec<Diagnostic> = Vec::new();
    merge_inventories(&mut ours, &theirs, "", &mut diag);

    assert_eq!(ours, expected);
    assert_eq!(diag.len(), 0);
}

#[test]
fn test_merge_inventories_drops_when_full() {
    let mut ours = vec![5, 6];
    let theirs = vec![5, 6, 7];

    let mut diag: Vec<Diagnostic> = Vec::new();
    merge_inventories(&mut ours, &theirs, "item", &mut diag);

    assert_eq!(ours, vec![5, 6]);
    assert_eq!(diag.len(), 1);
    match &diag[0] {
        Diagnostic::InventoryDrop { kind, item } => {
            assert_eq!(kind, "item");
            assert_eq!(*item, 7);
        }
        other => panic!("unexpected diagnostic {:?}", other),
    }
}

#[test]
fn test_merge_values_both_gained() {
    let mut diag: Vec<Diagnostic> = Vec::new();
    let r = merge_values(15, 12, Some(10), Some(0), None, "gold", &mut diag);
    assert_eq!(resolved(r), 17);
    match &diag[0] {
        Diagnostic::ValueMerge { ours, ancestor, theirs, result, .. } => {
            assert_eq!((*ours, *ancestor, *theirs, *result), (15, 10, 12, 17));
        }
        other => panic!("unexpected diagnostic {:?}", other),
    }
}

#[test]
fn test_merge_values_clamped_at_floor() {
    let mut diag: Vec<Diagnostic> = Vec::new();
    let r = merge_values(5, 3, Some(10), Some(0), None, "gold", &mut diag);
    assert_eq!(resolved(r), 0);
    match &diag[0] {
        Diagnostic::ValueMerge { result, .. } => {
            assert_eq!(*result, -2);
        }
        other => panic!("unexpected diagnostic {:?}", other),
    }
}

#[test]
fn test_merge_values_two_way_takes_max() {
    let mut diag: Vec<Diagnostic> = Vec::new();
    let r = merge_values(4, 9, None, Some(0), None, "gold", &mut diag);
    assert_eq!(resolved(r), 9);
    assert!(matches!(diag[0], Diagnostic::MaxFallback { .. }));
}

#[test]
fn test_merge_simple_policies() {
    assert_eq!(resolved(merge_simple(3, 3, Some(9))), 3);
    assert_eq!(resolved(merge_simple(3, 7, Some(3))), 7);
    assert_eq!(resolved(merge_simple(3, 7, Some(7))), 3);
    assert!(matches!(
        merge_simple(3, 7, Some(5)),
        MergeResult::Conflict { ours: 3, theirs: 7, ancestor: Some(5) }
    ));
    assert!(matches!(merge_simple(3, 7, None::<i32>), MergeResult::Conflict { .. }));
}

#[test]
fn test_merge_same_conflicts_despite_ancestor() {
    assert_eq!(resolved(merge_same(4, 4, Some(1))), 4);
    assert!(matches!(merge_same(4, 5, Some(4)), MergeResult::Conflict { .. }));
}

#[test]
fn test_merge_max_ignores_ancestor() {
    assert_eq!(resolved(merge_max(3, 9)), 9);
    assert_eq!(resolved(merge_max(9, 3)), 9);
    assert_eq!(resolved(merge_max(4, 4)), 4);
}

#[test]
fn test_count_and_add() {
    let v = vec![1, 2, 1, 0, 1];
    assert_eq!(count_in_array(&v, 1), 3);
    assert_eq!(count_in_array(&v, 9), 0);

    let mut inv = vec![1, 0, 2, 0];
    assert_eq!(add_to_inventory(&mut inv, 7, 2), Ok(3));
    assert_eq!(inv, vec![1, 0, 2, 7]);
    assert_eq!(add_to_inventory(&mut inv, 8, 2), Ok(1));
    assert_eq!(inv, vec![1, 8, 2, 7]);
    assert_eq!(add_to_inventory(&mut inv, 9, 2), Err(()));
}
