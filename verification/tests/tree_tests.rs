use pnpro::tree::build_forest;

#[test]
fn forest_follows_parents_in_record_order() {
    let keys = vec![(10, None), (11, Some(10)), (12, None), (13, Some(11)), (14, Some(10)), (15, Some(99))];
    let f = build_forest(&keys, None);
    assert_eq!(f.iter().map(|n| n.index).collect::<Vec<_>>(), vec![0, 2]);
    assert_eq!(f[0].children.iter().map(|n| n.index).collect::<Vec<_>>(), vec![1, 4]);
    assert_eq!(f[0].children[0].children[0].index, 3);
    assert!(f[1].children.is_empty());
}

#[test]
fn empty_input_gives_empty_forest() {
    assert!(build_forest(&vec![], None).is_empty());
}

#[test]
fn a_parent_cycle_is_cut_at_the_record_count() {
    // A record that is its own parent under the root value can only be expanded to
    // as many levels as there are records.
    let keys = vec![(0, Some(0))];
    let f = build_forest(&keys, Some(0));
    assert_eq!(f.len(), 1);
    assert!(f[0].children.is_empty());
}
