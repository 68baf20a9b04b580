use proxy_pool::chunk::partition;

fn numbered(n: usize) -> Vec<String> {
    (0..n).map(|i| format!("10.0.0.{}:80", i)).collect()
}

#[test]
fn partition_cuts_into_full_groups_and_a_rest() {
    let items = numbered(250);
    let groups = partition(&items, 100);
    assert_eq!(groups.len(), 3);
    assert_eq!(groups[0].len(), 100);
    assert_eq!(groups[1].len(), 100);
    assert_eq!(groups[2].len(), 50);
    assert_eq!(groups[0][0], items[0]);
    assert_eq!(groups[1][0], items[100]);
    assert_eq!(groups[2][49], items[249]);
}

#[test]
fn partition_preserves_every_item_in_order() {
    let items = numbered(37);
    for size in 1..40 {
        let groups = partition(&items, size);
        let joined: Vec<String> = groups.iter().flatten().cloned().collect();
        assert_eq!(joined, items);
        for group in groups.iter() {
            assert!(group.len() <= size);
            assert!(!group.is_empty());
        }
        assert_eq!(groups.len(), (37 + size - 1) / size);
    }
}

#[test]
fn partition_of_an_exact_multiple_has_no_empty_group() {
    let groups = partition(&numbered(200), 100);
    assert_eq!(groups.len(), 2);
    assert_eq!(groups[1].len(), 100);
}

#[test]
fn partition_of_nothing_has_no_group() {
    let groups = partition(&Vec::new(), 100);
    assert!(groups.is_empty());
}

#[test]
fn partition_of_a_single_item_keeps_it() {
    let groups = partition(&numbered(1), 100);
    assert_eq!(groups, vec![numbered(1)]);
}

#[test]
fn partition_with_a_bound_above_the_length_gives_one_group() {
    let items = numbered(5);
    let groups = partition(&items, 6);
    assert_eq!(groups, vec![items]);
}

#[test]
fn partition_with_a_bound_of_one_gives_singletons() {
    let items = numbered(3);
    let groups = partition(&items, 1);
    assert_eq!(groups.len(), 3);
    assert_eq!(groups[2], vec![items[2].clone()]);
}
