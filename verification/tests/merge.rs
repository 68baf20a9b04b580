use proxy_pool::pool::{merge, Pool};

fn batch(items: &[&str]) -> Vec<String> {
    items.iter().map(|s| s.to_string()).collect()
}

#[test]
fn merge_removes_duplicates_of_both_inputs() {
    let previous = batch(&["a:1", "b:2", "a:1"]);
    let fresh = batch(&["b:2", "c:3", "c:3"]);
    let next = merge(&previous, &fresh, 10);
    assert_eq!(next.endpoints(), &batch(&["a:1", "b:2", "c:3"]));
}

#[test]
fn merge_output_has_no_duplicates() {
    let previous = batch(&["x:1", "y:2", "x:1", "z:3", "y:2"]);
    let fresh = batch(&["z:3", "w:4", "x:1", "w:4"]);
    let next = merge(&previous, &fresh, 100);
    let list = next.endpoints();
    for i in 0..list.len() {
        for j in 0..i {
            assert_ne!(list[i], list[j]);
        }
    }
    assert_eq!(list.len(), 4);
}

#[test]
fn merge_on_empty_previous_gives_fresh() {
    let fresh = batch(&["1.1.1.1:80", "2.2.2.2:81"]);
    let next = merge(&Vec::new(), &fresh, 100000);
    assert_eq!(next.endpoints(), &fresh);
}

#[test]
fn merge_on_empty_previous_gives_fresh_deduplicated() {
    let fresh = batch(&["1.1.1.1:80", "1.1.1.1:80", "2.2.2.2:81"]);
    let next = merge(&Vec::new(), &fresh, 100000);
    assert_eq!(next.endpoints(), &batch(&["1.1.1.1:80", "2.2.2.2:81"]));
}

#[test]
fn merge_on_empty_previous_ignores_the_cap() {
    let fresh = batch(&["1.1.1.1:80", "2.2.2.2:81"]);
    let next = merge(&Vec::new(), &fresh, 0);
    assert_eq!(next.endpoints(), &fresh);
    let next = merge(&Vec::new(), &fresh, 1);
    assert_eq!(next.endpoints(), &fresh);
}

#[test]
fn merge_at_cap_keeps_previous_unchanged() {
    let previous = batch(&["a:1", "b:2"]);
    let fresh = batch(&["c:3", "d:4"]);
    let next = merge(&previous, &fresh, 2);
    assert_eq!(next.endpoints(), &previous);
}

#[test]
fn merge_over_cap_never_truncates_previous() {
    let previous = batch(&["a:1", "b:2", "c:3"]);
    let fresh = batch(&["d:4"]);
    let next = merge(&previous, &fresh, 1);
    assert_eq!(next.endpoints(), &previous);
    let next = merge(&previous, &fresh, 0);
    assert_eq!(next.endpoints(), &previous);
}

#[test]
fn merge_just_under_cap_takes_all_of_fresh() {
    let previous = batch(&["a:1"]);
    let fresh = batch(&["b:2", "c:3", "d:4"]);
    let next = merge(&previous, &fresh, 2);
    assert_eq!(next.endpoints(), &batch(&["a:1", "b:2", "c:3", "d:4"]));
    assert_eq!(next.len(), 4);
}

#[test]
fn merge_counts_each_previous_endpoint_once_against_the_cap() {
    let previous = batch(&["a:1", "a:1"]);
    let fresh = batch(&["b:2"]);
    let next = merge(&previous, &fresh, 2);
    assert_eq!(next.endpoints(), &batch(&["a:1", "b:2"]));
}

#[test]
fn merge_without_fresh_gives_previous() {
    let previous = batch(&["a:1", "b:2"]);
    let next = merge(&previous, &Vec::new(), 100000);
    assert_eq!(next.endpoints(), &previous);
}

#[test]
fn merge_of_nothing_is_empty() {
    let next = merge(&Vec::new(), &Vec::new(), 100000);
    assert_eq!(next.len(), 0);
    assert!(next.endpoints().is_empty());
}

#[test]
fn from_batch_keeps_first_appearances() {
    let pool = Pool::from_batch(&batch(&["x:1", "y:2", "x:1", "z:3", "y:2"]));
    assert_eq!(pool.endpoints(), &batch(&["x:1", "y:2", "z:3"]));
    assert_eq!(pool.len(), 3);
}

#[test]
fn new_pool_is_empty() {
    let pool = Pool::new();
    assert_eq!(pool.len(), 0);
    assert!(pool.endpoints().is_empty());
}
