use proxy_pool::collector::{combine, SourceReport};

fn batch(items: &[&str]) -> Vec<String> {
    items.iter().map(|s| s.to_string()).collect()
}

#[test]
fn combine_joins_the_batches_in_the_order_of_the_sources() {
    let reports = vec![
        SourceReport::Collected(batch(&["a:1", "b:2"])),
        SourceReport::Collected(batch(&["c:3"])),
        SourceReport::Collected(batch(&["a:1", ""])),
    ];
    assert_eq!(combine(&reports), batch(&["a:1", "b:2", "c:3", "a:1", ""]));
}

#[test]
fn combine_drops_only_the_failed_source() {
    let reports = vec![
        SourceReport::Collected(batch(&["a:1"])),
        SourceReport::Failed,
        SourceReport::Collected(batch(&["c:3", "d:4"])),
    ];
    assert_eq!(combine(&reports), batch(&["a:1", "c:3", "d:4"]));
}

#[test]
fn combine_of_failed_sources_is_empty() {
    let reports = vec![SourceReport::Failed, SourceReport::Failed];
    assert!(combine(&reports).is_empty());
}

#[test]
fn combine_of_no_sources_is_empty() {
    assert!(combine(&Vec::new()).is_empty());
}

#[test]
fn combine_keeps_an_empty_batch_apart_from_a_failure() {
    let reports = vec![SourceReport::Collected(Vec::new()), SourceReport::Collected(batch(&["a:1"]))];
    assert_eq!(combine(&reports), batch(&["a:1"]));
}
