use proxy_pool::pool::Pool;
use proxy_pool::store::PoolStore;

fn batch(items: &[&str]) -> Vec<String> {
    items.iter().map(|s| s.to_string()).collect()
}

#[test]
fn store_without_a_generation_reads_as_empty() {
    let store = PoolStore::new();
    assert!(store.snapshot().is_empty());
    assert_eq!(store.len(), 0);
    assert!(!store.is_ready());
    assert_eq!(store.generation(), None);
}

#[test]
fn store_replace_puts_the_whole_generation_in_place() {
    let mut store = PoolStore::new();
    store.replace(Pool::from_batch(&batch(&["a:1", "b:2"])));
    assert_eq!(store.snapshot(), batch(&["a:1", "b:2"]));
    assert_eq!(store.generation(), Some(0));
    assert!(store.is_ready());
    store.replace(Pool::from_batch(&batch(&["c:3"])));
    assert_eq!(store.snapshot(), batch(&["c:3"]));
    assert_eq!(store.current().endpoints(), &batch(&["c:3"]));
    assert_eq!(store.len(), 1);
    assert_eq!(store.generation(), Some(1));
}

#[test]
fn store_snapshot_is_not_touched_by_a_later_replace() {
    let mut store = PoolStore::new();
    store.replace(Pool::from_batch(&batch(&["a:1", "b:2"])));
    let before = store.snapshot();
    store.replace(Pool::from_batch(&batch(&["c:3"])));
    assert_eq!(before, batch(&["a:1", "b:2"]));
}

#[test]
fn store_counts_an_empty_generation_too() {
    let mut store = PoolStore::new();
    store.replace(Pool::new());
    assert!(store.is_ready());
    assert_eq!(store.generation(), Some(0));
    assert!(store.snapshot().is_empty());
}
