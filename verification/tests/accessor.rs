use proxy_pool::accessor::{pool_response, response_of, AccessError};
use proxy_pool::pool::Pool;
use proxy_pool::store::PoolStore;

fn batch(items: &[&str]) -> Vec<String> {
    items.iter().map(|s| s.to_string()).collect()
}

#[test]
fn pool_response_is_a_json_array_of_strings() {
    let mut store = PoolStore::new();
    store.replace(Pool::from_batch(&batch(&["1.1.1.1:80", "2.2.2.2:8080"])));
    assert_eq!(pool_response(&store), Ok("[\"1.1.1.1:80\",\"2.2.2.2:8080\"]".to_string()));
}

#[test]
fn pool_response_before_the_first_generation_is_an_empty_array() {
    assert_eq!(pool_response(&PoolStore::new()), Ok("[]".to_string()));
}

#[test]
fn pool_response_escapes_what_json_requires() {
    let mut store = PoolStore::new();
    store.replace(Pool::from_batch(&batch(&["a\"b:1", "c\\d:2"])));
    assert_eq!(pool_response(&store), Ok("[\"a\\\"b:1\",\"c\\\\d:2\"]".to_string()));
}

#[test]
fn pool_response_reads_back_as_the_pool() {
    let entries = batch(&["1.1.1.1:80", "host.example:3128", "[::1]:9"]);
    let mut store = PoolStore::new();
    store.replace(Pool::from_batch(&entries));
    let body = pool_response(&store).unwrap();
    let read: Vec<String> = serde_json::from_str(&body).unwrap();
    assert_eq!(read, entries);
}

#[test]
fn response_of_passes_the_text_on() {
    assert_eq!(response_of(Some("[]".to_string())), Ok("[]".to_string()));
}

#[test]
fn response_of_reports_a_failed_encoding() {
    assert_eq!(response_of(None), Err(AccessError::Encoding));
}
