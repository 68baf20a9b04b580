use proxy_pool::config::Config;
use proxy_pool::probe::ProbeOutcome;
use proxy_pool::validator::validate;

fn config(group_size: usize, limit: usize) -> Config {
    Config::new(300, 5, group_size, limit, 100000).unwrap()
}

fn batch(items: &[&str]) -> Vec<String> {
    items.iter().map(|s| s.to_string()).collect()
}

#[test]
fn validate_returns_the_candidates_that_responded() {
    let candidates = batch(&["a:1", "b:2", "c:3", "d:4"]);
    let outcomes = vec![
        ProbeOutcome::Responded,
        ProbeOutcome::TransportError,
        ProbeOutcome::Responded,
        ProbeOutcome::TimedOut,
    ];
    assert_eq!(validate(candidates, &config(100, 2), &outcomes), batch(&["a:1", "c:3"]));
}

#[test]
fn validate_makes_nothing_up() {
    let candidates = batch(&["a:1", "", "b:2", "c:3", "", "a:1"]);
    let outcomes = vec![ProbeOutcome::Responded; 6];
    for limit in 1..8 {
        let validated = validate(candidates.clone(), &config(4, limit), &outcomes);
        for endpoint in validated.iter() {
            assert!(candidates.contains(endpoint));
            assert!(!endpoint.is_empty());
        }
        assert_eq!(validated, batch(&["a:1", "b:2", "c:3", "a:1"]));
    }
}

#[test]
fn validate_never_returns_the_empty_string() {
    let candidates = batch(&["", "", "a:1", ""]);
    let outcomes = vec![ProbeOutcome::Responded; 4];
    assert_eq!(validate(candidates, &config(100, 3), &outcomes), batch(&["a:1"]));
}

#[test]
fn validate_does_not_depend_on_the_limit_or_the_group_size() {
    let candidates: Vec<String> = (0..50).map(|i| format!("10.1.0.{}:3128", i)).collect();
    let outcomes: Vec<ProbeOutcome> = (0..50)
        .map(|i| match i % 3 {
            0 => ProbeOutcome::Responded,
            1 => ProbeOutcome::TransportError,
            _ => ProbeOutcome::TimedOut,
        })
        .collect();
    let expected: Vec<String> = (0..50).filter(|i| i % 3 == 0).map(|i| format!("10.1.0.{}:3128", i)).collect();
    for limit in [1, 2, 7, 50, 1000] {
        for group_size in [1, 3, 10, 49, 50, 51, 100] {
            let config = config(group_size, limit);
            assert_eq!(validate(candidates.clone(), &config, &outcomes), expected);
        }
    }
}

#[test]
fn validate_counts_a_missing_outcome_as_a_timeout() {
    let candidates = batch(&["a:1", "b:2", "c:3"]);
    let outcomes = vec![ProbeOutcome::Responded];
    assert_eq!(validate(candidates, &config(2, 3), &outcomes), batch(&["a:1"]));
}

#[test]
fn validate_of_an_empty_batch_is_empty() {
    assert!(validate(Vec::new(), &Config::standard(), &Vec::new()).is_empty());
}

#[test]
fn validate_keeps_duplicates_for_the_merge_to_remove() {
    let candidates = batch(&["a:1", "a:1"]);
    let outcomes = vec![ProbeOutcome::Responded, ProbeOutcome::Responded];
    assert_eq!(validate(candidates, &config(1, 1), &outcomes), batch(&["a:1", "a:1"]));
}
