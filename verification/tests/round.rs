use proxy_pool::probe::{proxy_address, ProbeOutcome, PROBE_TARGET, PROBE_USER_AGENT};
use proxy_pool::round::{ProbeRound, RoundError};

fn batch(items: &[&str]) -> Vec<String> {
    items.iter().map(|s| s.to_string()).collect()
}

fn start(round: ProbeRound) -> (ProbeRound, usize) {
    let (round, started) = round.start_next();
    (round, started.unwrap())
}

#[test]
fn round_starts_candidates_in_batch_order() {
    let round = ProbeRound::new(batch(&["a:1", "b:2", "c:3"]), 3);
    let (round, first) = start(round);
    let (round, second) = start(round);
    let (round, third) = start(round);
    assert_eq!((first, second, third), (0, 1, 2));
    let (round, none) = round.start_next();
    assert_eq!(none, None);
    assert_eq!(round.in_flight(), 3);
    assert_eq!(round.waiting(), 0);
}

#[test]
fn round_skips_empty_candidates() {
    let round = ProbeRound::new(batch(&["", "a:1", "", "b:2", ""]), 5);
    assert_eq!(round.waiting(), 2);
    let (round, first) = start(round);
    let (round, second) = start(round);
    assert_eq!((first, second), (1, 3));
    let (round, none) = round.start_next();
    assert_eq!(none, None);
    let (round, _) = round.complete(1, ProbeOutcome::Responded);
    let (round, _) = round.complete(3, ProbeOutcome::Responded);
    assert!(round.is_finished());
    assert_eq!(round.validated(), batch(&["a:1", "b:2"]));
}

#[test]
fn round_of_only_empty_candidates_is_finished_at_once() {
    let round = ProbeRound::new(batch(&["", ""]), 4);
    assert!(round.is_finished());
    assert!(round.validated().is_empty());
}

#[test]
fn round_never_has_more_probes_in_flight_than_the_limit() {
    let n = 25;
    let k = 4;
    let candidates: Vec<String> = (0..n).map(|i| format!("10.0.0.{}:8080", i)).collect();
    let mut round = ProbeRound::new(candidates, k);
    let mut running: Vec<usize> = Vec::new();
    let mut highest = 0;
    let mut probed = 0;
    while !round.is_finished() {
        loop {
            let (next, started) = round.start_next();
            round = next;
            match started {
                Some(index) => {
                    running.push(index);
                    probed += 1;
                }
                None => break,
            }
            assert!(running.len() <= k);
            assert_eq!(round.in_flight(), running.len());
        }
        highest = highest.max(running.len());
        assert!(running.len() <= k);
        let index = running.remove(0);
        let (next, recorded) = round.complete(index, ProbeOutcome::Responded);
        round = next;
        assert_eq!(recorded, Ok(()));
    }
    assert_eq!(highest, k);
    assert_eq!(probed, n);
    assert_eq!(round.validated().len(), n);
}

#[test]
fn round_with_a_limit_of_one_probes_one_at_a_time() {
    let round = ProbeRound::new(batch(&["a:1", "b:2"]), 1);
    let (round, first) = start(round);
    assert_eq!(first, 0);
    let (round, none) = round.start_next();
    assert_eq!(none, None);
    assert_eq!(round.in_flight(), 1);
    let (round, _) = round.complete(0, ProbeOutcome::TransportError);
    let (round, second) = start(round);
    assert_eq!(second, 1);
    assert_eq!(round.limit(), 1);
}

#[test]
fn round_with_a_limit_of_zero_starts_nothing() {
    let round = ProbeRound::new(batch(&["a:1"]), 0);
    let (round, none) = round.start_next();
    assert_eq!(none, None);
    assert_eq!(round.in_flight(), 0);
    assert!(!round.is_finished());
}

#[test]
fn round_excludes_a_probe_that_timed_out() {
    let round = ProbeRound::new(batch(&["slow:1", "quick:2"]), 2);
    let (round, _) = start(round);
    let (round, _) = start(round);
    let (round, _) = round.complete(1, ProbeOutcome::Responded);
    let (round, recorded) = round.complete(0, ProbeOutcome::TimedOut);
    assert_eq!(recorded, Ok(()));
    assert!(round.is_finished());
    assert_eq!(round.validated(), batch(&["quick:2"]));
}

#[test]
fn round_excludes_a_probe_that_failed_in_transport() {
    let round = ProbeRound::new(batch(&["dead:1"]), 2);
    let (round, _) = start(round);
    let (round, _) = round.complete(0, ProbeOutcome::TransportError);
    assert!(round.is_finished());
    assert!(round.validated().is_empty());
}

#[test]
fn round_one_failure_leaves_the_sibling_probes_alone() {
    let round = ProbeRound::new(batch(&["a:1", "b:2", "c:3"]), 3);
    let (round, _) = start(round);
    let (round, _) = start(round);
    let (round, _) = start(round);
    let (round, _) = round.complete(1, ProbeOutcome::TransportError);
    assert_eq!(round.in_flight(), 2);
    let (round, _) = round.complete(2, ProbeOutcome::Responded);
    let (round, _) = round.complete(0, ProbeOutcome::Responded);
    assert_eq!(round.validated(), batch(&["a:1", "c:3"]));
}

#[test]
fn round_refuses_an_outcome_for_a_probe_not_in_flight() {
    let round = ProbeRound::new(batch(&["a:1", "b:2"]), 1);
    let (round, refused) = round.complete(0, ProbeOutcome::Responded);
    assert_eq!(refused, Err(RoundError::NotInFlight));
    let (round, refused) = round.complete(7, ProbeOutcome::Responded);
    assert_eq!(refused, Err(RoundError::NotInFlight));
    assert!(round.validated().is_empty());
    assert_eq!(round.waiting(), 2);
}

#[test]
fn round_refuses_a_second_outcome_for_the_same_probe() {
    let round = ProbeRound::new(batch(&["a:1"]), 1);
    let (round, _) = start(round);
    let (round, first) = round.complete(0, ProbeOutcome::TimedOut);
    let (round, second) = round.complete(0, ProbeOutcome::Responded);
    assert_eq!(first, Ok(()));
    assert_eq!(second, Err(RoundError::NotInFlight));
    assert!(round.validated().is_empty());
}

#[test]
fn round_validated_follows_the_batch_not_the_order_of_completion() {
    let round = ProbeRound::new(batch(&["a:1", "b:2", "c:3"]), 3);
    let (round, _) = start(round);
    let (round, _) = start(round);
    let (round, _) = start(round);
    let (round, _) = round.complete(2, ProbeOutcome::Responded);
    assert_eq!(round.validated(), batch(&["c:3"]));
    let (round, _) = round.complete(0, ProbeOutcome::Responded);
    assert_eq!(round.validated(), batch(&["a:1", "c:3"]));
    let (round, _) = round.complete(1, ProbeOutcome::Responded);
    assert_eq!(round.validated(), batch(&["a:1", "b:2", "c:3"]));
}

#[test]
fn round_keeps_duplicate_candidates_apart() {
    let round = ProbeRound::new(batch(&["a:1", "a:1"]), 2);
    let (round, _) = start(round);
    let (round, _) = start(round);
    let (round, _) = round.complete(0, ProbeOutcome::Responded);
    let (round, _) = round.complete(1, ProbeOutcome::Responded);
    assert_eq!(round.validated(), batch(&["a:1", "a:1"]));
}

#[test]
fn round_names_its_candidates_by_index() {
    let round = ProbeRound::new(batch(&["a:1", "b:2"]), 1);
    assert_eq!(round.len(), 2);
    assert_eq!(round.candidate(1), Some(&"b:2".to_string()));
    assert_eq!(round.candidate(2), None);
}

#[test]
fn outcome_is_useful_only_when_a_response_came() {
    assert!(ProbeOutcome::Responded.is_useful());
    assert!(!ProbeOutcome::TransportError.is_useful());
    assert!(!ProbeOutcome::TimedOut.is_useful());
}

#[test]
fn proxy_address_puts_the_scheme_in_front() {
    assert_eq!(proxy_address("1.2.3.4:8080"), "http://1.2.3.4:8080");
    assert_eq!(proxy_address(""), "http://");
}

#[test]
fn probe_constants_are_fixed() {
    assert_eq!(PROBE_TARGET, "http://baidu.com");
    assert!(PROBE_USER_AGENT.starts_with("Mozilla/5.0"));
}
