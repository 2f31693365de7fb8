use fleet_miner::coordinator::{
    RosterError, WorkerEndpoint, aggregate, plan_round, request_timeout, validate_roster,
};
use fleet_miner::protocol::{SearchResult, encode_challenge};

fn result(difficulty: u64, nonce: u64, tag: u8) -> SearchResult {
    SearchResult { digest: [tag; 16], nonce, challenge: encode_challenge(&[0u8; 32]), best_difficulty: difficulty }
}

fn endpoint(url: &str, threads: u64, divisor: u64, start: u64) -> WorkerEndpoint {
    WorkerEndpoint { url: url.to_string(), thread_count: threads, nonce_divisor: divisor, start_index: start }
}

#[test]
fn tie_goes_to_later_response() {
    let best = aggregate(&vec![Some(result(8, 111, 1)), Some(result(8, 222, 2))]);
    assert_eq!(best.nonce, 222);
    assert_eq!(best.digest, [2u8; 16]);
    assert_eq!(best.best_difficulty, 8);
    assert_eq!(best.responses, 2);
}

#[test]
fn partial_failure_keeps_best_success() {
    let best = aggregate(&vec![Some(result(3, 10, 3)), None, Some(result(7, 20, 7))]);
    assert_eq!(best.best_difficulty, 7);
    assert_eq!(best.nonce, 20);
    assert_eq!(best.digest, [7u8; 16]);
    assert_eq!(best.responses, 2);
    assert!(!best.is_total_failure());
    let best = aggregate(&vec![Some(result(7, 20, 7)), None, Some(result(3, 10, 3))]);
    assert_eq!(best.nonce, 20);
}

#[test]
fn total_failure_is_flagged() {
    let best = aggregate(&vec![None, None, None]);
    assert_eq!(best.best_difficulty, 0);
    assert_eq!(best.nonce, 0);
    assert_eq!(best.digest, [0u8; 16]);
    assert_eq!(best.responses, 0);
    assert!(best.is_total_failure());
    assert!(aggregate(&vec![]).is_total_failure());
}

#[test]
fn zero_difficulty_success_is_not_total_failure() {
    let best = aggregate(&vec![None, Some(result(0, 5, 9))]);
    assert_eq!(best.nonce, 5);
    assert_eq!(best.digest, [9u8; 16]);
    assert!(!best.is_total_failure());
}

#[test]
fn timeout_adds_grace() {
    assert_eq!(request_timeout(0), 15);
    assert_eq!(request_timeout(45), 60);
    assert_eq!(request_timeout(u64::MAX - 3), u64::MAX);
}

#[test]
fn roster_validation() {
    assert_eq!(validate_roster(&vec![]), Err(RosterError::Empty));
    let good = vec![endpoint("http://a", 16, 44, 0), endpoint("http://b", 12, 44, 16)];
    assert_eq!(validate_roster(&good), Ok(()));
    let dup = vec![endpoint("http://a", 16, 44, 0), endpoint("http://b", 12, 44, 0)];
    assert_eq!(validate_roster(&dup), Err(RosterError::DuplicateStartIndex));
    let small = vec![endpoint("http://a", 16, 1, 0), endpoint("http://b", 12, 44, 16)];
    assert_eq!(validate_roster(&small), Err(RosterError::DivisorTooSmall));
}

#[test]
fn plan_carries_each_endpoint_threads() {
    let roster = vec![endpoint("http://a", 16, 44, 0), endpoint("http://b", 4, 44, 32)];
    let challenge = [7u8; 32];
    let plan = plan_round(&roster, &challenge, 40, 9);
    assert_eq!(plan.len(), 2);
    assert_eq!(plan[0].url, "http://a");
    assert_eq!(plan[0].lane_count, 16);
    assert_eq!(plan[1].url, "http://b");
    assert_eq!(plan[1].lane_count, 4);
    for q in &plan {
        assert_eq!(q.cutoff_time, 40);
        assert_eq!(q.min_difficulty, 9);
        assert_eq!(q.timeout_secs, 55);
        assert_eq!(q.challenge, encode_challenge(&challenge));
    }
}
