use drillx::equix::SolverMemory;
use fleet_miner::engine::{Candidate, best_of_lanes, search_lane};
use fleet_miner::partition::lane_start;
use fleet_miner::protocol::{encode_challenge, finish_search};

fn cand(nonce: u64, difficulty: u32, tag: u8) -> Candidate {
    Candidate { nonce, difficulty, digest: [tag; 16] }
}

#[test]
fn lane_starts_split_the_space() {
    assert_eq!(lane_start(0, 1), 0);
    assert_eq!(lane_start(0, 4), 0);
    assert_eq!(lane_start(1, 4), u64::MAX / 4);
    assert_eq!(lane_start(3, 4), (u64::MAX / 4) * 3);
    assert_eq!(lane_start(63, 64), (u64::MAX / 64) * 63);
}

#[test]
fn lane_ranges_are_disjoint_and_cover() {
    for n in [1u64, 2, 3, 7, 16, 64] {
        let span = u64::MAX / n;
        for i in 0..n {
            assert_eq!(lane_start(i, n), span * i);
            if i + 1 < n {
                assert!(lane_start(i + 1, n) - lane_start(i, n) == span);
            }
        }
        assert!(span * n <= u64::MAX);
    }
}

#[test]
fn join_keeps_first_of_equal_lanes() {
    let best = best_of_lanes(&vec![cand(5, 3, 1), cand(9, 6, 2), cand(11, 6, 3), cand(2, 1, 4)]);
    assert_eq!(best.nonce, 9);
    assert_eq!(best.difficulty, 6);
    assert_eq!(best.digest, [2u8; 16]);
}

#[test]
fn join_of_nothing_is_zero() {
    let best = best_of_lanes(&vec![]);
    assert_eq!((best.nonce, best.difficulty, best.digest), (0, 0, [0u8; 16]));
    let best = best_of_lanes(&vec![cand(5, 0, 1)]);
    assert_eq!((best.nonce, best.difficulty, best.digest), (0, 0, [0u8; 16]));
}

#[test]
fn finish_search_builds_response() {
    let challenge = [3u8; 32];
    let r = finish_search(&challenge, &vec![cand(5, 3, 1), cand(9, 10, 2)]);
    assert_eq!(r.nonce, 9);
    assert_eq!(r.best_difficulty, 10);
    assert_eq!(r.digest, [2u8; 16]);
    assert_eq!(r.challenge, encode_challenge(&challenge));
}

#[test]
fn zero_challenge_single_lane_returns_within_one_interval() {
    let challenge = [0u8; 32];
    let mut memory = SolverMemory::new();
    let r = search_lane(&mut memory, &challenge, lane_start(0, 1), 0, 0);
    assert!(r.last_nonce <= 100);
    assert_eq!(r.last_nonce % 100, 0);
    assert!(r.best.difficulty > 0);
    let hx = drillx::hash(&challenge, &r.best.nonce.to_le_bytes()).unwrap();
    assert_eq!(hx.d, r.best.digest);
    assert_eq!(hx.difficulty(), r.best.difficulty);
}

#[test]
fn lane_keeps_searching_until_floor_cleared() {
    let challenge = [9u8; 32];
    let mut memory = SolverMemory::new();
    let r = search_lane(&mut memory, &challenge, 1000, 0, 2);
    assert!(r.best.difficulty > 2);
    assert_eq!(r.last_nonce % 100, 0);
    assert!(r.best.nonce >= 1000 && r.best.nonce <= r.last_nonce);
    let hx = drillx::hash(&challenge, &r.best.nonce.to_le_bytes()).unwrap();
    assert_eq!(hx.difficulty(), r.best.difficulty);
}

#[test]
fn lane_does_not_stop_before_cutoff() {
    let challenge = [1u8; 32];
    let mut memory = SolverMemory::new();
    let r = search_lane(&mut memory, &challenge, 0, 1, 0);
    assert!(r.elapsed_at_stop >= 1);
    assert_eq!(r.last_nonce % 100, 0);
    assert!(r.best.difficulty > 0);
}
