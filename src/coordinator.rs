//! Fan-out over the worker roster and aggregation of the answers.

use vstd::prelude::*;
use crate::engine::zero_digest;
use crate::protocol::{SearchResult, encode_challenge, hex_text};

verus! {

/// Seconds a worker request may take beyond the round's cutoff.
pub const REQUEST_GRACE_SECS: u64 = 15;

/// One Search Endpoint of the roster.
#[derive(Clone, Debug)]
pub struct WorkerEndpoint {
    pub url: String,
    pub thread_count: u64,
    /// How many parts the global nonce space is divided into.
    pub nonce_divisor: u64,
    /// The first part this endpoint is given.
    pub start_index: u64,
}

/// Why a roster was refused at startup.
#[derive(Clone, Copy, Debug, PartialEq, Eq, Structural)]
pub enum RosterError {
    Empty,
    DuplicateStartIndex,
    DivisorTooSmall,
}

pub open spec fn has_duplicate_start(roster: Seq<WorkerEndpoint>) -> bool {
    exists|i: int, j: int|
        0 <= i < j < roster.len() && #[trigger] roster[i].start_index
            == #[trigger] roster[j].start_index
}

pub open spec fn divisors_cover(roster: Seq<WorkerEndpoint>) -> bool {
    forall|i: int| 0 <= i < roster.len() ==> #[trigger] roster[i].nonce_divisor >= roster.len()
}

/// Checks a roster: it is non-empty, no two endpoints share a start index,
/// and every divisor is at least the roster's size.
pub fn validate_roster(roster: &Vec<WorkerEndpoint>) -> (r: Result<(), RosterError>)
    ensures
        r == Err::<(), RosterError>(RosterError::Empty) <==> roster@.len() == 0,
        r == Err::<(), RosterError>(RosterError::DuplicateStartIndex) <==> roster@.len() > 0
            && has_duplicate_start(roster@),
        r == Err::<(), RosterError>(RosterError::DivisorTooSmall) <==> roster@.len() > 0
            && !has_duplicate_start(roster@) && !divisors_cover(roster@),
        r is Ok <==> roster@.len() > 0 && !has_duplicate_start(roster@) && divisors_cover(roster@),
{
    let n = roster.len();
    if n == 0 {
        return Err(RosterError::Empty);
    }
    let mut i: usize = 0;
    while i < n
        invariant
            n == roster@.len(),
            i <= n,
            forall|a: int, b: int|
                0 <= a < b < n && a < i ==> #[trigger] roster@[a].start_index
                    != #[trigger] roster@[b].start_index,
        decreases n - i,
    {
        let mut j: usize = i + 1;
        while j < n
            invariant
                n == roster@.len(),
                i < n,
                i < j <= n,
                forall|a: int, b: int|
                    0 <= a < b < n && a < i ==> #[trigger] roster@[a].start_index
                        != #[trigger] roster@[b].start_index,
                forall|b: int| i < b < j ==> roster@[i as int].start_index != #[trigger] roster@[b].start_index,
            decreases n - j,
        {
            if roster[i].start_index == roster[j].start_index {
                return Err(RosterError::DuplicateStartIndex);
            }
            j = j + 1;
        }
        i = i + 1;
    }
    let mut k: usize = 0;
    while k < n
        invariant
            n == roster@.len(),
            k <= n,
            !has_duplicate_start(roster@),
            forall|a: int| 0 <= a < k ==> #[trigger] roster@[a].nonce_divisor >= n,
        decreases n - k,
    {
        if roster[k].nonce_divisor < n as u64 {
            return Err(RosterError::DivisorTooSmall);
        }
        k = k + 1;
    }
    Ok(())
}

/// The cutoff plus the grace period, saturating at `u64::MAX`.
pub open spec fn timeout_for(cutoff_time: u64) -> int {
    if cutoff_time + REQUEST_GRACE_SECS <= u64::MAX {
        cutoff_time + REQUEST_GRACE_SECS
    } else {
        u64::MAX as int
    }
}

/// How long to wait for one worker.
pub fn request_timeout(cutoff_time: u64) -> (r: u64)
    ensures
        r == timeout_for(cutoff_time),
{
    cutoff_time.saturating_add(REQUEST_GRACE_SECS)
}

/// The request one worker is sent in a round.
#[derive(Clone, Debug)]
pub struct WorkerRequest {
    pub url: String,
    pub lane_count: u64,
    pub cutoff_time: u64,
    pub min_difficulty: u64,
    /// The challenge as hex text.
    pub challenge: Vec<u8>,
    pub timeout_secs: u64,
}

/// One request per roster entry, in roster order: each carries its
/// endpoint's own thread count and the round's shared values.
pub fn plan_round(
    roster: &Vec<WorkerEndpoint>,
    challenge: &[u8; 32],
    cutoff_time: u64,
    min_difficulty: u64,
) -> (r: Vec<WorkerRequest>)
    ensures
        r@.len() == roster@.len(),
        forall|i: int|
            0 <= i < r@.len() ==> {
                let q = #[trigger] r@[i];
                &&& q.url@ == roster@[i].url@
                &&& q.lane_count == roster@[i].thread_count
                &&& q.cutoff_time == cutoff_time
                &&& q.min_difficulty == min_difficulty
                &&& q.challenge@ == hex_text(challenge@)
                &&& q.timeout_secs == timeout_for(cutoff_time)
            },
{
    let text = encode_challenge(challenge);
    let timeout = request_timeout(cutoff_time);
    let mut out: Vec<WorkerRequest> = Vec::new();
    let mut i: usize = 0;
    while i < roster.len()
        invariant
            i <= roster@.len(),
            out@.len() == i,
            text@ == hex_text(challenge@),
            timeout == timeout_for(cutoff_time),
            forall|k: int|
                0 <= k < i ==> {
                    let q = #[trigger] out@[k];
                    &&& q.url@ == roster@[k].url@
                    &&& q.lane_count == roster@[k].thread_count
                    &&& q.cutoff_time == cutoff_time
                    &&& q.min_difficulty == min_difficulty
                    &&& q.challenge@ == hex_text(challenge@)
                    &&& q.timeout_secs == timeout
                },
        decreases roster@.len() - i,
    {
        let e = &roster[i];
        out.push(
            WorkerRequest {
                url: e.url.clone(),
                lane_count: e.thread_count,
                cutoff_time,
                min_difficulty,
                challenge: text.clone(),
                timeout_secs: timeout,
            },
        );
        i = i + 1;
    }
    out
}

/// The best answer of a round, and how many workers answered.
#[derive(Clone, Copy, Debug)]
pub struct AggregatedBest {
    pub digest: [u8; 16],
    pub nonce: u64,
    pub best_difficulty: u64,
    pub responses: usize,
}

impl AggregatedBest {
    /// True when no worker answered: the round found nothing to submit.
    pub fn is_total_failure(&self) -> (r: bool)
        ensures
            r == (self.responses == 0),
    {
        self.responses == 0
    }
}

/// Number of workers that answered.
pub open spec fn success_count(outcomes: Seq<Option<SearchResult>>) -> nat
    decreases outcomes.len(),
{
    if outcomes.len() == 0 {
        0
    } else {
        success_count(outcomes.drop_last()) + if outcomes.last() is Some {
            1nat
        } else {
            0nat
        }
    }
}

pub open spec fn difficulty_at(outcomes: Seq<Option<SearchResult>>, i: int) -> u64 {
    outcomes[i]->Some_0.best_difficulty
}

/// Answer `i` has the greatest difficulty among `outcomes[0..k]`, and no
/// later answer there equals it.
pub open spec fn is_last_best(outcomes: Seq<Option<SearchResult>>, k: int, i: int) -> bool {
    &&& 0 <= i < k <= outcomes.len()
    &&& outcomes[i] is Some
    &&& forall|j: int|
        0 <= j < k && outcomes[j] is Some ==> #[trigger] difficulty_at(outcomes, j) <= difficulty_at(
            outcomes,
            i,
        )
    &&& forall|j: int|
        i < j < k && outcomes[j] is Some ==> #[trigger] difficulty_at(outcomes, j) < difficulty_at(
            outcomes,
            i,
        )
}

/// Picks the round's best answer. `None` stands for a worker that failed or
/// timed out. Among equal difficulties the later answer wins.
pub fn aggregate(outcomes: &Vec<Option<SearchResult>>) -> (r: AggregatedBest)
    ensures
        r.responses == success_count(outcomes@),
        (forall|j: int| 0 <= j < outcomes@.len() ==> outcomes@[j] is None) ==> (r.best_difficulty
            == 0 && r.nonce == 0 && r.digest@ == zero_digest()),
        (exists|j: int| 0 <= j < outcomes@.len() && outcomes@[j] is Some) ==> exists|i: int|
            is_last_best(outcomes@, outcomes@.len() as int, i) && r.best_difficulty
                == difficulty_at(outcomes@, i) && r.nonce == outcomes@[i]->Some_0.nonce
                && r.digest@ == outcomes@[i]->Some_0.digest@,
{
    let mut best = AggregatedBest { digest: [0u8; 16], nonce: 0, best_difficulty: 0, responses: 0 };
    assert(best.digest@ =~= zero_digest());
    let mut k: usize = 0;
    let ghost mut at: int = -1;
    while k < outcomes.len()
        invariant
            k <= outcomes@.len(),
            best.responses == success_count(outcomes@.subrange(0, k as int)),
            best.responses <= k,
            at == -1 ==> best.best_difficulty == 0 && best.nonce == 0 && best.digest@
                == zero_digest() && forall|j: int| 0 <= j < k ==> #[trigger] outcomes@[j] is None,
            at != -1 ==> is_last_best(outcomes@, k as int, at) && best.best_difficulty
                == difficulty_at(outcomes@, at) && best.nonce == outcomes@[at]->Some_0.nonce
                && best.digest@ == outcomes@[at]->Some_0.digest@,
        decreases outcomes@.len() - k,
    {
        assert(outcomes@.subrange(0, k + 1).drop_last() =~= outcomes@.subrange(0, k as int));
        match &outcomes[k] {
            Some(res) => {
                if res.best_difficulty >= best.best_difficulty {
                    best.digest = res.digest;
                    best.nonce = res.nonce;
                    best.best_difficulty = res.best_difficulty;
                    proof {
                        at = k as int;
                    }
                }
                best.responses = best.responses + 1;
            },
            None => {},
        }
        k = k + 1;
    }
    assert(outcomes@.subrange(0, outcomes@.len() as int) =~= outcomes@);
    best
}

} // verus!
