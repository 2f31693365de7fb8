//! The per-lane nonce search and the join of lane results.

use vstd::prelude::*;
use crate::pow::{drillx_hash, elapsed_secs, hash_difficulty, hash_nonce, leading_zero_bits, start_timer};

verus! {

/// How many nonces a lane evaluates between two looks at the clock.
pub const CHECK_INTERVAL: u64 = 100;

/// The best hash a lane has found: its nonce, difficulty and digest.
#[derive(Clone, Copy, Debug)]
pub struct Candidate {
    pub nonce: u64,
    pub difficulty: u32,
    pub digest: [u8; 16],
}

/// What one lane reports when it stops.
#[derive(Clone, Copy, Debug)]
pub struct LaneReport {
    pub best: Candidate,
    /// The last nonce the lane evaluated.
    pub last_nonce: u64,
    /// The clock reading, in whole seconds, on which the lane stopped.
    pub elapsed_at_stop: u64,
}

impl Candidate {
    pub open spec fn view(&self) -> (int, nat, Seq<u8>) {
        (self.nonce as int, self.difficulty as nat, self.digest@)
    }
}

pub open spec fn zero_digest() -> Seq<u8> {
    Seq::new(16, |i: int| 0u8)
}

/// The digest and difficulty of nonce `n`, or `None` where hashing it fails.
pub open spec fn nonce_outcome(challenge: Seq<u8>, n: u64) -> Option<(Seq<u8>, nat)> {
    match drillx_hash(challenge, n) {
        Some((d, h)) => Some((d, leading_zero_bits(h))),
        None => None,
    }
}

/// A lane's best before any nonce has hashed successfully.
pub open spec fn scan_none(start: u64) -> (int, nat, Seq<u8>) {
    (start as int, 0, zero_digest())
}

/// Best (nonce, difficulty, digest) over the nonces `start..=last`: a later
/// nonce replaces the best only with a strictly greater difficulty. Before
/// any success it is `(start, 0, zeros)`.
pub open spec fn scan_best(challenge: Seq<u8>, start: u64, last: u64) -> (int, nat, Seq<u8>)
    decreases last - start,
{
    if last < start {
        scan_none(start)
    } else {
        let prev = if last == start {
            scan_none(start)
        } else {
            scan_best(challenge, start, (last - 1) as u64)
        };
        match nonce_outcome(challenge, last) {
            Some((d, diff)) => if diff > prev.1 {
                (last as int, diff, d)
            } else {
                prev
            },
            None => prev,
        }
    }
}

/// Whether a lane that has evaluated `start..=k` stops at `k`, given the
/// clock reads `secs` there.
pub open spec fn stop_fires(
    challenge: Seq<u8>,
    start: u64,
    k: u64,
    secs: int,
    cutoff_secs: int,
    min_difficulty: int,
) -> bool {
    &&& k % CHECK_INTERVAL == 0
    &&& secs >= cutoff_secs
    &&& scan_best(challenge, start, k).1 > min_difficulty
}

proof fn lemma_leading_zero_bits_bound(h: Seq<u8>)
    ensures
        leading_zero_bits(h) <= 8 * h.len(),
    decreases h.len(),
{
    if h.len() > 0 && h[0] == 0 {
        lemma_leading_zero_bits_bound(h.drop_first());
    }
}

/// Evaluating more nonces never lowers the best difficulty.
pub proof fn lemma_scan_best_monotone(challenge: Seq<u8>, start: u64, a: u64, b: u64)
    requires
        start <= a <= b,
    ensures
        scan_best(challenge, start, a).1 <= scan_best(challenge, start, b).1,
    decreases b - a,
{
    if a < b {
        lemma_scan_best_monotone(challenge, start, a, (b - 1) as u64);
    }
}

/// With the clock reading the same at each nonce, a lane given a longer
/// cutoff finishes with a best difficulty at least as high as one given a
/// shorter cutoff: wherever the longer run stops, the shorter one's stopping
/// rule already held.
pub proof fn longer_cutoff_never_worse(
    challenge: Seq<u8>,
    start: u64,
    clock: spec_fn(int) -> int,
    short_cutoff: u64,
    long_cutoff: u64,
    min_difficulty: u64,
    short_stop: u64,
    long_stop: u64,
)
    requires
        short_cutoff <= long_cutoff,
        start <= short_stop,
        start <= long_stop,
        stop_fires(challenge, start, short_stop, clock(short_stop as int), short_cutoff as int, min_difficulty as int),
        forall|k: u64|
            start <= k < short_stop ==> !stop_fires(
                challenge,
                start,
                k,
                #[trigger] clock(k as int),
                short_cutoff as int,
                min_difficulty as int,
            ),
        stop_fires(challenge, start, long_stop, clock(long_stop as int), long_cutoff as int, min_difficulty as int),
    ensures
        scan_best(challenge, start, short_stop).1 <= scan_best(challenge, start, long_stop).1,
{
    assert(short_stop <= long_stop);
    lemma_scan_best_monotone(challenge, start, short_stop, long_stop);
}

/// Scans nonces upward from `start`, hashing each with `challenge` and
/// keeping the first nonce of strictly greatest difficulty. Every
/// `CHECK_INTERVAL` nonces it reads the clock and stops once at least
/// `cutoff_secs` have passed and the best difficulty exceeds
/// `min_difficulty`; it never wraps past `u64::MAX`.
pub fn search_lane(
    memory: &mut drillx::equix::SolverMemory,
    challenge: &[u8; 32],
    start: u64,
    cutoff_secs: u64,
    min_difficulty: u64,
) -> (r: LaneReport)
    ensures
        start <= r.last_nonce,
        r.best@ == scan_best(challenge@, start, r.last_nonce),
        r.last_nonce == u64::MAX || (r.last_nonce % CHECK_INTERVAL == 0 && r.elapsed_at_stop
            >= cutoff_secs && r.best.difficulty > min_difficulty),
{
    let timer = start_timer();
    let mut nonce: u64 = start;
    let mut best = Candidate { nonce: start, difficulty: 0, digest: [0u8; 16] };
    assert(best.digest@ =~= zero_digest());
    loop
        invariant
            start <= nonce,
            nonce == start ==> best@ == scan_none(start),
            nonce > start ==> best@ == scan_best(challenge@, start, (nonce - 1) as u64),
        decreases u64::MAX - nonce,
    {
        let outcome = hash_nonce(memory, challenge, nonce);
        if let Some((d, h)) = outcome {
            let diff = hash_difficulty(&h);
            proof {
                lemma_leading_zero_bits_bound(h@);
            }
            if diff > best.difficulty {
                best = Candidate { nonce, difficulty: diff, digest: d };
            }
        }
        assert(best@ == scan_best(challenge@, start, nonce));
        if nonce % CHECK_INTERVAL == 0 {
            let secs = elapsed_secs(&timer);
            if secs >= cutoff_secs && best.difficulty as u64 > min_difficulty {
                return LaneReport { best, last_nonce: nonce, elapsed_at_stop: secs };
            }
        }
        if nonce == u64::MAX {
            let secs = elapsed_secs(&timer);
            return LaneReport { best, last_nonce: nonce, elapsed_at_stop: secs };
        }
        nonce = nonce + 1;
    }
}

} // verus!

verus! {

/// Lane `i` is the first among `lanes[0..k]` with the greatest difficulty,
/// and that difficulty is above zero.
pub open spec fn is_first_best(lanes: Seq<Candidate>, k: int, i: int) -> bool {
    &&& 0 <= i < k <= lanes.len()
    &&& lanes[i].difficulty > 0
    &&& forall|j: int| 0 <= j < k ==> #[trigger] lanes[j].difficulty <= lanes[i].difficulty
    &&& forall|j: int| 0 <= j < i ==> #[trigger] lanes[j].difficulty < lanes[i].difficulty
}

/// Joins the lanes' bests: a lane replaces the running best only with a
/// strictly greater difficulty, starting from nonce 0, difficulty 0 and a
/// zero digest.
pub fn best_of_lanes(lanes: &Vec<Candidate>) -> (r: Candidate)
    ensures
        (forall|j: int| 0 <= j < lanes@.len() ==> lanes@[j].difficulty == 0) ==> r@ == (
            0int,
            0nat,
            zero_digest(),
        ),
        (exists|j: int| 0 <= j < lanes@.len() && lanes@[j].difficulty > 0) ==> exists|i: int|
            is_first_best(lanes@, lanes@.len() as int, i) && r@ == lanes@[i]@,
{
    let mut best = Candidate { nonce: 0, difficulty: 0, digest: [0u8; 16] };
    assert(best.digest@ =~= zero_digest());
    let mut k: usize = 0;
    let ghost mut at: int = -1;
    while k < lanes.len()
        invariant
            k <= lanes@.len(),
            at == -1 ==> best@ == (0int, 0nat, zero_digest()) && forall|j: int|
                0 <= j < k ==> #[trigger] lanes@[j].difficulty == 0,
            at != -1 ==> is_first_best(lanes@, k as int, at) && best@ == lanes@[at]@,
        decreases lanes@.len() - k,
    {
        let c = lanes[k];
        if c.difficulty > best.difficulty {
            best = c;
            proof {
                at = k as int;
            }
        }
        k = k + 1;
    }
    proof {
        if exists|j: int| 0 <= j < lanes@.len() && lanes@[j].difficulty > 0 {
            assert(at != -1);
        }
    }
    best
}

} // verus!
