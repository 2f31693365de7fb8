//! The memory-hard hash and the clock, as the search loop sees them.

use vstd::prelude::*;

verus! {

#[verifier::external_type_specification]
#[verifier::external_body]
pub struct ExSolverMemory(drillx::equix::SolverMemory);

#[verifier::external_type_specification]
#[verifier::external_body]
pub struct ExInstant(std::time::Instant);

/// Leading zero bits of one byte.
pub open spec fn byte_leading_zeros(b: u8) -> nat {
    if b >= 128 {
        0
    } else if b >= 64 {
        1
    } else if b >= 32 {
        2
    } else if b >= 16 {
        3
    } else if b >= 8 {
        4
    } else if b >= 4 {
        5
    } else if b >= 2 {
        6
    } else if b >= 1 {
        7
    } else {
        8
    }
}

/// Leading zero bits of a byte string read most significant byte first.
pub open spec fn leading_zero_bits(h: Seq<u8>) -> nat
    decreases h.len(),
{
    if h.len() == 0 {
        0
    } else if h[0] == 0 {
        8 + leading_zero_bits(h.drop_first())
    } else {
        byte_leading_zeros(h[0])
    }
}

/// What the drillx hash gives for a challenge and a nonce (the nonce handed
/// over as its little-endian bytes): `Some((digest, hash))`, or `None` where
/// the equihash construction fails for that seed.
pub uninterp spec fn drillx_hash(challenge: Seq<u8>, nonce: u64) -> Option<(Seq<u8>, Seq<u8>)>;

pub open spec fn hash_view(r: Option<([u8; 16], [u8; 32])>) -> Option<(Seq<u8>, Seq<u8>)> {
    match r {
        Some((d, h)) => Some((d@, h@)),
        None => None,
    }
}

/// Relies on drillx::hash_with_memory: the outcome depends on the challenge
/// and the nonce alone; the solver memory is scratch space reused across calls.
#[verifier::external_body]
pub(crate) fn hash_nonce(
    memory: &mut drillx::equix::SolverMemory,
    challenge: &[u8; 32],
    nonce: u64,
) -> (r: Option<([u8; 16], [u8; 32])>)
    ensures
        hash_view(r) == drillx_hash(challenge@, nonce),
{
    match drillx::hash_with_memory(memory, challenge, &nonce.to_le_bytes()) {
        Ok(hx) => Some((hx.d, hx.h)),
        Err(_) => None,
    }
}

/// Relies on drillx::difficulty: the number of leading zero bits of the hash.
#[verifier::external_body]
pub(crate) fn hash_difficulty(h: &[u8; 32]) -> (r: u32)
    ensures
        r == leading_zero_bits(h@),
{
    drillx::difficulty(*h)
}

/// Relies on std::time::Instant::now: a fresh reference point for elapsed time.
#[verifier::external_body]
pub(crate) fn start_timer() -> (r: std::time::Instant) {
    std::time::Instant::now()
}

/// Relies on std::time::Instant::elapsed: whole seconds since `timer` was
/// taken. Nothing is promised of the value.
#[verifier::external_body]
pub(crate) fn elapsed_secs(timer: &std::time::Instant) -> (r: u64) {
    timer.elapsed().as_secs()
}

} // verus!
