//! The Search Endpoint's wire values: the challenge as 64 hex digits, the
//! request's parameters, and the result it sends back.

use vstd::prelude::*;
use crate::engine::{Candidate, best_of_lanes, zero_digest};

verus! {

/// Why a search request was refused.
#[derive(Clone, Copy, Debug, PartialEq, Eq, Structural)]
pub enum ProtocolError {
    /// The request carried no challenge.
    MissingChallenge,
    /// The challenge text was not exactly 64 characters long.
    BadLength,
    /// The challenge text held a character that is not a hex digit.
    BadDigit,
}

/// The ASCII lower-case hex digit for `v` (`0 <= v < 16`).
pub open spec fn hex_char(v: u8) -> u8 {
    if v < 10 {
        (48 + v) as u8
    } else {
        (87 + v) as u8
    }
}

/// The value of a hex digit in either case, or `None`.
pub open spec fn hex_value(ch: u8) -> Option<u8> {
    if 48 <= ch <= 57 {
        Some((ch - 48) as u8)
    } else if 97 <= ch <= 102 {
        Some((ch - 87) as u8)
    } else if 65 <= ch <= 70 {
        Some((ch - 55) as u8)
    } else {
        None
    }
}

/// Two lower-case hex digits per byte, high nibble first.
pub open spec fn hex_text(bytes: Seq<u8>) -> Seq<u8> {
    Seq::new(
        2 * bytes.len(),
        |k: int|
            if k % 2 == 0 {
                hex_char(bytes[k / 2] / 16)
            } else {
                hex_char(bytes[k / 2] % 16)
            },
    )
}

pub open spec fn all_hex(t: Seq<u8>) -> bool {
    forall|k: int| 0 <= k < t.len() ==> (#[trigger] hex_value(t[k])) is Some
}

/// The 32 bytes that a valid 64-digit challenge text stands for.
pub open spec fn challenge_of_text(t: Seq<u8>) -> Seq<u8> {
    Seq::new(
        32,
        |i: int| (hex_value(t[2 * i])->Some_0 * 16 + hex_value(t[2 * i + 1])->Some_0) as u8,
    )
}

fn hex_digit_value(ch: u8) -> (r: Option<u8>)
    ensures
        r == hex_value(ch),
{
    if 48 <= ch && ch <= 57 {
        Some(ch - 48)
    } else if 97 <= ch && ch <= 102 {
        Some(ch - 87)
    } else if 65 <= ch && ch <= 70 {
        Some(ch - 55)
    } else {
        None
    }
}

fn hex_digit_char(v: u8) -> (r: u8)
    requires
        v < 16,
    ensures
        r == hex_char(v),
{
    if v < 10 {
        48 + v
    } else {
        87 + v
    }
}

/// The challenge as text: 64 lower-case hex digits.
pub fn encode_challenge(challenge: &[u8; 32]) -> (r: Vec<u8>)
    ensures
        r@ == hex_text(challenge@),
{
    let mut out: Vec<u8> = Vec::new();
    let mut i: usize = 0;
    while i < 32
        invariant
            i <= 32,
            out@ =~= hex_text(challenge@.subrange(0, i as int)),
        decreases 32 - i,
    {
        let b = challenge[i];
        out.push(hex_digit_char(b / 16));
        out.push(hex_digit_char(b % 16));
        i = i + 1;
        assert(out@ =~= hex_text(challenge@.subrange(0, i as int)));
    }
    assert(challenge@.subrange(0, 32) =~= challenge@);
    out
}

/// Reads a challenge from its text: exactly 64 hex digits, either case.
pub fn decode_challenge(text: &[u8]) -> (r: Result<[u8; 32], ProtocolError>)
    ensures
        r matches Err(ProtocolError::BadLength) <==> text@.len() != 64,
        r matches Err(ProtocolError::BadDigit) <==> text@.len() == 64 && !all_hex(text@),
        r is Ok <==> text@.len() == 64 && all_hex(text@),
        r matches Ok(c) ==> c@ == challenge_of_text(text@),
        !(r matches Err(ProtocolError::MissingChallenge)),
{
    if text.len() != 64 {
        return Err(ProtocolError::BadLength);
    }
    let mut out = [0u8; 32];
    let mut i: usize = 0;
    while i < 32
        invariant
            i <= 32,
            text@.len() == 64,
            forall|k: int| 0 <= k < 2 * i ==> (#[trigger] hex_value(text@[k])) is Some,
            forall|j: int| 0 <= j < i ==> out@[j] == #[trigger] challenge_of_text(text@)[j],
        decreases 32 - i,
    {
        let hi = hex_digit_value(text[2 * i]);
        let lo = hex_digit_value(text[2 * i + 1]);
        match (hi, lo) {
            (Some(h), Some(l)) => {
                out[i] = h * 16 + l;
            },
            _ => {
                assert(!all_hex(text@));
                return Err(ProtocolError::BadDigit);
            },
        }
        i = i + 1;
    }
    assert(out@ =~= challenge_of_text(text@));
    Ok(out)
}

/// Decoding the text of any challenge gives back that challenge.
pub proof fn challenge_text_round_trip(challenge: Seq<u8>)
    requires
        challenge.len() == 32,
    ensures
        hex_text(challenge).len() == 64,
        all_hex(hex_text(challenge)),
        challenge_of_text(hex_text(challenge)) == challenge,
{
    let t = hex_text(challenge);
    assert forall|k: int| 0 <= k < t.len() implies (#[trigger] hex_value(t[k])) is Some by {
        assert(k / 2 < 32);
    }
    assert forall|i: int| 0 <= i < 32 implies #[trigger] challenge_of_text(t)[i] == challenge[i] by {
        assert((2 * i) / 2 == i && (2 * i) % 2 == 0);
        assert((2 * i + 1) / 2 == i && (2 * i + 1) % 2 == 1);
        let b = challenge[i];
        assert(hex_value(hex_char(b / 16)) == Some((b / 16) as u8));
        assert(hex_value(hex_char(b % 16)) == Some((b % 16) as u8));
    }
    assert(challenge_of_text(t) =~= challenge);
}

/// What a search request asks for, once read.
#[derive(Clone, Copy, Debug)]
pub struct SearchRequest {
    pub challenge: [u8; 32],
    pub cutoff_time: u64,
    pub lane_count: u64,
    pub min_difficulty: u64,
}

pub open spec fn or_zero(v: Option<u64>) -> u64 {
    match v {
        Some(x) => x,
        None => 0,
    }
}

/// Reads a request's parameters: the challenge is required, the numbers
/// default to zero when absent.
pub fn parse_request(
    cutoff_time: Option<u64>,
    threads: Option<u64>,
    min_difficulty: Option<u64>,
    challenge: Option<Vec<u8>>,
) -> (r: Result<SearchRequest, ProtocolError>)
    ensures
        challenge is None ==> r == Err::<SearchRequest, ProtocolError>(ProtocolError::MissingChallenge),
        challenge matches Some(t) ==> {
            &&& (r matches Err(ProtocolError::BadLength) <==> t@.len() != 64)
            &&& (r matches Err(ProtocolError::BadDigit) <==> t@.len() == 64 && !all_hex(t@))
            &&& (r is Ok <==> t@.len() == 64 && all_hex(t@))
        },
        r matches Ok(q) ==> {
            &&& q.challenge@ == challenge_of_text(challenge->Some_0@)
            &&& q.cutoff_time == or_zero(cutoff_time)
            &&& q.lane_count == or_zero(threads)
            &&& q.min_difficulty == or_zero(min_difficulty)
        },
{
    let text = match challenge {
        Some(t) => t,
        None => return Err(ProtocolError::MissingChallenge),
    };
    let decoded = decode_challenge(text.as_slice());
    match decoded {
        Ok(c) => Ok(
            SearchRequest {
                challenge: c,
                cutoff_time: match cutoff_time {
                    Some(x) => x,
                    None => 0,
                },
                lane_count: match threads {
                    Some(x) => x,
                    None => 0,
                },
                min_difficulty: match min_difficulty {
                    Some(x) => x,
                    None => 0,
                },
            },
        ),
        Err(e) => Err(e),
    }
}

/// A Search Endpoint's answer: the best solution found, the challenge echoed
/// as hex text, and the difficulty achieved.
#[derive(Clone, Debug)]
pub struct SearchResult {
    pub digest: [u8; 16],
    pub nonce: u64,
    pub challenge: Vec<u8>,
    pub best_difficulty: u64,
}

/// The answer for `challenge` from the results of its lanes: the lane with
/// the greatest difficulty, the first of equals.
pub fn finish_search(challenge: &[u8; 32], lanes: &Vec<Candidate>) -> (r: SearchResult)
    ensures
        r.challenge@ == hex_text(challenge@),
        (forall|j: int| 0 <= j < lanes@.len() ==> lanes@[j].difficulty == 0) ==> (r.nonce == 0
            && r.best_difficulty == 0 && r.digest@ == zero_digest()),
        (exists|j: int| 0 <= j < lanes@.len() && lanes@[j].difficulty > 0) ==> exists|i: int|
            crate::engine::is_first_best(lanes@, lanes@.len() as int, i) && r.nonce
                == lanes@[i].nonce && r.best_difficulty == lanes@[i].difficulty as u64
                && r.digest@ == lanes@[i].digest@,
{
    let best = best_of_lanes(lanes);
    SearchResult {
        digest: best.digest,
        nonce: best.nonce,
        challenge: encode_challenge(challenge),
        best_difficulty: best.difficulty as u64,
    }
}

} // verus!
