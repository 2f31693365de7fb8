use fleet_miner::protocol::{ProtocolError, decode_challenge, encode_challenge, parse_request};

fn sample_challenge() -> [u8; 32] {
    let mut c = [0u8; 32];
    for i in 0..32 {
        c[i] = (i as u8).wrapping_mul(37).wrapping_add(5);
    }
    c
}

#[test]
fn encode_is_lowercase_hex() {
    let mut c = [0u8; 32];
    c[0] = 0x00;
    c[1] = 0xff;
    c[2] = 0x1a;
    let text = encode_challenge(&c);
    assert_eq!(text.len(), 64);
    assert_eq!(&text[0..6], b"00ff1a");
    assert!(text[6..].iter().all(|&b| b == b'0'));
}

#[test]
fn round_trip_every_byte_value() {
    for start in 0..8u32 {
        let mut c = [0u8; 32];
        for i in 0..32u32 {
            c[i as usize] = (start * 32 + i) as u8;
        }
        let text = encode_challenge(&c);
        assert_eq!(decode_challenge(&text), Ok(c));
    }
    let c = sample_challenge();
    assert_eq!(decode_challenge(&encode_challenge(&c)), Ok(c));
}

#[test]
fn decode_accepts_upper_case() {
    let text = b"FF00AB".iter().copied().chain(std::iter::repeat(b'0').take(58)).collect::<Vec<u8>>();
    let c = decode_challenge(&text).unwrap();
    assert_eq!(c[0], 0xff);
    assert_eq!(c[1], 0x00);
    assert_eq!(c[2], 0xab);
}

#[test]
fn decode_rejects_wrong_length() {
    assert_eq!(decode_challenge(b""), Err(ProtocolError::BadLength));
    assert_eq!(decode_challenge(&[b'0'; 63]), Err(ProtocolError::BadLength));
    assert_eq!(decode_challenge(&[b'0'; 65]), Err(ProtocolError::BadLength));
}

#[test]
fn decode_rejects_non_hex() {
    let mut text = vec![b'0'; 64];
    text[63] = b'g';
    assert_eq!(decode_challenge(&text), Err(ProtocolError::BadDigit));
    let old_format = format!("{:?}", [0u8; 32]).into_bytes();
    assert!(decode_challenge(&old_format).is_err());
}

#[test]
fn parse_request_defaults_to_zero() {
    let c = sample_challenge();
    let q = parse_request(None, None, None, Some(encode_challenge(&c))).unwrap();
    assert_eq!(q.challenge, c);
    assert_eq!(q.cutoff_time, 0);
    assert_eq!(q.lane_count, 0);
    assert_eq!(q.min_difficulty, 0);
    let q = parse_request(Some(30), Some(16), Some(7), Some(encode_challenge(&c))).unwrap();
    assert_eq!((q.cutoff_time, q.lane_count, q.min_difficulty), (30, 16, 7));
}

#[test]
fn parse_request_errors() {
    assert_eq!(parse_request(Some(1), Some(1), None, None).unwrap_err(), ProtocolError::MissingChallenge);
    assert_eq!(parse_request(None, None, None, Some(b"abc".to_vec())).unwrap_err(), ProtocolError::BadLength);
    assert_eq!(parse_request(None, None, None, Some(vec![b'x'; 64])).unwrap_err(), ProtocolError::BadDigit);
}
