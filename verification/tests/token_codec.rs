use inventory_core::id::EntityId;
use inventory_core::token::{
    encode_payload, parse_payload, seal, serialize_physical_token, TokenError,
    UserRawPhysicalToken,
};

fn test_key() -> Vec<u8> {
    b"0123456789abcdef0123456789abcdef".to_vec()
}

fn sample_payload() -> UserRawPhysicalToken {
    UserRawPhysicalToken {
        user_id: EntityId { hi: 7, lo: 99 },
        username: b"alice".to_vec(),
        pass_hash: b"h123".to_vec(),
    }
}

#[test]
fn payload_encoding_exact_bytes() {
    let bytes = encode_payload(&sample_payload());
    let mut expected: Vec<u8> = vec![0, 0, 0, 7];
    expected.extend_from_slice(&[0, 0, 0, 0, 0, 0, 0, 99]);
    expected.extend_from_slice(&[0, 0, 0, 5]);
    expected.extend_from_slice(b"alice");
    expected.extend_from_slice(&[0, 0, 0, 4]);
    expected.extend_from_slice(b"h123");
    assert_eq!(bytes, expected);
}

#[test]
fn payload_codec_round_trip() {
    let bytes = encode_payload(&sample_payload());
    let back = parse_payload(&bytes).expect("canonical bytes must parse");
    assert_eq!(back.user_id, EntityId { hi: 7, lo: 99 });
    assert_eq!(back.username, b"alice".to_vec());
    assert_eq!(back.pass_hash, b"h123".to_vec());
}

#[test]
fn payload_parse_rejects_truncation() {
    let bytes = encode_payload(&sample_payload());
    for cut in 0..bytes.len() {
        assert!(parse_payload(&bytes[..cut].to_vec()).is_none());
    }
    let mut extended = bytes.clone();
    extended.push(0);
    assert!(parse_payload(&extended).is_none());
}

#[test]
fn token_round_trip() {
    let key = test_key();
    let payload = sample_payload();
    let token = seal(&key, &payload, 1).expect("sealing must succeed");
    let back = serialize_physical_token(&key, &token).expect("round trip must succeed");
    assert_eq!(back.user_id, payload.user_id);
    assert_eq!(back.username, payload.username);
    assert_eq!(back.pass_hash, payload.pass_hash);
}

#[test]
fn tamper_detection() {
    let key = test_key();
    let token = seal(&key, &sample_payload(), 1).expect("sealing must succeed");
    for pos in 0..token.len() {
        let mut chars: Vec<char> = token.chars().collect();
        chars[pos] = if chars[pos] == 'z' { 'y' } else { 'z' };
        let tampered: String = chars.into_iter().collect();
        assert!(
            matches!(
                serialize_physical_token(&key, &tampered),
                Err(TokenError::InvalidToken)
            ),
            "tampering position {} must invalidate the token",
            pos
        );
    }
}

#[test]
fn unseal_rejects_wrong_key() {
    let token = seal(&test_key(), &sample_payload(), 1).expect("sealing must succeed");
    let other_key = b"ffffffffffffffffffffffffffffffff".to_vec();
    assert!(matches!(
        serialize_physical_token(&other_key, &token),
        Err(TokenError::InvalidToken)
    ));
}

#[test]
fn unseal_rejects_garbage_and_foreign_payload() {
    let key = test_key();
    assert!(matches!(
        serialize_physical_token(&key, "not-a-token"),
        Err(TokenError::InvalidToken)
    ));
    // A genuine branca token whose payload is not a canonical identity triple
    // must be rejected atomically as well.
    let foreign = branca::encode(b"junk", &key, 1).expect("branca encode");
    assert!(matches!(
        serialize_physical_token(&key, &foreign),
        Err(TokenError::InvalidToken)
    ));
}
