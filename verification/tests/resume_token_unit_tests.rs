use zellij_remote::resume_token::{ResumeToken, PAYLOAD_SIZE, SIGNED_TOKEN_SIZE};


#[test]
fn test_encode_decode_signed() {
    let secret = b"test_secret_key_12345678901234567890";
    let token = ResumeToken {
        session_id: 123,
        client_id: 456,
        last_applied_state_id: 789,
        last_acked_input_seq: 100,
        issued_at_ms: 1000000,
    };

    let encoded = token.encode_signed(secret);
    let decoded = ResumeToken::decode_signed(&encoded, secret).unwrap();

    assert_eq!(token, decoded);
}

#[test]
fn test_tampered_signature_rejected() {
    let secret = b"test_secret_key_12345678901234567890";
    let token = ResumeToken {
        session_id: 123,
        client_id: 456,
        last_applied_state_id: 789,
        last_acked_input_seq: 100,
        issued_at_ms: 1000000,
    };

    let mut encoded = token.encode_signed(secret);
    encoded[PAYLOAD_SIZE] ^= 0xff;

    assert!(ResumeToken::decode_signed(&encoded, secret).is_none());
}

#[test]
fn test_wrong_secret_rejected() {
    let secret1 = b"secret_one_123456789012345678901234";
    let secret2 = b"secret_two_123456789012345678901234";
    let token = ResumeToken {
        session_id: 123,
        client_id: 456,
        last_applied_state_id: 789,
        last_acked_input_seq: 100,
        issued_at_ms: 1000000,
    };

    let encoded = token.encode_signed(secret1);
    assert!(ResumeToken::decode_signed(&encoded, secret2).is_none());
}

#[test]
fn test_tampered_payload_rejected() {
    let secret = b"test_secret_key_12345678901234567890";
    let token = ResumeToken {
        session_id: 123,
        client_id: 456,
        last_applied_state_id: 789,
        last_acked_input_seq: 100,
        issued_at_ms: 1000000,
    };

    let mut encoded = token.encode_signed(secret);
    encoded[0] ^= 0xff;

    assert!(ResumeToken::decode_signed(&encoded, secret).is_none());
}

#[test]
fn test_short_token_rejected() {
    let secret = b"test_secret_key_12345678901234567890";
    let short_data = vec![0u8; SIGNED_TOKEN_SIZE - 1];

    assert!(ResumeToken::decode_signed(&short_data, secret).is_none());
}

#[test]
fn test_is_valid_timestamp() {
    let token = ResumeToken {
        session_id: 1,
        client_id: 1,
        last_applied_state_id: 1,
        last_acked_input_seq: 0,
        issued_at_ms: 1000,
    };

    assert!(token.is_valid_timestamp(5000, 2000, 1000));
    assert!(!token.is_valid_timestamp(500, 2000, 1000));
    assert!(!token.is_valid_timestamp(5000, 0, 500));
}

#[test]
fn test_future_dated_token_rejected() {
    let token = ResumeToken {
        session_id: 1,
        client_id: 1,
        last_applied_state_id: 1,
        last_acked_input_seq: 0,
        issued_at_ms: 10000,
    };

    assert!(!token.is_valid_timestamp(5000, 5000, 1000));
}
