use tokensign::create_token;
use tokensign::decode_token;
use tokensign::sign_payload;
use tokensign::validate_expiration;
use tokensign::validate_expiration_now;
use tokensign::verify_token;
use tokensign::Expirable;
use tokensign::TokenError;
use tokensign::TokenErrorKind;

struct Claims {
    user_id: u64,
    exp: i64,
}

impl Expirable for Claims {
    fn exp(&self) -> i64 {
        self.exp
    }
}

const FUTURE_TS: i64 = 4102444800; // 2100-01-01

fn is_base64url_text(s: &str) -> bool {
    !s.is_empty()
        && s.chars()
            .all(|c| c.is_ascii_alphanumeric() || c == '-' || c == '_')
}

#[test]
fn round_trip_returns_payload_bytes() {
    let secrets = ["s3cr3t", "", "a much longer secret than the hash block size \
                    aaaaaaaaaaaaaaaaaaaaaaaaaaaaaaaaaaaaaaaaaaaaaaaaaaaaaaaaaaaaaaaa"];
    let payloads: Vec<Vec<u8>> = vec![
        vec![0x01],
        vec![0xde, 0xad, 0xbe, 0xef],
        (0u8..=255).collect(),
        rmp_serde::to_vec(&(42u64, FUTURE_TS)).unwrap(),
    ];
    for secret in secrets {
        for payload in &payloads {
            let token = create_token(payload, secret).unwrap();
            assert_eq!(decode_token(&token).unwrap(), *payload);
        }
    }
}

#[test]
fn authentic_token_verifies_to_payload() {
    let payload = rmp_serde::to_vec(&(7u64, FUTURE_TS)).unwrap();
    let token = create_token(&payload, "top secret").unwrap();
    let verified = verify_token("top secret", &token).unwrap();
    assert_eq!(verified, payload);
    let (user_id, exp): (u64, i64) = rmp_serde::from_slice(&verified).unwrap();
    let claims = Claims { user_id, exp };
    assert_eq!(claims.user_id, 7);
    assert!(validate_expiration(claims.exp(), chrono::Utc::now().timestamp()).is_ok());
}

#[test]
fn example_user_id_42() {
    let payload = rmp_serde::to_vec(&(42u64, FUTURE_TS)).unwrap();
    let token = create_token(&payload, "s3cr3t").unwrap();

    let parts: Vec<&str> = token.split('.').collect();
    assert_eq!(parts.len(), 2);
    assert!(is_base64url_text(parts[0]));
    assert!(is_base64url_text(parts[1]));

    let verified = verify_token("s3cr3t", &token).unwrap();
    let (user_id, exp): (u64, i64) = rmp_serde::from_slice(&verified).unwrap();
    assert_eq!((user_id, exp), (42, FUTURE_TS));

    let wrong = verify_token("wrong", &token);
    assert_eq!(wrong.unwrap_err().kind, TokenErrorKind::SignatureError);
}

#[test]
fn wrong_secret_gives_signature_error() {
    let payload = vec![1u8, 2, 3, 4];
    let token = create_token(&payload, "first secret").unwrap();
    let err = verify_token("second secret", &token).unwrap_err();
    assert_eq!(err.kind, TokenErrorKind::SignatureError);
}

#[test]
fn tampering_never_verifies() {
    let payload = rmp_serde::to_vec(&(42u64, FUTURE_TS)).unwrap();
    let secret = "s3cr3t";
    let token = create_token(&payload, secret).unwrap();
    let bytes = token.as_bytes();
    let dot = token.find('.').unwrap();
    for pos in 0..bytes.len() {
        if pos == dot {
            continue; // stay inside the two segments
        }
        for bit in 0..8 {
            let mut mutated = bytes.to_vec();
            mutated[pos] ^= 1u8 << bit;
            let Ok(mutated) = String::from_utf8(mutated) else {
                continue; // the flip left the ASCII range
            };
            let err = verify_token(secret, &mutated).unwrap_err();
            if mutated.as_bytes()[pos] == b'.' {
                // the flip forged a second separator
                assert_eq!(err.kind, TokenErrorKind::FormatError);
            } else {
                assert!(
                    err.kind == TokenErrorKind::EncodingError
                        || err.kind == TokenErrorKind::SignatureError,
                    "unexpected kind {:?} at byte {} bit {}",
                    err.kind,
                    pos,
                    bit
                );
            }
        }
    }
}

#[test]
fn expiration_boundary() {
    let now = 1700000000i64;
    assert_eq!(
        validate_expiration(now - 1, now).unwrap_err().kind,
        TokenErrorKind::ExpiredError
    );
    assert!(validate_expiration(now, now).is_ok());
    assert!(validate_expiration(now + 1000000000, now).is_ok());
    assert_eq!(
        validate_expiration(i64::MIN, now).unwrap_err().kind,
        TokenErrorKind::ExpiredError
    );
    assert!(validate_expiration(i64::MAX, now).is_ok());
}

#[test]
fn expiration_against_system_clock() {
    assert!(validate_expiration_now(FUTURE_TS).is_ok());
    let long_past: i64 = 946684800; // 2000-01-01
    assert_eq!(
        validate_expiration_now(long_past).unwrap_err().kind,
        TokenErrorKind::ExpiredError
    );
}

#[test]
fn malformed_format_rejected_by_both() {
    let malformed = ["", "abc", "a.b.c", "..", ".b", "a.", ".", "one.two.three.four"];
    for t in malformed {
        assert_eq!(
            decode_token(t).unwrap_err().kind,
            TokenErrorKind::FormatError,
            "decode_token({:?})",
            t
        );
        assert_eq!(
            verify_token("s", t).unwrap_err().kind,
            TokenErrorKind::FormatError,
            "verify_token({:?})",
            t
        );
    }
}

#[test]
fn empty_payload_token_is_malformed() {
    let token = create_token(&[], "s").unwrap();
    assert!(token.starts_with('.'));
    assert_eq!(decode_token(&token).unwrap_err().kind, TokenErrorKind::FormatError);
    assert_eq!(
        verify_token("s", &token).unwrap_err().kind,
        TokenErrorKind::FormatError
    );
}

#[test]
fn invalid_base64_gives_encoding_error() {
    // '!' is outside the alphabet
    assert_eq!(
        decode_token("!!!.AA").unwrap_err().kind,
        TokenErrorKind::EncodingError
    );
    assert_eq!(
        verify_token("s", "!!!.AA").unwrap_err().kind,
        TokenErrorKind::EncodingError
    );
    // a 5-character segment can never be unpadded base64
    assert_eq!(
        verify_token("s", "AAAAA.AA").unwrap_err().kind,
        TokenErrorKind::EncodingError
    );
    // padding characters are refused in the unpadded encoding
    assert_eq!(
        verify_token("s", "AA==.AAAA").unwrap_err().kind,
        TokenErrorKind::EncodingError
    );
    // the second segment is decoded too during verification
    assert_eq!(
        verify_token("s", "3q2-7w.!!!").unwrap_err().kind,
        TokenErrorKind::EncodingError
    );
}

#[test]
fn decode_does_not_inspect_signature_segment() {
    // unauthenticated decoding reads only the payload segment
    let decoded = decode_token("3q2-7w.!!!").unwrap();
    assert_eq!(decoded, vec![0xde, 0xad, 0xbe, 0xef]);
}

#[test]
fn forged_signature_gives_signature_error() {
    let payload = vec![9u8, 8, 7];
    let token = create_token(&payload, "s3cr3t").unwrap();
    let parts: Vec<&str> = token.split('.').collect();
    let forged = format!("{}.AAAA", parts[0]);
    assert_eq!(
        verify_token("s3cr3t", &forged).unwrap_err().kind,
        TokenErrorKind::SignatureError
    );
}

#[test]
fn creation_is_deterministic() {
    let payload = vec![5u8, 6, 7, 8];
    let a = create_token(&payload, "same").unwrap();
    let b = create_token(&payload, "same").unwrap();
    assert_eq!(a, b);
}

#[test]
fn payload_segment_is_exact_base64url() {
    let token = create_token(&[0xde, 0xad, 0xbe, 0xef], "k").unwrap();
    let parts: Vec<&str> = token.split('.').collect();
    assert_eq!(parts[0], "3q2-7w");
    assert_eq!(parts[1].len(), 43); // 32 signature bytes encode to 43 characters
    let decoded = decode_token("3q2-7w.AA").unwrap();
    assert_eq!(decoded, vec![0xde, 0xad, 0xbe, 0xef]);
}

#[test]
fn sign_payload_matches_known_hmac_vector() {
    // RFC-known value: HMAC-SHA-256("key", "The quick brown fox jumps over the lazy dog")
    let signature = sign_payload("key", b"The quick brown fox jumps over the lazy dog").unwrap();
    let expected: [u8; 32] = [
        0xf7, 0xbc, 0x83, 0xf4, 0x30, 0x53, 0x84, 0x24, 0xb1, 0x32, 0x98, 0xe6, 0xaa, 0x6f,
        0xb1, 0x43, 0xef, 0x4d, 0x59, 0xa1, 0x49, 0x46, 0x17, 0x59, 0x97, 0x47, 0x9d, 0xbc,
        0x2d, 0x1a, 0x3c, 0xd8,
    ];
    assert_eq!(signature, expected.to_vec());
}

#[test]
fn sign_payload_accepts_any_secret_length() {
    assert_eq!(sign_payload("", b"").unwrap().len(), 32);
    let long = "x".repeat(1000);
    assert_eq!(sign_payload(&long, b"data").unwrap().len(), 32);
}

#[test]
fn error_messages_name_each_kind() {
    let cases = [
        (TokenErrorKind::FormatError, "Invalid token format"),
        (TokenErrorKind::EncodingError, "Invalid token encoding"),
        (TokenErrorKind::SignatureError, "Invalid token signature"),
        (TokenErrorKind::ExpiredError, "Token has expired"),
        (TokenErrorKind::SerializationError, "Payload serialization failed"),
        (TokenErrorKind::DeserializationError, "Payload deserialization failed"),
        (TokenErrorKind::KeyError, "Secret rejected by the MAC construction"),
    ];
    for (kind, text) in cases {
        let err = TokenError { kind };
        assert_eq!(err.message(), text);
    }
}
