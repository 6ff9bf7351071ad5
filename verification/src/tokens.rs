use vstd::prelude::*;
use vstd::string::StringSliceAdditionalSpecFns;

use crate::base64url::{
    base64url_decode, base64url_encode, base64url_of, is_base64url_char,
    lemma_base64url_char_not_dot,
};
use crate::errors::{TokenError, TokenErrorKind};
use crate::format::{
    lemma_join_then_split, payload_segment, signature_segment, split_token, token_format_ok,
};
use crate::sign::{hmac_sha256, hmac_sha256_of};

verus! {

/// The text of the token built from payload bytes and the secret's bytes: the
/// base64url-encoded payload, a single `.`, and the base64url-encoded
/// HMAC-SHA-256 signature of the payload bytes under the secret.
pub open spec fn spec_token(payload: Seq<u8>, key: Seq<u8>) -> Seq<char> {
    base64url_of(payload) + seq!['.'] + base64url_of(hmac_sha256_of(key, payload))
}

/// The text is the unpadded base64url encoding of some byte string.
pub open spec fn is_base64url_image(s: Seq<char>) -> bool {
    exists|b: Seq<u8>| s == base64url_of(b)
}

/// Both segments decode, and the signature segment carries exactly the
/// HMAC-SHA-256 digest of the payload segment's bytes under `key`.
pub open spec fn signature_valid(t: Seq<char>, key: Seq<u8>) -> bool {
    exists|p: Seq<u8>|
        payload_segment(t) == base64url_of(p) && signature_segment(t) == base64url_of(
            #[trigger] hmac_sha256_of(key, p),
        )
}

/// Compares two byte strings for equality without leaving the loop early, so
/// that the comparison's duration does not depend on where they first differ.
fn bytes_equal(a: &[u8], b: &[u8]) -> (r: bool)
    ensures
        r == (a@ == b@),
{
    if a.len() != b.len() {
        return false;
    }
    let mut diff: u8 = 0;
    let mut i: usize = 0;
    while i < a.len()
        invariant
            a@.len() == b@.len(),
            i <= a@.len(),
            diff == 0 <==> (forall|j: int| 0 <= j < i ==> a@[j] == b@[j]),
        decreases a@.len() - i,
    {
        let x = a[i];
        let y = b[i];
        proof {
            assert((diff | (x ^ y)) == 0 <==> diff == 0 && x == y) by (bit_vector);
        }
        diff = diff | (x ^ y);
        i += 1;
    }
    if diff == 0 {
        proof {
            assert(a@ =~= b@);
        }
        true
    } else {
        false
    }
}

/// Builds a token over the given payload bytes: the signature covers exactly
/// those bytes, and both parts are base64url-encoded and joined with `.`.
/// Creation always succeeds; for a non-empty payload the result is
/// well-formed and its segments encode exactly the payload and its signature,
/// so by the contracts of `decode_token` and `verify_token` both return
/// exactly these payload bytes when given this token (and, for verification,
/// the same secret).
pub fn create_token(payload: &[u8], secret: &str) -> (r: Result<String, TokenError>)
    ensures
        r is Ok,
        r->Ok_0@ == spec_token(payload@, secret.spec_bytes()),
        payload@.len() > 0 ==> token_format_ok(r->Ok_0@),
        payload@.len() > 0 ==> payload_segment(r->Ok_0@) == base64url_of(payload@),
        payload@.len() > 0 ==> signature_segment(r->Ok_0@) == base64url_of(
            hmac_sha256_of(secret.spec_bytes(), payload@),
        ),
        payload@.len() > 0 ==> signature_valid(r->Ok_0@, secret.spec_bytes()),
{
    let signature = hmac_sha256(secret.as_bytes(), payload);
    let mut token = base64url_encode(payload);
    let signature_text = base64url_encode(signature.as_slice());
    token.append(".");
    token.append(signature_text.as_str());
    proof {
        let key = secret.spec_bytes();
        let a = base64url_of(payload@);
        let b = base64url_of(hmac_sha256_of(key, payload@));
        reveal_strlit(".");
        assert("."@ =~= seq!['.']);
        assert(token@ == a + seq!['.'] + b);
        if payload@.len() > 0 {
            assert forall|i: int| 0 <= i < a.len() implies a[i] != '.' by {
                lemma_base64url_char_not_dot(a[i]);
            }
            assert forall|i: int| 0 <= i < b.len() implies b[i] != '.' by {
                lemma_base64url_char_not_dot(b[i]);
            }
            lemma_join_then_split(a, b);
            assert(signature_valid(token@, key)) by {
                assert(payload_segment(token@) == base64url_of(payload@) && signature_segment(
                    token@,
                ) == base64url_of(hmac_sha256_of(key, payload@)));
            }
        }
    }
    Ok(token)
}

/// Decodes a token without authenticating it: the text must split into two
/// non-empty segments and the first must be valid base64url; the payload bytes
/// come back with no guarantee of authenticity or freshness. The signature
/// segment is not inspected.
pub fn decode_token(token: &str) -> (r: Result<Vec<u8>, TokenError>)
    ensures
        r is Ok <==> token_format_ok(token@) && is_base64url_image(payload_segment(token@)),
        r is Ok ==> payload_segment(token@) == base64url_of(r->Ok_0@),
        forall|p: Seq<u8>|
            token_format_ok(token@) && payload_segment(token@) == base64url_of(p) ==> r is Ok
                && r->Ok_0@ == p,
        !token_format_ok(token@) ==> r is Err && r->Err_0.kind == TokenErrorKind::FormatError,
        token_format_ok(token@) && !is_base64url_image(payload_segment(token@)) ==> r is Err
            && r->Err_0.kind == TokenErrorKind::EncodingError,
{
    let parts = match split_token(token) {
        Some(parts) => parts,
        None => {
            return Err(TokenError { kind: TokenErrorKind::FormatError });
        },
    };
    match base64url_decode(parts.0) {
        Ok(payload_bytes) => Ok(payload_bytes),
        Err(_) => Err(TokenError { kind: TokenErrorKind::EncodingError }),
    }
}

/// Verifies a token with the given secret and returns the authenticated
/// payload bytes: the text must split into two non-empty segments, both must
/// decode from base64url, and the signature bytes must equal the recomputed
/// HMAC-SHA-256 digest of the payload bytes. The payload is handed out only
/// after the signature matches; expiration is checked separately, once the
/// payload has been deserialized by the caller.
pub fn verify_token(secret: &str, token: &str) -> (r: Result<Vec<u8>, TokenError>)
    ensures
        r is Ok <==> token_format_ok(token@) && signature_valid(token@, secret.spec_bytes()),
        r is Ok ==> payload_segment(token@) == base64url_of(r->Ok_0@),
        r is Ok ==> signature_segment(token@) == base64url_of(
            hmac_sha256_of(secret.spec_bytes(), r->Ok_0@),
        ),
        forall|p: Seq<u8>|
            token_format_ok(token@) && payload_segment(token@) == base64url_of(p)
                && signature_segment(token@) == base64url_of(
                hmac_sha256_of(secret.spec_bytes(), p),
            ) ==> r is Ok && r->Ok_0@ == p,
        !token_format_ok(token@) ==> r is Err && r->Err_0.kind == TokenErrorKind::FormatError,
        token_format_ok(token@) && !(is_base64url_image(payload_segment(token@))
            && is_base64url_image(signature_segment(token@))) ==> r is Err && r->Err_0.kind
            == TokenErrorKind::EncodingError,
        token_format_ok(token@) && is_base64url_image(payload_segment(token@))
            && is_base64url_image(signature_segment(token@)) && !signature_valid(
            token@,
            secret.spec_bytes(),
        ) ==> r is Err && r->Err_0.kind == TokenErrorKind::SignatureError,
{
    let parts = match split_token(token) {
        Some(parts) => parts,
        None => {
            return Err(TokenError { kind: TokenErrorKind::FormatError });
        },
    };
    let payload_bytes = match base64url_decode(parts.0) {
        Ok(bytes) => bytes,
        Err(_) => {
            return Err(TokenError { kind: TokenErrorKind::EncodingError });
        },
    };
    let signature = match base64url_decode(parts.1) {
        Ok(bytes) => bytes,
        Err(_) => {
            return Err(TokenError { kind: TokenErrorKind::EncodingError });
        },
    };
    let expected = hmac_sha256(secret.as_bytes(), payload_bytes.as_slice());
    if !bytes_equal(signature.as_slice(), expected.as_slice()) {
        proof {
            let key = secret.spec_bytes();
            if signature_valid(token@, key) {
                let p = choose|p: Seq<u8>|
                    payload_segment(token@) == base64url_of(p) && signature_segment(token@)
                        == base64url_of(#[trigger] hmac_sha256_of(key, p));
                assert(payload_bytes@ == p);
                assert(signature@ == hmac_sha256_of(key, p));
                assert(signature@ == expected@);
            }
        }
        return Err(TokenError { kind: TokenErrorKind::SignatureError });
    }
    proof {
        let key = secret.spec_bytes();
        assert(signature_valid(token@, key)) by {
            assert(payload_segment(token@) == base64url_of(payload_bytes@) && signature_segment(
                token@,
            ) == base64url_of(hmac_sha256_of(key, payload_bytes@)));
        }
    }
    Ok(payload_bytes)
}

/// Checks a payload's expiration timestamp against the current time, both in
/// seconds since the Unix epoch. A payload expiring exactly now is still
/// valid; only a timestamp strictly in the past is rejected.
pub fn validate_expiration(exp: i64, now: i64) -> (r: Result<(), TokenError>)
    ensures
        r is Ok <==> exp >= now,
        r is Err <==> exp < now,
        r is Err ==> r->Err_0.kind == TokenErrorKind::ExpiredError,
{
    if exp < now {
        Err(TokenError { kind: TokenErrorKind::ExpiredError })
    } else {
        Ok(())
    }
}

} // verus!
