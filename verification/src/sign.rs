use vstd::prelude::*;
use vstd::string::StringSliceAdditionalSpecFns;

use hmac::{Hmac, Mac};
use sha2::Sha256;

use crate::errors::TokenError;

verus! {

/// The HMAC-SHA-256 digest of `msg` keyed by `key`, named here and computed
/// only by the `hmac` crate; it depends on the two arguments alone.
pub uninterp spec fn hmac_sha256_of(key: Seq<u8>, msg: Seq<u8>) -> Seq<u8>;

/// Relies on hmac::Hmac<sha2::Sha256>: `new_from_slice` accepts a key of any
/// length (its source always returns `Ok`, hashing long keys down first), the
/// digest is a function of key and message alone, and it is SHA-256's 32
/// output bytes.
#[verifier::external_body]
pub(crate) fn hmac_sha256(key: &[u8], msg: &[u8]) -> (r: Vec<u8>)
    ensures
        r@ == hmac_sha256_of(key@, msg@),
        r@.len() == 32,
{
    let mut mac = <Hmac<Sha256> as Mac>::new_from_slice(key).unwrap();
    mac.update(msg);
    mac.finalize().into_bytes().to_vec()
}

/// Computes the keyed signature over exactly the raw payload bytes, prior to
/// any text encoding. The MAC construction accepts a secret of any length, so
/// signing never fails.
pub fn sign_payload(secret: &str, payload: &[u8]) -> (r: Result<Vec<u8>, TokenError>)
    ensures
        r is Ok,
        r->Ok_0@ == hmac_sha256_of(secret.spec_bytes(), payload@),
        r->Ok_0@.len() == 32,
{
    Ok(hmac_sha256(secret.as_bytes(), payload))
}

} // verus!
