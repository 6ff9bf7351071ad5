use vstd::prelude::*;

use base64::Engine;

verus! {

/// The unpadded base64url text of `bytes`, named here and computed only by the
/// `base64` crate; it depends on the input bytes alone.
pub uninterp spec fn base64url_of(bytes: Seq<u8>) -> Seq<char>;

/// A character of the URL-safe base64 alphabet of RFC 4648: letters, digits,
/// `-` and `_`.
pub open spec fn is_base64url_char(c: char) -> bool {
    ||| 'A' as u32 <= c as u32 && c as u32 <= 'Z' as u32
    ||| 'a' as u32 <= c as u32 && c as u32 <= 'z' as u32
    ||| '0' as u32 <= c as u32 && c as u32 <= '9' as u32
    ||| c == '-'
    ||| c == '_'
}

/// The `.` separator of the token format is not in the base64url alphabet.
pub proof fn lemma_base64url_char_not_dot(c: char)
    requires
        is_base64url_char(c),
    ensures
        c != '.',
{
}

/// Relies on base64::engine::general_purpose::URL_SAFE_NO_PAD.encode: the
/// result is the unpadded base64url text of the input, drawn from the RFC 4648
/// URL-safe alphabet, and is empty only for empty input.
#[verifier::external_body]
pub(crate) fn base64url_encode(bytes: &[u8]) -> (r: String)
    ensures
        r@ == base64url_of(bytes@),
        r@.len() == 0 <==> bytes@.len() == 0,
        forall|i: int| 0 <= i < r@.len() ==> is_base64url_char(#[trigger] r@[i]),
{
    base64::engine::general_purpose::URL_SAFE_NO_PAD.encode(bytes)
}

#[verifier::external_type_specification]
#[verifier::external_body]
pub struct ExDecodeError(base64::DecodeError);

/// Relies on base64::engine::general_purpose::URL_SAFE_NO_PAD.decode, whose
/// NO_PAD configuration rejects padding and non-zero trailing bits: decoding
/// succeeds exactly on the canonical unpadded base64url text of some byte
/// string, and then returns that byte string.
#[verifier::external_body]
pub(crate) fn base64url_decode(s: &str) -> (r: Result<Vec<u8>, base64::DecodeError>)
    ensures
        r is Ok ==> s@ == base64url_of(r->Ok_0@),
        forall|b: Seq<u8>| s@ == base64url_of(b) ==> r is Ok && r->Ok_0@ == b,
{
    base64::engine::general_purpose::URL_SAFE_NO_PAD.decode(s)
}

} // verus!
