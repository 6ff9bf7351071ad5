//! Compact signed authentication tokens.
//!
//! A token is a string of exactly two non-empty segments joined by a single
//! `.`: the base64url-encoded (unpadded) payload bytes, then the
//! base64url-encoded HMAC-SHA-256 signature computed over those payload
//! bytes with a caller-supplied secret. The library creates such tokens,
//! decodes them without authentication, and verifies them: format check,
//! base64url decoding, signature recomputation and comparison, and an
//! expiration check against a caller-supplied clock reading or against the
//! system clock.

mod base64url;
mod clock;
mod errors;
mod format;
mod sign;
mod tokens;

pub use base64url::base64url_of;
pub use base64url::is_base64url_char;
pub use base64url::lemma_base64url_char_not_dot;
pub use clock::validate_expiration_now;
pub use errors::Expirable;
pub use errors::TokenError;
pub use errors::TokenErrorKind;
pub use format::is_split_point;
pub use format::lemma_join_then_split;
pub use format::lemma_split_point_unique;
pub use format::payload_segment;
pub use format::signature_segment;
pub use format::split_index;
pub use format::token_format_ok;
pub use sign::hmac_sha256_of;
pub use sign::sign_payload;
pub use tokens::create_token;
pub use tokens::decode_token;
pub use tokens::is_base64url_image;
pub use tokens::signature_valid;
pub use tokens::spec_token;
pub use tokens::validate_expiration;
pub use tokens::verify_token;
