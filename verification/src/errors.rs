use vstd::prelude::*;

verus! {

/// The kind of failure a token operation can report. Every kind means
/// "reject the token"; none implies partial trust in the payload.
#[derive(Debug, Clone, Copy, PartialEq, Eq)]
pub enum TokenErrorKind {
    /// The token does not split into exactly two non-empty `.`-separated segments.
    FormatError,
    /// A segment is not valid unpadded base64url text.
    EncodingError,
    /// The recomputed signature does not match the one carried by the token.
    SignatureError,
    /// The payload's expiration timestamp lies strictly in the past.
    ExpiredError,
    /// The payload could not be serialized.
    SerializationError,
    /// The authenticated payload bytes could not be deserialized.
    DeserializationError,
    /// The secret was rejected by the MAC construction.
    KeyError,
}

/// A failure value returned by every token operation.
#[derive(Debug, Clone, Copy, PartialEq, Eq)]
pub struct TokenError {
    pub kind: TokenErrorKind,
}

impl TokenError {
    /// A human-readable description of the failure.
    pub fn message(&self) -> &'static str {
        match self.kind {
            TokenErrorKind::FormatError => "Invalid token format",
            TokenErrorKind::EncodingError => "Invalid token encoding",
            TokenErrorKind::SignatureError => "Invalid token signature",
            TokenErrorKind::ExpiredError => "Token has expired",
            TokenErrorKind::SerializationError => "Payload serialization failed",
            TokenErrorKind::DeserializationError => "Payload deserialization failed",
            TokenErrorKind::KeyError => "Secret rejected by the MAC construction",
        }
    }
}

/// A payload type that carries its own validity deadline: `exp` returns the
/// expiration timestamp in seconds since the Unix epoch.
pub trait Expirable {
    fn exp(&self) -> i64;
}

} // verus!
