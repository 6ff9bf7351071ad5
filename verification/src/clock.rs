use vstd::prelude::*;

use chrono::Utc;

use crate::errors::{TokenError, TokenErrorKind};
use crate::tokens::validate_expiration;

verus! {

/// Relies on chrono::Utc::now: the current UTC time read from the system
/// clock, in whole seconds since the Unix epoch. Nothing is promised of the
/// value: it depends on when the call is made.
#[verifier::external_body]
pub(crate) fn now_timestamp() -> i64 {
    Utc::now().timestamp()
}

/// Checks a payload's expiration timestamp against the clock's current
/// reading. The outcome depends on when the call is made; whatever the clock
/// returned, `validate_expiration` decides, and only a strictly-past
/// timestamp is rejected.
pub fn validate_expiration_now(exp: i64) -> (r: Result<(), TokenError>)
    ensures
        r is Err ==> r->Err_0.kind == TokenErrorKind::ExpiredError,
{
    validate_expiration(exp, now_timestamp())
}

} // verus!
