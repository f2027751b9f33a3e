//! What the token of a signed-in user says.

use crate::custom_errors::app::{AppError, Failure};
use crate::models::auth::Claims;
use uuid::Uuid;
use vstd::prelude::*;

verus! {

/// For how many seconds a token is good: a day.
pub const TOKEN_SECONDS: i64 = 86_400;

/// The text that `Uuid` writes for an identifier.
pub uninterp spec fn uuid_text(id: u128) -> Seq<char>;

/// `Uuid::to_string` on the identifier with the given value: the text that
/// `Uuid` writes for it.
#[verifier::external_body]
fn write_id(id: u128) -> (text: String)
    ensures
        text@ == uuid_text(id),
{
    Uuid::from_u128(id).to_string()
}

/// The second at which a token ends that is made at the given second, if the
/// machine can count that far.
pub open spec fn expiry(now: i64) -> Option<usize> {
    if 0 <= now + TOKEN_SECONDS <= usize::MAX && now + TOKEN_SECONDS <= i64::MAX {
        Some((now + TOKEN_SECONDS) as usize)
    } else {
        None
    }
}

/// What the token of a user says when it is made at the given second, counted
/// from the start of 1970: whom it stands for, and that it ends a day later.
pub fn generate_jwt(user_id: u128, now: i64) -> (r: Result<Claims, AppError>)
    ensures
        match r {
            Ok(claims) => expiry(now) == Some(claims.exp) && claims.sub@ == uuid_text(user_id),
            Err(e) => expiry(now) is None && e@ == Failure::Internal,
        },
{
    if now > i64::MAX - TOKEN_SECONDS {
        return Err(AppError::InternalServerError);
    }
    let end: i64 = now + TOKEN_SECONDS;
    if end < 0 || end as u64 > usize::MAX as u64 {
        return Err(AppError::InternalServerError);
    }
    Ok(Claims { sub: write_id(user_id), exp: end as usize })
}

} // verus!
