//! The guards on users: that a user with a given identifier is there, and
//! that the subject of a token names such a user.

use crate::custom_errors::app::{outcome, AppError, Failure};
use crate::entities::users::User;
use crate::ledger::{has_user, Ledger};
use uuid::Uuid;
use vstd::prelude::*;

verus! {

/// The identifier that `Uuid::parse_str` reads from a text, if it reads one.
pub uninterp spec fn uuid_parsed(text: Seq<char>) -> Option<u128>;

/// `Uuid::parse_str`: the value of the identifier that the text spells, or
/// `None` where the text spells none.
#[verifier::external_body]
fn read_id(text: &str) -> (id: Option<u128>)
    ensures
        id == uuid_parsed(text@),
{
    match Uuid::parse_str(text) {
        Ok(id) => Some(id.as_u128()),
        Err(_) => None,
    }
}

/// Succeeds if a user with this identifier is in the ledger.
pub fn check_user_exists(ledger: &Ledger, user_id: u128) -> (r: Result<(), AppError>)
    ensures
        outcome(r) == if has_user(ledger@.users, user_id) {
            Ok::<(), Failure>(())
        } else {
            Err(Failure::NotFound("UserId doesn't exist"@))
        },
{
    let mut i: usize = 0;
    while i < ledger.users.len()
        invariant
            i <= ledger.users.len(),
            forall|k: int| 0 <= k < i ==> (#[trigger] ledger@.users[k]).id != user_id,
        decreases ledger.users.len() - i,
    {
        if ledger.users[i].id == user_id {
            assert(ledger@.users[i as int].id == user_id);
            return Ok(());
        }
        i += 1;
    }
    Err(AppError::not_found("UserId doesn't exist"))
}

/// What answers a token that does not name a user.
pub open spec fn bad_subject() -> Failure {
    Failure::Unauthorized("Invalid user id in token"@)
}

/// What the subject of a token comes to, held against the users that the
/// ledger knows.
pub open spec fn subject_verdict(users: Seq<User>, subject: Seq<char>) -> Result<
    u128,
    Failure,
> {
    match uuid_parsed(subject) {
        None => Err(bad_subject()),
        Some(id) => held_against(users, Some(id)),
    }
}

/// What an identifier that was read from a token comes to, held against the
/// users that the ledger knows.
pub open spec fn held_against(users: Seq<User>, id: Option<u128>) -> Result<
    u128,
    Failure,
> {
    match id {
        None => Err(bad_subject()),
        Some(id) => if has_user(users, id) {
            Ok(id)
        } else {
            Err(Failure::NotFound("User not found"@))
        },
    }
}

/// Lets a user through whose identifier was read from a token and who is
/// known to the ledger.
pub fn admit_user(ledger: &Ledger, id: Option<u128>) -> (r: Result<u128, AppError>)
    ensures
        outcome(r) == held_against(ledger@.users, id),
{
    match id {
        None => Err(AppError::unauthorized("Invalid user id in token")),
        Some(id) => match check_user_exists(ledger, id) {
            Ok(_) => Ok(id),
            Err(_) => Err(AppError::not_found("User not found")),
        },
    }
}

/// The identifier that the subject of a token spells, if it spells one.
pub fn subject_id(subject: &str) -> (id: Option<u128>)
    ensures
        id == uuid_parsed(subject@),
{
    read_id(subject)
}

/// Lets the user through for whom a token stands: the subject of the token
/// must spell an identifier, and a user with that identifier must be known
/// to the ledger.
pub fn verify_user(ledger: &Ledger, subject: &str) -> (r: Result<u128, AppError>)
    ensures
        outcome(r) == subject_verdict(ledger@.users, subject@),
{
    admit_user(ledger, subject_id(subject))
}

} // verus!
