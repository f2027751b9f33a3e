//! The request to sign in: a user who is known by the address is marked as
//! seen; any other is taken up as a new user.

use crate::clock::now;
use crate::custom_errors::app::AppError;
use crate::custom_errors::auth::AuthError;
use crate::entities::users::{Model, User};
use crate::ids::new_id;
use crate::ledger::{Ledger, Tables};
use crate::models::auth::{AuthReq, AuthRes, SignIn};
use vstd::prelude::*;

verus! {

/// The place of the first user with the given address, if there is one.
pub open spec fn first_with_email(rows: Seq<User>, email: Seq<char>) -> Option<int>
    decreases rows.len(),
{
    if rows.len() == 0 {
        None
    } else {
        match first_with_email(rows.drop_last(), email) {
            Some(i) => Some(i),
            None => if rows.last().email == email {
                Some(rows.len() - 1)
            } else {
                None
            },
        }
    }
}

/// The user that a sign-in takes up.
pub open spec fn enrolled(req: SignIn, id: u128, now: i64) -> User {
    User {
        id,
        oauth_provider: req.oauth_provider,
        oauth_id: req.oauth_id,
        username: req.username,
        email: req.email,
        upi_id: req.upi_id,
        created_at: now,
        updated_at: now,
    }
}

/// The user that a sign-in answers with: the known user, marked as seen at
/// the given moment, or the new user.
pub open spec fn signed_in(t: Tables, req: SignIn, id: u128, now: i64) -> User {
    match first_with_email(t.users, req.email) {
        Some(i) => User { updated_at: now, ..t.users[i] },
        None => enrolled(req, id, now),
    }
}

/// The ledger after a sign-in.
pub open spec fn after_sign_in(t: Tables, req: SignIn, id: u128, now: i64) -> Tables {
    match first_with_email(t.users, req.email) {
        Some(i) => Tables { users: t.users.update(i, signed_in(t, req, id, now)), ..t },
        None => Tables { users: t.users.push(signed_in(t, req, id, now)), ..t },
    }
}

impl AuthError {
    /// The error with which a sign-in reports a request that fails its check.
    pub fn from_check(e: AppError) -> (r: AuthError)
        ensures
            match e {
                AppError::ValidationError(m) => r == AuthError::AuthReqValidationError(m),
                AppError::DatabaseError(m) => r == AuthError::DatabaseError(m),
                AppError::DuplicateError(m) => r == AuthError::DuplicateError(m),
                AppError::NotFound(m) => r == AuthError::UserNotFound(m),
                AppError::Unauthorized(m) => r == AuthError::Unauthorized(m),
                _ => r == AuthError::InternalServerError,
            },
    {
        match e {
            AppError::ValidationError(m) => AuthError::AuthReqValidationError(m),
            AppError::DatabaseError(m) => AuthError::DatabaseError(m),
            AppError::DuplicateError(m) => AuthError::DuplicateError(m),
            AppError::NotFound(m) => AuthError::UserNotFound(m),
            AppError::Unauthorized(m) => AuthError::Unauthorized(m),
            _ => AuthError::InternalServerError,
        }
    }
}

/// The place of the first user with the given address.
fn find_by_email(ledger: &Ledger, email: &String) -> (r: Option<usize>)
    ensures
        match r {
            Some(i) => first_with_email(ledger@.users, email@) == Some(i as int) && i
                < ledger.users.len(),
            None => first_with_email(ledger@.users, email@) is None,
        },
{
    let mut i: usize = 0;
    while i < ledger.users.len()
        invariant
            i <= ledger.users.len(),
            first_with_email(ledger@.users.take(i as int), email@) is None,
        decreases ledger.users.len() - i,
    {
        proof {
            assert(ledger@.users.take(i + 1).drop_last() == ledger@.users.take(i as int));
        }
        if ledger.users[i].email.eq(email) {
            proof {
                lemma_first_with_email_extends(ledger@.users, email@, i + 1);
            }
            return Some(i);
        }
        i += 1;
    }
    proof {
        assert(ledger@.users.take(i as int) == ledger@.users);
    }
    None
}

/// The first user found among the rows up to a place is the first of all.
pub proof fn lemma_first_with_email_extends(rows: Seq<User>, email: Seq<char>, n: int)
    requires
        0 <= n <= rows.len(),
        first_with_email(rows.take(n), email) is Some,
    ensures
        first_with_email(rows, email) == first_with_email(rows.take(n), email),
    decreases rows.len() - n,
{
    if n < rows.len() {
        assert(rows.take(n + 1).drop_last() == rows.take(n));
        lemma_first_with_email_extends(rows, email, n + 1);
    } else {
        assert(rows.take(n) == rows);
    }
}

/// Signs a user in at the given moment. A user who is known by the address
/// is marked as seen; any other is taken up under the given identifier.
pub fn sign_in(ledger: &mut Ledger, payload: AuthReq, id: u128, now: i64) -> (r: Result<
    AuthRes,
    AuthError,
>)
    ensures
        match r {
            Ok(res) => payload@.verdict() is Ok && res@ == signed_in(
                old(ledger)@,
                payload@,
                id,
                now,
            ) && final(ledger)@ == after_sign_in(old(ledger)@, payload@, id, now),
            Err(e) => payload@.verdict() is Err && final(ledger)@ == old(ledger)@ && e
                is AuthReqValidationError && e.spec_reason() == payload@.verdict()->Err_0.reason(),
        },
{
    match payload.check() {
        Ok(_) => {},
        Err(e) => {
            return Err(AuthError::from_check(e));
        },
    }
    match find_by_email(ledger, &payload.email) {
        Some(i) => {
            ledger.users[i].updated_at = now;
            proof {
                assert(ledger@.users =~= old(ledger)@.users.update(
                    i as int,
                    signed_in(old(ledger)@, payload@, id, now),
                ));
            }
            Ok(AuthRes::of(&ledger.users[i]))
        },
        None => {
            let user = Model {
                id,
                oauth_provider: payload.oauth_provider,
                oauth_id: payload.oauth_id,
                username: payload.username,
                email: payload.email,
                upi_id: payload.upi_id,
                created_at: now,
                updated_at: now,
            };
            let response = AuthRes::of(&user);
            let ghost row = user@;
            ledger.users.push(user);
            proof {
                assert(ledger@.users =~= old(ledger)@.users.push(row));
            }
            Ok(response)
        },
    }
}

/// Signs a user in at the present moment; a new user gets a fresh
/// identifier.
pub fn auth_handler(ledger: &mut Ledger, payload: AuthReq) -> (r: Result<AuthRes, AuthError>)
    ensures
        match r {
            Ok(res) => payload@.verdict() is Ok && exists|id: u128, now: i64|
                res@ == #[trigger] signed_in(old(ledger)@, payload@, id, now) && final(ledger)@
                    == after_sign_in(old(ledger)@, payload@, id, now),
            Err(e) => payload@.verdict() is Err && final(ledger)@ == old(ledger)@ && e
                is AuthReqValidationError && e.spec_reason() == payload@.verdict()->Err_0.reason(),
        },
{
    let id = new_id();
    let moment = now();
    sign_in(ledger, payload, id, moment)
}

} // verus!
