//! The request to sign in, its check, and what a sign-in answers.

use crate::custom_errors::app::{outcome, AppError, Failure};
use crate::entities::users::{Model, User};
use crate::text::{contains_char, trim, trimmed};
use vstd::prelude::*;
use vstd::utf8::encode_utf8;

verus! {

/// The least length of a user name, in bytes, white space at the ends not
/// counted.
pub const MIN_USERNAME_BYTES: usize = 3;

/// The least length of a payment address, in bytes, white space at the ends
/// not counted.
pub const MIN_UPI_ID_BYTES: usize = 5;

/// A request to sign in, with what the provider of the sign-in says of the
/// user.
#[derive(Debug)]
pub struct AuthReq {
    pub oauth_provider: String,
    pub oauth_id: String,
    pub username: String,
    pub email: String,
    pub upi_id: String,
}

/// A request to sign in, as a value.
pub struct SignIn {
    pub oauth_provider: Seq<char>,
    pub oauth_id: Seq<char>,
    pub username: Seq<char>,
    pub email: Seq<char>,
    pub upi_id: Seq<char>,
}

impl View for AuthReq {
    type V = SignIn;

    open spec fn view(&self) -> SignIn {
        SignIn {
            oauth_provider: self.oauth_provider@,
            oauth_id: self.oauth_id@,
            username: self.username@,
            email: self.email@,
            upi_id: self.upi_id@,
        }
    }
}

/// The length in bytes of a text without the white space at its ends.
pub open spec fn trimmed_bytes(s: Seq<char>) -> nat {
    encode_utf8(trimmed(s)).len()
}

impl SignIn {
    /// What the check of the request comes to. The first rule that is broken
    /// decides.
    pub open spec fn verdict(self) -> Result<(), Failure> {
        if trimmed(self.oauth_provider).len() == 0 {
            Err(Failure::Validation("OAuth provider is required"@))
        } else if trimmed(self.oauth_id).len() == 0 {
            Err(Failure::Validation("OAuth ID is required"@))
        } else if trimmed_bytes(self.username) < MIN_USERNAME_BYTES {
            Err(Failure::Validation("Username must not be empty"@))
        } else if !self.email.contains('@') {
            Err(Failure::Validation("Invalid email format"@))
        } else if trimmed_bytes(self.upi_id) < MIN_UPI_ID_BYTES {
            Err(Failure::Validation("UPI ID must Username must not be empty"@))
        } else {
            Ok(())
        }
    }
}

impl AuthReq {
    pub fn new(
        oauth_provider: String,
        oauth_id: String,
        username: String,
        email: String,
        upi_id: String,
    ) -> (r: Self)
        ensures
            r == (AuthReq { oauth_provider, oauth_id, username, email, upi_id }),
    {
        Self { oauth_provider, oauth_id, username, email, upi_id }
    }

    /// Checks the request.
    pub fn check(&self) -> (r: Result<(), AppError>)
        ensures
            outcome(r) == self@.verdict(),
    {
        if trim(self.oauth_provider.as_str()).is_empty() {
            return Err(AppError::validation("OAuth provider is required"));
        }
        if trim(self.oauth_id.as_str()).is_empty() {
            return Err(AppError::validation("OAuth ID is required"));
        }
        if trim(self.username.as_str()).as_bytes().len() < MIN_USERNAME_BYTES {
            return Err(AppError::validation("Username must not be empty"));
        }
        if !contains_char(self.email.as_str(), '@') {
            return Err(AppError::validation("Invalid email format"));
        }
        if trim(self.upi_id.as_str()).as_bytes().len() < MIN_UPI_ID_BYTES {
            return Err(AppError::validation("UPI ID must Username must not be empty"));
        }
        Ok(())
    }
}

/// A user as a response shows it.
#[derive(Debug)]
pub struct AuthRes {
    pub oauth_provider: String,
    pub oauth_id: String,
    pub username: String,
    pub email: String,
    pub upi_id: String,
    pub id: u128,
    pub created_at: i64,
    pub updated_at: i64,
}

impl View for AuthRes {
    type V = User;

    open spec fn view(&self) -> User {
        User {
            id: self.id,
            oauth_provider: self.oauth_provider@,
            oauth_id: self.oauth_id@,
            username: self.username@,
            email: self.email@,
            upi_id: self.upi_id@,
            created_at: self.created_at,
            updated_at: self.updated_at,
        }
    }
}

impl AuthRes {
    pub fn new(
        oauth_provider: String,
        oauth_id: String,
        username: String,
        email: String,
        upi_id: String,
        id: u128,
        created_at: i64,
        updated_at: i64,
    ) -> (r: Self)
        ensures
            r == (AuthRes {
                oauth_provider,
                oauth_id,
                username,
                email,
                upi_id,
                id,
                created_at,
                updated_at,
            }),
    {
        Self { oauth_provider, oauth_id, username, email, upi_id, id, created_at, updated_at }
    }

    /// The response that shows a stored user.
    pub fn of(user: &Model) -> (r: Self)
        ensures
            r@ == user@,
    {
        Self::new(
            user.oauth_provider.clone(),
            user.oauth_id.clone(),
            user.username.clone(),
            user.email.clone(),
            user.upi_id.clone(),
            user.id,
            user.created_at,
            user.updated_at,
        )
    }
}

impl From<Model> for AuthRes {
    fn from(user: Model) -> (r: Self) {
        Self::new(
            user.oauth_provider,
            user.oauth_id,
            user.username,
            user.email,
            user.upi_id,
            user.id,
            user.created_at,
            user.updated_at,
        )
    }
}

impl vstd::std_specs::convert::FromSpecImpl<Model> for AuthRes {
    open spec fn obeys_from_spec() -> bool {
        true
    }

    open spec fn from_spec(user: Model) -> Self {
        AuthRes {
            oauth_provider: user.oauth_provider,
            oauth_id: user.oauth_id,
            username: user.username,
            email: user.email,
            upi_id: user.upi_id,
            id: user.id,
            created_at: user.created_at,
            updated_at: user.updated_at,
        }
    }
}

/// What a sign-in answers: a token, and the user.
#[derive(Debug)]
pub struct AuthOutput {
    pub token: String,
    pub user: AuthRes,
}

/// What a token says: whom it stands for, and the second at which it ends.
#[derive(Debug)]
pub struct Claims {
    pub sub: String,
    pub exp: usize,
}

} // verus!
