//! A user, as created on the first sign-in.

use vstd::prelude::*;

verus! {

/// A row of the table of users.
#[derive(Debug)]
pub struct Model {
    pub id: u128,
    pub oauth_provider: String,
    pub oauth_id: String,
    pub username: String,
    pub email: String,
    pub upi_id: String,
    pub created_at: i64,
    pub updated_at: i64,
}

/// A user as a value.
pub struct User {
    pub id: u128,
    pub oauth_provider: Seq<char>,
    pub oauth_id: Seq<char>,
    pub username: Seq<char>,
    pub email: Seq<char>,
    pub upi_id: Seq<char>,
    pub created_at: i64,
    pub updated_at: i64,
}

impl View for Model {
    type V = User;

    open spec fn view(&self) -> User {
        User {
            id: self.id,
            oauth_provider: self.oauth_provider@,
            oauth_id: self.oauth_id@,
            username: self.username@,
            email: self.email@,
            upi_id: self.upi_id@,
            created_at: self.created_at,
            updated_at: self.updated_at,
        }
    }
}

impl Model {
    /// A copy of the user.
    pub fn duplicate(&self) -> (r: Model)
        ensures
            r@ == self@,
    {
        Model {
            id: self.id,
            oauth_provider: self.oauth_provider.clone(),
            oauth_id: self.oauth_id.clone(),
            username: self.username.clone(),
            email: self.email.clone(),
            upi_id: self.upi_id.clone(),
            created_at: self.created_at,
            updated_at: self.updated_at,
        }
    }
}

} // verus!
