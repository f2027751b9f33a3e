//! The membership of a user in a group, with the moment of joining, which
//! orders the members for the succession of the admin.

use vstd::prelude::*;

verus! {

/// A row of the table of memberships.
#[derive(Clone, Copy, Debug, PartialEq, Eq, Structural)]
pub struct Model {
    pub id: u128,
    pub group_id: u128,
    pub member_id: u128,
    pub joined_at: i64,
}

} // verus!
