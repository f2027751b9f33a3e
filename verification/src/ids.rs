//! Identifiers of users, groups, memberships and activities: numbers of 128
//! bits, the value of a UUID.

use uuid::Uuid;
use vstd::prelude::*;

verus! {

/// The identifier that stands for none: all bits zero.
pub const NIL: u128 = 0;

/// `Uuid::new_v4`: a random identifier, handed back as the number that its
/// sixteen bytes spell. Nothing is claimed of it.
#[verifier::external_body]
pub(crate) fn new_id() -> u128 {
    Uuid::new_v4().as_u128()
}

/// Whether an identifier occurs in a list.
pub fn contains_id(ids: &Vec<u128>, id: u128) -> (r: bool)
    ensures
        r == ids@.contains(id),
{
    let mut i: usize = 0;
    while i < ids.len()
        invariant
            i <= ids.len(),
            forall|k: int| 0 <= k < i ==> ids@[k] != id,
        decreases ids.len() - i,
    {
        if ids[i] == id {
            return true;
        }
        i += 1;
    }
    false
}

} // verus!
