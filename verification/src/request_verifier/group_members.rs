//! The guard on memberships: that a membership with a given identifier is
//! there.

use crate::custom_errors::app::{outcome, AppError, Failure};
use crate::ledger::{has_membership, Ledger};
use vstd::prelude::*;

verus! {

/// Succeeds if a membership with this identifier is in the ledger.
pub fn check_group_member_exists_in_group(ledger: &Ledger, member_id: u128) -> (r: Result<
    (),
    AppError,
>)
    ensures
        outcome(r) == if has_membership(ledger@.group_members, member_id) {
            Ok::<(), Failure>(())
        } else {
            Err(Failure::NotFound("Group member not found"@))
        },
{
    let mut i: usize = 0;
    while i < ledger.group_members.len()
        invariant
            i <= ledger.group_members.len(),
            forall|k: int| 0 <= k < i ==> (#[trigger] ledger@.group_members[k]).id != member_id,
        decreases ledger.group_members.len() - i,
    {
        if ledger.group_members[i].id == member_id {
            assert(ledger@.group_members[i as int].id == member_id);
            return Ok(());
        }
        i += 1;
    }
    Err(AppError::not_found("Group member not found"))
}

} // verus!
