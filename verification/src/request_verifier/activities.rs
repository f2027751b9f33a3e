//! The guard on activities: that an activity is there, in the group named.

use crate::custom_errors::app::{outcome, AppError, Failure};
use crate::ledger::{has_activity, Ledger};
use vstd::prelude::*;

verus! {

/// Succeeds if the activity is in the ledger and belongs to the group.
pub fn check_activity_exists_in_group(ledger: &Ledger, activity_id: u128, group_id: u128) -> (r:
    Result<(), AppError>)
    ensures
        outcome(r) == if has_activity(ledger@.activities, activity_id, group_id) {
            Ok::<(), Failure>(())
        } else {
            Err(Failure::NotFound("Activity not found in group"@))
        },
{
    let mut i: usize = 0;
    while i < ledger.activities.len()
        invariant
            i <= ledger.activities.len(),
            forall|k: int|
                0 <= k < i ==> !((#[trigger] ledger@.activities[k]).id == activity_id
                    && ledger@.activities[k].group_id == group_id),
        decreases ledger.activities.len() - i,
    {
        if ledger.activities[i].id == activity_id && ledger.activities[i].group_id == group_id {
            assert(ledger@.activities[i as int].id == activity_id);
            return Ok(());
        }
        i += 1;
    }
    Err(AppError::not_found("Activity not found in group"))
}

} // verus!
