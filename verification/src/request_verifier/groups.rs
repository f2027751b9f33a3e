//! The guards on groups: that a group is there, that a user belongs to it,
//! and that a user is its admin.

use crate::custom_errors::app::{outcome, AppError, Failure};
use crate::ledger::{has_admin, has_group, has_member, in_group, Ledger};
use vstd::prelude::*;

verus! {

/// Succeeds if a group with this identifier is in the ledger.
pub fn check_group_exists(ledger: &Ledger, group_id: u128) -> (r: Result<(), AppError>)
    ensures
        outcome(r) == if has_group(ledger@.groups, group_id) {
            Ok::<(), Failure>(())
        } else {
            Err(Failure::NotFound("Group not found"@))
        },
{
    let mut i: usize = 0;
    while i < ledger.groups.len()
        invariant
            i <= ledger.groups.len(),
            forall|k: int| 0 <= k < i ==> (#[trigger] ledger@.groups[k]).id != group_id,
        decreases ledger.groups.len() - i,
    {
        if ledger.groups[i].id == group_id {
            assert(ledger@.groups[i as int].id == group_id);
            return Ok(());
        }
        i += 1;
    }
    Err(AppError::not_found("Group not found"))
}

/// Whether the user has a membership in the group.
pub fn is_member(ledger: &Ledger, group_id: u128, user_id: u128) -> (r: bool)
    ensures
        r == has_member(ledger@.group_members, group_id, user_id),
{
    let mut i: usize = 0;
    while i < ledger.group_members.len()
        invariant
            i <= ledger.group_members.len(),
            forall|k: int|
                0 <= k < i ==> !((#[trigger] ledger@.group_members[k]).group_id == group_id
                    && ledger@.group_members[k].member_id == user_id),
        decreases ledger.group_members.len() - i,
    {
        if ledger.group_members[i].group_id == group_id && ledger.group_members[i].member_id
            == user_id {
            assert(ledger@.group_members[i as int].group_id == group_id);
            return true;
        }
        i += 1;
    }
    false
}

/// Whether the user is the admin of the group.
pub fn is_admin(ledger: &Ledger, group_id: u128, user_id: u128) -> (r: bool)
    ensures
        r == has_admin(ledger@.groups, group_id, user_id),
{
    let mut i: usize = 0;
    while i < ledger.groups.len()
        invariant
            i <= ledger.groups.len(),
            forall|k: int|
                0 <= k < i ==> !((#[trigger] ledger@.groups[k]).id == group_id
                    && ledger@.groups[k].creator_id == user_id),
        decreases ledger.groups.len() - i,
    {
        if ledger.groups[i].id == group_id && ledger.groups[i].creator_id == user_id {
            assert(ledger@.groups[i as int].id == group_id);
            return true;
        }
        i += 1;
    }
    false
}

/// Succeeds if the user belongs to the group: as a member, or as its admin.
pub fn check_user_exists_in_group(ledger: &Ledger, group_id: u128, user_id: u128) -> (r: Result<
    (),
    AppError,
>)
    ensures
        outcome(r) == if in_group(ledger@, group_id, user_id) {
            Ok::<(), Failure>(())
        } else {
            Err(Failure::UserNotInGroup("User not admin of group"@))
        },
{
    if is_member(ledger, group_id, user_id) {
        return Ok(());
    }
    if is_admin(ledger, group_id, user_id) {
        Ok(())
    } else {
        Err(AppError::user_not_in_group("User not admin of group"))
    }
}

/// Succeeds if the user is the admin of the group.
pub fn check_user_is_admin_in_group(ledger: &Ledger, group_id: u128, user_id: u128) -> (r:
    Result<(), AppError>)
    ensures
        outcome(r) == if has_admin(ledger@.groups, group_id, user_id) {
            Ok::<(), Failure>(())
        } else {
            Err(Failure::Unauthorized("User not admin of group"@))
        },
{
    if is_admin(ledger, group_id, user_id) {
        Ok(())
    } else {
        Err(AppError::unauthorized("User not admin of group"))
    }
}

} // verus!
