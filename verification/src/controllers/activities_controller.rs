//! The requests on the activities of a group: log one, change one, delete
//! one, list them, and work out the dues from them.
//!
//! Each request either goes through and leaves the ledger changed as a whole,
//! or fails and leaves it as it was. Whenever the activities of a group
//! change, the total expense of the group is set anew from them.

use crate::clock::now;
use crate::custom_errors::app::{AppError, Failure};
use crate::dues::{
    breakdown, breakdowns, credited, debited, detailed_dues, distinct_users, entered,
    group_entered, lemma_dues_are_net_balances, lemma_group_entered_stays_none, lemma_place_of,
    lemma_shares_debited_stays_none, lemma_table_of_change, lemma_table_of_new,
    lemma_table_of_place, lists, net_balance, place_of, share_at, shares_debited,
    simplified_dues, split_details, table_of,
};
use crate::entities::activities::{copy_list, copy_text, Activity, Model};
use crate::ids::{contains_id, new_id};
use crate::money::Money;
use crate::ledger::{
    first_activity, has_group, in_group, lemma_first_activity_is_first, Ledger, Tables,
};
use crate::models::activities::{
    kept_logo, update_split_error, update_split_failure, ActivityRes, CreateActivity,
    CreateActivityReq, DeleteActivityReq, DetailedDue, DetailedDuesResponse, GetActivitiesReq,
    GetDuesReq, SimplifiedDuesResponse, SplitDetail, UpdateActivity, UpdateActivityReq, UserDue,
};
use crate::request_verifier::groups::{check_group_exists, check_user_exists_in_group};
use crate::split::{split_valid, split_verdict, validate_split, SplitError};
use crate::totals::{
    group_amounts, group_total, lemma_group_amounts_frame, set_total, settled, sum_group,
    with_total,
};
use std::collections::HashMap;
use vstd::prelude::*;

verus! {

/// What answers a request that names a group which is not there.
pub open spec fn group_missing() -> Failure {
    Failure::NotFound("Group not found"@)
}

/// What answers a request of a user who does not belong to the group.
pub open spec fn not_in_group() -> Failure {
    Failure::UserNotInGroup("User not admin of group"@)
}

/// What answers a request that names an activity which is not in the group.
pub open spec fn activity_missing() -> Failure {
    Failure::NotFound("Activity not found in group"@)
}

/// The ledger with the total of a group set anew from its activities.
pub open spec fn recomputed(t: Tables, group_id: u128, now: i64) -> Tables {
    Tables {
        groups: with_total(t.groups, group_id, group_total(t.activities, group_id)->0, now),
        ..t
    }
}

/// Why the total of a group cannot be set anew: its activities have no exact
/// sum, or the group is not there.
pub open spec fn recompute_fault(t: Tables, group_id: u128) -> Option<Failure> {
    if group_total(t.activities, group_id) is None {
        Some(Failure::Internal)
    } else if !has_group(t.groups, group_id) {
        Some(group_missing())
    } else {
        None
    }
}

/// Sets the total expense of a group to the sum of the amounts of its
/// activities, zero if it has none, and marks the group as changed at `now`.
pub fn recompute_total(ledger: &mut Ledger, group_id: u128, now: i64) -> (r: Result<(), AppError>)
    ensures
        match r {
            Ok(_) => recompute_fault(old(ledger)@, group_id) is None && final(ledger)@
                == recomputed(old(ledger)@, group_id, now),
            Err(e) => recompute_fault(old(ledger)@, group_id) == Some(e@) && final(ledger)@ == old(
                ledger,
            )@,
        },
        r is Ok ==> settled(final(ledger)@, group_id),
{
    let total = match sum_group(ledger, group_id) {
        Some(t) => t,
        None => {
            return Err(AppError::InternalServerError);
        },
    };
    match check_group_exists(ledger, group_id) {
        Ok(_) => {},
        Err(e) => {
            return Err(e);
        },
    }
    set_total(&mut ledger.groups, group_id, total, now);
    Ok(())
}

/// Sets the total expense of a group anew, as of the present moment.
pub fn update_group_total_expense(ledger: &mut Ledger, group_id: u128) -> (r: Result<
    (),
    AppError,
>)
    ensures
        match r {
            Ok(_) => recompute_fault(old(ledger)@, group_id) is None && exists|now: i64|
                final(ledger)@ == #[trigger] recomputed(old(ledger)@, group_id, now),
            Err(e) => recompute_fault(old(ledger)@, group_id) == Some(e@) && final(ledger)@ == old(
                ledger,
            )@,
        },
        r is Ok ==> settled(final(ledger)@, group_id),
{
    let moment = now();
    recompute_total(ledger, group_id, moment)
}

/// The activity that a request logs for a user.
pub open spec fn logged(user_id: u128, req: CreateActivity, id: u128, now: i64) -> Activity {
    Activity {
        id,
        description: req.description,
        paid_by_id: user_id,
        group_id: req.group_id,
        time: now,
        amount: req.amount,
        split_members: req.split_members,
        split_amounts: req.split_amounts,
        user_involvement: req.split_members.contains(user_id),
        expense_logo: kept_logo(req.expense_logo),
        created_at: now,
        updated_at: now,
    }
}

/// Why an activity cannot be logged. The first rule that is broken decides:
/// the request itself, the group, the user's place in it, and last the new
/// total of the group.
pub open spec fn create_fault(t: Tables, user_id: u128, req: CreateActivity) -> Option<Failure> {
    match req.verdict() {
        Err(e) => Some(e),
        Ok(_) => if !has_group(t.groups, req.group_id) {
            Some(group_missing())
        } else if !in_group(t, req.group_id, user_id) {
            Some(not_in_group())
        } else if group_total(
            t.activities.push(logged(user_id, req, 0, 0)),
            req.group_id,
        ) is None {
            Some(Failure::Internal)
        } else {
            None
        },
    }
}

/// The ledger after an activity is logged: the activity is the last of the
/// rows, and the total of its group is set anew.
pub open spec fn after_create(
    t: Tables,
    user_id: u128,
    req: CreateActivity,
    id: u128,
    now: i64,
) -> Tables {
    recomputed(
        Tables { activities: t.activities.push(logged(user_id, req, id, now)), ..t },
        req.group_id,
        now,
    )
}

/// Logs an activity that the user paid for, under the given identifier and
/// at the given moment.
pub fn create_activity(
    ledger: &mut Ledger,
    user_id: u128,
    payload: CreateActivityReq,
    id: u128,
    now: i64,
) -> (r: Result<ActivityRes, AppError>)
    ensures
        match r {
            Ok(res) => create_fault(old(ledger)@, user_id, payload@) is None && final(ledger)@
                == after_create(old(ledger)@, user_id, payload@, id, now) && res@ == logged(
                user_id,
                payload@,
                id,
                now,
            ),
            Err(e) => create_fault(old(ledger)@, user_id, payload@) == Some(e@) && final(ledger)@
                == old(ledger)@,
        },
        r is Ok ==> settled(final(ledger)@, payload.group_id),
{
    let mut payload = payload;
    let ghost req = payload@;
    match payload.check() {
        Ok(_) => {},
        Err(e) => {
            return Err(e);
        },
    }
    let group_id = payload.group_id;
    match check_group_exists(ledger, group_id) {
        Ok(_) => {},
        Err(e) => {
            return Err(e);
        },
    }
    match check_user_exists_in_group(ledger, group_id, user_id) {
        Ok(_) => {},
        Err(e) => {
            return Err(e);
        },
    }
    let involved = contains_id(&payload.split_members, user_id);
    let activity = Model {
        id,
        description: payload.description,
        paid_by_id: user_id,
        group_id,
        time: now,
        amount: payload.amount,
        split_members: payload.split_members,
        split_amounts: payload.split_amounts,
        user_involvement: involved,
        expense_logo: payload.expense_logo,
        created_at: now,
        updated_at: now,
    };
    assert(activity@ == logged(user_id, req, id, now));
    proof {
        let rows = old(ledger)@.activities;
        let probe = rows.push(logged(user_id, req, 0, 0));
        let longer = rows.push(activity@);
        assert(probe.drop_last() == rows);
        assert(longer.drop_last() == rows);
        assert(group_amounts(probe, group_id) == group_amounts(rows, group_id).push(req.amount));
        assert(group_amounts(longer, group_id) == group_amounts(rows, group_id).push(req.amount));
        assert(group_amounts(rows, group_id).push(req.amount).drop_last() == group_amounts(
            rows,
            group_id,
        ));
    }
    let before = match sum_group(ledger, group_id) {
        Some(t) => t,
        None => {
            return Err(AppError::InternalServerError);
        },
    };
    let total = match before.checked_add(&activity.amount) {
        Some(t) => t,
        None => {
            return Err(AppError::InternalServerError);
        },
    };
    let response = ActivityRes::of(&activity);
    ledger.activities.push(activity);
    proof {
        assert(ledger@.activities == old(ledger)@.activities.push(logged(user_id, req, id, now)));
        assert(group_amounts(ledger@.activities, group_id).drop_last() == group_amounts(
            old(ledger)@.activities,
            group_id,
        ));
        crate::money::lemma_running_sum_units(group_amounts(ledger@.activities, group_id));
    }
    set_total(&mut ledger.groups, group_id, total, now);
    Ok(response)
}

/// Logs an activity that the user paid for, under a fresh identifier and at
/// the present moment; both are in the response.
pub fn create_activity_handler(ledger: &mut Ledger, user_id: u128, payload: CreateActivityReq) -> (r:
    Result<ActivityRes, AppError>)
    ensures
        match r {
            Ok(res) => create_fault(old(ledger)@, user_id, payload@) is None && final(ledger)@
                == after_create(old(ledger)@, user_id, payload@, res.id, res.created_at) && res@
                == logged(user_id, payload@, res.id, res.created_at),
            Err(e) => create_fault(old(ledger)@, user_id, payload@) == Some(e@) && final(ledger)@
                == old(ledger)@,
        },
        r is Ok ==> settled(final(ledger)@, payload.group_id),
{
    let id = new_id();
    let moment = now();
    create_activity(ledger, user_id, payload, id, moment)
}

/// The activity that a request to change it makes of the stored one: each
/// part that the request brings takes the place of the stored part, and new
/// members settle anew whether the user is among them.
pub open spec fn merged(stored: Activity, user_id: u128, req: UpdateActivity) -> Activity {
    Activity {
        description: match req.description {
            Some(d) => d,
            None => stored.description,
        },
        amount: match req.amount {
            Some(a) => a,
            None => stored.amount,
        },
        split_members: match req.split_members {
            Some(m) => m,
            None => stored.split_members,
        },
        user_involvement: match req.split_members {
            Some(m) => m.contains(user_id),
            None => stored.user_involvement,
        },
        split_amounts: match req.split_amounts {
            Some(a) => a,
            None => stored.split_amounts,
        },
        expense_logo: match req.expense_logo {
            Some(l) => l,
            None => stored.expense_logo,
        },
        ..stored
    }
}

/// Two lists of amounts are the same when they are equal in length and, place
/// by place, in value.
pub open spec fn same_amounts(a: Seq<Money>, b: Seq<Money>) -> bool {
    &&& a.len() == b.len()
    &&& forall|i: int| 0 <= i < a.len() ==> (#[trigger] a[i]).units() == b[i].units()
}

/// Whether nothing that a request can change differs between two activities.
/// Amounts are held against each other by value.
pub open spec fn unchanged(a: Activity, b: Activity) -> bool {
    &&& a.description == b.description
    &&& a.amount.units() == b.amount.units()
    &&& a.split_members == b.split_members
    &&& a.user_involvement == b.user_involvement
    &&& same_amounts(a.split_amounts, b.split_amounts)
    &&& a.expense_logo == b.expense_logo
}

/// What answers a user who asks to change an activity that another user
/// paid for.
pub open spec fn update_refused() -> Failure {
    Failure::Unauthorized("You are not authorized to update this activity"@)
}

/// What answers a user who asks to delete an activity that another user
/// paid for.
pub open spec fn delete_refused() -> Failure {
    Failure::Unauthorized("You are not authorized to delete this activity"@)
}

/// The activity as it is stored after a change.
pub open spec fn changed_row(stored: Activity, user_id: u128, req: UpdateActivity, now: i64) -> Activity {
    Activity { updated_at: now, ..merged(stored, user_id, req) }
}

/// What the split validator says of an activity as a change would leave it.
pub open spec fn merged_verdict(m: Activity) -> Result<(), SplitError> {
    split_verdict(m.amount, m.split_members, m.split_amounts)
}

/// Why an activity cannot be changed. The first rule that is broken decides:
/// the request itself, the group, the user's place in it, the activity, the
/// user being the one who paid, the split of the activity as the change would
/// leave it, something being changed, and last the new total of the group.
pub open spec fn update_fault(t: Tables, user_id: u128, req: UpdateActivity) -> Option<Failure> {
    match req.verdict() {
        Err(e) => Some(e),
        Ok(_) => if !has_group(t.groups, req.group_id) {
            Some(group_missing())
        } else if !in_group(t, req.group_id, user_id) {
            Some(not_in_group())
        } else {
            match first_activity(t.activities, req.id, req.group_id) {
                None => Some(activity_missing()),
                Some(i) => if t.activities[i].paid_by_id != user_id {
                    Some(update_refused())
                } else if merged_verdict(merged(t.activities[i], user_id, req)) is Err {
                    Some(
                        update_split_failure(
                            merged_verdict(merged(t.activities[i], user_id, req))->Err_0,
                        ),
                    )
                } else if unchanged(merged(t.activities[i], user_id, req), t.activities[i]) {
                    Some(Failure::Validation("No changes detected"@))
                } else if group_total(
                    t.activities.update(i, changed_row(t.activities[i], user_id, req, 0)),
                    req.group_id,
                ) is None {
                    Some(Failure::Internal)
                } else {
                    None
                },
            }
        },
    }
}

/// The ledger after an activity is changed: the changed activity stands where
/// the stored one stood, and the total of its group is set anew.
pub open spec fn after_update(t: Tables, user_id: u128, req: UpdateActivity, now: i64) -> Tables {
    let i = first_activity(t.activities, req.id, req.group_id)->0;
    recomputed(
        Tables {
            activities: t.activities.update(i, changed_row(t.activities[i], user_id, req, now)),
            ..t
        },
        req.group_id,
        now,
    )
}

/// Whether two texts that may be missing are the same.
fn same_text(a: &Option<String>, b: &Option<String>) -> (r: bool)
    ensures
        r == (crate::entities::activities::text_of(*a) == crate::entities::activities::text_of(
            *b,
        )),
{
    match (a, b) {
        (Some(x), Some(y)) => x.eq(y),
        (None, None) => true,
        _ => false,
    }
}

/// Whether two lists of identifiers are the same.
fn same_ids(a: &Vec<u128>, b: &Vec<u128>) -> (r: bool)
    ensures
        r == (a@ == b@),
{
    if a.len() != b.len() {
        return false;
    }
    let mut i: usize = 0;
    while i < a.len()
        invariant
            i <= a.len(),
            a.len() == b.len(),
            forall|k: int| 0 <= k < i ==> a@[k] == b@[k],
        decreases a.len() - i,
    {
        if a[i] != b[i] {
            return false;
        }
        i += 1;
    }
    proof {
        assert(a@ =~= b@);
    }
    true
}

/// Whether two lists of amounts are the same in length and, place by place,
/// in value.
fn same_amount_list(a: &Vec<Money>, b: &Vec<Money>) -> (r: bool)
    ensures
        r == same_amounts(a@, b@),
{
    if a.len() != b.len() {
        return false;
    }
    let mut i: usize = 0;
    while i < a.len()
        invariant
            i <= a.len(),
            a.len() == b.len(),
            forall|k: int| 0 <= k < i ==> (#[trigger] a@[k]).units() == b@[k].units(),
        decreases a.len() - i,
    {
        if !a[i].same_value(&b[i]) {
            return false;
        }
        i += 1;
    }
    true
}

/// Whether nothing that a request can change differs between two activities.
fn same_activity(a: &Model, b: &Model) -> (r: bool)
    ensures
        r == unchanged(a@, b@),
{
    a.description == b.description && a.amount.same_value(&b.amount) && same_ids(
        &a.split_members,
        &b.split_members,
    ) && a.user_involvement == b.user_involvement && same_amount_list(
        &a.split_amounts,
        &b.split_amounts,
    ) && same_text(&a.expense_logo, &b.expense_logo)
}

/// The stored activity with the parts that the request brings put in.
fn merge(stored: &Model, user_id: u128, payload: UpdateActivityReq) -> (r: Model)
    ensures
        r@ == merged(stored@, user_id, payload@),
{
    let description = match payload.description {
        Some(d) => d,
        None => stored.description.clone(),
    };
    let amount = match payload.amount {
        Some(a) => a,
        None => stored.amount,
    };
    let user_involvement = match &payload.split_members {
        Some(m) => contains_id(m, user_id),
        None => stored.user_involvement,
    };
    let split_members = match payload.split_members {
        Some(m) => m,
        None => copy_list(&stored.split_members),
    };
    let split_amounts = match payload.split_amounts {
        Some(a) => a,
        None => copy_list(&stored.split_amounts),
    };
    let expense_logo = match payload.expense_logo {
        Some(l) => l,
        None => copy_text(&stored.expense_logo),
    };
    Model {
        id: stored.id,
        description,
        paid_by_id: stored.paid_by_id,
        group_id: stored.group_id,
        time: stored.time,
        amount,
        split_members,
        split_amounts,
        user_involvement,
        expense_logo,
        created_at: stored.created_at,
        updated_at: stored.updated_at,
    }
}

/// Changes an activity at the given moment. Only the user who paid for it may
/// change it, and only so that its split stays valid: the stored parts and
/// the parts that the request brings, taken together, must pass the split
/// validator.
pub fn update_activity(ledger: &mut Ledger, user_id: u128, payload: UpdateActivityReq, now: i64) -> (r:
    Result<ActivityRes, AppError>)
    ensures
        match r {
            Ok(res) => update_fault(old(ledger)@, user_id, payload@) is None && final(ledger)@
                == after_update(old(ledger)@, user_id, payload@, now) && res@ == changed_row(
                old(ledger)@.activities[first_activity(
                    old(ledger)@.activities,
                    payload.id,
                    payload.group_id,
                )->0],
                user_id,
                payload@,
                now,
            ),
            Err(e) => update_fault(old(ledger)@, user_id, payload@) == Some(e@) && final(ledger)@
                == old(ledger)@,
        },
        r is Ok ==> settled(final(ledger)@, payload.group_id),
        r matches Ok(res) ==> split_valid(res.amount, res.split_members@, res.split_amounts@),
{
    let ghost req = payload@;
    let ghost before = old(ledger)@;
    match payload.check() {
        Ok(_) => {},
        Err(e) => {
            return Err(e);
        },
    }
    let group_id = payload.group_id;
    match check_group_exists(ledger, group_id) {
        Ok(_) => {},
        Err(e) => {
            return Err(e);
        },
    }
    match check_user_exists_in_group(ledger, group_id, user_id) {
        Ok(_) => {},
        Err(e) => {
            return Err(e);
        },
    }
    let index = match ledger.find_activity(payload.id, group_id) {
        Some(i) => i,
        None => {
            return Err(AppError::not_found("Activity not found in group"));
        },
    };
    proof {
        lemma_first_activity_is_first(before.activities, req.id, group_id);
    }
    if ledger.activities[index].paid_by_id != user_id {
        return Err(AppError::unauthorized("You are not authorized to update this activity"));
    }
    let mut row = merge(&ledger.activities[index], user_id, payload);
    match validate_split(&row.amount, &row.split_members, &row.split_amounts) {
        Ok(_) => {},
        Err(e) => {
            return Err(update_split_error(e));
        },
    }
    if same_activity(&row, &ledger.activities[index]) {
        return Err(AppError::validation("No changes detected"));
    }
    row.updated_at = now;
    let ghost new_row = row@;
    proof {
        assert(new_row == changed_row(before.activities[index as int], user_id, req, now));
        lemma_group_amounts_frame(
            before.activities.update(index as int, new_row),
            before.activities.update(
                index as int,
                changed_row(before.activities[index as int], user_id, req, 0),
            ),
            group_id,
        );
    }
    ledger.activities.push(row);
    let stored = ledger.activities.swap_remove(index);
    proof {
        assert(ledger@.activities =~= before.activities.update(index as int, new_row));
    }
    match sum_group(ledger, group_id) {
        None => {
            ledger.activities.push(stored);
            let _ = ledger.activities.swap_remove(index);
            proof {
                assert(ledger.activities@ =~= old(ledger).activities@);
            }
            Err(AppError::InternalServerError)
        },
        Some(total) => {
            let response = ActivityRes::of(&ledger.activities[index]);
            set_total(&mut ledger.groups, group_id, total, now);
            Ok(response)
        },
    }
}

/// Changes an activity at the present moment, which is in the response. Only
/// the user who paid for it may change it, and only so that its split stays
/// valid.
pub fn update_activity_handler(ledger: &mut Ledger, user_id: u128, payload: UpdateActivityReq) -> (r:
    Result<ActivityRes, AppError>)
    ensures
        match r {
            Ok(res) => update_fault(old(ledger)@, user_id, payload@) is None && final(ledger)@
                == after_update(old(ledger)@, user_id, payload@, res.updated_at) && res@
                == changed_row(
                old(ledger)@.activities[first_activity(
                    old(ledger)@.activities,
                    payload.id,
                    payload.group_id,
                )->0],
                user_id,
                payload@,
                res.updated_at,
            ),
            Err(e) => update_fault(old(ledger)@, user_id, payload@) == Some(e@) && final(ledger)@
                == old(ledger)@,
        },
        r is Ok ==> settled(final(ledger)@, payload.group_id),
        r matches Ok(res) ==> split_valid(res.amount, res.split_members@, res.split_amounts@),
{
    let moment = now();
    update_activity(ledger, user_id, payload, moment)
}

/// What a deletion answers when it went through.
pub const ACTIVITY_DELETED: &'static str = "Activity Deleted successfully";

/// Why an activity cannot be deleted. The first rule that is broken decides:
/// the request itself, the group, the user's place in it, the activity, the
/// user being the one who paid, and last the new total of the group.
pub open spec fn delete_fault(t: Tables, user_id: u128, req: DeleteActivityReq) -> Option<Failure> {
    match req.verdict() {
        Err(e) => Some(e),
        Ok(_) => if !has_group(t.groups, req.group_id) {
            Some(group_missing())
        } else if !in_group(t, req.group_id, user_id) {
            Some(not_in_group())
        } else {
            match first_activity(t.activities, req.activity_id, req.group_id) {
                None => Some(activity_missing()),
                Some(i) => if t.activities[i].paid_by_id != user_id {
                    Some(delete_refused())
                } else if group_total(t.activities.remove(i), req.group_id) is None {
                    Some(Failure::Internal)
                } else {
                    None
                },
            }
        },
    }
}

/// The ledger after an activity is deleted: its row is gone, and the total of
/// its group is set anew.
pub open spec fn after_delete(t: Tables, req: DeleteActivityReq, now: i64) -> Tables {
    let i = first_activity(t.activities, req.activity_id, req.group_id)->0;
    recomputed(Tables { activities: t.activities.remove(i), ..t }, req.group_id, now)
}

/// Deletes an activity at the given moment. Only the user who paid for it may
/// delete it.
pub fn delete_activity(ledger: &mut Ledger, user_id: u128, payload: DeleteActivityReq, now: i64) -> (r:
    Result<&'static str, AppError>)
    ensures
        match r {
            Ok(text) => delete_fault(old(ledger)@, user_id, payload) is None && final(ledger)@
                == after_delete(old(ledger)@, payload, now) && text@ == ACTIVITY_DELETED@,
            Err(e) => delete_fault(old(ledger)@, user_id, payload) == Some(e@) && final(ledger)@
                == old(ledger)@,
        },
        r is Ok ==> settled(final(ledger)@, payload.group_id),
{
    let ghost before = old(ledger)@;
    match payload.check() {
        Ok(_) => {},
        Err(e) => {
            return Err(e);
        },
    }
    let group_id = payload.group_id;
    match check_group_exists(ledger, group_id) {
        Ok(_) => {},
        Err(e) => {
            return Err(e);
        },
    }
    match check_user_exists_in_group(ledger, group_id, user_id) {
        Ok(_) => {},
        Err(e) => {
            return Err(e);
        },
    }
    let index = match ledger.find_activity(payload.activity_id, group_id) {
        Some(i) => i,
        None => {
            return Err(AppError::not_found("Activity not found in group"));
        },
    };
    if ledger.activities[index].paid_by_id != user_id {
        return Err(AppError::unauthorized("You are not authorized to delete this activity"));
    }
    let stored = ledger.activities.remove(index);
    proof {
        assert(ledger@.activities =~= before.activities.remove(index as int));
    }
    match sum_group(ledger, group_id) {
        None => {
            ledger.activities.insert(index, stored);
            proof {
                assert(ledger.activities@ =~= old(ledger).activities@);
            }
            Err(AppError::InternalServerError)
        },
        Some(total) => {
            set_total(&mut ledger.groups, group_id, total, now);
            Ok(ACTIVITY_DELETED)
        },
    }
}

/// Deletes an activity at the present moment. Only the user who paid for it
/// may delete it.
pub fn delete_activity_handler(ledger: &mut Ledger, user_id: u128, payload: DeleteActivityReq) -> (r:
    Result<&'static str, AppError>)
    ensures
        match r {
            Ok(text) => delete_fault(old(ledger)@, user_id, payload) is None && text@
                == ACTIVITY_DELETED@ && exists|now: i64|
                final(ledger)@ == #[trigger] after_delete(old(ledger)@, payload, now),
            Err(e) => delete_fault(old(ledger)@, user_id, payload) == Some(e@) && final(ledger)@
                == old(ledger)@,
        },
        r is Ok ==> settled(final(ledger)@, payload.group_id),
{
    let moment = now();
    delete_activity(ledger, user_id, payload, moment)
}

/// The activities of a group, in the order of the rows.
pub open spec fn group_activities(rows: Seq<Activity>, group_id: u128) -> Seq<Activity>
    decreases rows.len(),
{
    if rows.len() == 0 {
        Seq::empty()
    } else if rows.last().group_id == group_id {
        group_activities(rows.drop_last(), group_id).push(rows.last())
    } else {
        group_activities(rows.drop_last(), group_id)
    }
}

/// The activities that a list of responses shows.
pub open spec fn shown(responses: Seq<ActivityRes>) -> Seq<Activity> {
    responses.map_values(|r: ActivityRes| r@)
}

/// Why the activities of a group cannot be listed, or its dues worked out,
/// for a user: the group is not named, it is not there, or the user does not
/// belong to it.
pub open spec fn read_fault(t: Tables, user_id: u128, group_id: u128) -> Option<Failure> {
    if group_id == crate::ids::NIL {
        Some(Failure::Validation("Group ID cannot be empty"@))
    } else if !has_group(t.groups, group_id) {
        Some(group_missing())
    } else if !in_group(t, group_id, user_id) {
        Some(not_in_group())
    } else {
        None
    }
}

/// The checks that every request to read from a group must pass.
fn check_reader(ledger: &Ledger, user_id: u128, group_id: u128) -> (r: Result<(), AppError>)
    ensures
        match r {
            Ok(_) => read_fault(ledger@, user_id, group_id) is None,
            Err(e) => read_fault(ledger@, user_id, group_id) == Some(e@),
        },
{
    if group_id == crate::ids::NIL {
        return Err(AppError::validation("Group ID cannot be empty"));
    }
    match check_group_exists(ledger, group_id) {
        Ok(_) => {},
        Err(e) => {
            return Err(e);
        },
    }
    check_user_exists_in_group(ledger, group_id, user_id)
}

/// Lists the activities of a group for one of its users.
pub fn get_all_activities_handler(ledger: &Ledger, user_id: u128, payload: GetActivitiesReq) -> (r:
    Result<Vec<ActivityRes>, AppError>)
    ensures
        match r {
            Ok(list) => read_fault(ledger@, user_id, payload.group_id) is None && shown(list@)
                == group_activities(ledger@.activities, payload.group_id),
            Err(e) => read_fault(ledger@, user_id, payload.group_id) == Some(e@),
        },
{
    match payload.check() {
        Ok(_) => {},
        Err(e) => {
            return Err(e);
        },
    }
    match check_reader(ledger, user_id, payload.group_id) {
        Ok(_) => {},
        Err(e) => {
            return Err(e);
        },
    }
    let mut list: Vec<ActivityRes> = Vec::new();
    let mut i: usize = 0;
    while i < ledger.activities.len()
        invariant
            i <= ledger.activities.len(),
            shown(list@) == group_activities(ledger@.activities.take(i as int), payload.group_id),
        decreases ledger.activities.len() - i,
    {
        proof {
            assert(ledger@.activities.take(i + 1).drop_last() == ledger@.activities.take(
                i as int,
            ));
        }
        if ledger.activities[i].group_id == payload.group_id {
            let ghost shorter = shown(list@);
            list.push(ActivityRes::of(&ledger.activities[i]));
            proof {
                assert(shown(list@) =~= shorter.push(ledger@.activities[i as int]));
            }
        }
        i += 1;
    }
    proof {
        assert(ledger@.activities.take(i as int) == ledger@.activities);
    }
    Ok(list)
}

/// The dues of a group, in the form that was asked for.
#[derive(Debug)]
pub enum DuesResponse {
    Simplified(SimplifiedDuesResponse),
    Detailed(DetailedDuesResponse),
}

/// The balances of the users of a group, looked up by user, with the order
/// in which the users were first met.
struct Balances {
    amounts: HashMap<u128, Money>,
    order: Vec<u128>,
}

impl Balances {
    /// The balances as a table, in the order in which the users were met.
    spec fn table(self) -> Seq<UserDue> {
        table_of(self.order@, self.amounts@)
    }

    /// The order names each user who has a balance once, and no one else.
    spec fn in_step(self) -> bool {
        lists(self.order@, self.amounts@)
    }

    /// No balances.
    fn new() -> (r: Balances)
        ensures
            r.in_step(),
            r.table() == Seq::<UserDue>::empty(),
    {
        let r = Balances { amounts: HashMap::new(), order: Vec::new() };
        proof {
            assert(r.table() =~= Seq::<UserDue>::empty());
        }
        r
    }

    /// The balance of a user, if the user has one.
    fn balance(&self, user_id: u128) -> (r: Option<Money>)
        requires
            self.in_step(),
        ensures
            match place_of(self.table(), user_id) {
                Some(k) => r == Some(self.table()[k].amount) && self.amounts@.contains_key(
                    user_id,
                ),
                None => r is None && !self.amounts@.contains_key(user_id),
            },
    {
        broadcast use vstd::std_specs::hash::group_hash_axioms;

        proof {
            lemma_table_of_place(self.order@, self.amounts@, user_id);
        }
        match self.amounts.get(&user_id) {
            Some(amount) => Some(*amount),
            None => None,
        }
    }

    /// Sets the balance of a user, who comes last in the order if the user
    /// had no balance before.
    fn set(&mut self, user_id: u128, amount: Money)
        requires
            old(self).in_step(),
        ensures
            final(self).in_step(),
            final(self).table() == match place_of(old(self).table(), user_id) {
                Some(k) => old(self).table().update(k, UserDue { user_id, amount }),
                None => old(self).table().push(UserDue { user_id, amount }),
            },
    {
        broadcast use vstd::std_specs::hash::group_hash_axioms;

        proof {
            lemma_table_of_place(self.order@, self.amounts@, user_id);
            if self.amounts@.contains_key(user_id) {
                lemma_table_of_change(self.order@, self.amounts@, user_id, amount);
            } else {
                lemma_table_of_new(self.order@, self.amounts@, user_id, amount);
            }
        }
        let known = self.amounts.insert(user_id, amount);
        if known.is_none() {
            self.order.push(user_id);
        }
    }

    /// Adds an amount to the balance of a user, who starts from zero. Says
    /// whether the new balance is exact; nothing is changed if it is not.
    fn credit(&mut self, user_id: u128, amount: &Money) -> (done: bool)
        requires
            old(self).in_step(),
        ensures
            final(self).in_step(),
            match credited(old(self).table(), user_id, *amount) {
                Some(t) => done && final(self).table() == t,
                None => !done && final(self).table() == old(self).table(),
            },
    {
        let before = match self.balance(user_id) {
            Some(b) => b,
            None => Money::zero(),
        };
        match before.checked_add(amount) {
            Some(v) => {
                self.set(user_id, v);
                true
            },
            None => false,
        }
    }

    /// Takes an amount from the balance of a user, who starts from zero.
    /// Says whether the new balance is exact; nothing is changed if it is
    /// not.
    fn debit(&mut self, user_id: u128, amount: &Money) -> (done: bool)
        requires
            old(self).in_step(),
        ensures
            final(self).in_step(),
            match debited(old(self).table(), user_id, *amount) {
                Some(t) => done && final(self).table() == t,
                None => !done && final(self).table() == old(self).table(),
            },
    {
        let before = match self.balance(user_id) {
            Some(b) => b,
            None => Money::zero(),
        };
        match before.checked_sub(amount) {
            Some(v) => {
                self.set(user_id, v);
                true
            },
            None => false,
        }
    }

    /// Enters an activity: who paid is credited with the amount, then each
    /// member of the split is debited. Says whether every balance on the way
    /// was exact.
    fn enter(&mut self, activity: &Model) -> (done: bool)
        requires
            old(self).in_step(),
        ensures
            final(self).in_step(),
            done == entered(old(self).table(), activity@) is Some,
            done ==> final(self).table() == entered(old(self).table(), activity@)->0,
    {
        if !self.credit(activity.paid_by_id, &activity.amount) {
            return false;
        }
        let ghost start = self.table();
        let mut i: usize = 0;
        while i < activity.split_members.len()
            invariant
                i <= activity.split_members.len(),
                self.in_step(),
                credited(old(self).table(), activity.paid_by_id, activity.amount) == Some(start),
                shares_debited(
                    start,
                    activity.split_members@,
                    activity.split_amounts@,
                    i as nat,
                ) == Some(self.table()),
            decreases activity.split_members.len() - i,
        {
            let share = if i < activity.split_amounts.len() {
                activity.split_amounts[i]
            } else {
                Money::zero()
            };
            assert(share == share_at(activity.split_amounts@, i as int));
            if !self.debit(activity.split_members[i], &share) {
                proof {
                    assert(shares_debited(
                        start,
                        activity.split_members@,
                        activity.split_amounts@,
                        (i + 1) as nat,
                    ) is None);
                    lemma_shares_debited_stays_none(
                        start,
                        activity.split_members@,
                        activity.split_amounts@,
                        (i + 1) as nat,
                        activity.split_members@.len(),
                    );
                }
                return false;
            }
            i += 1;
        }
        true
    }

    /// The balances as a list, in the order in which the users were met.
    fn listed(&self) -> (r: Vec<UserDue>)
        requires
            self.in_step(),
        ensures
            r@ == self.table(),
    {
        let mut list: Vec<UserDue> = Vec::new();
        let mut i: usize = 0;
        while i < self.order.len()
            invariant
                i <= self.order.len(),
                self.in_step(),
                list@ == self.table().take(i as int),
            decreases self.order.len() - i,
        {
            let user_id = self.order[i];
            proof {
                lemma_place_of(self.table(), user_id);
                assert(self.table()[i as int].user_id == user_id);
                assert(self.order@.contains(user_id));
                assert(self.table().take(i + 1) == self.table().take(i as int).push(
                    self.table()[i as int],
                ));
            }
            if let Some(amount) = self.balance(user_id) {
                proof {
                    let k = place_of(self.table(), user_id)->0;
                    lemma_table_of_place(self.order@, self.amounts@, user_id);
                    if k != i {
                        if k < i {
                            assert(self.order@[k] != self.order@[i as int]);
                        } else {
                            assert(self.order@[i as int] != self.order@[k]);
                        }
                    }
                }
                list.push(UserDue { user_id, amount });
            }
            i += 1;
        }
        proof {
            assert(self.table().take(i as int) == self.table());
        }
        list
    }
}

/// The simplified dues of a group: the net balance of each user, in the
/// order in which the users are first met among the activities.
pub fn get_dues_simplified(ledger: &Ledger, group_id: u128) -> (r: Result<
    SimplifiedDuesResponse,
    AppError,
>)
    ensures
        match r {
            Ok(res) => simplified_dues(ledger@.activities, group_id) == Some(res.dues@),
            Err(e) => simplified_dues(ledger@.activities, group_id) is None && e@
                == Failure::Internal,
        },
        r matches Ok(res) ==> distinct_users(res.dues@) && forall|k: int|
            0 <= k < res.dues@.len() ==> (#[trigger] res.dues@[k]).amount.units() == net_balance(
                ledger@.activities,
                group_id,
                res.dues@[k].user_id,
                ledger@.activities.len(),
            ),
{
    let mut balances = Balances::new();
    let mut i: usize = 0;
    while i < ledger.activities.len()
        invariant
            i <= ledger.activities.len(),
            balances.in_step(),
            group_entered(ledger@.activities, group_id, i as nat) == Some(balances.table()),
        decreases ledger.activities.len() - i,
    {
        if ledger.activities[i].group_id == group_id {
            if !balances.enter(&ledger.activities[i]) {
                proof {
                    lemma_group_entered_stays_none(
                        ledger@.activities,
                        group_id,
                        (i + 1) as nat,
                        ledger@.activities.len(),
                    );
                }
                return Err(AppError::InternalServerError);
            }
        }
        i += 1;
    }
    proof {
        lemma_dues_are_net_balances(ledger@.activities, group_id);
    }
    Ok(SimplifiedDuesResponse { dues: balances.listed() })
}

/// The members of a split, each with the share at the member's place, and
/// with zero where no share is stored.
pub fn compute_split_details(members: &Vec<u128>, amounts: &Vec<Money>) -> (r: Vec<SplitDetail>)
    ensures
        r@ == split_details(members@, amounts@),
{
    let mut details: Vec<SplitDetail> = Vec::new();
    let mut i: usize = 0;
    while i < members.len()
        invariant
            i <= members.len(),
            details@.len() == i,
            forall|k: int|
                0 <= k < i ==> details@[k] == (SplitDetail {
                    user_id: members@[k],
                    amount: share_at(amounts@, k),
                }),
        decreases members.len() - i,
    {
        let amount = if i < amounts.len() {
            amounts[i]
        } else {
            Money::zero()
        };
        details.push(SplitDetail { user_id: members[i], amount });
        i += 1;
    }
    proof {
        assert(details@ =~= split_details(members@, amounts@));
    }
    details
}

/// The detailed dues of a group: each activity with the share of each member.
pub fn get_dues_detailed(ledger: &Ledger, group_id: u128) -> (r: DetailedDuesResponse)
    ensures
        breakdowns(r.dues@) == detailed_dues(ledger@.activities, group_id),
{
    let mut dues: Vec<DetailedDue> = Vec::new();
    let mut i: usize = 0;
    while i < ledger.activities.len()
        invariant
            i <= ledger.activities.len(),
            breakdowns(dues@) == detailed_dues(ledger@.activities.take(i as int), group_id),
        decreases ledger.activities.len() - i,
    {
        proof {
            assert(ledger@.activities.take(i + 1).drop_last() == ledger@.activities.take(
                i as int,
            ));
        }
        let activity = &ledger.activities[i];
        if activity.group_id == group_id {
            let ghost shorter = breakdowns(dues@);
            let split_details = compute_split_details(
                &activity.split_members,
                &activity.split_amounts,
            );
            dues.push(
                DetailedDue {
                    activity_id: activity.id,
                    description: activity.description.clone(),
                    paid_by: activity.paid_by_id,
                    amount: activity.amount,
                    split_details,
                },
            );
            proof {
                assert(breakdowns(dues@) =~= shorter.push(breakdown(ledger@.activities[i as int])));
            }
        }
        i += 1;
    }
    proof {
        assert(ledger@.activities.take(i as int) == ledger@.activities);
    }
    DetailedDuesResponse { dues }
}

/// Works out the dues of a group for one of its users: one net balance for
/// each user if the request asks to simplify, else the split of each
/// activity.
pub fn get_dues_handler(ledger: &Ledger, user_id: u128, payload: GetDuesReq) -> (r: Result<
    DuesResponse,
    AppError,
>)
    ensures
        match r {
            Ok(DuesResponse::Simplified(res)) => read_fault(ledger@, user_id, payload.group_id)
                is None && payload.simplify && simplified_dues(
                ledger@.activities,
                payload.group_id,
            ) == Some(res.dues@),
            Ok(DuesResponse::Detailed(res)) => read_fault(ledger@, user_id, payload.group_id)
                is None && !payload.simplify && breakdowns(res.dues@) == detailed_dues(
                ledger@.activities,
                payload.group_id,
            ),
            Err(e) => match read_fault(ledger@, user_id, payload.group_id) {
                Some(f) => e@ == f,
                None => payload.simplify && simplified_dues(ledger@.activities, payload.group_id)
                    is None && e@ == Failure::Internal,
            },
        },
{
    match payload.check() {
        Ok(_) => {},
        Err(e) => {
            return Err(e);
        },
    }
    match check_reader(ledger, user_id, payload.group_id) {
        Ok(_) => {},
        Err(e) => {
            return Err(e);
        },
    }
    if payload.simplify {
        match get_dues_simplified(ledger, payload.group_id) {
            Ok(res) => Ok(DuesResponse::Simplified(res)),
            Err(e) => Err(e),
        }
    } else {
        Ok(DuesResponse::Detailed(get_dues_detailed(ledger, payload.group_id)))
    }
}

} // verus!
