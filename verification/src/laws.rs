//! What holds of the ledger from one request to the next.
//!
//! Each law is stated over the values that the contracts of the requests
//! speak of, so that it applies to whatever a request has returned.

use crate::controllers::activities_controller::{
    after_create, after_delete, after_update, changed_row, create_fault, delete_fault,
    delete_refused, logged, recomputed, update_fault, update_refused,
};
use crate::controllers::group_members_controller::{
    after_remove, not_admin, remove_fault, removal, Removal,
};
use crate::dues::{balanced, lemma_dues_sum_to_zero, simplified_dues, table_total};
use crate::entities::group_members::Model;
use crate::ledger::{
    first_activity, has_admin, has_group, has_member, in_group, lemma_first_activity_is_first,
    Tables,
};
use crate::membership::{
    is_other, lemma_successor_is_earliest, lemma_without_member, successor, without_member,
};
use crate::models::activities::{CreateActivity, DeleteActivityReq, UpdateActivity};
use crate::models::group_members::RemoveGroupMemberReq;
use crate::money::lemma_running_sum_units;
use crate::split::split_valid;
use crate::totals::{
    group_amounts, group_total, group_total_units, lemma_group_amounts_frame,
    lemma_group_total_units_push, lemma_group_total_units_remove, settled,
};
use vstd::prelude::*;

verus! {

/// Every group of the ledger carries the total that its activities amount to.
pub open spec fn all_settled(t: Tables) -> bool {
    forall|g: u128| settled(t, g)
}

/// The split of every activity of the ledger is balanced.
pub open spec fn all_balanced(t: Tables) -> bool {
    forall|i: int| 0 <= i < t.activities.len() ==> balanced(#[trigger] t.activities[i])
}

/// Setting the total of a group anew settles that group, and leaves every
/// other group as settled as it was.
pub proof fn lemma_recompute_settles(t: Tables, group_id: u128, now: i64, other: u128)
    requires
        group_total(t.activities, group_id) is Some,
    ensures
        settled(recomputed(t, group_id, now), group_id),
        settled(t, other) ==> settled(recomputed(t, group_id, now), other),
{
    lemma_running_sum_units(group_amounts(t.activities, group_id));
    let after = recomputed(t, group_id, now);
    if settled(t, other) && other != group_id {
        assert forall|i: int|
            0 <= i < after.groups.len() && (#[trigger] after.groups[i]).id
                == other implies after.groups[i].total_expense.units() == group_total_units(
            after.activities,
            other,
        ) by {
            assert(t.groups[i].id == other);
        }
    }
}

/// Setting the total of a group anew twice in a row gives the total that
/// setting it once gives.
pub proof fn lemma_recompute_twice(t: Tables, group_id: u128, first: i64, second: i64)
    ensures
        recomputed(recomputed(t, group_id, first), group_id, second) == recomputed(
            t,
            group_id,
            second,
        ),
{
    let once = recomputed(t, group_id, first);
    let twice = recomputed(once, group_id, second);
    assert(twice.groups =~= recomputed(t, group_id, second).groups);
}

/// After an activity is logged, its group is settled, and every group that
/// was settled is settled still.
pub proof fn lemma_create_keeps_settled(
    t: Tables,
    user_id: u128,
    req: CreateActivity,
    id: u128,
    now: i64,
    group_id: u128,
)
    requires
        create_fault(t, user_id, req) is None,
    ensures
        settled(after_create(t, user_id, req, id, now), req.group_id),
        settled(t, group_id) ==> settled(after_create(t, user_id, req, id, now), group_id),
{
    let row = logged(user_id, req, id, now);
    let probe = logged(user_id, req, 0, 0);
    let mid = Tables { activities: t.activities.push(row), ..t };
    lemma_group_amounts_frame(t.activities.push(row), t.activities.push(probe), req.group_id);
    lemma_recompute_settles(mid, req.group_id, now, group_id);
    if group_id != req.group_id {
        lemma_group_total_units_push(t.activities, row, group_id);
    }
}

/// After an activity is changed, its group is settled, and every group that
/// was settled is settled still.
pub proof fn lemma_update_keeps_settled(
    t: Tables,
    user_id: u128,
    req: UpdateActivity,
    now: i64,
    group_id: u128,
)
    requires
        update_fault(t, user_id, req) is None,
    ensures
        settled(after_update(t, user_id, req, now), req.group_id),
        settled(t, group_id) ==> settled(after_update(t, user_id, req, now), group_id),
{
    lemma_first_activity_is_first(t.activities, req.id, req.group_id);
    let i = first_activity(t.activities, req.id, req.group_id)->0;
    let row = changed_row(t.activities[i], user_id, req, now);
    let probe = changed_row(t.activities[i], user_id, req, 0);
    let rows = t.activities.update(i, row);
    let mid = Tables { activities: rows, ..t };
    lemma_group_amounts_frame(rows, t.activities.update(i, probe), req.group_id);
    lemma_recompute_settles(mid, req.group_id, now, group_id);
    if group_id != req.group_id {
        lemma_group_amounts_frame(rows, t.activities, group_id);
    }
}

/// After an activity is deleted, its group is settled, and every group that
/// was settled is settled still.
pub proof fn lemma_delete_keeps_settled(
    t: Tables,
    user_id: u128,
    req: DeleteActivityReq,
    now: i64,
    group_id: u128,
)
    requires
        delete_fault(t, user_id, req) is None,
    ensures
        settled(after_delete(t, req, now), req.group_id),
        settled(t, group_id) ==> settled(after_delete(t, req, now), group_id),
{
    lemma_first_activity_is_first(t.activities, req.activity_id, req.group_id);
    let i = first_activity(t.activities, req.activity_id, req.group_id)->0;
    let mid = Tables { activities: t.activities.remove(i), ..t };
    lemma_recompute_settles(mid, req.group_id, now, group_id);
    if group_id != req.group_id {
        lemma_group_total_units_remove(t.activities, i, group_id);
    }
}

/// A ledger in which every group is settled stays one when an activity is
/// logged.
pub proof fn lemma_create_keeps_all_settled(
    t: Tables,
    user_id: u128,
    req: CreateActivity,
    id: u128,
    now: i64,
)
    requires
        create_fault(t, user_id, req) is None,
        all_settled(t),
    ensures
        all_settled(after_create(t, user_id, req, id, now)),
{
    assert forall|g: u128| settled(after_create(t, user_id, req, id, now), g) by {
        lemma_create_keeps_settled(t, user_id, req, id, now, g);
    }
}

/// A ledger in which every group is settled stays one when an activity is
/// changed.
pub proof fn lemma_update_keeps_all_settled(t: Tables, user_id: u128, req: UpdateActivity, now: i64)
    requires
        update_fault(t, user_id, req) is None,
        all_settled(t),
    ensures
        all_settled(after_update(t, user_id, req, now)),
{
    assert forall|g: u128| settled(after_update(t, user_id, req, now), g) by {
        lemma_update_keeps_settled(t, user_id, req, now, g);
    }
}

/// A ledger in which every group is settled stays one when an activity is
/// deleted.
pub proof fn lemma_delete_keeps_all_settled(
    t: Tables,
    user_id: u128,
    req: DeleteActivityReq,
    now: i64,
)
    requires
        delete_fault(t, user_id, req) is None,
        all_settled(t),
    ensures
        all_settled(after_delete(t, req, now)),
{
    assert forall|g: u128| settled(after_delete(t, req, now), g) by {
        lemma_delete_keeps_settled(t, user_id, req, now, g);
    }
}

/// An activity that is logged has a balanced split: its shares add up to its
/// amount, unit for unit, and each member has one. A ledger of balanced
/// activities stays one.
pub proof fn lemma_create_keeps_balanced(
    t: Tables,
    user_id: u128,
    req: CreateActivity,
    id: u128,
    now: i64,
)
    requires
        create_fault(t, user_id, req) is None,
    ensures
        split_valid(req.amount, req.split_members, req.split_amounts),
        balanced(logged(user_id, req, id, now)),
        all_balanced(t) ==> all_balanced(after_create(t, user_id, req, id, now)),
{
    let after = after_create(t, user_id, req, id, now);
    if all_balanced(t) {
        assert forall|i: int| 0 <= i < after.activities.len() implies balanced(
            #[trigger] after.activities[i],
        ) by {
            if i < t.activities.len() {
                assert(balanced(t.activities[i]));
            }
        }
    }
}

/// An activity that is changed has a valid split afterwards, whatever the
/// request brings: an amount above zero, a share for each of its members, at
/// least one member, and shares that add up to the amount, unit for unit. A
/// ledger of balanced activities stays one.
pub proof fn lemma_update_keeps_balanced(t: Tables, user_id: u128, req: UpdateActivity, now: i64)
    requires
        update_fault(t, user_id, req) is None,
    ensures
        ({
            let i = first_activity(t.activities, req.id, req.group_id)->0;
            let row = changed_row(t.activities[i], user_id, req, now);
            &&& after_update(t, user_id, req, now).activities[i] == row
            &&& split_valid(row.amount, row.split_members, row.split_amounts)
            &&& balanced(row)
        }),
        all_balanced(t) ==> all_balanced(after_update(t, user_id, req, now)),
{
    lemma_first_activity_is_first(t.activities, req.id, req.group_id);
    let i = first_activity(t.activities, req.id, req.group_id)->0;
    let after = after_update(t, user_id, req, now);
    if all_balanced(t) {
        assert forall|k: int| 0 <= k < after.activities.len() implies balanced(
            #[trigger] after.activities[k],
        ) by {
            if k != i {
                assert(balanced(t.activities[k]));
            }
        }
    }
}

/// In a ledger of balanced activities the simplified dues of every group add
/// up to zero.
pub proof fn lemma_balanced_ledger_owes_itself_nothing(t: Tables, group_id: u128)
    requires
        all_balanced(t),
        simplified_dues(t.activities, group_id) is Some,
    ensures
        table_total(simplified_dues(t.activities, group_id)->0) == 0,
{
    lemma_dues_sum_to_zero(t.activities, group_id);
}

/// A ledger of balanced activities stays one when an activity is deleted.
pub proof fn lemma_delete_keeps_balanced(t: Tables, user_id: u128, req: DeleteActivityReq, now: i64)
    requires
        delete_fault(t, user_id, req) is None,
        all_balanced(t),
    ensures
        all_balanced(after_delete(t, req, now)),
{
    lemma_first_activity_is_first(t.activities, req.activity_id, req.group_id);
    let i = first_activity(t.activities, req.activity_id, req.group_id)->0;
    let after = after_delete(t, req, now);
    assert forall|k: int| 0 <= k < after.activities.len() implies balanced(
        #[trigger] after.activities[k],
    ) by {
        if k < i {
            assert(balanced(t.activities[k]));
        } else {
            assert(balanced(t.activities[k + 1]));
        }
    }
}

/// Only the user who paid for an activity can change it. A change goes
/// through only for the payer. For any other user it fails: as refused, if
/// the request passes its check and the user belongs to the group; and
/// whenever it is reported as refused, the user is not the payer.
pub proof fn lemma_only_payer_updates(t: Tables, user_id: u128, req: UpdateActivity)
    ensures
        update_fault(t, user_id, req) is None ==> first_activity(
            t.activities,
            req.id,
            req.group_id,
        ) is Some && t.activities[first_activity(
            t.activities,
            req.id,
            req.group_id,
        )->0].paid_by_id == user_id,
        first_activity(t.activities, req.id, req.group_id) is Some && t.activities[first_activity(
            t.activities,
            req.id,
            req.group_id,
        )->0].paid_by_id != user_id ==> update_fault(t, user_id, req) is Some,
        update_fault(t, user_id, req) == Some(update_refused()) ==> first_activity(
            t.activities,
            req.id,
            req.group_id,
        ) is Some && t.activities[first_activity(
            t.activities,
            req.id,
            req.group_id,
        )->0].paid_by_id != user_id,
        req.verdict() is Ok && has_group(t.groups, req.group_id) && in_group(
            t,
            req.group_id,
            user_id,
        ) && first_activity(t.activities, req.id, req.group_id) is Some
            && t.activities[first_activity(
            t.activities,
            req.id,
            req.group_id,
        )->0].paid_by_id != user_id ==> update_fault(t, user_id, req) == Some(update_refused()),
{
    lemma_refusals_differ();
}

/// Only the user who paid for an activity can delete it. A deletion goes
/// through only for the payer. For any other user it fails: as refused, if
/// the request passes its check and the user belongs to the group; and
/// whenever it is reported as refused, the user is not the payer.
pub proof fn lemma_only_payer_deletes(t: Tables, user_id: u128, req: DeleteActivityReq)
    ensures
        delete_fault(t, user_id, req) is None ==> first_activity(
            t.activities,
            req.activity_id,
            req.group_id,
        ) is Some && t.activities[first_activity(
            t.activities,
            req.activity_id,
            req.group_id,
        )->0].paid_by_id == user_id,
        first_activity(t.activities, req.activity_id, req.group_id) is Some
            && t.activities[first_activity(
            t.activities,
            req.activity_id,
            req.group_id,
        )->0].paid_by_id != user_id ==> delete_fault(t, user_id, req) is Some,
        delete_fault(t, user_id, req) == Some(delete_refused()) ==> first_activity(
            t.activities,
            req.activity_id,
            req.group_id,
        ) is Some && t.activities[first_activity(
            t.activities,
            req.activity_id,
            req.group_id,
        )->0].paid_by_id != user_id,
        req.verdict() is Ok && has_group(t.groups, req.group_id) && in_group(
            t,
            req.group_id,
            user_id,
        ) && first_activity(t.activities, req.activity_id, req.group_id) is Some
            && t.activities[first_activity(
            t.activities,
            req.activity_id,
            req.group_id,
        )->0].paid_by_id != user_id ==> delete_fault(t, user_id, req) == Some(delete_refused()),
{
    lemma_refusals_differ();
}

/// A refusal for want of being the payer is no other failure.
proof fn lemma_refusals_differ()
    ensures
        update_refused() is Unauthorized,
        delete_refused() is Unauthorized,
{
}

/// A member who is taken out of a group has no membership in it afterwards,
/// and the memberships of all others are as they were.
pub proof fn lemma_removed_member_is_gone(
    t: Tables,
    user_id: u128,
    req: RemoveGroupMemberReq,
    now: i64,
)
    requires
        remove_fault(t, user_id, req) is None,
    ensures
        !has_member(after_remove(t, user_id, req, now).group_members, req.group_id, req.member_id),
        forall|m: Model|
            #[trigger] after_remove(t, user_id, req, now).group_members.contains(m)
                <==> t.group_members.contains(m) && !(m.group_id == req.group_id && m.member_id
                == req.member_id),
{
    lemma_without_member(t.group_members, req.group_id, req.member_id);
}

/// When the admin of a group leaves and the group has another member, the
/// group gets a new admin: the one among the remaining members who joined
/// first. The admin's own memberships are gone.
pub proof fn lemma_admin_succession(t: Tables, user_id: u128, req: RemoveGroupMemberReq, now: i64)
    requires
        remove_fault(t, user_id, req) is None,
        req.member_id == user_id,
        exists|j: int|
            0 <= j < t.group_members.len() && is_other(
                #[trigger] t.group_members[j],
                req.group_id,
                user_id,
            ),
    ensures
        removal(t, user_id, req) == Removal::AdminTransferred,
        ({
            let next = successor(t.group_members, req.group_id, user_id)->0;
            let after = after_remove(t, user_id, req, now);
            &&& next.group_id == req.group_id
            &&& next.member_id != user_id
            &&& after.group_members.contains(next)
            &&& !has_member(after.group_members, req.group_id, user_id)
            &&& has_group(after.groups, req.group_id)
            &&& forall|i: int|
                0 <= i < after.groups.len() && (#[trigger] after.groups[i]).id == req.group_id
                    ==> after.groups[i].creator_id == next.member_id
            &&& forall|k: int|
                0 <= k < after.group_members.len() && (#[trigger] after.group_members[k]).group_id
                    == req.group_id ==> next.joined_at <= after.group_members[k].joined_at
        }),
{
    let rows = t.group_members;
    lemma_successor_is_earliest(rows, req.group_id, user_id);
    lemma_without_member(rows, req.group_id, user_id);
    let next = successor(rows, req.group_id, user_id)->0;
    let after = after_remove(t, user_id, req, now);
    assert(after.group_members == without_member(rows, req.group_id, user_id));
    assert(after.group_members.contains(next));
    let g = choose|g: int| 0 <= g < t.groups.len() && (#[trigger] t.groups[g]).id == req.group_id;
    assert(after.groups[g].id == req.group_id);
    assert forall|k: int|
        0 <= k < after.group_members.len() && (#[trigger] after.group_members[k]).group_id
            == req.group_id implies next.joined_at <= after.group_members[k].joined_at by {
        let m = after.group_members[k];
        assert(after.group_members.contains(m));
        assert(rows.contains(m));
        let j = choose|j: int| 0 <= j < rows.len() && rows[j] == m;
        assert(is_other(rows[j], req.group_id, user_id));
    }
}

/// When the admin of a group leaves and the group has no other member, the
/// admin's memberships are taken out, and the group stays as it is.
pub proof fn lemma_last_member_leaves(t: Tables, user_id: u128, req: RemoveGroupMemberReq, now: i64)
    requires
        req.verdict() is Ok,
        has_admin(t.groups, req.group_id, user_id),
        req.member_id == user_id,
        forall|j: int|
            0 <= j < t.group_members.len() ==> !is_other(
                #[trigger] t.group_members[j],
                req.group_id,
                user_id,
            ),
    ensures
        remove_fault(t, user_id, req) is None,
        removal(t, user_id, req) == Removal::LastMemberLeft,
        after_remove(t, user_id, req, now).groups == t.groups,
        !has_member(after_remove(t, user_id, req, now).group_members, req.group_id, user_id),
{
    lemma_successor_is_earliest(t.group_members, req.group_id, user_id);
    lemma_without_member(t.group_members, req.group_id, user_id);
    let g = choose|g: int|
        0 <= g < t.groups.len() && (#[trigger] t.groups[g]).id == req.group_id
            && t.groups[g].creator_id == user_id;
    assert(t.groups[g].id == req.group_id);
}

/// Once the admin has handed a group over, the former admin can take no
/// member out of it.
pub proof fn lemma_former_admin_is_refused(
    t: Tables,
    user_id: u128,
    req: RemoveGroupMemberReq,
    now: i64,
    later: RemoveGroupMemberReq,
)
    requires
        remove_fault(t, user_id, req) is None,
        removal(t, user_id, req) == Removal::AdminTransferred,
        later.group_id == req.group_id,
        later.verdict() is Ok,
    ensures
        remove_fault(after_remove(t, user_id, req, now), user_id, later) == Some(not_admin()),
{
    let rows = t.group_members;
    lemma_successor_is_earliest(rows, req.group_id, user_id);
    let next = successor(rows, req.group_id, user_id)->0;
    let after = after_remove(t, user_id, req, now);
    let g = choose|g: int| 0 <= g < t.groups.len() && (#[trigger] t.groups[g]).id == req.group_id;
    assert(after.groups[g].id == req.group_id);
    if has_admin(after.groups, req.group_id, user_id) {
        let i = choose|i: int|
            0 <= i < after.groups.len() && (#[trigger] after.groups[i]).id == req.group_id
                && after.groups[i].creator_id == user_id;
        assert(after.groups[i].creator_id == next.member_id);
    }
}

} // verus!
