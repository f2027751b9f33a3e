//! The requests on groups: create one, and list those that a user is the
//! admin of.

use crate::clock::now;
use crate::custom_errors::app::{AppError, Failure};
use crate::entities::group_members;
use crate::entities::groups::{Group, Model};
use crate::ids::new_id;
use crate::ledger::{group_rows, Ledger, Tables};
use crate::models::activities::kept_logo;
use crate::models::groups::{CreateGroup, CreateGroupReq, GroupRes, GroupSummary};
use crate::money::Money;
use vstd::prelude::*;

verus! {

/// The group that a request creates for a user, with nothing spent yet.
pub open spec fn founded(user_id: u128, req: CreateGroup, id: u128, now: i64) -> Group {
    Group {
        id,
        creator_id: user_id,
        group_name: req.group_name,
        auto_logo: kept_logo(req.auto_logo),
        total_expense: Money::spec_zero(),
        created_at: now,
        updated_at: now,
    }
}

/// The membership with which the founder of a group joins it.
pub open spec fn founding_membership(
    user_id: u128,
    group_id: u128,
    membership_id: u128,
    now: i64,
) -> group_members::Model {
    group_members::Model { id: membership_id, group_id, member_id: user_id, joined_at: now }
}

/// The ledger after a group is created: the group is the last of the groups,
/// and the membership of its founder the last of the memberships.
pub open spec fn after_create_group(
    t: Tables,
    user_id: u128,
    req: CreateGroup,
    group_id: u128,
    membership_id: u128,
    now: i64,
) -> Tables {
    Tables {
        groups: t.groups.push(founded(user_id, req, group_id, now)),
        group_members: t.group_members.push(
            founding_membership(user_id, group_id, membership_id, now),
        ),
        ..t
    }
}

/// Creates a group at the given moment. The user becomes its admin and its
/// first member; the identifiers of the group and of that membership are
/// given.
pub fn create_group(
    ledger: &mut Ledger,
    user_id: u128,
    payload: CreateGroupReq,
    group_id: u128,
    membership_id: u128,
    now: i64,
) -> (r: Result<GroupRes, AppError>)
    ensures
        match r {
            Ok(res) => payload@.verdict() is Ok && final(ledger)@ == after_create_group(
                old(ledger)@,
                user_id,
                payload@,
                group_id,
                membership_id,
                now,
            ) && res@ == (GroupSummary {
                group: founded(user_id, payload@, group_id, now),
                admin_id: membership_id,
                joined_at: now,
            }),
            Err(e) => payload@.verdict() == Err::<(), Failure>(e@) && final(ledger)@ == old(
                ledger,
            )@,
        },
{
    let mut payload = payload;
    match payload.check() {
        Ok(_) => {},
        Err(e) => {
            return Err(e);
        },
    }
    let group = Model {
        id: group_id,
        creator_id: user_id,
        group_name: payload.group_name,
        auto_logo: payload.auto_logo,
        total_expense: Money::zero(),
        created_at: now,
        updated_at: now,
    };
    let membership = group_members::Model {
        id: membership_id,
        group_id,
        member_id: user_id,
        joined_at: now,
    };
    let response = GroupRes::from((group.duplicate(), membership));
    let ghost row = group@;
    ledger.groups.push(group);
    ledger.group_members.push(membership);
    proof {
        assert(ledger@.groups =~= old(ledger)@.groups.push(row));
    }
    Ok(response)
}

/// Creates a group at the present moment, under fresh identifiers. The user
/// becomes its admin and its first member.
pub fn create_group_handler(ledger: &mut Ledger, user_id: u128, payload: CreateGroupReq) -> (r:
    Result<GroupRes, AppError>)
    ensures
        match r {
            Ok(res) => payload@.verdict() is Ok && final(ledger)@ == after_create_group(
                old(ledger)@,
                user_id,
                payload@,
                res.id,
                res.admin_id,
                res.created_at,
            ) && res@ == (GroupSummary {
                group: founded(user_id, payload@, res.id, res.created_at),
                admin_id: res.admin_id,
                joined_at: res.created_at,
            }),
            Err(e) => payload@.verdict() == Err::<(), Failure>(e@) && final(ledger)@ == old(
                ledger,
            )@,
        },
{
    let group_id = new_id();
    let membership_id = new_id();
    let moment = now();
    create_group(ledger, user_id, payload, group_id, membership_id, moment)
}

/// The groups that a user is the admin of, in the order of the rows.
pub open spec fn groups_of(rows: Seq<Group>, user_id: u128) -> Seq<Group>
    decreases rows.len(),
{
    if rows.len() == 0 {
        Seq::empty()
    } else if rows.last().creator_id == user_id {
        groups_of(rows.drop_last(), user_id).push(rows.last())
    } else {
        groups_of(rows.drop_last(), user_id)
    }
}

/// Lists the groups that the user is the admin of.
pub fn get_all_groups_handler(ledger: &Ledger, user_id: u128) -> (r: Vec<Model>)
    ensures
        group_rows(r@) == groups_of(ledger@.groups, user_id),
{
    let mut list: Vec<Model> = Vec::new();
    let mut i: usize = 0;
    while i < ledger.groups.len()
        invariant
            i <= ledger.groups.len(),
            group_rows(list@) == groups_of(ledger@.groups.take(i as int), user_id),
        decreases ledger.groups.len() - i,
    {
        proof {
            assert(ledger@.groups.take(i + 1).drop_last() == ledger@.groups.take(i as int));
        }
        if ledger.groups[i].creator_id == user_id {
            let ghost shorter = group_rows(list@);
            list.push(ledger.groups[i].duplicate());
            proof {
                assert(group_rows(list@) =~= shorter.push(ledger@.groups[i as int]));
            }
        }
        i += 1;
    }
    proof {
        assert(ledger@.groups.take(i as int) == ledger@.groups);
    }
    list
}

} // verus!
