//! The requests on the members of a group: take users into it, and take a
//! member out of it, which hands the group to another admin if it is the
//! admin who leaves.

use crate::clock::now;
use crate::controllers::activities_controller::{group_missing, not_in_group};
use crate::custom_errors::app::{AppError, Failure};
use crate::entities::group_members::Model;
use crate::entities::groups;
use crate::ids::new_id;
use crate::ledger::{group_rows, has_admin, has_group, has_member, in_group, Ledger, Tables};
use crate::membership::{
    admitted, enrolled, joined, successor, with_admin, without_member,
};
use crate::models::group_members::{
    rows_of, AddGroupMemberReq, AddGroupMemberRes, RemoveGroupMemberReq,
};
use crate::request_verifier::groups::{
    check_group_exists, check_user_exists_in_group, is_admin, is_member,
};
use vstd::prelude::*;

verus! {

/// How a member left a group.
#[derive(Clone, Copy, Debug, PartialEq, Eq, Structural)]
pub enum Removal {
    /// The admin left, and another member is the admin now.
    AdminTransferred,
    /// The admin left, and no other member was there to take over.
    LastMemberLeft,
    /// A member other than the admin was taken out.
    MemberRemoved,
}

impl Removal {
    /// What the response says.
    pub open spec fn spec_message(self) -> Seq<char> {
        match self {
            Removal::AdminTransferred => "Admin privileges transferred and removed from group successfully"@,
            Removal::LastMemberLeft => "Last member has left group"@,
            Removal::MemberRemoved => "Removed from group successfully"@,
        }
    }

    /// What the response says.
    pub fn message(&self) -> (text: &'static str)
        ensures
            text@ == self.spec_message(),
    {
        match self {
            Removal::AdminTransferred => "Admin privileges transferred and removed from group successfully",
            Removal::LastMemberLeft => "Last member has left group",
            Removal::MemberRemoved => "Removed from group successfully",
        }
    }
}

/// What answers a user who asks to take out a member without being the admin.
pub open spec fn not_admin() -> Failure {
    Failure::Unauthorized("Only group admin can remove members"@)
}

/// Why users cannot be taken into a group. The first rule that is broken
/// decides: the request itself, the group, and the place in it of the user
/// who asks.
pub open spec fn add_fault(t: Tables, user_id: u128, req: AddGroupMemberReq) -> Option<Failure> {
    match req.verdict() {
        Err(e) => Some(e),
        Ok(_) => if !has_group(t.groups, req.group_id) {
            Some(group_missing())
        } else if !in_group(t, req.group_id, user_id) {
            Some(not_in_group())
        } else {
            None
        },
    }
}

/// Why users cannot be taken into a group under the identifiers given: for
/// one of the reasons above, or because there are fewer identifiers than
/// candidates.
pub open spec fn add_fault_given(
    t: Tables,
    user_id: u128,
    req: AddGroupMemberReq,
    ids: Seq<u128>,
) -> Option<Failure> {
    match add_fault(t, user_id, req) {
        Some(f) => Some(f),
        None => if ids.len() < req.member_ids@.len() {
            Some(Failure::Internal)
        } else {
            None
        },
    }
}

/// Takes into a group, at the given moment, each candidate that passes the
/// check for existence and does not belong to the group yet. The others are
/// passed over. A candidate who is taken in gets the identifier that stands
/// at the candidate's place among the identifiers given. The response shows
/// the new memberships, in the order of the candidates.
pub fn add_members(
    ledger: &mut Ledger,
    user_id: u128,
    payload: &AddGroupMemberReq,
    ids: &Vec<u128>,
    now: i64,
) -> (r: Result<AddGroupMemberRes, AppError>)
    ensures
        match r {
            Ok(res) => {
                &&& add_fault_given(old(ledger)@, user_id, *payload, ids@) is None
                &&& rows_of(res.new_group_members@) == enrolled(
                    old(ledger)@,
                    payload.group_id,
                    payload.member_ids@,
                    ids@,
                    now,
                    payload.member_ids@.len(),
                )
                &&& final(ledger)@ == (Tables {
                    group_members: old(ledger)@.group_members + rows_of(res.new_group_members@),
                    ..old(ledger)@
                })
                &&& joined(
                    rows_of(res.new_group_members@),
                    payload.group_id,
                    admitted(
                        old(ledger)@,
                        payload.group_id,
                        payload.member_ids@,
                        payload.member_ids@.len(),
                    ),
                    now,
                )
            },
            Err(e) => add_fault_given(old(ledger)@, user_id, *payload, ids@) == Some(e@)
                && final(ledger)@ == old(ledger)@,
        },
{
    match payload.check() {
        Ok(_) => {},
        Err(e) => {
            return Err(e);
        },
    }
    let group_id = payload.group_id;
    match check_group_exists(ledger, group_id) {
        Ok(_) => {},
        Err(e) => {
            return Err(e);
        },
    }
    match check_user_exists_in_group(ledger, group_id, user_id) {
        Ok(_) => {},
        Err(e) => {
            return Err(e);
        },
    }
    if ids.len() < payload.member_ids.len() {
        return Err(AppError::InternalServerError);
    }
    let ghost before = old(ledger)@;
    let mut added: Vec<Model> = Vec::new();
    let mut i: usize = 0;
    while i < payload.member_ids.len()
        invariant
            i <= payload.member_ids.len() <= ids.len(),
            group_id == payload.group_id,
            before == old(ledger)@,
            ledger@ == (Tables { group_members: before.group_members + added@, ..before }),
            added@ == enrolled(before, group_id, payload.member_ids@, ids@, now, i as nat),
            joined(
                added@,
                group_id,
                admitted(before, group_id, payload.member_ids@, i as nat),
                now,
            ),
        decreases payload.member_ids.len() - i,
    {
        let candidate = payload.member_ids[i];
        let ghost earlier = admitted(before, group_id, payload.member_ids@, i as nat);
        let exists = check_group_exists(ledger, candidate).is_ok();
        let inside = is_member(ledger, group_id, candidate) || is_admin(
            ledger,
            group_id,
            candidate,
        );
        proof {
            let current = ledger@.group_members;
            if has_member(current, group_id, candidate) {
                let k = choose|k: int|
                    0 <= k < current.len() && (#[trigger] current[k]).group_id == group_id
                        && current[k].member_id == candidate;
                if k < before.group_members.len() {
                    assert(before.group_members[k].group_id == group_id);
                } else {
                    let j = k - before.group_members.len();
                    assert(added@[j].member_id == earlier[j]);
                    assert(earlier.contains(candidate));
                }
            }
            if has_member(before.group_members, group_id, candidate) {
                let k = choose|k: int|
                    0 <= k < before.group_members.len() && (
                    #[trigger] before.group_members[k]).group_id == group_id
                        && before.group_members[k].member_id == candidate;
                assert(current[k].group_id == group_id);
            }
            if earlier.contains(candidate) {
                let j = choose|j: int| 0 <= j < earlier.len() && earlier[j] == candidate;
                assert(added@[j].group_id == group_id);
                assert(current[before.group_members.len() + j].group_id == group_id);
            }
            assert(inside == (in_group(before, group_id, candidate) || earlier.contains(
                candidate,
            )));
        }
        if exists && !inside {
            let row = Model { id: ids[i], group_id, member_id: candidate, joined_at: now };
            ledger.group_members.push(row);
            added.push(row);
            proof {
                assert(ledger@.group_members =~= before.group_members + added@);
            }
        }
        i += 1;
    }
    let response = AddGroupMemberRes::of(&added);
    Ok(response)
}

/// Takes candidates into a group at the present moment. One fresh identifier
/// is drawn for each candidate; those of the candidates who are taken in are
/// the identifiers of the new memberships.
pub fn add_member_to_group(ledger: &mut Ledger, user_id: u128, payload: &AddGroupMemberReq) -> (r:
    Result<AddGroupMemberRes, AppError>)
    ensures
        match r {
            Ok(res) => {
                &&& add_fault(old(ledger)@, user_id, *payload) is None
                &&& final(ledger)@ == (Tables {
                    group_members: old(ledger)@.group_members + rows_of(res.new_group_members@),
                    ..old(ledger)@
                })
                &&& exists|ids: Seq<u128>, now: i64|
                    ids.len() == payload.member_ids@.len() && rows_of(res.new_group_members@)
                        == #[trigger] enrolled(
                        old(ledger)@,
                        payload.group_id,
                        payload.member_ids@,
                        ids,
                        now,
                        payload.member_ids@.len(),
                    )
                &&& exists|now: i64| #[trigger]
                    joined(
                        rows_of(res.new_group_members@),
                        payload.group_id,
                        admitted(
                            old(ledger)@,
                            payload.group_id,
                            payload.member_ids@,
                            payload.member_ids@.len(),
                        ),
                        now,
                    )
            },
            Err(e) => add_fault(old(ledger)@, user_id, *payload) == Some(e@) && final(ledger)@
                == old(ledger)@,
        },
{
    let mut ids: Vec<u128> = Vec::new();
    let mut i: usize = 0;
    while i < payload.member_ids.len()
        invariant
            i <= payload.member_ids.len(),
            ids.len() == i,
        decreases payload.member_ids.len() - i,
    {
        ids.push(new_id());
        i += 1;
    }
    let moment = now();
    add_members(ledger, user_id, payload, &ids, moment)
}

/// The membership of the one who is to follow the admin of a group.
pub fn find_successor(ledger: &Ledger, group_id: u128, admin_id: u128) -> (r: Option<Model>)
    ensures
        r == successor(ledger@.group_members, group_id, admin_id),
{
    let mut best: Option<Model> = None;
    let mut i: usize = 0;
    while i < ledger.group_members.len()
        invariant
            i <= ledger.group_members.len(),
            best == successor(ledger@.group_members.take(i as int), group_id, admin_id),
        decreases ledger.group_members.len() - i,
    {
        proof {
            assert(ledger@.group_members.take(i + 1).drop_last() == ledger@.group_members.take(
                i as int,
            ));
        }
        let row = ledger.group_members[i];
        if row.group_id == group_id && row.member_id != admin_id {
            best = match best {
                Some(b) => if row.joined_at < b.joined_at {
                    Some(row)
                } else {
                    Some(b)
                },
                None => Some(row),
            };
        }
        i += 1;
    }
    proof {
        assert(ledger@.group_members.take(i as int) == ledger@.group_members);
    }
    best
}

/// Takes the memberships of a user in a group out of the rows.
fn remove_rows(rows: &mut Vec<Model>, group_id: u128, user_id: u128)
    ensures
        final(rows)@ == without_member(old(rows)@, group_id, user_id),
{
    let mut kept: Vec<Model> = Vec::new();
    let mut i: usize = 0;
    while i < rows.len()
        invariant
            i <= rows.len(),
            rows@ == old(rows)@,
            kept@ == without_member(rows@.take(i as int), group_id, user_id),
        decreases rows.len() - i,
    {
        proof {
            assert(rows@.take(i + 1).drop_last() == rows@.take(i as int));
        }
        let row = rows[i];
        if !(row.group_id == group_id && row.member_id == user_id) {
            kept.push(row);
        }
        i += 1;
    }
    proof {
        assert(rows@.take(i as int) == rows@);
    }
    *rows = kept;
}

/// Makes a user the admin in each row of the given group.
fn set_admin(rows: &mut Vec<groups::Model>, group_id: u128, admin_id: u128, now: i64)
    ensures
        group_rows(final(rows)@) == with_admin(group_rows(old(rows)@), group_id, admin_id, now),
{
    let mut i: usize = 0;
    while i < rows.len()
        invariant
            i <= rows.len(),
            rows.len() == old(rows).len(),
            forall|k: int|
                0 <= k < i ==> (#[trigger] rows@[k])@ == with_admin(
                    group_rows(old(rows)@),
                    group_id,
                    admin_id,
                    now,
                )[k],
            forall|k: int| i <= k < rows.len() ==> (#[trigger] rows@[k]) == old(rows)@[k],
        decreases rows.len() - i,
    {
        if rows[i].id == group_id {
            rows[i].creator_id = admin_id;
            rows[i].updated_at = now;
        }
        i += 1;
    }
    proof {
        assert(group_rows(rows@) =~= with_admin(group_rows(old(rows)@), group_id, admin_id, now));
    }
}

/// Why a member cannot be taken out of a group. The first rule that is broken
/// decides: the request itself, the group, the user who asks being its admin,
/// and, for a member other than the admin, the membership being there.
pub open spec fn remove_fault(t: Tables, user_id: u128, req: RemoveGroupMemberReq) -> Option<
    Failure,
> {
    match req.verdict() {
        Err(e) => Some(e),
        Ok(_) => if !has_group(t.groups, req.group_id) {
            Some(group_missing())
        } else if !has_admin(t.groups, req.group_id, user_id) {
            Some(not_admin())
        } else if req.member_id != user_id && !has_member(
            t.group_members,
            req.group_id,
            req.member_id,
        ) {
            Some(Failure::NotFound("Group member not found"@))
        } else {
            None
        },
    }
}

/// How a member leaves: the admin hands over to the one who follows, or
/// leaves as the last; any other member is taken out.
pub open spec fn removal(t: Tables, user_id: u128, req: RemoveGroupMemberReq) -> Removal {
    if req.member_id == user_id {
        if successor(t.group_members, req.group_id, user_id) is Some {
            Removal::AdminTransferred
        } else {
            Removal::LastMemberLeft
        }
    } else {
        Removal::MemberRemoved
    }
}

/// The ledger after a member left: the memberships of the member in the
/// group are gone, and where the admin handed over, the group has its new
/// admin. The group itself stays, also when its last member has left.
pub open spec fn after_remove(
    t: Tables,
    user_id: u128,
    req: RemoveGroupMemberReq,
    now: i64,
) -> Tables {
    let members = without_member(t.group_members, req.group_id, req.member_id);
    match removal(t, user_id, req) {
        Removal::AdminTransferred => Tables {
            groups: with_admin(
                t.groups,
                req.group_id,
                successor(t.group_members, req.group_id, user_id)->0.member_id,
                now,
            ),
            group_members: members,
            ..t
        },
        _ => Tables { group_members: members, ..t },
    }
}

/// Takes a member out of a group at the given moment. Only the admin of the
/// group may do so. If the admin is the one to leave, the member who joined
/// first among the others becomes the admin.
pub fn remove_member(ledger: &mut Ledger, user_id: u128, payload: RemoveGroupMemberReq, now: i64) -> (r:
    Result<Removal, AppError>)
    ensures
        match r {
            Ok(how) => remove_fault(old(ledger)@, user_id, payload) is None && how == removal(
                old(ledger)@,
                user_id,
                payload,
            ) && final(ledger)@ == after_remove(old(ledger)@, user_id, payload, now),
            Err(e) => remove_fault(old(ledger)@, user_id, payload) == Some(e@) && final(ledger)@
                == old(ledger)@,
        },
{
    match payload.check() {
        Ok(_) => {},
        Err(e) => {
            return Err(e);
        },
    }
    let group_id = payload.group_id;
    match check_group_exists(ledger, group_id) {
        Ok(_) => {},
        Err(e) => {
            return Err(e);
        },
    }
    if !is_admin(ledger, group_id, user_id) {
        return Err(AppError::unauthorized("Only group admin can remove members"));
    }
    if payload.member_id == user_id {
        match find_successor(ledger, group_id, user_id) {
            Some(next) => {
                set_admin(&mut ledger.groups, group_id, next.member_id, now);
                remove_rows(&mut ledger.group_members, group_id, user_id);
                Ok(Removal::AdminTransferred)
            },
            None => {
                remove_rows(&mut ledger.group_members, group_id, user_id);
                Ok(Removal::LastMemberLeft)
            },
        }
    } else {
        if !is_member(ledger, group_id, payload.member_id) {
            return Err(AppError::not_found("Group member not found"));
        }
        remove_rows(&mut ledger.group_members, group_id, payload.member_id);
        Ok(Removal::MemberRemoved)
    }
}

/// Takes a member out of a group at the present moment.
pub fn remove_group_member(ledger: &mut Ledger, user_id: u128, payload: RemoveGroupMemberReq) -> (r:
    Result<Removal, AppError>)
    ensures
        match r {
            Ok(how) => remove_fault(old(ledger)@, user_id, payload) is None && how == removal(
                old(ledger)@,
                user_id,
                payload,
            ) && exists|now: i64|
                final(ledger)@ == #[trigger] after_remove(old(ledger)@, user_id, payload, now),
            Err(e) => remove_fault(old(ledger)@, user_id, payload) == Some(e@) && final(ledger)@
                == old(ledger)@,
        },
{
    let moment = now();
    remove_member(ledger, user_id, payload, moment)
}

} // verus!
