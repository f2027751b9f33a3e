//! The ledger: the users, groups, memberships and activities that the
//! requests read and change, held as four tables.

use crate::entities::activities::Activity;
use crate::entities::groups::Group;
use crate::entities::users::User;
use crate::entities::{activities, group_members, groups, users};
use vstd::prelude::*;

verus! {

/// The four tables that the requests work on.
#[derive(Debug)]
pub struct Ledger {
    pub users: Vec<users::Model>,
    pub groups: Vec<groups::Model>,
    pub group_members: Vec<group_members::Model>,
    pub activities: Vec<activities::Model>,
}

/// The ledger as a value: each table a sequence of rows.
pub struct Tables {
    pub users: Seq<User>,
    pub groups: Seq<Group>,
    pub group_members: Seq<group_members::Model>,
    pub activities: Seq<Activity>,
}

/// The rows of a table of users, as values.
pub open spec fn user_rows(v: Seq<users::Model>) -> Seq<User> {
    v.map_values(|m: users::Model| m@)
}

/// The rows of a table of groups, as values.
pub open spec fn group_rows(v: Seq<groups::Model>) -> Seq<Group> {
    v.map_values(|m: groups::Model| m@)
}

/// The rows of a table of activities, as values.
pub open spec fn activity_rows(v: Seq<activities::Model>) -> Seq<Activity> {
    v.map_values(|m: activities::Model| m@)
}

impl View for Ledger {
    type V = Tables;

    open spec fn view(&self) -> Tables {
        Tables {
            users: user_rows(self.users@),
            groups: group_rows(self.groups@),
            group_members: self.group_members@,
            activities: activity_rows(self.activities@),
        }
    }
}

/// Whether a group with this identifier is among the rows.
pub open spec fn has_group(rows: Seq<Group>, group_id: u128) -> bool {
    exists|i: int| 0 <= i < rows.len() && (#[trigger] rows[i]).id == group_id
}

/// Whether a group with this identifier and this admin is among the rows.
pub open spec fn has_admin(rows: Seq<Group>, group_id: u128, user_id: u128) -> bool {
    exists|i: int|
        0 <= i < rows.len() && (#[trigger] rows[i]).id == group_id && rows[i].creator_id
            == user_id
}

/// Whether the user has a membership in the group.
pub open spec fn has_member(rows: Seq<group_members::Model>, group_id: u128, user_id: u128) -> bool {
    exists|i: int|
        0 <= i < rows.len() && (#[trigger] rows[i]).group_id == group_id && rows[i].member_id
            == user_id
}

/// Whether a membership with this identifier is among the rows.
pub open spec fn has_membership(rows: Seq<group_members::Model>, id: u128) -> bool {
    exists|i: int| 0 <= i < rows.len() && (#[trigger] rows[i]).id == id
}

/// Whether the activity is among the rows, in this group.
pub open spec fn has_activity(rows: Seq<Activity>, activity_id: u128, group_id: u128) -> bool {
    exists|i: int|
        0 <= i < rows.len() && (#[trigger] rows[i]).id == activity_id && rows[i].group_id
            == group_id
}

/// Whether a user with this identifier is among the rows.
pub open spec fn has_user(rows: Seq<User>, user_id: u128) -> bool {
    exists|i: int| 0 <= i < rows.len() && (#[trigger] rows[i]).id == user_id
}

/// Whether the user belongs to the group: as a member, or as its admin, who
/// belongs to it with or without a membership.
pub open spec fn in_group(t: Tables, group_id: u128, user_id: u128) -> bool {
    has_member(t.group_members, group_id, user_id) || has_admin(t.groups, group_id, user_id)
}

/// The place of the first activity with the given identifier in the given
/// group, if there is one.
pub open spec fn first_activity(rows: Seq<Activity>, activity_id: u128, group_id: u128) -> Option<
    int,
>
    decreases rows.len(),
{
    if rows.len() == 0 {
        None
    } else {
        match first_activity(rows.drop_last(), activity_id, group_id) {
            Some(i) => Some(i),
            None => if rows.last().id == activity_id && rows.last().group_id == group_id {
                Some(rows.len() - 1)
            } else {
                None
            },
        }
    }
}

impl Ledger {
    /// A ledger without rows.
    pub fn new() -> (r: Ledger)
        ensures
            r@.users.len() == 0,
            r@.groups.len() == 0,
            r@.group_members.len() == 0,
            r@.activities.len() == 0,
    {
        Ledger {
            users: Vec::new(),
            groups: Vec::new(),
            group_members: Vec::new(),
            activities: Vec::new(),
        }
    }

    /// The place of the first activity with the given identifier in the
    /// given group.
    pub fn find_activity(&self, activity_id: u128, group_id: u128) -> (r: Option<usize>)
        ensures
            match r {
                Some(i) => first_activity(self@.activities, activity_id, group_id) == Some(
                    i as int,
                ),
                None => first_activity(self@.activities, activity_id, group_id) is None,
            },
            r matches Some(i) ==> i < self.activities.len(),
            r is Some <==> has_activity(self@.activities, activity_id, group_id),
    {
        proof {
            lemma_first_activity_is_first(self@.activities, activity_id, group_id);
        }
        let mut i: usize = 0;
        while i < self.activities.len()
            invariant
                i <= self.activities.len(),
                first_activity(self@.activities.take(i as int), activity_id, group_id) is None,
            decreases self.activities.len() - i,
        {
            proof {
                assert(self@.activities.take(i + 1).drop_last() == self@.activities.take(
                    i as int,
                ));
            }
            if self.activities[i].id == activity_id && self.activities[i].group_id == group_id {
                proof {
                    lemma_first_activity_extends(self@.activities, activity_id, group_id, i + 1);
                }
                return Some(i);
            }
            i += 1;
        }
        proof {
            assert(self@.activities.take(i as int) == self@.activities);
        }
        None
    }
}

/// The first activity found among the rows up to a place is the first of all.
pub proof fn lemma_first_activity_extends(
    rows: Seq<Activity>,
    activity_id: u128,
    group_id: u128,
    n: int,
)
    requires
        0 <= n <= rows.len(),
        first_activity(rows.take(n), activity_id, group_id) is Some,
    ensures
        first_activity(rows, activity_id, group_id) == first_activity(
            rows.take(n),
            activity_id,
            group_id,
        ),
    decreases rows.len() - n,
{
    if n < rows.len() {
        assert(rows.take(n + 1).drop_last() == rows.take(n));
        lemma_first_activity_extends(rows, activity_id, group_id, n + 1);
    } else {
        assert(rows.take(n) == rows);
    }
}

/// Where a first activity is found, it has the identifier and the group, and
/// no row before it has both; where none is found, no row has both.
pub proof fn lemma_first_activity_is_first(rows: Seq<Activity>, activity_id: u128, group_id: u128)
    ensures
        match first_activity(rows, activity_id, group_id) {
            Some(i) => 0 <= i < rows.len() && rows[i].id == activity_id && rows[i].group_id
                == group_id && forall|j: int|
                0 <= j < i ==> !((#[trigger] rows[j]).id == activity_id && rows[j].group_id
                    == group_id),
            None => forall|j: int|
                0 <= j < rows.len() ==> !((#[trigger] rows[j]).id == activity_id
                    && rows[j].group_id == group_id),
        },
        first_activity(rows, activity_id, group_id) is Some <==> has_activity(
            rows,
            activity_id,
            group_id,
        ),
    decreases rows.len(),
{
    if rows.len() > 0 {
        lemma_first_activity_is_first(rows.drop_last(), activity_id, group_id);
        assert forall|j: int| 0 <= j < rows.len() - 1 implies rows[j] == rows.drop_last()[j] by {}
    }
}

} // verus!
