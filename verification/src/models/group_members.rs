//! The requests on the members of a group, the checks that each must pass,
//! and the responses.

use crate::custom_errors::app::{outcome, AppError, Failure};
use crate::entities::group_members::Model;
use crate::ids::NIL;
use vstd::prelude::*;

verus! {

/// A request to take users into a group.
#[derive(Debug)]
pub struct AddGroupMemberReq {
    pub group_id: u128,
    pub member_ids: Vec<u128>,
}

impl AddGroupMemberReq {
    pub fn new(group_id: u128, member_ids: Vec<u128>) -> (r: Self)
        ensures
            r.group_id == group_id,
            r.member_ids == member_ids,
    {
        Self { group_id, member_ids }
    }

    /// What the check of the request comes to.
    pub open spec fn verdict(self) -> Result<(), Failure> {
        if self.group_id == NIL {
            Err(Failure::Validation("Group Id cannot be empty"@))
        } else if self.member_ids@.len() == 0 {
            Err(Failure::Validation("Member Ids cannot be empty"@))
        } else {
            Ok(())
        }
    }

    /// Checks the request.
    pub fn check(&self) -> (r: Result<(), AppError>)
        ensures
            outcome(r) == self.verdict(),
    {
        if self.group_id == NIL {
            return Err(AppError::validation("Group Id cannot be empty"));
        }
        if self.member_ids.len() == 0 {
            return Err(AppError::validation("Member Ids cannot be empty"));
        }
        Ok(())
    }
}

/// A request to take a member out of a group.
#[derive(Clone, Copy, Debug, PartialEq, Eq, Structural)]
pub struct RemoveGroupMemberReq {
    pub group_id: u128,
    pub member_id: u128,
}

impl RemoveGroupMemberReq {
    /// What the check of the request comes to.
    pub open spec fn verdict(self) -> Result<(), Failure> {
        if self.group_id == NIL {
            Err(Failure::Validation("Group Id cannot be empty"@))
        } else if self.member_id == NIL {
            Err(Failure::Validation("Member Id cannot be empty"@))
        } else {
            Ok(())
        }
    }

    /// Checks the request.
    pub fn check(&self) -> (r: Result<(), AppError>)
        ensures
            outcome(r) == self.verdict(),
    {
        if self.group_id == NIL {
            return Err(AppError::validation("Group Id cannot be empty"));
        }
        if self.member_id == NIL {
            return Err(AppError::validation("Member Id cannot be empty"));
        }
        Ok(())
    }
}

/// A membership as a response shows it.
#[derive(Clone, Copy, Debug, PartialEq, Eq, Structural)]
pub struct GroupMember {
    pub id: u128,
    pub group_id: u128,
    pub member_id: u128,
    pub joined_at: i64,
}

impl GroupMember {
    pub fn new(id: u128, group_id: u128, member_id: u128, joined_at: i64) -> (r: Self)
        ensures
            r == (GroupMember { id, group_id, member_id, joined_at }),
    {
        Self { id, group_id, member_id, joined_at }
    }

    /// The membership that the response shows.
    pub open spec fn row(self) -> Model {
        Model {
            id: self.id,
            group_id: self.group_id,
            member_id: self.member_id,
            joined_at: self.joined_at,
        }
    }
}

impl From<Model> for GroupMember {
    fn from(model: Model) -> (r: Self) {
        Self::new(model.id, model.group_id, model.member_id, model.joined_at)
    }
}

impl vstd::std_specs::convert::FromSpecImpl<Model> for GroupMember {
    open spec fn obeys_from_spec() -> bool {
        true
    }

    open spec fn from_spec(model: Model) -> Self {
        GroupMember {
            id: model.id,
            group_id: model.group_id,
            member_id: model.member_id,
            joined_at: model.joined_at,
        }
    }
}

/// The memberships that a request has added.
#[derive(Debug)]
pub struct AddGroupMemberRes {
    pub new_group_members: Vec<GroupMember>,
}

/// The memberships that a list of responses shows.
pub open spec fn rows_of(members: Seq<GroupMember>) -> Seq<Model> {
    members.map_values(|m: GroupMember| m.row())
}

impl AddGroupMemberRes {
    pub fn new(new_group_members: Vec<GroupMember>) -> (r: Self)
        ensures
            r.new_group_members == new_group_members,
    {
        Self { new_group_members }
    }

    /// The response that shows the given memberships.
    pub fn of(models: &Vec<Model>) -> (r: Self)
        ensures
            rows_of(r.new_group_members@) == models@,
    {
        let mut members: Vec<GroupMember> = Vec::new();
        let mut i: usize = 0;
        while i < models.len()
            invariant
                i <= models.len(),
                members@.len() == i,
                forall|k: int| 0 <= k < i ==> (#[trigger] members@[k]).row() == models@[k],
            decreases models.len() - i,
        {
            members.push(GroupMember::from(models[i]));
            i += 1;
        }
        proof {
            assert(rows_of(members@) =~= models@);
        }
        Self::new(members)
    }
}

} // verus!
