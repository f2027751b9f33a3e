//! The request to create a group, its check, and the response that shows a
//! group together with the membership of its admin.

use crate::custom_errors::app::{outcome, AppError, Failure};
use crate::entities::activities::text_of;
use crate::entities::{group_members, groups};
use crate::models::activities::kept_logo;
use crate::money::Money;
use crate::text::{blank, is_blank};
use vstd::prelude::*;

verus! {

/// A request to create a group. Its admin is the user who sends it.
#[derive(Debug)]
pub struct CreateGroupReq {
    pub group_name: String,
    pub auto_logo: Option<String>,
}

/// A request to create a group, as a value.
pub struct CreateGroup {
    pub group_name: Seq<char>,
    pub auto_logo: Option<Seq<char>>,
}

impl View for CreateGroupReq {
    type V = CreateGroup;

    open spec fn view(&self) -> CreateGroup {
        CreateGroup { group_name: self.group_name@, auto_logo: text_of(self.auto_logo) }
    }
}

impl CreateGroup {
    /// What the check of the request comes to.
    pub open spec fn verdict(self) -> Result<(), Failure> {
        if blank(self.group_name) {
            Err(Failure::Validation("Group Name cannot be empty"@))
        } else {
            Ok(())
        }
    }

    /// The request as the check leaves it: once a name is there, a blank logo
    /// is dropped.
    pub open spec fn checked(self) -> CreateGroup {
        if blank(self.group_name) {
            self
        } else {
            CreateGroup { auto_logo: kept_logo(self.auto_logo), ..self }
        }
    }
}

impl CreateGroupReq {
    pub fn new(group_name: String, auto_logo: Option<String>) -> (r: Self)
        ensures
            r.group_name == group_name,
            r.auto_logo == auto_logo,
    {
        Self { group_name, auto_logo }
    }

    /// Checks the request, and drops a blank logo from it.
    pub fn check(&mut self) -> (r: Result<(), AppError>)
        ensures
            outcome(r) == old(self)@.verdict(),
            final(self)@ == old(self)@.checked(),
    {
        if is_blank(self.group_name.as_str()) {
            return Err(AppError::validation("Group Name cannot be empty"));
        }
        let drop_logo = match &self.auto_logo {
            Some(logo) => is_blank(logo.as_str()),
            None => false,
        };
        if drop_logo {
            self.auto_logo = None;
        }
        Ok(())
    }
}

/// A group as a response shows it, with the membership of its admin.
#[derive(Debug)]
pub struct GroupRes {
    pub id: u128,
    pub creator_id: u128,
    pub group_name: String,
    pub auto_logo: Option<String>,
    pub total_expense: Money,
    pub created_at: i64,
    pub updated_at: i64,
    /// The identifier of the admin's membership.
    pub admin_id: u128,
    /// The moment the admin joined.
    pub joined_at: i64,
}

/// A group together with the membership of its admin, as a value.
pub struct GroupSummary {
    pub group: groups::Group,
    pub admin_id: u128,
    pub joined_at: i64,
}

impl View for GroupRes {
    type V = GroupSummary;

    open spec fn view(&self) -> GroupSummary {
        GroupSummary {
            group: groups::Group {
                id: self.id,
                creator_id: self.creator_id,
                group_name: self.group_name@,
                auto_logo: text_of(self.auto_logo),
                total_expense: self.total_expense,
                created_at: self.created_at,
                updated_at: self.updated_at,
            },
            admin_id: self.admin_id,
            joined_at: self.joined_at,
        }
    }
}

impl GroupRes {
    pub fn new(
        id: u128,
        creator_id: u128,
        group_name: String,
        auto_logo: Option<String>,
        total_expense: Money,
        created_at: i64,
        updated_at: i64,
        admin_id: u128,
        joined_at: i64,
    ) -> (r: Self)
        ensures
            r == (GroupRes {
                id,
                creator_id,
                group_name,
                auto_logo,
                total_expense,
                created_at,
                updated_at,
                admin_id,
                joined_at,
            }),
    {
        Self {
            id,
            creator_id,
            group_name,
            auto_logo,
            total_expense,
            created_at,
            updated_at,
            admin_id,
            joined_at,
        }
    }
}

impl From<(groups::Model, group_members::Model)> for GroupRes {
    fn from(pair: (groups::Model, group_members::Model)) -> (r: Self) {
        let (group, admin) = pair;
        Self {
            id: group.id,
            creator_id: group.creator_id,
            group_name: group.group_name,
            auto_logo: group.auto_logo,
            total_expense: group.total_expense,
            created_at: group.created_at,
            updated_at: group.updated_at,
            admin_id: admin.id,
            joined_at: admin.joined_at,
        }
    }
}

impl vstd::std_specs::convert::FromSpecImpl<(groups::Model, group_members::Model)> for GroupRes {
    open spec fn obeys_from_spec() -> bool {
        true
    }

    open spec fn from_spec(pair: (groups::Model, group_members::Model)) -> Self {
        GroupRes {
            id: pair.0.id,
            creator_id: pair.0.creator_id,
            group_name: pair.0.group_name,
            auto_logo: pair.0.auto_logo,
            total_expense: pair.0.total_expense,
            created_at: pair.0.created_at,
            updated_at: pair.0.updated_at,
            admin_id: pair.1.id,
            joined_at: pair.1.joined_at,
        }
    }
}

} // verus!
