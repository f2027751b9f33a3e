//! A group of users who share expenses, with the running total of what the
//! group has spent.

use crate::entities::activities::{copy_text, text_of};
use crate::money::Money;
use vstd::prelude::*;

verus! {

/// A row of the table of groups.
#[derive(Debug)]
pub struct Model {
    pub id: u128,
    pub creator_id: u128,
    pub group_name: String,
    pub auto_logo: Option<String>,
    pub total_expense: Money,
    pub created_at: i64,
    pub updated_at: i64,
}

/// A group as a value.
pub struct Group {
    pub id: u128,
    pub creator_id: u128,
    pub group_name: Seq<char>,
    pub auto_logo: Option<Seq<char>>,
    pub total_expense: Money,
    pub created_at: i64,
    pub updated_at: i64,
}

impl View for Model {
    type V = Group;

    open spec fn view(&self) -> Group {
        Group {
            id: self.id,
            creator_id: self.creator_id,
            group_name: self.group_name@,
            auto_logo: text_of(self.auto_logo),
            total_expense: self.total_expense,
            created_at: self.created_at,
            updated_at: self.updated_at,
        }
    }
}

impl Model {
    /// A copy of the group.
    pub fn duplicate(&self) -> (r: Model)
        ensures
            r@ == self@,
    {
        Model {
            id: self.id,
            creator_id: self.creator_id,
            group_name: self.group_name.clone(),
            auto_logo: copy_text(&self.auto_logo),
            total_expense: self.total_expense,
            created_at: self.created_at,
            updated_at: self.updated_at,
        }
    }
}

} // verus!
