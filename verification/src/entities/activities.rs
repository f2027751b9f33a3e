//! A logged shared expense: who paid, how much, and how the amount is split.

use crate::money::Money;
use vstd::prelude::*;

verus! {

/// A row of the table of activities.
#[derive(Debug)]
pub struct Model {
    pub id: u128,
    pub description: String,
    pub paid_by_id: u128,
    pub group_id: u128,
    pub time: i64,
    pub amount: Money,
    pub split_members: Vec<u128>,
    pub split_amounts: Vec<Money>,
    pub user_involvement: bool,
    pub expense_logo: Option<String>,
    pub created_at: i64,
    pub updated_at: i64,
}

/// An activity as a value: texts as sequences of characters, the split as
/// two sequences.
pub struct Activity {
    pub id: u128,
    pub description: Seq<char>,
    pub paid_by_id: u128,
    pub group_id: u128,
    pub time: i64,
    pub amount: Money,
    pub split_members: Seq<u128>,
    pub split_amounts: Seq<Money>,
    pub user_involvement: bool,
    pub expense_logo: Option<Seq<char>>,
    pub created_at: i64,
    pub updated_at: i64,
}

/// An optional text as a value.
pub open spec fn text_of(t: Option<String>) -> Option<Seq<char>> {
    match t {
        Some(s) => Some(s@),
        None => None,
    }
}

impl View for Model {
    type V = Activity;

    open spec fn view(&self) -> Activity {
        Activity {
            id: self.id,
            description: self.description@,
            paid_by_id: self.paid_by_id,
            group_id: self.group_id,
            time: self.time,
            amount: self.amount,
            split_members: self.split_members@,
            split_amounts: self.split_amounts@,
            user_involvement: self.user_involvement,
            expense_logo: text_of(self.expense_logo),
            created_at: self.created_at,
            updated_at: self.updated_at,
        }
    }
}

/// A copy of an optional text.
pub fn copy_text(t: &Option<String>) -> (r: Option<String>)
    ensures
        text_of(r) == text_of(*t),
{
    match t {
        Some(s) => Some(s.clone()),
        None => None,
    }
}

/// A copy of a list.
pub fn copy_list<T: Copy>(v: &Vec<T>) -> (r: Vec<T>)
    ensures
        r@ == v@,
{
    let mut r: Vec<T> = Vec::new();
    let mut i: usize = 0;
    while i < v.len()
        invariant
            i <= v.len(),
            r@ == v@.take(i as int),
        decreases v.len() - i,
    {
        r.push(v[i]);
        proof {
            assert(v@.take(i + 1) == v@.take(i as int).push(v@[i as int]));
        }
        i += 1;
    }
    proof {
        assert(v@.take(i as int) == v@);
    }
    r
}

impl Model {
    /// A copy of the activity.
    pub fn duplicate(&self) -> (r: Model)
        ensures
            r@ == self@,
    {
        Model {
            id: self.id,
            description: self.description.clone(),
            paid_by_id: self.paid_by_id,
            group_id: self.group_id,
            time: self.time,
            amount: self.amount,
            split_members: copy_list(&self.split_members),
            split_amounts: copy_list(&self.split_amounts),
            user_involvement: self.user_involvement,
            expense_logo: copy_text(&self.expense_logo),
            created_at: self.created_at,
            updated_at: self.updated_at,
        }
    }
}

} // verus!
