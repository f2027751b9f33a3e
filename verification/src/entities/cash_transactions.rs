//! The details of a settlement made in cash.

use crate::money::Money;
use vstd::prelude::*;

verus! {

/// A row of the table of settlements in cash.
#[derive(Debug)]
pub struct Model {
    pub id: u128,
    pub transaction_id: u128,
    pub cash_amount: Money,
    pub created_at: i64,
    pub updated_at: i64,
}

} // verus!
