//! A recorded settlement between two users. It is kept as history and takes
//! no part in the computation of dues.

use crate::money::Money;
use vstd::prelude::*;

verus! {

/// A row of the table of settlements.
#[derive(Debug)]
pub struct Model {
    pub id: u128,
    pub payer_id: u128,
    pub receiver_id: u128,
    pub amount: Money,
    pub method: String,
    pub time: i64,
    pub status: String,
    pub group_id: u128,
    pub activity_id: u128,
    pub created_at: i64,
    pub updated_at: i64,
}

} // verus!
