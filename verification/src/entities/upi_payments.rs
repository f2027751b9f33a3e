//! The details of a settlement made over UPI.

use vstd::prelude::*;

verus! {

/// A row of the table of settlements over UPI.
#[derive(Debug)]
pub struct Model {
    pub id: u128,
    pub transaction_id: u128,
    pub upi_id: String,
    pub status: String,
    pub created_at: i64,
    pub updated_at: i64,
}

} // verus!
