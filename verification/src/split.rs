//! The split validator: whether the amounts assigned to the members of a
//! split are there, match the members in number, and add up exactly to the
//! amount that was paid.

use crate::money::{running_sum, total_units, Money};
use vstd::prelude::*;

verus! {

/// Why a split is refused.
#[derive(Clone, Copy, Debug, PartialEq, Eq, Structural)]
pub enum SplitError {
    /// The amount paid is zero or below.
    InvalidAmount,
    /// No member, or no amount, is given.
    EmptySplit,
    /// There are more members than amounts, or fewer.
    SplitLengthMismatch,
    /// The amounts do not add up to the amount paid.
    SplitMismatch,
    /// A partial sum of the amounts cannot be held exactly.
    Inexact,
}

/// A split is valid for an amount when the amount is above zero, every
/// member has an amount, and the amounts add up to the amount paid.
pub open spec fn split_valid(amount: Money, members: Seq<u128>, amounts: Seq<Money>) -> bool {
    &&& amount.units() > 0
    &&& members.len() > 0
    &&& members.len() == amounts.len()
    &&& total_units(amounts) == amount.units()
}

/// The verdict on the members and amounts of a split, and on their sum where
/// an amount paid is given to hold it against.
pub open spec fn shares_verdict(
    members: Seq<u128>,
    amounts: Seq<Money>,
    amount: Option<Money>,
) -> Result<(), SplitError> {
    if members.len() == 0 || amounts.len() == 0 {
        Err(SplitError::EmptySplit)
    } else if members.len() != amounts.len() {
        Err(SplitError::SplitLengthMismatch)
    } else {
        match running_sum(amounts) {
            None => Err(SplitError::Inexact),
            Some(_) => if amount is Some && total_units(amounts) != amount->0.units() {
                Err(SplitError::SplitMismatch)
            } else {
                Ok(())
            },
        }
    }
}

/// The verdict on an amount paid and its split.
pub open spec fn split_verdict(amount: Money, members: Seq<u128>, amounts: Seq<Money>) -> Result<
    (),
    SplitError,
> {
    if amount.units() <= 0 {
        Err(SplitError::InvalidAmount)
    } else {
        shares_verdict(members, amounts, Some(amount))
    }
}

/// Checks the members and amounts of a split, and their sum against the
/// amount paid where one is given.
pub fn check_shares(members: &Vec<u128>, amounts: &Vec<Money>, amount: Option<&Money>) -> (r:
    Result<(), SplitError>)
    ensures
        r == shares_verdict(
            members@,
            amounts@,
            match amount {
                Some(a) => Some(*a),
                None => None,
            },
        ),
{
    if members.len() == 0 || amounts.len() == 0 {
        return Err(SplitError::EmptySplit);
    }
    if members.len() != amounts.len() {
        return Err(SplitError::SplitLengthMismatch);
    }
    match Money::sum(amounts) {
        None => Err(SplitError::Inexact),
        Some(total) => match amount {
            Some(a) => if total.same_value(a) {
                Ok(())
            } else {
                Err(SplitError::SplitMismatch)
            },
            None => Ok(()),
        },
    }
}

/// Checks an amount paid and its split.
pub fn validate_split(amount: &Money, members: &Vec<u128>, amounts: &Vec<Money>) -> (r: Result<
    (),
    SplitError,
>)
    ensures
        r == split_verdict(*amount, members@, amounts@),
        r is Ok ==> split_valid(*amount, members@, amounts@),
{
    if !amount.is_positive() {
        return Err(SplitError::InvalidAmount);
    }
    check_shares(members, amounts, Some(amount))
}

/// Every split that the validator accepts is exact: the amounts add up to the
/// amount paid, unit for unit, and there is one amount for each member.
pub proof fn lemma_accepted_split_is_exact(amount: Money, members: Seq<u128>, amounts: Seq<Money>)
    requires
        split_verdict(amount, members, amounts) is Ok,
    ensures
        total_units(amounts) == amount.units(),
        members.len() == amounts.len(),
        members.len() > 0,
        amount.units() > 0,
{
}

/// Where the members, the amounts and the amount paid are all given and the
/// validator accepts them, the amounts add up to the amount paid and there is
/// one amount for each member.
pub proof fn lemma_accepted_shares_are_exact(
    amount: Money,
    members: Seq<u128>,
    amounts: Seq<Money>,
)
    requires
        shares_verdict(members, amounts, Some(amount)) is Ok,
    ensures
        total_units(amounts) == amount.units(),
        members.len() == amounts.len(),
        members.len() > 0,
{
}

/// A split is refused as a mismatch only if its amounts truly fail to add up.
pub proof fn lemma_mismatch_is_real(amount: Money, members: Seq<u128>, amounts: Seq<Money>)
    requires
        split_verdict(amount, members, amounts) == Err::<(), SplitError>(
            SplitError::SplitMismatch,
        ),
    ensures
        total_units(amounts) != amount.units(),
{
}

} // verus!
