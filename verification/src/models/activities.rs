//! The requests on activities and dues, the checks that each must pass, and
//! the responses.

use crate::custom_errors::app::{outcome, AppError, Failure};
use crate::entities::activities::{copy_list, copy_text, text_of, Activity, Model};
use crate::ids::NIL;
use crate::money::Money;
use crate::split::{check_shares, shares_verdict, split_verdict, validate_split, SplitError};
use crate::text::{blank, is_blank};
use vstd::prelude::*;
use vstd::utf8::encode_utf8;

verus! {

/// The longest description an update may carry, in bytes.
pub const MAX_DESCRIPTION_BYTES: usize = 255;

/// A request to log an activity. Who paid is the user who sends it.
#[derive(Debug)]
pub struct CreateActivityReq {
    pub description: String,
    pub group_id: u128,
    pub amount: Money,
    pub split_members: Vec<u128>,
    pub split_amounts: Vec<Money>,
    pub expense_logo: Option<String>,
}

/// A request to log an activity, as a value.
pub struct CreateActivity {
    pub description: Seq<char>,
    pub group_id: u128,
    pub amount: Money,
    pub split_members: Seq<u128>,
    pub split_amounts: Seq<Money>,
    pub expense_logo: Option<Seq<char>>,
}

impl View for CreateActivityReq {
    type V = CreateActivity;

    open spec fn view(&self) -> CreateActivity {
        CreateActivity {
            description: self.description@,
            group_id: self.group_id,
            amount: self.amount,
            split_members: self.split_members@,
            split_amounts: self.split_amounts@,
            expense_logo: text_of(self.expense_logo),
        }
    }
}

/// The failure with which a request to log an activity reports a refused
/// split.
pub open spec fn create_split_failure(e: SplitError) -> Failure {
    match e {
        SplitError::InvalidAmount => Failure::Validation("Amount must be greater than zero"@),
        SplitError::EmptySplit => Failure::Validation(
            "Split members and split amounts cannot be empty"@,
        ),
        SplitError::SplitLengthMismatch => Failure::Validation(
            "Split members and split amounts must have the same length"@,
        ),
        SplitError::SplitMismatch => Failure::AmountsDontAddUp(
            "Total split amount does not match the main amount"@,
        ),
        SplitError::Inexact => Failure::Internal,
    }
}

/// The failure with which a request to change an activity reports a refused
/// split.
pub open spec fn update_split_failure(e: SplitError) -> Failure {
    match e {
        SplitError::InvalidAmount => Failure::Validation("Amount must be positive"@),
        SplitError::EmptySplit => Failure::Validation(
            "Split members and split amounts cannot be empty"@,
        ),
        SplitError::SplitLengthMismatch => Failure::Validation(
            "Split amounts must match the number of split members"@,
        ),
        SplitError::SplitMismatch => Failure::AmountsDontAddUp(
            "Total split amount does not match the main amount"@,
        ),
        SplitError::Inexact => Failure::Internal,
    }
}

/// A logo that is blank counts as no logo.
pub open spec fn kept_logo(logo: Option<Seq<char>>) -> Option<Seq<char>> {
    match logo {
        Some(l) => if blank(l) {
            None
        } else {
            Some(l)
        },
        None => None,
    }
}

impl CreateActivity {
    /// What the check of the request comes to. The first rule that is broken
    /// decides: a description, a group, then the split.
    pub open spec fn verdict(self) -> Result<(), Failure> {
        if blank(self.description) {
            Err(Failure::Validation("Description cannot be empty"@))
        } else if self.group_id == NIL {
            Err(Failure::Validation("Group Id cannot be empty"@))
        } else {
            match split_verdict(self.amount, self.split_members, self.split_amounts) {
                Ok(_) => Ok(()),
                Err(e) => Err(create_split_failure(e)),
            }
        }
    }

    /// The request as the check leaves it: once a description and a group are
    /// there, a blank logo is dropped.
    pub open spec fn checked(self) -> CreateActivity {
        if blank(self.description) || self.group_id == NIL {
            self
        } else {
            CreateActivity { expense_logo: kept_logo(self.expense_logo), ..self }
        }
    }
}

fn create_split_error(e: SplitError) -> (r: AppError)
    ensures
        r@ == create_split_failure(e),
{
    match e {
        SplitError::InvalidAmount => AppError::validation("Amount must be greater than zero"),
        SplitError::EmptySplit => AppError::validation(
            "Split members and split amounts cannot be empty",
        ),
        SplitError::SplitLengthMismatch => AppError::validation(
            "Split members and split amounts must have the same length",
        ),
        SplitError::SplitMismatch => AppError::amounts_dont_add_up(
            "Total split amount does not match the main amount",
        ),
        SplitError::Inexact => AppError::InternalServerError,
    }
}

/// The error with which a request to change an activity reports a refused
/// split.
pub fn update_split_error(e: SplitError) -> (r: AppError)
    ensures
        r@ == update_split_failure(e),
{
    match e {
        SplitError::InvalidAmount => AppError::validation("Amount must be positive"),
        SplitError::EmptySplit => AppError::validation(
            "Split members and split amounts cannot be empty",
        ),
        SplitError::SplitLengthMismatch => AppError::validation(
            "Split amounts must match the number of split members",
        ),
        SplitError::SplitMismatch => AppError::amounts_dont_add_up(
            "Total split amount does not match the main amount",
        ),
        SplitError::Inexact => AppError::InternalServerError,
    }
}

impl CreateActivityReq {
    pub fn new(
        description: String,
        group_id: u128,
        amount: Money,
        split_members: Vec<u128>,
        split_amounts: Vec<Money>,
        expense_logo: Option<String>,
    ) -> (r: Self)
        ensures
            r.description == description,
            r.group_id == group_id,
            r.amount == amount,
            r.split_members == split_members,
            r.split_amounts == split_amounts,
            r.expense_logo == expense_logo,
    {
        Self { description, group_id, amount, split_members, split_amounts, expense_logo }
    }

    /// Checks the request, and drops a blank logo from it.
    pub fn check(&mut self) -> (r: Result<(), AppError>)
        ensures
            outcome(r) == old(self)@.verdict(),
            final(self)@ == old(self)@.checked(),
    {
        if is_blank(self.description.as_str()) {
            return Err(AppError::validation("Description cannot be empty"));
        }
        if self.group_id == NIL {
            return Err(AppError::validation("Group Id cannot be empty"));
        }
        let drop_logo = match &self.expense_logo {
            Some(logo) => is_blank(logo.as_str()),
            None => false,
        };
        if drop_logo {
            self.expense_logo = None;
        }
        match validate_split(&self.amount, &self.split_members, &self.split_amounts) {
            Ok(_) => Ok(()),
            Err(e) => Err(create_split_error(e)),
        }
    }
}

/// An activity as a response shows it.
#[derive(Debug)]
pub struct ActivityRes {
    pub id: u128,
    pub description: String,
    pub paid_by_id: u128,
    pub group_id: u128,
    pub time: i64,
    pub amount: Money,
    pub split_members: Vec<u128>,
    pub split_amounts: Vec<Money>,
    pub user_involvement: bool,
    pub expense_logo: Option<String>,
    pub created_at: i64,
    pub updated_at: i64,
}

impl View for ActivityRes {
    type V = Activity;

    open spec fn view(&self) -> Activity {
        Activity {
            id: self.id,
            description: self.description@,
            paid_by_id: self.paid_by_id,
            group_id: self.group_id,
            time: self.time,
            amount: self.amount,
            split_members: self.split_members@,
            split_amounts: self.split_amounts@,
            user_involvement: self.user_involvement,
            expense_logo: text_of(self.expense_logo),
            created_at: self.created_at,
            updated_at: self.updated_at,
        }
    }
}

impl ActivityRes {
    pub fn new(
        id: u128,
        description: String,
        paid_by_id: u128,
        group_id: u128,
        time: i64,
        amount: Money,
        split_members: Vec<u128>,
        split_amounts: Vec<Money>,
        user_involvement: bool,
        expense_logo: Option<String>,
        created_at: i64,
        updated_at: i64,
    ) -> (r: Self)
        ensures
            r == (ActivityRes {
                id,
                description,
                paid_by_id,
                group_id,
                time,
                amount,
                split_members,
                split_amounts,
                user_involvement,
                expense_logo,
                created_at,
                updated_at,
            }),
    {
        Self {
            id,
            description,
            paid_by_id,
            group_id,
            time,
            amount,
            split_members,
            split_amounts,
            user_involvement,
            expense_logo,
            created_at,
            updated_at,
        }
    }

    /// The response that shows a stored activity.
    pub fn of(activity: &Model) -> (r: Self)
        ensures
            r@ == activity@,
    {
        Self::new(
            activity.id,
            activity.description.clone(),
            activity.paid_by_id,
            activity.group_id,
            activity.time,
            activity.amount,
            copy_list(&activity.split_members),
            copy_list(&activity.split_amounts),
            activity.user_involvement,
            copy_text(&activity.expense_logo),
            activity.created_at,
            activity.updated_at,
        )
    }
}

impl From<Model> for ActivityRes {
    fn from(activity: Model) -> (r: Self) {
        Self::new(
            activity.id,
            activity.description,
            activity.paid_by_id,
            activity.group_id,
            activity.time,
            activity.amount,
            activity.split_members,
            activity.split_amounts,
            activity.user_involvement,
            activity.expense_logo,
            activity.created_at,
            activity.updated_at,
        )
    }
}

impl vstd::std_specs::convert::FromSpecImpl<Model> for ActivityRes {
    open spec fn obeys_from_spec() -> bool {
        true
    }

    open spec fn from_spec(activity: Model) -> Self {
        ActivityRes {
            id: activity.id,
            description: activity.description,
            paid_by_id: activity.paid_by_id,
            group_id: activity.group_id,
            time: activity.time,
            amount: activity.amount,
            split_members: activity.split_members,
            split_amounts: activity.split_amounts,
            user_involvement: activity.user_involvement,
            expense_logo: activity.expense_logo,
            created_at: activity.created_at,
            updated_at: activity.updated_at,
        }
    }
}

/// A request to change an activity. A part that is `None` is left as it is.
#[derive(Debug)]
pub struct UpdateActivityReq {
    pub id: u128,
    pub description: Option<String>,
    pub group_id: u128,
    pub amount: Option<Money>,
    pub split_members: Option<Vec<u128>>,
    pub split_amounts: Option<Vec<Money>>,
    /// `Some(None)` takes the logo away; `None` leaves it as it is.
    pub expense_logo: Option<Option<String>>,
}

/// A request to change an activity, as a value.
pub struct UpdateActivity {
    pub id: u128,
    pub description: Option<Seq<char>>,
    pub group_id: u128,
    pub amount: Option<Money>,
    pub split_members: Option<Seq<u128>>,
    pub split_amounts: Option<Seq<Money>>,
    pub expense_logo: Option<Option<Seq<char>>>,
}

impl View for UpdateActivityReq {
    type V = UpdateActivity;

    open spec fn view(&self) -> UpdateActivity {
        UpdateActivity {
            id: self.id,
            description: text_of(self.description),
            group_id: self.group_id,
            amount: self.amount,
            split_members: match self.split_members {
                Some(m) => Some(m@),
                None => None,
            },
            split_amounts: match self.split_amounts {
                Some(a) => Some(a@),
                None => None,
            },
            expense_logo: match self.expense_logo {
                Some(l) => Some(text_of(l)),
                None => None,
            },
        }
    }
}

impl UpdateActivity {
    /// What the check of the request comes to. Only what the request brings
    /// is checked: an identifier always, and a description and an amount
    /// where they are given. A list of members or of amounts that is given
    /// must not be empty, whether or not the other list is given. Where both
    /// are given they must match in number, and their sum is held against
    /// the amount where that is given too. The first rule that is broken
    /// decides.
    pub open spec fn verdict(self) -> Result<(), Failure> {
        if self.id == NIL {
            Err(Failure::Validation("Activity ID cannot be empty"@))
        } else if self.description is Some && (self.description->0.len() == 0 || encode_utf8(
            self.description->0,
        ).len() > MAX_DESCRIPTION_BYTES) {
            Err(Failure::Validation("Description must be between 1 and 255 characters"@))
        } else if self.amount is Some && self.amount->0.units() <= 0 {
            Err(update_split_failure(SplitError::InvalidAmount))
        } else if (self.split_members is Some && self.split_members->0.len() == 0) || (
        self.split_amounts is Some && self.split_amounts->0.len() == 0) {
            Err(update_split_failure(SplitError::EmptySplit))
        } else if self.split_members is Some && self.split_amounts is Some {
            match shares_verdict(self.split_members->0, self.split_amounts->0, self.amount) {
                Ok(_) => Ok(()),
                Err(e) => Err(update_split_failure(e)),
            }
        } else {
            Ok(())
        }
    }
}

impl UpdateActivityReq {
    /// Checks the request.
    pub fn check(&self) -> (r: Result<(), AppError>)
        ensures
            outcome(r) == self@.verdict(),
    {
        if self.id == NIL {
            return Err(AppError::validation("Activity ID cannot be empty"));
        }
        if let Some(description) = &self.description {
            if description.as_str().is_empty() || description.as_str().as_bytes().len()
                > MAX_DESCRIPTION_BYTES {
                return Err(
                    AppError::validation("Description must be between 1 and 255 characters"),
                );
            }
        }
        if let Some(amount) = &self.amount {
            if !amount.is_positive() {
                return Err(update_split_error(SplitError::InvalidAmount));
            }
        }
        let no_members = match &self.split_members {
            Some(members) => members.len() == 0,
            None => false,
        };
        let no_amounts = match &self.split_amounts {
            Some(amounts) => amounts.len() == 0,
            None => false,
        };
        if no_members || no_amounts {
            return Err(update_split_error(SplitError::EmptySplit));
        }
        match (&self.split_members, &self.split_amounts) {
            (Some(members), Some(amounts)) => {
                match check_shares(members, amounts, self.amount.as_ref()) {
                    Ok(_) => Ok(()),
                    Err(e) => Err(update_split_error(e)),
                }
            },
            _ => Ok(()),
        }
    }
}

/// A request to delete an activity.
#[derive(Clone, Copy, Debug, PartialEq, Eq, Structural)]
pub struct DeleteActivityReq {
    pub activity_id: u128,
    pub group_id: u128,
}

impl DeleteActivityReq {
    /// What the check of the request comes to.
    pub open spec fn verdict(self) -> Result<(), Failure> {
        if self.activity_id == NIL {
            Err(Failure::Validation("Activity ID cannot be empty"@))
        } else if self.group_id == NIL {
            Err(Failure::Validation("Group ID cannot be empty"@))
        } else {
            Ok(())
        }
    }

    /// Checks the request.
    pub fn check(&self) -> (r: Result<(), AppError>)
        ensures
            outcome(r) == self.verdict(),
    {
        if self.activity_id == NIL {
            return Err(AppError::validation("Activity ID cannot be empty"));
        }
        if self.group_id == NIL {
            return Err(AppError::validation("Group ID cannot be empty"));
        }
        Ok(())
    }
}

/// A request for the activities of a group.
#[derive(Clone, Copy, Debug, PartialEq, Eq, Structural)]
pub struct GetActivitiesReq {
    pub group_id: u128,
}

impl GetActivitiesReq {
    /// What the check of the request comes to.
    pub open spec fn verdict(self) -> Result<(), Failure> {
        if self.group_id == NIL {
            Err(Failure::Validation("Group ID cannot be empty"@))
        } else {
            Ok(())
        }
    }

    /// Checks the request.
    pub fn check(&self) -> (r: Result<(), AppError>)
        ensures
            outcome(r) == self.verdict(),
    {
        if self.group_id == NIL {
            return Err(AppError::validation("Group ID cannot be empty"));
        }
        Ok(())
    }
}

/// A request for the dues of a group: one net balance for each user, or the
/// split of each activity.
#[derive(Clone, Copy, Debug, PartialEq, Eq, Structural)]
pub struct GetDuesReq {
    pub group_id: u128,
    pub simplify: bool,
}

impl GetDuesReq {
    /// What the check of the request comes to.
    pub open spec fn verdict(self) -> Result<(), Failure> {
        if self.group_id == NIL {
            Err(Failure::Validation("Group ID cannot be empty"@))
        } else {
            Ok(())
        }
    }

    /// Checks the request.
    pub fn check(&self) -> (r: Result<(), AppError>)
        ensures
            outcome(r) == self.verdict(),
    {
        if self.group_id == NIL {
            return Err(AppError::validation("Group ID cannot be empty"));
        }
        Ok(())
    }
}

/// The net balance of one user: above zero is owed to the user, below zero
/// the user owes.
#[derive(Clone, Copy, Debug)]
pub struct UserDue {
    pub user_id: u128,
    pub amount: Money,
}

/// The net balance of each user of a group.
#[derive(Debug)]
pub struct SimplifiedDuesResponse {
    pub dues: Vec<UserDue>,
}

/// The share of one member in one activity.
#[derive(Clone, Copy, Debug)]
pub struct SplitDetail {
    pub user_id: u128,
    pub amount: Money,
}

/// One activity with the share of each of its members.
#[derive(Debug)]
pub struct DetailedDue {
    pub activity_id: u128,
    pub description: String,
    pub paid_by: u128,
    pub amount: Money,
    pub split_details: Vec<SplitDetail>,
}

/// Each activity of a group with the share of each member.
#[derive(Debug)]
pub struct DetailedDuesResponse {
    pub dues: Vec<DetailedDue>,
}

} // verus!
