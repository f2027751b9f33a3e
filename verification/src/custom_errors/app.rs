//! The error of every request, with the status and the labelled reason under
//! which it is reported.

use vstd::prelude::*;

verus! {

/// The failures of a request, each but the last with the reason that the
/// response gives.
#[derive(Debug)]
pub enum AppError {
    ValidationError(String),
    DatabaseError(String),
    ConfigError(String),
    DuplicateError(String),
    AmountsDontAddUp(String),
    NotFound(String),
    UserNotInGroup(String),
    Unauthorized(String),
    InternalServerError,
}

/// An [`AppError`] with its reason as a sequence of characters.
pub enum Failure {
    Validation(Seq<char>),
    Database(Seq<char>),
    Config(Seq<char>),
    Duplicate(Seq<char>),
    AmountsDontAddUp(Seq<char>),
    NotFound(Seq<char>),
    UserNotInGroup(Seq<char>),
    Unauthorized(Seq<char>),
    Internal,
}

impl View for AppError {
    type V = Failure;

    open spec fn view(&self) -> Failure {
        match *self {
            AppError::ValidationError(m) => Failure::Validation(m@),
            AppError::DatabaseError(m) => Failure::Database(m@),
            AppError::ConfigError(m) => Failure::Config(m@),
            AppError::DuplicateError(m) => Failure::Duplicate(m@),
            AppError::AmountsDontAddUp(m) => Failure::AmountsDontAddUp(m@),
            AppError::NotFound(m) => Failure::NotFound(m@),
            AppError::UserNotInGroup(m) => Failure::UserNotInGroup(m@),
            AppError::Unauthorized(m) => Failure::Unauthorized(m@),
            AppError::InternalServerError => Failure::Internal,
        }
    }
}

impl Failure {
    /// The HTTP status under which the failure is reported.
    pub open spec fn status(self) -> u16 {
        match self {
            Failure::Validation(_) => 400,
            Failure::Database(_) => 500,
            Failure::Config(_) => 500,
            Failure::Duplicate(_) => 409,
            Failure::AmountsDontAddUp(_) => 400,
            Failure::NotFound(_) => 404,
            Failure::UserNotInGroup(_) => 403,
            Failure::Unauthorized(_) => 401,
            Failure::Internal => 500,
        }
    }

    /// The label that names the kind of failure in the response body.
    pub open spec fn label(self) -> Seq<char> {
        match self {
            Failure::Validation(_) => "Validation error"@,
            Failure::Database(_) => "Database error"@,
            Failure::Config(_) => "Config error"@,
            Failure::Duplicate(_) => "Duplicate error"@,
            Failure::AmountsDontAddUp(_) => "Amounts Don't Add Up"@,
            Failure::NotFound(_) => "Not Found"@,
            Failure::UserNotInGroup(_) => "User Not in Group"@,
            Failure::Unauthorized(_) => "Unauthorized"@,
            Failure::Internal => "Internal server error"@,
        }
    }

    /// The reason given under the label.
    pub open spec fn reason(self) -> Seq<char> {
        match self {
            Failure::Validation(m) => m,
            Failure::Database(m) => m,
            Failure::Config(m) => m,
            Failure::Duplicate(m) => m,
            Failure::AmountsDontAddUp(m) => m,
            Failure::NotFound(m) => m,
            Failure::UserNotInGroup(m) => m,
            Failure::Unauthorized(m) => m,
            Failure::Internal => "Something went wrong"@,
        }
    }
}

/// What a request came to: its value, or its failure with the reason spelled
/// out.
pub open spec fn outcome<T>(r: Result<T, AppError>) -> Result<T, Failure> {
    match r {
        Ok(v) => Ok(v),
        Err(e) => Err(e@),
    }
}

impl AppError {
    /// A request that breaks a rule on its fields.
    pub fn validation(reason: &str) -> (e: AppError)
        ensures
            e@ == Failure::Validation(reason@),
    {
        AppError::ValidationError(reason.to_owned())
    }

    /// A setting that is missing or cannot be read.
    pub fn config(reason: &str) -> (e: AppError)
        ensures
            e@ == Failure::Config(reason@),
    {
        AppError::ConfigError(reason.to_owned())
    }

    /// A split whose amounts do not add up to the amount paid.
    pub fn amounts_dont_add_up(reason: &str) -> (e: AppError)
        ensures
            e@ == Failure::AmountsDontAddUp(reason@),
    {
        AppError::AmountsDontAddUp(reason.to_owned())
    }

    /// Something that the request names and that is not there.
    pub fn not_found(reason: &str) -> (e: AppError)
        ensures
            e@ == Failure::NotFound(reason@),
    {
        AppError::NotFound(reason.to_owned())
    }

    /// A user who does not belong to the group.
    pub fn user_not_in_group(reason: &str) -> (e: AppError)
        ensures
            e@ == Failure::UserNotInGroup(reason@),
    {
        AppError::UserNotInGroup(reason.to_owned())
    }

    /// A user who may not do what the request asks.
    pub fn unauthorized(reason: &str) -> (e: AppError)
        ensures
            e@ == Failure::Unauthorized(reason@),
    {
        AppError::Unauthorized(reason.to_owned())
    }

    /// The HTTP status of the response.
    pub fn status_code(&self) -> (code: u16)
        ensures
            code == self@.status(),
    {
        match self {
            AppError::ValidationError(_) => 400,
            AppError::DatabaseError(_) => 500,
            AppError::ConfigError(_) => 500,
            AppError::DuplicateError(_) => 409,
            AppError::AmountsDontAddUp(_) => 400,
            AppError::NotFound(_) => 404,
            AppError::UserNotInGroup(_) => 403,
            AppError::Unauthorized(_) => 401,
            AppError::InternalServerError => 500,
        }
    }

    /// The key of the response body.
    pub fn label(&self) -> (text: &'static str)
        ensures
            text@ == self@.label(),
    {
        match self {
            AppError::ValidationError(_) => "Validation error",
            AppError::DatabaseError(_) => "Database error",
            AppError::ConfigError(_) => "Config error",
            AppError::DuplicateError(_) => "Duplicate error",
            AppError::AmountsDontAddUp(_) => "Amounts Don't Add Up",
            AppError::NotFound(_) => "Not Found",
            AppError::UserNotInGroup(_) => "User Not in Group",
            AppError::Unauthorized(_) => "Unauthorized",
            AppError::InternalServerError => "Internal server error",
        }
    }

    /// The value of the response body.
    pub fn reason(&self) -> (text: String)
        ensures
            text@ == self@.reason(),
    {
        match self {
            AppError::ValidationError(m) => m.clone(),
            AppError::DatabaseError(m) => m.clone(),
            AppError::ConfigError(m) => m.clone(),
            AppError::DuplicateError(m) => m.clone(),
            AppError::AmountsDontAddUp(m) => m.clone(),
            AppError::NotFound(m) => m.clone(),
            AppError::UserNotInGroup(m) => m.clone(),
            AppError::Unauthorized(m) => m.clone(),
            AppError::InternalServerError => "Something went wrong".to_owned(),
        }
    }
}

} // verus!
