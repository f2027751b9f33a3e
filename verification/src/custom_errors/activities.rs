use vstd::prelude::*;

verus! {

/// The failures of a request on activities.
#[derive(Debug)]
pub enum ActivityError {
    ActivityReqValidationError(String),
    DatabaseError(String),
    AmountsDontAddUp(String),
    InternalServerError,
}

impl ActivityError {
    /// The HTTP status of the response.
    pub open spec fn spec_status_code(self) -> u16 {
        match self {
            ActivityError::ActivityReqValidationError(_) => 400,
            _ => 500,
        }
    }

    /// The key of the response body.
    pub open spec fn spec_label(self) -> Seq<char> {
        match self {
            ActivityError::ActivityReqValidationError(_) => "Validation error"@,
            ActivityError::DatabaseError(_) => "Database error"@,
            ActivityError::AmountsDontAddUp(_) => "Amounts Don't Add up error"@,
            ActivityError::InternalServerError => "Internal server error"@,
        }
    }

    /// The value of the response body.
    pub open spec fn spec_reason(self) -> Seq<char> {
        match self {
            ActivityError::ActivityReqValidationError(m) => m@,
            ActivityError::DatabaseError(m) => m@,
            ActivityError::AmountsDontAddUp(m) => m@,
            ActivityError::InternalServerError => "Something went wrong"@,
        }
    }

    /// The HTTP status of the response.
    pub fn status_code(&self) -> (code: u16)
        ensures
            code == self.spec_status_code(),
    {
        match self {
            ActivityError::ActivityReqValidationError(_) => 400,
            ActivityError::DatabaseError(_) => 500,
            ActivityError::AmountsDontAddUp(_) => 500,
            ActivityError::InternalServerError => 500,
        }
    }

    /// The key of the response body.
    pub fn label(&self) -> (text: &'static str)
        ensures
            text@ == self.spec_label(),
    {
        match self {
            ActivityError::ActivityReqValidationError(_) => "Validation error",
            ActivityError::DatabaseError(_) => "Database error",
            ActivityError::AmountsDontAddUp(_) => "Amounts Don't Add up error",
            ActivityError::InternalServerError => "Internal server error",
        }
    }

    /// The value of the response body.
    pub fn reason(&self) -> (text: String)
        ensures
            text@ == self.spec_reason(),
    {
        match self {
            ActivityError::ActivityReqValidationError(m) => m.clone(),
            ActivityError::DatabaseError(m) => m.clone(),
            ActivityError::AmountsDontAddUp(m) => m.clone(),
            ActivityError::InternalServerError => "Something went wrong".to_owned(),
        }
    }
}

} // verus!
