use vstd::prelude::*;

verus! {

/// The failures of a request on groups.
#[derive(Debug)]
pub enum GroupError {
    AuthReqValidationError(String),
    DatabaseError(String),
    GroupNotFound(String),
    Unauthorized(String),
    InternalServerError,
}

impl GroupError {
    /// The HTTP status of the response.
    pub open spec fn spec_status_code(self) -> u16 {
        match self {
            GroupError::AuthReqValidationError(_) => 400,
            GroupError::DatabaseError(_) => 500,
            GroupError::GroupNotFound(_) => 404,
            GroupError::Unauthorized(_) => 401,
            GroupError::InternalServerError => 500,
        }
    }

    /// The key of the response body.
    pub open spec fn spec_label(self) -> Seq<char> {
        match self {
            GroupError::AuthReqValidationError(_) => "Validation error"@,
            GroupError::DatabaseError(_) => "Database error"@,
            GroupError::GroupNotFound(_) => "Group Not Found error"@,
            GroupError::Unauthorized(_) => "Unauthorized"@,
            GroupError::InternalServerError => "Internal server error"@,
        }
    }

    /// The value of the response body.
    pub open spec fn spec_reason(self) -> Seq<char> {
        match self {
            GroupError::AuthReqValidationError(m) => m@,
            GroupError::DatabaseError(m) => m@,
            GroupError::GroupNotFound(m) => m@,
            GroupError::Unauthorized(m) => m@,
            GroupError::InternalServerError => "Something went wrong"@,
        }
    }

    /// The HTTP status of the response.
    pub fn status_code(&self) -> (code: u16)
        ensures
            code == self.spec_status_code(),
    {
        match self {
            GroupError::AuthReqValidationError(_) => 400,
            GroupError::DatabaseError(_) => 500,
            GroupError::GroupNotFound(_) => 404,
            GroupError::Unauthorized(_) => 401,
            GroupError::InternalServerError => 500,
        }
    }

    /// The key of the response body.
    pub fn label(&self) -> (text: &'static str)
        ensures
            text@ == self.spec_label(),
    {
        match self {
            GroupError::AuthReqValidationError(_) => "Validation error",
            GroupError::DatabaseError(_) => "Database error",
            GroupError::GroupNotFound(_) => "Group Not Found error",
            GroupError::Unauthorized(_) => "Unauthorized",
            GroupError::InternalServerError => "Internal server error",
        }
    }

    /// The value of the response body.
    pub fn reason(&self) -> (text: String)
        ensures
            text@ == self.spec_reason(),
    {
        match self {
            GroupError::AuthReqValidationError(m) => m.clone(),
            GroupError::DatabaseError(m) => m.clone(),
            GroupError::GroupNotFound(m) => m.clone(),
            GroupError::Unauthorized(m) => m.clone(),
            GroupError::InternalServerError => "Something went wrong".to_owned(),
        }
    }
}

} // verus!
