use vstd::prelude::*;

verus! {

/// The failures of a sign-in.
#[derive(Debug)]
pub enum AuthError {
    AuthReqValidationError(String),
    DatabaseError(String),
    DuplicateError(String),
    UserNotFound(String),
    Unauthorized(String),
    InternalServerError,
}

impl AuthError {
    /// The HTTP status of the response.
    pub open spec fn spec_status_code(self) -> u16 {
        match self {
            AuthError::AuthReqValidationError(_) => 400,
            AuthError::DatabaseError(_) => 500,
            AuthError::DuplicateError(_) => 409,
            AuthError::UserNotFound(_) => 404,
            AuthError::Unauthorized(_) => 401,
            AuthError::InternalServerError => 500,
        }
    }

    /// The key of the response body.
    pub open spec fn spec_label(self) -> Seq<char> {
        match self {
            AuthError::AuthReqValidationError(_) => "Validation error"@,
            AuthError::DatabaseError(_) => "Database error"@,
            AuthError::DuplicateError(_) => "Duplicate error"@,
            AuthError::UserNotFound(_) => "User Not Found error"@,
            AuthError::Unauthorized(_) => "Unauthorized"@,
            AuthError::InternalServerError => "Internal server error"@,
        }
    }

    /// The value of the response body.
    pub open spec fn spec_reason(self) -> Seq<char> {
        match self {
            AuthError::AuthReqValidationError(m) => m@,
            AuthError::DatabaseError(m) => m@,
            AuthError::DuplicateError(m) => m@,
            AuthError::UserNotFound(m) => m@,
            AuthError::Unauthorized(m) => m@,
            AuthError::InternalServerError => "Something went wrong"@,
        }
    }

    /// The HTTP status of the response.
    pub fn status_code(&self) -> (code: u16)
        ensures
            code == self.spec_status_code(),
    {
        match self {
            AuthError::AuthReqValidationError(_) => 400,
            AuthError::DatabaseError(_) => 500,
            AuthError::DuplicateError(_) => 409,
            AuthError::UserNotFound(_) => 404,
            AuthError::Unauthorized(_) => 401,
            AuthError::InternalServerError => 500,
        }
    }

    /// The key of the response body.
    pub fn label(&self) -> (text: &'static str)
        ensures
            text@ == self.spec_label(),
    {
        match self {
            AuthError::AuthReqValidationError(_) => "Validation error",
            AuthError::DatabaseError(_) => "Database error",
            AuthError::DuplicateError(_) => "Duplicate error",
            AuthError::UserNotFound(_) => "User Not Found error",
            AuthError::Unauthorized(_) => "Unauthorized",
            AuthError::InternalServerError => "Internal server error",
        }
    }

    /// The value of the response body.
    pub fn reason(&self) -> (text: String)
        ensures
            text@ == self.spec_reason(),
    {
        match self {
            AuthError::AuthReqValidationError(m) => m.clone(),
            AuthError::DatabaseError(m) => m.clone(),
            AuthError::DuplicateError(m) => m.clone(),
            AuthError::UserNotFound(m) => m.clone(),
            AuthError::Unauthorized(m) => m.clone(),
            AuthError::InternalServerError => "Something went wrong".to_owned(),
        }
    }
}

} // verus!
