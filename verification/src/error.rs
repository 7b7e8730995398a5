use vstd::prelude::*;

verus! {

/// The error taxonomy of the backend.
///
/// Every rejected action carries exactly one of these kinds together with a
/// human-readable reason, so that a transport layer can derive an HTTP
/// status from the kind alone.
#[derive(Debug)]
pub enum EError {
    /// Missing or invalid credential.
    Unauthorized(String),
    /// Blocked by another user, or not the owner of the entity.
    Forbidden(String),
    /// The addressed entity does not exist.
    NotFound(String),
    /// Unexpected collaborator failure.
    InternalServerError(String),
    /// Malformed input or a self-targeting action.
    BadRequest(String),
    /// Duplicate action or uniqueness violation.
    Conflict(String),
}

impl EError {
    /// The HTTP status code that this error kind maps to.
    pub fn status_code(&self) -> (code: u16)
        ensures
            code == self.sp_status_code(),
    {
        match self {
            EError::Unauthorized(_) => 401,
            EError::Forbidden(_) => 403,
            EError::NotFound(_) => 404,
            EError::InternalServerError(_) => 500,
            EError::BadRequest(_) => 400,
            EError::Conflict(_) => 409,
        }
    }

    pub open spec fn sp_status_code(self) -> u16 {
        match self {
            EError::Unauthorized(_) => 401,
            EError::Forbidden(_) => 403,
            EError::NotFound(_) => 404,
            EError::InternalServerError(_) => 500,
            EError::BadRequest(_) => 400,
            EError::Conflict(_) => 409,
        }
    }

    /// The human-readable reason carried by the error.
    pub fn message(&self) -> (msg: &String)
        ensures
            msg@ == self.sp_message(),
    {
        match self {
            EError::Unauthorized(m) => m,
            EError::Forbidden(m) => m,
            EError::NotFound(m) => m,
            EError::InternalServerError(m) => m,
            EError::BadRequest(m) => m,
            EError::Conflict(m) => m,
        }
    }

    pub open spec fn sp_message(self) -> Seq<char> {
        match self {
            EError::Unauthorized(m) => m@,
            EError::Forbidden(m) => m@,
            EError::NotFound(m) => m@,
            EError::InternalServerError(m) => m@,
            EError::BadRequest(m) => m@,
            EError::Conflict(m) => m@,
        }
    }
}

/// The error of a failed result.
pub open spec fn sp_err<T>(r: Result<T, EError>) -> EError {
    r->Err_0
}

} // verus!
