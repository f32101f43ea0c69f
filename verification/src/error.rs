//! The error every request decision can end in, and the HTTP status it maps to.
use vstd::prelude::*;

verus! {

/// Why a request was refused.
#[derive(Debug, Clone)]
pub enum AppError {
    /// No valid session: the client is sent to the login page.
    Unauthorized,
    /// The user's role may not perform this action.
    Forbidden,
    /// The record does not exist, or belongs to another branch.
    NotFound,
    /// The record is not in a state that allows the action.
    Conflict(String),
    /// The submitted values are not acceptable.
    ValidationError(String),
    /// Something failed on the server's side.
    Internal(String),
}

/// An `AppError` with its message as a character sequence.
pub enum Refusal {
    Unauthorized,
    Forbidden,
    NotFound,
    Conflict(Seq<char>),
    Validation(Seq<char>),
    Internal(Seq<char>),
}

impl View for AppError {
    type V = Refusal;

    open spec fn view(&self) -> Refusal {
        match self {
            AppError::Unauthorized => Refusal::Unauthorized,
            AppError::Forbidden => Refusal::Forbidden,
            AppError::NotFound => Refusal::NotFound,
            AppError::Conflict(m) => Refusal::Conflict(m@),
            AppError::ValidationError(m) => Refusal::Validation(m@),
            AppError::Internal(m) => Refusal::Internal(m@),
        }
    }
}

/// The decision a fallible step reached: allowed, or refused and why.
pub open spec fn verdict<T>(r: Result<T, AppError>) -> Result<(), Refusal> {
    match r {
        Ok(_) => Ok(()),
        Err(e) => Err(e@),
    }
}

/// The HTTP status of each refusal.
pub open spec fn status_of(e: Refusal) -> u16 {
    match e {
        Refusal::Unauthorized => 401,
        Refusal::Forbidden => 403,
        Refusal::NotFound => 404,
        Refusal::Conflict(_) => 409,
        Refusal::Validation(_) => 422,
        Refusal::Internal(_) => 500,
    }
}

impl AppError {
    /// The HTTP status code the response carries.
    pub fn status_code(&self) -> (code: u16)
        ensures
            code == status_of(self@),
    {
        match self {
            AppError::Unauthorized => 401,
            AppError::Forbidden => 403,
            AppError::NotFound => 404,
            AppError::Conflict(_) => 409,
            AppError::ValidationError(_) => 422,
            AppError::Internal(_) => 500,
        }
    }

    /// A validation refusal with the given message.
    pub fn validation(msg: &str) -> (e: AppError)
        ensures
            e@ == Refusal::Validation(msg@),
    {
        AppError::ValidationError(crate::text::owned(msg))
    }

    /// A conflict refusal with the given message.
    pub fn conflict(msg: String) -> (e: AppError)
        ensures
            e@ == Refusal::Conflict(msg@),
    {
        AppError::Conflict(msg)
    }
}

/// A looked-up record, or `NotFound` when there is none.
pub fn found<T>(o: Option<T>) -> (r: Result<T, AppError>)
    ensures
        match o {
            Some(v) => r matches Ok(w) && w == v,
            None => verdict(r) == Err::<(), Refusal>(Refusal::NotFound),
        },
{
    match o {
        Some(v) => Ok(v),
        None => Err(AppError::NotFound),
    }
}

} // verus!
