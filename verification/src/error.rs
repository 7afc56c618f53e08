//! What can go wrong with a request, and the HTTP status it is answered with.
use vstd::prelude::*;

verus! {

/// Why a part token was turned down.
#[derive(Debug, Clone, Copy, PartialEq, Eq, Structural)]
pub enum JwtError {
    /// The token is genuine and its time has passed.
    Expired,
    /// The token is malformed, wrongly signed or lacks a claim.
    Invalid,
}

/// The failure of a request.
#[derive(Debug)]
pub enum AppError {
    Unauthorized(String),
    BadRequest(String),
    NotFound(String),
    Conflict(String),
    Internal(String),
    Storage(String),
    Database(String),
    Jwt(JwtError),
}

/// An [`AppError`] with its message as a sequence of characters.
pub enum ErrorView {
    Unauthorized(Seq<char>),
    BadRequest(Seq<char>),
    NotFound(Seq<char>),
    Conflict(Seq<char>),
    Internal(Seq<char>),
    Storage(Seq<char>),
    Database(Seq<char>),
    Jwt(JwtError),
}

impl View for AppError {
    type V = ErrorView;

    open spec fn view(&self) -> ErrorView {
        match *self {
            AppError::Unauthorized(m) => ErrorView::Unauthorized(m@),
            AppError::BadRequest(m) => ErrorView::BadRequest(m@),
            AppError::NotFound(m) => ErrorView::NotFound(m@),
            AppError::Conflict(m) => ErrorView::Conflict(m@),
            AppError::Internal(m) => ErrorView::Internal(m@),
            AppError::Storage(m) => ErrorView::Storage(m@),
            AppError::Database(m) => ErrorView::Database(m@),
            AppError::Jwt(e) => ErrorView::Jwt(e),
        }
    }
}

/// The HTTP status of a failure.
pub open spec fn status_of(error: ErrorView) -> u16 {
    match error {
        ErrorView::Unauthorized(_) => 401,
        ErrorView::Jwt(_) => 401,
        ErrorView::BadRequest(_) => 400,
        ErrorView::NotFound(_) => 404,
        ErrorView::Conflict(_) => 409,
        ErrorView::Internal(_) => 500,
        ErrorView::Storage(_) => 500,
        ErrorView::Database(_) => 500,
    }
}

/// The message that a failure carries.
pub open spec fn message_of(error: ErrorView) -> Seq<char> {
    match error {
        ErrorView::Unauthorized(m) => m,
        ErrorView::BadRequest(m) => m,
        ErrorView::NotFound(m) => m,
        ErrorView::Conflict(m) => m,
        ErrorView::Internal(m) => m,
        ErrorView::Storage(m) => m,
        ErrorView::Database(m) => m,
        ErrorView::Jwt(JwtError::Expired) => "Token has expired"@,
        ErrorView::Jwt(JwtError::Invalid) => "Invalid token"@,
    }
}

impl AppError {
    /// The HTTP status to answer with.
    pub fn status_code(&self) -> (code: u16)
        ensures
            code == status_of(self@),
    {
        match self {
            AppError::Unauthorized(_) => 401,
            AppError::Jwt(_) => 401,
            AppError::BadRequest(_) => 400,
            AppError::NotFound(_) => 404,
            AppError::Conflict(_) => 409,
            AppError::Internal(_) => 500,
            AppError::Storage(_) => 500,
            AppError::Database(_) => 500,
        }
    }

    /// The message to answer with.
    pub fn message(&self) -> (text: String)
        ensures
            text@ == message_of(self@),
    {
        match self {
            AppError::Unauthorized(m) => m.clone(),
            AppError::BadRequest(m) => m.clone(),
            AppError::NotFound(m) => m.clone(),
            AppError::Conflict(m) => m.clone(),
            AppError::Internal(m) => m.clone(),
            AppError::Storage(m) => m.clone(),
            AppError::Database(m) => m.clone(),
            AppError::Jwt(JwtError::Expired) => "Token has expired".to_owned(),
            AppError::Jwt(JwtError::Invalid) => "Invalid token".to_owned(),
        }
    }
}

} // verus!
