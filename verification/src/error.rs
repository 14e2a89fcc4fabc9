//! The failures that a request can end in.
use crate::store::StoreError;
use crate::text::joined;
use vstd::prelude::*;

verus! {

/// Why a request failed.
#[derive(Clone, Debug, PartialEq, Eq)]
pub enum AppError {
    /// The persistence layer failed; the text says how.
    Database(String),
    /// What the request names does not exist.
    NotFound,
    /// The caller did not say who they are.
    Unauthorized,
    /// The caller may not do this.
    Forbidden,
    /// The request makes no sense as it stands.
    BadRequest(String),
    /// Something went wrong on this side.
    Internal(String),
    /// A value of the request was refused.
    Validation(String),
}

impl AppError {
    /// The text of the error.
    pub open spec fn text(&self) -> Seq<char> {
        match self {
            AppError::Database(m) => "Database error: "@ + m@,
            AppError::NotFound => "Not found"@,
            AppError::Unauthorized => "Unauthorized"@,
            AppError::Forbidden => "Forbidden"@,
            AppError::BadRequest(m) => "Bad request: "@ + m@,
            AppError::Internal(m) => "Internal error: "@ + m@,
            AppError::Validation(m) => "Validation error: "@ + m@,
        }
    }

    /// The HTTP status that answers the error.
    pub open spec fn status_code(&self) -> u16 {
        match self {
            AppError::Database(_) => 500,
            AppError::NotFound => 404,
            AppError::Unauthorized => 401,
            AppError::Forbidden => 403,
            AppError::BadRequest(_) => 400,
            AppError::Internal(_) => 500,
            AppError::Validation(_) => 422,
        }
    }

    /// What the caller is told. Failures on this side are not spelled out.
    pub open spec fn public_text(&self) -> Seq<char> {
        match self {
            AppError::Database(_) => "Internal server error"@,
            AppError::Internal(_) => "Internal server error"@,
            AppError::BadRequest(m) => m@,
            AppError::Validation(m) => m@,
            _ => self.text(),
        }
    }

    /// The text of the error.
    pub fn to_string(&self) -> (text: String)
        ensures
            text@ == self.text(),
    {
        match self {
            AppError::Database(m) => joined("Database error: ", m.as_str()),
            AppError::NotFound => "Not found".to_owned(),
            AppError::Unauthorized => "Unauthorized".to_owned(),
            AppError::Forbidden => "Forbidden".to_owned(),
            AppError::BadRequest(m) => joined("Bad request: ", m.as_str()),
            AppError::Internal(m) => joined("Internal error: ", m.as_str()),
            AppError::Validation(m) => joined("Validation error: ", m.as_str()),
        }
    }

    /// The HTTP status that answers the error.
    pub fn status(&self) -> (code: u16)
        ensures
            code == self.status_code(),
    {
        match self {
            AppError::Database(_) => 500,
            AppError::NotFound => 404,
            AppError::Unauthorized => 401,
            AppError::Forbidden => 403,
            AppError::BadRequest(_) => 400,
            AppError::Internal(_) => 500,
            AppError::Validation(_) => 422,
        }
    }

    /// What the caller is told.
    pub fn public_message(&self) -> (text: String)
        ensures
            text@ == self.public_text(),
    {
        match self {
            AppError::Database(_) => "Internal server error".to_owned(),
            AppError::Internal(_) => "Internal server error".to_owned(),
            AppError::BadRequest(m) => m.clone(),
            AppError::Validation(m) => m.clone(),
            AppError::NotFound => "Not found".to_owned(),
            AppError::Unauthorized => "Unauthorized".to_owned(),
            AppError::Forbidden => "Forbidden".to_owned(),
        }
    }
}

/// An error, its texts taken as sequences of characters.
pub enum AppErrorView {
    Database(Seq<char>),
    NotFound,
    Unauthorized,
    Forbidden,
    BadRequest(Seq<char>),
    Internal(Seq<char>),
    Validation(Seq<char>),
}

impl View for AppError {
    type V = AppErrorView;

    open spec fn view(&self) -> AppErrorView {
        match self {
            AppError::Database(m) => AppErrorView::Database(m@),
            AppError::NotFound => AppErrorView::NotFound,
            AppError::Unauthorized => AppErrorView::Unauthorized,
            AppError::Forbidden => AppErrorView::Forbidden,
            AppError::BadRequest(m) => AppErrorView::BadRequest(m@),
            AppError::Internal(m) => AppErrorView::Internal(m@),
            AppError::Validation(m) => AppErrorView::Validation(m@),
        }
    }
}

/// What a refusal of the store means for a request.
pub open spec fn refusal(e: StoreError) -> AppErrorView {
    match e {
        StoreError::NotFound => AppErrorView::NotFound,
        StoreError::DuplicateId => AppErrorView::Internal("Identifier already in use"@),
        StoreError::OutOfRange => AppErrorView::BadRequest("Position out of range"@),
        StoreError::Full => AppErrorView::Internal("Too many records"@),
        StoreError::OwnerFixed => AppErrorView::BadRequest("Cannot add another owner"@),
        StoreError::AlreadyAttached => AppErrorView::BadRequest(
            "Card is already assigned to this board"@,
        ),
        StoreError::WrongBoard => AppErrorView::BadRequest(
            "Column does not belong to this board"@,
        ),
    }
}

/// What a refusal of the store means for a request.
pub fn refuse(e: StoreError) -> (err: AppError)
    ensures
        err@ == refusal(e),
{
    match e {
        StoreError::NotFound => AppError::NotFound,
        StoreError::DuplicateId => AppError::Internal("Identifier already in use".to_owned()),
        StoreError::OutOfRange => AppError::BadRequest("Position out of range".to_owned()),
        StoreError::Full => AppError::Internal("Too many records".to_owned()),
        StoreError::OwnerFixed => AppError::BadRequest("Cannot add another owner".to_owned()),
        StoreError::AlreadyAttached => AppError::BadRequest(
            "Card is already assigned to this board".to_owned(),
        ),
        StoreError::WrongBoard => AppError::BadRequest(
            "Column does not belong to this board".to_owned(),
        ),
    }
}

} // verus!
