//! The application error and the HTTP status each kind of error maps to.
use vstd::prelude::*;

verus! {

/// Errors a request can end in. Outside failures (I/O, database,
/// templates) carry their message.
#[derive(Debug, Clone, PartialEq, Eq)]
pub enum AppError {
    NotFound,
    Unauthorized,
    Forbidden,
    ForbiddenMsg(String),
    Validation(String),
    Unprocessable(String),
    Conflict(String),
    Io(String),
    Db(String),
    Template(String),
    Multipart(String),
    Internal(String),
}

pub type AppResult<T> = Result<T, AppError>;

/// HTTP status code of an error.
pub open spec fn status_of(e: AppError) -> u16 {
    match e {
        AppError::NotFound => 404,
        AppError::Unauthorized => 401,
        AppError::Forbidden | AppError::ForbiddenMsg(_) => 403,
        AppError::Validation(_) | AppError::Multipart(_) => 400,
        AppError::Unprocessable(_) => 422,
        AppError::Conflict(_) => 409,
        AppError::Io(_) | AppError::Db(_) | AppError::Template(_) | AppError::Internal(_) => 500,
    }
}

impl AppError {
    pub fn status(&self) -> (r: u16)
        ensures
            r == status_of(*self),
    {
        match self {
            AppError::NotFound => 404,
            AppError::Unauthorized => 401,
            AppError::Forbidden | AppError::ForbiddenMsg(_) => 403,
            AppError::Validation(_) | AppError::Multipart(_) => 400,
            AppError::Unprocessable(_) => 422,
            AppError::Conflict(_) => 409,
            AppError::Io(_) | AppError::Db(_) | AppError::Template(_) | AppError::Internal(_) => 500,
        }
    }

    /// Server-side failures are logged as errors, the rest as warnings.
    pub fn is_server_error(&self) -> (r: bool)
        ensures
            r == (status_of(*self) >= 500),
    {
        self.status() >= 500
    }
}

/// The message shown for an error: its kind, then its detail if any.
pub open spec fn message_of(e: AppError) -> Seq<char> {
    match e {
        AppError::NotFound => "not found"@,
        AppError::Unauthorized => "unauthorized"@,
        AppError::Forbidden => "forbidden"@,
        AppError::ForbiddenMsg(m) => m@,
        AppError::Validation(m) => "validation: "@ + m@,
        AppError::Unprocessable(m) => "unprocessable: "@ + m@,
        AppError::Conflict(m) => "conflict: "@ + m@,
        AppError::Io(m) => "io: "@ + m@,
        AppError::Db(m) => "database: "@ + m@,
        AppError::Template(m) => "template: "@ + m@,
        AppError::Multipart(m) => "multipart: "@ + m@,
        AppError::Internal(m) => "internal: "@ + m@,
    }
}

fn prefixed(p: &str, m: &String) -> (r: String)
    ensures
        r@ == p@ + m@,
{
    let mut v = crate::text::str_to_chars(p);
    crate::escape::push_chars(&mut v, &crate::text::str_to_chars(m.as_str()));
    crate::text::chars_to_string(v.as_slice())
}

impl AppError {
    /// The error's message (its `Display` form).
    pub fn message(&self) -> (r: String)
        ensures
            r@ == message_of(*self),
    {
        match self {
            AppError::NotFound => "not found".to_string(),
            AppError::Unauthorized => "unauthorized".to_string(),
            AppError::Forbidden => "forbidden".to_string(),
            AppError::ForbiddenMsg(m) => m.clone(),
            AppError::Validation(m) => prefixed("validation: ", m),
            AppError::Unprocessable(m) => prefixed("unprocessable: ", m),
            AppError::Conflict(m) => prefixed("conflict: ", m),
            AppError::Io(m) => prefixed("io: ", m),
            AppError::Db(m) => prefixed("database: ", m),
            AppError::Template(m) => prefixed("template: ", m),
            AppError::Multipart(m) => prefixed("multipart: ", m),
            AppError::Internal(m) => prefixed("internal: ", m),
        }
    }
}

/// An error as contracts see it: its kind and the characters of its detail.
pub enum ErrorView {
    NotFound,
    Unauthorized,
    Forbidden,
    ForbiddenMsg(Seq<char>),
    Validation(Seq<char>),
    Unprocessable(Seq<char>),
    Conflict(Seq<char>),
    Io(Seq<char>),
    Db(Seq<char>),
    Template(Seq<char>),
    Multipart(Seq<char>),
    Internal(Seq<char>),
}

impl View for AppError {
    type V = ErrorView;

    open spec fn view(&self) -> ErrorView {
        match self {
            AppError::NotFound => ErrorView::NotFound,
            AppError::Unauthorized => ErrorView::Unauthorized,
            AppError::Forbidden => ErrorView::Forbidden,
            AppError::ForbiddenMsg(m) => ErrorView::ForbiddenMsg(m@),
            AppError::Validation(m) => ErrorView::Validation(m@),
            AppError::Unprocessable(m) => ErrorView::Unprocessable(m@),
            AppError::Conflict(m) => ErrorView::Conflict(m@),
            AppError::Io(m) => ErrorView::Io(m@),
            AppError::Db(m) => ErrorView::Db(m@),
            AppError::Template(m) => ErrorView::Template(m@),
            AppError::Multipart(m) => ErrorView::Multipart(m@),
            AppError::Internal(m) => ErrorView::Internal(m@),
        }
    }
}

/// `r` failed with a validation error whose message is `m`.
pub open spec fn fails_validation<T>(r: Result<T, AppError>, m: Seq<char>) -> bool {
    r matches Err(e) && e@ == ErrorView::Validation(m)
}

/// A validation error with the given message.
pub fn validation(m: &str) -> (e: AppError)
    ensures
        e@ == ErrorView::Validation(m@),
{
    AppError::Validation(m.to_string())
}

} // verus!
