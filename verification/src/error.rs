//! What can go wrong.
use crate::data::Duplicate;
use crate::text;
use vstd::prelude::*;

verus! {

/// An error of the server, with a message for the reader.
#[derive(Debug)]
pub enum Error {
    /// A message or an event does not fit the protocol it belongs to.
    Protocol(String),
    /// A setting is not acceptable.
    Config(String),
    /// The store holds something else than what was asked for.
    Store(String),
    /// The database failed.
    Database(String),
    /// What was asked for does not exist.
    RunNotFound(String),
    /// A provider refused a request.
    Provider(String),
    /// A request could not be made.
    Http(String),
    /// A text is not the JSON that it should be.
    Json(String),
    /// The work was cancelled.
    Cancelled,
}

#[verifier::ext_equal]
pub enum ErrorView {
    Protocol(Seq<char>),
    Config(Seq<char>),
    Store(Seq<char>),
    Database(Seq<char>),
    RunNotFound(Seq<char>),
    Provider(Seq<char>),
    Http(Seq<char>),
    Json(Seq<char>),
    Cancelled,
}

impl View for Error {
    type V = ErrorView;

    open spec fn view(&self) -> ErrorView {
        match self {
            Error::Protocol(m) => ErrorView::Protocol(m@),
            Error::Config(m) => ErrorView::Config(m@),
            Error::Store(m) => ErrorView::Store(m@),
            Error::Database(m) => ErrorView::Database(m@),
            Error::RunNotFound(m) => ErrorView::RunNotFound(m@),
            Error::Provider(m) => ErrorView::Provider(m@),
            Error::Http(m) => ErrorView::Http(m@),
            Error::Json(m) => ErrorView::Json(m@),
            Error::Cancelled => ErrorView::Cancelled,
        }
    }
}

impl Duplicate for Error {
    fn duplicate(&self) -> (r: Self) {
        match self {
            Error::Protocol(m) => Error::Protocol(m.clone()),
            Error::Config(m) => Error::Config(m.clone()),
            Error::Store(m) => Error::Store(m.clone()),
            Error::Database(m) => Error::Database(m.clone()),
            Error::RunNotFound(m) => Error::RunNotFound(m.clone()),
            Error::Provider(m) => Error::Provider(m.clone()),
            Error::Http(m) => Error::Http(m.clone()),
            Error::Json(m) => Error::Json(m.clone()),
            Error::Cancelled => Error::Cancelled,
        }
    }
}

impl ErrorView {
    /// What the reader is told.
    pub open spec fn told(self) -> Seq<char> {
        match self {
            ErrorView::Protocol(m) => "protocol error: "@ + m,
            ErrorView::Config(m) => m,
            ErrorView::Store(m) => m,
            ErrorView::Database(m) => m,
            ErrorView::RunNotFound(m) => m,
            ErrorView::Provider(m) => m,
            ErrorView::Http(m) => m,
            ErrorView::Json(m) => m,
            ErrorView::Cancelled => "cancelled"@,
        }
    }

    /// The kind under which a failed provider call is filed.
    pub open spec fn kind(self) -> Seq<char> {
        match self {
            ErrorView::Provider(_) => "provider"@,
            ErrorView::Http(_) => "provider"@,
            ErrorView::Cancelled => "cancelled"@,
            ErrorView::Database(_) => "store"@,
            ErrorView::Store(_) => "store"@,
            ErrorView::Protocol(_) => "internal"@,
            ErrorView::Config(_) => "internal"@,
            ErrorView::RunNotFound(_) => "internal"@,
            ErrorView::Json(_) => "internal"@,
        }
    }
}

impl Error {
    /// What the reader is told.
    pub fn message(&self) -> (r: String)
        ensures
            r@ == self@.told(),
    {
        match self {
            Error::Protocol(m) => text::concat("protocol error: ", m),
            Error::Config(m) => m.clone(),
            Error::Store(m) => m.clone(),
            Error::Database(m) => m.clone(),
            Error::RunNotFound(m) => m.clone(),
            Error::Provider(m) => m.clone(),
            Error::Http(m) => m.clone(),
            Error::Json(m) => m.clone(),
            Error::Cancelled => "cancelled".to_owned(),
        }
    }
}

/// A result whose parts are taken by their views.
pub open spec fn result_view<T: View, E: View>(r: Result<T, E>) -> Result<T::V, E::V> {
    match r {
        Ok(t) => Ok(t@),
        Err(e) => Err(e@),
    }
}

/// The reader is told the message of an error as it is; an error of the protocol is told as one.
pub proof fn law_errors_are_told(message: Seq<char>)
    ensures
        ErrorView::Config(message).told() == message,
        ErrorView::Store(message).told() == message,
        ErrorView::Database(message).told() == message,
        ErrorView::RunNotFound(message).told() == message,
        ErrorView::Provider(message).told() == message,
        ErrorView::Http(message).told() == message,
        ErrorView::Json(message).told() == message,
        ErrorView::Protocol(message).told() == "protocol error: "@ + message,
{
}

/// Failures of providers and of requests are filed together, those of the store and of the database
/// together, and cancelled work on its own.
pub proof fn law_failures_are_filed_by_kind(error: ErrorView)
    ensures
        error.kind() == "provider"@ <==> (error is Provider || error is Http),
        error.kind() == "store"@ <==> (error is Store || error is Database),
        error.kind() == "cancelled"@ <==> error is Cancelled,
{
    reveal_strlit("provider");
    reveal_strlit("store");
    reveal_strlit("cancelled");
    reveal_strlit("internal");
    assert("provider"@.len() == 8 && "store"@.len() == 5 && "cancelled"@.len() == 9);
    assert("internal"@.len() == 8 && "internal"@[0] != "provider"@[0]);
}

} // verus!
