//! What an indexed search came to.
use vstd::prelude::*;

verus! {

/// Why an indexed search did not answer.
#[derive(Debug)]
pub enum TgrepFailure {
    Unavailable,
    UnsupportedRequest { reason: String },
    Infrastructure { reason: String },
    InvalidRequest { reason: String },
}

#[verifier::ext_equal]
pub enum TgrepFailureView {
    Unavailable,
    UnsupportedRequest { reason: Seq<char> },
    Infrastructure { reason: Seq<char> },
    InvalidRequest { reason: Seq<char> },
}

impl View for TgrepFailure {
    type V = TgrepFailureView;

    open spec fn view(&self) -> TgrepFailureView {
        match self {
            TgrepFailure::Unavailable => TgrepFailureView::Unavailable,
            TgrepFailure::UnsupportedRequest { reason } => TgrepFailureView::UnsupportedRequest {
                reason: reason@,
            },
            TgrepFailure::Infrastructure { reason } => TgrepFailureView::Infrastructure {
                reason: reason@,
            },
            TgrepFailure::InvalidRequest { reason } => TgrepFailureView::InvalidRequest {
                reason: reason@,
            },
        }
    }
}

impl TgrepFailureView {
    /// The failure in words.
    pub open spec fn message(self) -> Seq<char> {
        match self {
            TgrepFailureView::Unavailable
                => "tgrep binary not found on system PATH or configured path"@,
            TgrepFailureView::UnsupportedRequest { reason } => reason,
            TgrepFailureView::Infrastructure { reason } => reason,
            TgrepFailureView::InvalidRequest { reason } => reason,
        }
    }
}

impl TgrepFailure {
    /// The failure in words.
    pub fn message(&self) -> (r: String)
        ensures
            r@ == self@.message(),
    {
        match self {
            TgrepFailure::Unavailable
                => "tgrep binary not found on system PATH or configured path".to_owned(),
            TgrepFailure::UnsupportedRequest { reason } => reason.clone(),
            TgrepFailure::Infrastructure { reason } => reason.clone(),
            TgrepFailure::InvalidRequest { reason } => reason.clone(),
        }
    }
}

/// What an indexed search came to.
#[derive(Debug)]
pub enum TgrepOutcome {
    Match(String),
    NoMatch,
    Failure(TgrepFailure),
}

#[verifier::ext_equal]
pub enum TgrepOutcomeView {
    Match(Seq<char>),
    NoMatch,
    Failure(TgrepFailureView),
}

impl View for TgrepOutcome {
    type V = TgrepOutcomeView;

    open spec fn view(&self) -> TgrepOutcomeView {
        match self {
            TgrepOutcome::Match(output) => TgrepOutcomeView::Match(output@),
            TgrepOutcome::NoMatch => TgrepOutcomeView::NoMatch,
            TgrepOutcome::Failure(failure) => TgrepOutcomeView::Failure(failure@),
        }
    }
}

impl TgrepOutcome {
    /// Whether another engine may be tried: the search failed, and not because it was wrong.
    pub fn should_auto_fallback(&self) -> (r: bool)
        ensures
            r == (self@ matches TgrepOutcomeView::Failure(failure) && !(failure is InvalidRequest)),
    {
        match self {
            TgrepOutcome::Failure(TgrepFailure::InvalidRequest { .. }) => false,
            TgrepOutcome::Failure(_) => true,
            _ => false,
        }
    }
}

} // verus!
