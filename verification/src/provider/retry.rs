//! How often a provider is asked again.
use crate::error::{Error, ErrorView};
use crate::text;
use vstd::prelude::*;

verus! {

/// How often a provider is asked again after it refused, and how long to wait before.
#[derive(Clone, Copy, Debug, PartialEq, Eq, Structural)]
pub struct RetryPolicy {
    pub retries: u32,
    pub delay_ms: u64,
}

impl Default for RetryPolicy {
    fn default() -> (r: Self)
        ensures
            r == (RetryPolicy { retries: 5, delay_ms: 5_000 }),
    {
        RetryPolicy { retries: 5, delay_ms: 5_000 }
    }
}

/// Whether a status says that a request was served.
pub open spec fn served(status: u16) -> bool {
    200 <= status < 300
}

/// Whether a status says that a request was served.
pub fn is_success(status: u16) -> (r: bool)
    ensures
        r == served(status),
{
    200 <= status && status < 300
}

/// What a provider's refusal is reported as.
pub open spec fn refusal(label: Seq<char>, status: Seq<char>, body: Seq<u8>) -> ErrorView {
    ErrorView::Provider(label + " "@ + status + ": "@ + text::lenient(body))
}

/// What a provider's refusal is reported as, from its body as text.
pub fn refused(label: &str, status: &str, body: &str) -> (r: Error)
    ensures
        r@ == ErrorView::Provider(label@ + " "@ + status@ + ": "@ + body@),
{
    let start = text::concat3(label, " ", status);
    Error::Provider(text::concat3(start.as_str(), ": ", body))
}

/// What follows from a refusal.
#[derive(Debug)]
pub enum AfterRefusal {
    /// The error goes to the caller.
    Fail(Error),
    /// The call is recorded as failed, and the provider is asked again after some time. The number
    /// is that of the attempt that failed, from one on.
    Again { error: Error, failed_attempt: u32, delay_ms: u64 },
}

#[verifier::ext_equal]
pub enum AfterRefusalView {
    Fail(ErrorView),
    Again { error: ErrorView, failed_attempt: int, delay_ms: u64 },
}

impl View for AfterRefusal {
    type V = AfterRefusalView;

    open spec fn view(&self) -> AfterRefusalView {
        match self {
            AfterRefusal::Fail(error) => AfterRefusalView::Fail(error@),
            AfterRefusal::Again { error, failed_attempt, delay_ms } => AfterRefusalView::Again {
                error: error@,
                failed_attempt: *failed_attempt as int,
                delay_ms: *delay_ms,
            },
        }
    }
}

/// A request that may be sent several times.
#[derive(Clone, Copy, Debug, PartialEq, Eq, Structural)]
pub struct Sending {
    pub policy: RetryPolicy,
    /// How many attempts failed.
    pub failed: u32,
}

impl Sending {
    /// No more attempts failed than may be made again.
    pub open spec fn wf(self) -> bool {
        self.failed <= self.policy.retries
    }

    /// How many more times the request may be sent, the one under way included.
    pub open spec fn attempts_left(self) -> int {
        self.policy.retries - self.failed + 1
    }

    /// What follows from a refusal, and the request after it.
    pub open spec fn after(self, error: ErrorView) -> (AfterRefusalView, Sending) {
        if self.failed >= self.policy.retries {
            (AfterRefusalView::Fail(error), self)
        } else {
            (
                AfterRefusalView::Again {
                    error,
                    failed_attempt: self.failed + 1,
                    delay_ms: self.policy.delay_ms,
                },
                Sending { policy: self.policy, failed: (self.failed + 1) as u32 },
            )
        }
    }

    /// A request that was not sent yet.
    pub fn new(policy: RetryPolicy) -> (r: Self)
        ensures
            r.wf(),
            r == (Sending { policy, failed: 0 }),
    {
        Sending { policy, failed: 0 }
    }

    /// The provider refused.
    pub fn on_error(&mut self, error: Error) -> (r: AfterRefusal)
        requires
            old(self).wf(),
        ensures
            final(self).wf(),
            (r@, *final(self)) == old(self).after(error@),
    {
        if self.failed >= self.policy.retries {
            AfterRefusal::Fail(error)
        } else {
            self.failed += 1;
            AfterRefusal::Again {
                error,
                failed_attempt: self.failed,
                delay_ms: self.policy.delay_ms,
            }
        }
    }

    /// The provider answered with a status that says that it refused, and with a body.
    pub fn on_refusal(&mut self, label: &str, status: &str, body: &[u8]) -> (r: AfterRefusal)
        requires
            old(self).wf(),
        ensures
            final(self).wf(),
            (r@, *final(self)) == old(self).after(refusal(label@, status@, body@)),
    {
        let body = text::lossy_text(body);
        let error = refused(label, status, body.as_str());
        self.on_error(error)
    }
}

/// Every refusal either reaches the caller or uses up one of the attempts, of which there is one
/// more than retries: a request is sent at most that often.
pub proof fn law_attempts_run_out(sending: Sending, error: ErrorView)
    requires
        sending.wf(),
    ensures
        sending.attempts_left() >= 1,
        sending.after(error).0 is Fail <==> sending.attempts_left() == 1,
        sending.after(error).0 is Again ==> sending.after(error).1.attempts_left()
            == sending.attempts_left() - 1,
        sending.failed == 0 ==> sending.attempts_left() == sending.policy.retries + 1,
{
}

/// A refusal that is tried again is told with its number and the pause of the policy; the policy stays.
/// A refusal that is not is handed to the caller as it came.
pub proof fn law_refusals_are_counted(sending: Sending, error: ErrorView)
    requires
        sending.wf(),
    ensures
        ({
            let (step, after) = sending.after(error);
            &&& after.policy == sending.policy
            &&& step matches AfterRefusalView::Again { error: told, failed_attempt, delay_ms } ==> {
                &&& told == error
                &&& failed_attempt == sending.failed + 1
                &&& after.failed == failed_attempt
                &&& delay_ms == sending.policy.delay_ms
            }
            &&& step matches AfterRefusalView::Fail(told) ==> told == error && after == sending
        }),
{
}

/// A refusal names the provider first, then the status, and ends with what the provider said.
pub proof fn law_refusal_is_told(label: Seq<char>, status: Seq<char>, body: Seq<u8>)
    ensures
        refusal(label, status, body) matches ErrorView::Provider(told) && text::starts(
            told,
            label + " "@ + status,
        ) && text::ends(told, ": "@ + text::lenient(body)),
        served(200) && !served(199) && served(299) && !served(300),
{
    let start = label + " "@ + status;
    let end = ": "@ + text::lenient(body);
    let told = label + " "@ + status + ": "@ + text::lenient(body);
    assert(told.subrange(0, start.len() as int) =~= start);
    assert(told.subrange(told.len() - end.len(), told.len() as int) =~= end);
}

} // verus!
