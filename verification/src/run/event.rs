//! What a run tells its client, and how it ends.
use crate::data;
use crate::data::Duplicate;
use crate::model::ids::{CheckpointId, ToolRoundId};
use crate::model::tool::{ToolCall, ToolCallView, ToolRoundAssistant, ToolRoundAssistantView};
use crate::model::usage::Usage;
use vstd::prelude::*;

verus! {

/// Why a run failed.
#[derive(Debug)]
pub enum RunFailure {
    Protocol(String),
    Provider(String),
    Store(String),
    Client(String),
}

#[verifier::ext_equal]
pub enum RunFailureView {
    Protocol(Seq<char>),
    Provider(Seq<char>),
    Store(Seq<char>),
    Client(Seq<char>),
}

impl View for RunFailure {
    type V = RunFailureView;

    open spec fn view(&self) -> RunFailureView {
        match self {
            RunFailure::Protocol(m) => RunFailureView::Protocol(m@),
            RunFailure::Provider(m) => RunFailureView::Provider(m@),
            RunFailure::Store(m) => RunFailureView::Store(m@),
            RunFailure::Client(m) => RunFailureView::Client(m@),
        }
    }
}

impl Duplicate for RunFailure {
    fn duplicate(&self) -> (r: Self) {
        match self {
            RunFailure::Protocol(m) => RunFailure::Protocol(m.clone()),
            RunFailure::Provider(m) => RunFailure::Provider(m.clone()),
            RunFailure::Store(m) => RunFailure::Store(m.clone()),
            RunFailure::Client(m) => RunFailure::Client(m.clone()),
        }
    }
}

impl RunFailureView {
    /// The message of the failure.
    pub open spec fn message(self) -> Seq<char> {
        match self {
            RunFailureView::Protocol(m) => m,
            RunFailureView::Provider(m) => m,
            RunFailureView::Store(m) => m,
            RunFailureView::Client(m) => m,
        }
    }
}

/// The message of a failure, as it is stored with the run.
pub fn failure_message(failure: &RunFailure) -> (r: String)
    ensures
        r@ == failure@.message(),
{
    match failure {
        RunFailure::Protocol(m) => m.clone(),
        RunFailure::Provider(m) => m.clone(),
        RunFailure::Store(m) => m.clone(),
        RunFailure::Client(m) => m.clone(),
    }
}

/// How a run ended.
#[derive(Debug)]
pub enum RunOutcome {
    Completed,
    Cancelled,
    Failed(RunFailure),
}

#[verifier::ext_equal]
pub enum RunOutcomeView {
    Completed,
    Cancelled,
    Failed(RunFailureView),
}

impl View for RunOutcome {
    type V = RunOutcomeView;

    open spec fn view(&self) -> RunOutcomeView {
        match self {
            RunOutcome::Completed => RunOutcomeView::Completed,
            RunOutcome::Cancelled => RunOutcomeView::Cancelled,
            RunOutcome::Failed(failure) => RunOutcomeView::Failed(failure@),
        }
    }
}

impl Duplicate for RunOutcome {
    fn duplicate(&self) -> (r: Self) {
        match self {
            RunOutcome::Completed => RunOutcome::Completed,
            RunOutcome::Cancelled => RunOutcome::Cancelled,
            RunOutcome::Failed(failure) => RunOutcome::Failed(failure.duplicate()),
        }
    }
}

/// The outcome of a run whose client no longer takes events.
pub open spec fn client_gone() -> RunOutcomeView {
    RunOutcomeView::Failed(RunFailureView::Client("client event channel closed"@))
}

/// The outcome of a run whose client no longer takes events.
pub fn client_failure() -> (r: RunOutcome)
    ensures
        r@ == client_gone(),
{
    RunOutcome::Failed(RunFailure::Client("client event channel closed".to_owned()))
}

/// What a run hears while it waits for its client to be ready.
#[derive(Debug)]
pub enum ReadySignal {
    Ready,
    /// The client cannot be made ready, and why.
    Refused(String),
    /// Nobody is left to say.
    Closed,
    /// The run was cancelled.
    Cancelled,
}

/// How a run ends that hears something else than that its client is ready.
pub open spec fn after_signal(signal: ReadySignal) -> Option<RunOutcomeView> {
    match signal {
        ReadySignal::Ready => None,
        ReadySignal::Refused(error) => Some(
            RunOutcomeView::Failed(RunFailureView::Client(error@)),
        ),
        ReadySignal::Closed => Some(client_gone()),
        ReadySignal::Cancelled => Some(RunOutcomeView::Cancelled),
    }
}

/// How a run ends that hears something else than that its client is ready; none where it goes on.
pub fn wait_for_state_ready(signal: ReadySignal) -> (r: Option<RunOutcome>)
    ensures
        data::option_view(r) == after_signal(signal),
{
    match signal {
        ReadySignal::Ready => None,
        ReadySignal::Refused(error) => Some(RunOutcome::Failed(RunFailure::Client(error))),
        ReadySignal::Closed => Some(client_failure()),
        ReadySignal::Cancelled => Some(RunOutcome::Cancelled),
    }
}

/// How the end of a run is filed.
#[derive(Clone, Copy, Debug, PartialEq, Eq, Structural)]
pub enum RunStatus {
    Completed,
    Cancelled,
    Failed,
}

/// Under what a failure is filed.
#[derive(Clone, Copy, Debug, PartialEq, Eq, Structural)]
pub enum FailureCategory {
    Protocol,
    Provider,
    Store,
    Client,
}

impl RunFailureView {
    /// Under what the failure is filed.
    pub open spec fn category(self) -> FailureCategory {
        match self {
            RunFailureView::Protocol(_) => FailureCategory::Protocol,
            RunFailureView::Provider(_) => FailureCategory::Provider,
            RunFailureView::Store(_) => FailureCategory::Store,
            RunFailureView::Client(_) => FailureCategory::Client,
        }
    }
}

impl RunFailure {
    /// Under what the failure is filed.
    pub fn category(&self) -> (r: FailureCategory)
        ensures
            r == self@.category(),
    {
        match self {
            RunFailure::Protocol(_) => FailureCategory::Protocol,
            RunFailure::Provider(_) => FailureCategory::Provider,
            RunFailure::Store(_) => FailureCategory::Store,
            RunFailure::Client(_) => FailureCategory::Client,
        }
    }
}

/// What is filed of the end of a run: its status, and where it failed, what of and why.
pub open spec fn end_of_run(outcome: RunOutcomeView) -> (
    RunStatus,
    Option<(FailureCategory, Seq<char>)>,
) {
    match outcome {
        RunOutcomeView::Completed => (RunStatus::Completed, None),
        RunOutcomeView::Cancelled => (RunStatus::Cancelled, None),
        RunOutcomeView::Failed(failure) => (
            RunStatus::Failed,
            Some((failure.category(), failure.message())),
        ),
    }
}

/// What is filed of the end of a run.
pub fn finished_run(outcome: &RunOutcome) -> (r: (RunStatus, Option<(FailureCategory, String)>))
    ensures
        (
            r.0,
            match r.1 {
                Some((category, message)) => Some((category, message@)),
                None => None,
            },
        ) == end_of_run(outcome@),
{
    match outcome {
        RunOutcome::Completed => (RunStatus::Completed, None),
        RunOutcome::Cancelled => (RunStatus::Cancelled, None),
        RunOutcome::Failed(failure) => (
            RunStatus::Failed,
            Some((failure.category(), failure_message(failure))),
        ),
    }
}

/// Why messages were committed.
#[derive(Debug)]
pub enum CommitCause {
    InitialMessages,
    ToolRoundStarted {
        round_id: ToolRoundId,
        assistant: ToolRoundAssistant,
        calls: Vec<ToolCall>,
    },
    ToolResult { call_id: String },
    Compaction { summary: String },
    FinalTurn,
}

#[verifier::ext_equal]
pub enum CommitCauseView {
    InitialMessages,
    ToolRoundStarted {
        round_id: Seq<char>,
        assistant: ToolRoundAssistantView,
        calls: Seq<ToolCallView>,
    },
    ToolResult { call_id: Seq<char> },
    Compaction { summary: Seq<char> },
    FinalTurn,
}

impl View for CommitCause {
    type V = CommitCauseView;

    open spec fn view(&self) -> CommitCauseView {
        match self {
            CommitCause::InitialMessages => CommitCauseView::InitialMessages,
            CommitCause::ToolRoundStarted {
                round_id,
                assistant,
                calls,
            } => CommitCauseView::ToolRoundStarted {
                round_id: round_id@,
                assistant: assistant@,
                calls: data::views(calls@),
            },
            CommitCause::ToolResult { call_id } => CommitCauseView::ToolResult {
                call_id: call_id@,
            },
            CommitCause::Compaction { summary } => CommitCauseView::Compaction {
                summary: summary@,
            },
            CommitCause::FinalTurn => CommitCauseView::FinalTurn,
        }
    }
}

/// The announcement that messages were committed. With a barrier, the run goes on only when the
/// client has taken the new state over.
#[derive(Debug)]
pub struct MessagesCommitted {
    pub checkpoint_id: CheckpointId,
    pub tool_round_version: u64,
    pub cause: CommitCause,
    pub barrier: bool,
}

#[verifier::ext_equal]
pub struct MessagesCommittedView {
    pub checkpoint_id: CheckpointId,
    pub tool_round_version: u64,
    pub cause: CommitCauseView,
    pub barrier: bool,
}

impl View for MessagesCommitted {
    type V = MessagesCommittedView;

    open spec fn view(&self) -> MessagesCommittedView {
        MessagesCommittedView {
            checkpoint_id: self.checkpoint_id,
            tool_round_version: self.tool_round_version,
            cause: self.cause@,
            barrier: self.barrier,
        }
    }
}

/// What a run tells its client.
#[derive(Debug)]
pub enum RunEvent {
    TextStart,
    TextDelta(String),
    TextEnd,
    ThinkingStart,
    ThinkingDelta(String),
    ThinkingEnd { duration_ns: u64 },
    ToolCallStart { index: usize, call_id: String, name: String, model_call_id: String },
    ToolCallArgumentsDelta { index: usize, delta: String },
    ToolCallEnd { index: usize },
    Usage(Usage),
    CycleInterrupted,
    AutoCompactionStarted,
    AutoCompactionCompleted,
    MessagesCommitted(MessagesCommitted),
    ExecuteToolRound { round_id: ToolRoundId, calls: Vec<ToolCall> },
    Ended(RunOutcome),
}

#[verifier::ext_equal]
pub enum RunEventView {
    TextStart,
    TextDelta(Seq<char>),
    TextEnd,
    ThinkingStart,
    ThinkingDelta(Seq<char>),
    ThinkingEnd { duration_ns: u64 },
    ToolCallStart { index: usize, call_id: Seq<char>, name: Seq<char>, model_call_id: Seq<char> },
    ToolCallArgumentsDelta { index: usize, delta: Seq<char> },
    ToolCallEnd { index: usize },
    Usage(Usage),
    CycleInterrupted,
    AutoCompactionStarted,
    AutoCompactionCompleted,
    MessagesCommitted(MessagesCommittedView),
    ExecuteToolRound { round_id: Seq<char>, calls: Seq<ToolCallView> },
    Ended(RunOutcomeView),
}

impl View for RunEvent {
    type V = RunEventView;

    open spec fn view(&self) -> RunEventView {
        match self {
            RunEvent::TextStart => RunEventView::TextStart,
            RunEvent::TextDelta(delta) => RunEventView::TextDelta(delta@),
            RunEvent::TextEnd => RunEventView::TextEnd,
            RunEvent::ThinkingStart => RunEventView::ThinkingStart,
            RunEvent::ThinkingDelta(delta) => RunEventView::ThinkingDelta(delta@),
            RunEvent::ThinkingEnd { duration_ns } => RunEventView::ThinkingEnd {
                duration_ns: *duration_ns,
            },
            RunEvent::ToolCallStart {
                index,
                call_id,
                name,
                model_call_id,
            } => RunEventView::ToolCallStart {
                index: *index,
                call_id: call_id@,
                name: name@,
                model_call_id: model_call_id@,
            },
            RunEvent::ToolCallArgumentsDelta {
                index,
                delta,
            } => RunEventView::ToolCallArgumentsDelta { index: *index, delta: delta@ },
            RunEvent::ToolCallEnd { index } => RunEventView::ToolCallEnd { index: *index },
            RunEvent::Usage(usage) => RunEventView::Usage(*usage),
            RunEvent::CycleInterrupted => RunEventView::CycleInterrupted,
            RunEvent::AutoCompactionStarted => RunEventView::AutoCompactionStarted,
            RunEvent::AutoCompactionCompleted => RunEventView::AutoCompactionCompleted,
            RunEvent::MessagesCommitted(committed) => RunEventView::MessagesCommitted(committed@),
            RunEvent::ExecuteToolRound { round_id, calls } => RunEventView::ExecuteToolRound {
                round_id: round_id@,
                calls: data::views(calls@),
            },
            RunEvent::Ended(outcome) => RunEventView::Ended(outcome@),
        }
    }
}

/// A run is filed as it ended, and a failure with its category and its message.
pub proof fn law_end_is_filed_as_it_came(outcome: RunOutcomeView, message: Seq<char>)
    ensures
        end_of_run(outcome).0 is Completed <==> outcome is Completed,
        end_of_run(outcome).0 is Cancelled <==> outcome is Cancelled,
        end_of_run(outcome).0 is Failed <==> outcome is Failed,
        end_of_run(outcome).1 is Some <==> outcome is Failed,
        end_of_run(RunOutcomeView::Failed(RunFailureView::Protocol(message))).1 == Some(
            (FailureCategory::Protocol, message),
        ),
        end_of_run(RunOutcomeView::Failed(RunFailureView::Provider(message))).1 == Some(
            (FailureCategory::Provider, message),
        ),
        end_of_run(RunOutcomeView::Failed(RunFailureView::Store(message))).1 == Some(
            (FailureCategory::Store, message),
        ),
        end_of_run(RunOutcomeView::Failed(RunFailureView::Client(message))).1 == Some(
            (FailureCategory::Client, message),
        ),
{
}

/// A run goes on if and only if its client is ready; a run that is cancelled meanwhile ends as
/// cancelled, and any other as a failure of the client.
pub proof fn law_run_waits_for_its_client(signal: ReadySignal)
    ensures
        after_signal(signal) is None <==> signal is Ready,
        signal is Cancelled ==> after_signal(signal) == Some(RunOutcomeView::Cancelled),
        signal is Closed || signal is Refused ==> (after_signal(signal) matches Some(
            RunOutcomeView::Failed(failure),
        ) && failure is Client),
        signal matches ReadySignal::Refused(error) ==> after_signal(
            signal,
        )->0->Failed_0.message() == error@,
{
}

} // verus!
