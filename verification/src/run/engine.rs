//! One run, from its initial messages over model calls and tool rounds to its end.
//!
//! [`RunEngine`] holds the decisions. The caller performs each [`EngineStep`] (it reads and writes
//! the store, talks to the provider and the client) and hands the answer to the method that the step
//! names; the method returns the next step. [`EngineStep::Finish`] ends the run.
use crate::data;
use crate::data::Duplicate;
use crate::digest;
use crate::error::{Error, ErrorView};
use crate::model::ids::{CheckpointId, ToolRoundId};
use crate::model::inference;
use crate::model::inference::{
    ModelInvocation, ModelInvocationView, ModelRequest, ModelRequestView,
};
use crate::model::llm_call::LlmCallUsageAnchor;
use crate::model::message::{
    text_content, CanonicalMessage, CanonicalMessageView, ContentPartView, MessageContent,
    MessageContentView, Origin, Role,
};
use crate::model::projection;
use crate::model::projection::{ProjectedMessage, ProjectedMessageView};
use crate::model::run::{PreparedRun, PreparedRunView, RunAction, RunActionView};
use crate::model::tool::{ToolCall, ToolCallView, ToolRoundAssistant, ToolRoundAssistantView};
use crate::model::usage::Usage;
use crate::run::command::{
    MessageInsertion, MessageInsertionView, RunCommand, RunCommandView,
};
use crate::run::compaction;
use crate::run::compaction::{ContextUsageAnchor, EstimateSource};
use crate::run::event::{
    client_failure, CommitCause, CommitCauseView, MessagesCommitted, MessagesCommittedView,
    RunFailure, RunFailureView, RunOutcome, RunOutcomeView,
};
use crate::run::model_cycle::{
    ModelCycleFailure, ModelCycleFailureView, ModelCycleResult, ModelCycleResultView,
};
use crate::text;
use vstd::prelude::*;

verus! {

/// The usage of a run after another call.
pub open spec fn accumulated(total: Option<Usage>, more: Option<Usage>) -> Option<Usage> {
    match (total, more) {
        (Some(a), Some(b)) => Some(crate::model::usage::usage_sum(a, b)),
        (None, Some(b)) => Some(b),
        (_, None) => total,
    }
}

/// The usage of a run after another call.
pub fn accumulate_usage(total: Option<Usage>, more: Option<Usage>) -> (r: Option<Usage>)
    ensures
        r == accumulated(total, more),
{
    match (total, more) {
        (Some(a), Some(b)) => {
            let mut sum = a;
            sum.accumulate(b);
            Some(sum)
        },
        (None, Some(b)) => Some(b),
        (_, None) => total,
    }
}

/// An error of the store or of the conversation as a failure of the run.
pub open spec fn failure_of(error: ErrorView) -> RunFailureView {
    match error {
        ErrorView::Protocol(m) => RunFailureView::Protocol(m),
        ErrorView::Config(m) => RunFailureView::Store(m),
        ErrorView::Store(m) => RunFailureView::Store(m),
        ErrorView::Database(m) => RunFailureView::Store(m),
        ErrorView::RunNotFound(m) => RunFailureView::Store(m),
        ErrorView::Provider(m) => RunFailureView::Provider(m),
        ErrorView::Http(m) => RunFailureView::Provider(m),
        ErrorView::Json(m) => RunFailureView::Protocol(m),
        ErrorView::Cancelled => RunFailureView::Client("cancelled"@),
    }
}

/// An error of the store or of the conversation as a failure of the run.
pub fn failure_from(error: Error) -> (r: RunFailure)
    ensures
        r@ == failure_of(error@),
{
    match error {
        Error::Protocol(m) => RunFailure::Protocol(m),
        Error::Config(m) => RunFailure::Store(m),
        Error::Store(m) => RunFailure::Store(m),
        Error::Database(m) => RunFailure::Store(m),
        Error::RunNotFound(m) => RunFailure::Store(m),
        Error::Provider(m) => RunFailure::Provider(m),
        Error::Http(m) => RunFailure::Provider(m),
        Error::Json(m) => RunFailure::Protocol(m),
        Error::Cancelled => RunFailure::Client("cancelled".to_owned()),
    }
}

/// A tool round to execute.
#[derive(Debug)]
pub struct ToolRound {
    pub id: ToolRoundId,
    pub assistant: ToolRoundAssistant,
    pub calls: Vec<ToolCall>,
    pub recovered_started_at_ms: Option<u64>,
}

#[verifier::ext_equal]
pub struct ToolRoundView {
    pub id: Seq<char>,
    pub assistant: ToolRoundAssistantView,
    pub calls: Seq<ToolCallView>,
    pub recovered_started_at_ms: Option<u64>,
}

impl View for ToolRound {
    type V = ToolRoundView;

    open spec fn view(&self) -> ToolRoundView {
        ToolRoundView {
            id: self.id@,
            assistant: self.assistant@,
            calls: data::views(self.calls@),
            recovered_started_at_ms: self.recovered_started_at_ms,
        }
    }
}

/// What is left to do when a provider call that is being stopped has ended.
pub enum StopReason {
    /// End the run.
    Abort(RunOutcome),
    /// Add these messages and go on.
    Break(MessageInsertion),
}

#[verifier::ext_equal]
pub enum StopReasonView {
    Abort(RunOutcomeView),
    Break(MessageInsertionView),
}

impl View for StopReason {
    type V = StopReasonView;

    open spec fn view(&self) -> StopReasonView {
        match self {
            StopReason::Abort(outcome) => StopReasonView::Abort(outcome@),
            StopReason::Break(insertion) => StopReasonView::Break(insertion@),
        }
    }
}

/// What a run is waiting for.
pub enum Phase {
    /// The initial message at `next` is being appended.
    Appending { next: usize, changed: bool },
    /// The client is taking over the initial messages.
    AnnouncingInitial,
    /// A tool round is being executed.
    InRound,
    /// It is being checked whether the run was cancelled.
    Checking,
    /// The conversation is being loaded.
    Loading,
    /// A part of the conversation is being serialized to estimate its size.
    Estimating {
        messages: Vec<CanonicalMessage>,
        history: Vec<ProjectedMessage>,
        source: EstimateSource,
    },
    /// The conversation is being compacted.
    Compacting,
    /// A provider call is being registered.
    Beginning { messages: Vec<CanonicalMessage>, history: Vec<ProjectedMessage> },
    /// The images of tool results are being loaded.
    Hydrating { index: u64, message_count: usize },
    /// The model is answering.
    Streaming { index: u64 },
    /// The provider call is being stopped.
    Stopping { reason: StopReason },
    /// The client is being told of the interruption.
    Interrupting { insertion: MessageInsertion },
    /// Messages that waited for the model are being appended before those that interrupted it.
    FlushingBreak { insertion: MessageInsertion },
    /// The messages that interrupted the model are being appended.
    InsertingBreak,
    /// The conversation is being replaced by its summary.
    StoringSummary { summary: String },
    /// Messages that waited for the model are being appended behind the summary.
    FlushingSummary { summary: String },
    /// The client is being asked for its last messages.
    DrainingSummary { summary: String },
    /// The client's last messages are being appended behind the summary.
    ClosingSummary { summary: String },
    /// The client is taking over the summary.
    AnnouncingSummary,
    /// The answer is being appended.
    StoringAnswer,
    /// Messages that waited for the model are being appended behind the answer.
    FlushingAnswer,
    /// The client is being asked for its last messages.
    DrainingAnswer,
    /// The client's last messages are being appended behind the answer.
    ClosingAnswer,
    /// The client is taking over the answer.
    AnnouncingAnswer,
    /// The run has ended.
    Over,
}

#[verifier::ext_equal]
pub enum PhaseView {
    Appending { next: usize, changed: bool },
    AnnouncingInitial,
    InRound,
    Checking,
    Loading,
    Estimating {
        messages: Seq<CanonicalMessageView>,
        history: Seq<ProjectedMessageView>,
        source: EstimateSource,
    },
    Compacting,
    Beginning { messages: Seq<CanonicalMessageView>, history: Seq<ProjectedMessageView> },
    Hydrating { index: u64, message_count: usize },
    Streaming { index: u64 },
    Stopping { reason: StopReasonView },
    Interrupting { insertion: MessageInsertionView },
    FlushingBreak { insertion: MessageInsertionView },
    InsertingBreak,
    StoringSummary { summary: Seq<char> },
    FlushingSummary { summary: Seq<char> },
    DrainingSummary { summary: Seq<char> },
    ClosingSummary { summary: Seq<char> },
    AnnouncingSummary,
    StoringAnswer,
    FlushingAnswer,
    DrainingAnswer,
    ClosingAnswer,
    AnnouncingAnswer,
    Over,
}

impl View for Phase {
    type V = PhaseView;

    open spec fn view(&self) -> PhaseView {
        match self {
            Phase::Appending { next, changed } => PhaseView::Appending {
                next: *next,
                changed: *changed,
            },
            Phase::AnnouncingInitial => PhaseView::AnnouncingInitial,
            Phase::InRound => PhaseView::InRound,
            Phase::Checking => PhaseView::Checking,
            Phase::Loading => PhaseView::Loading,
            Phase::Estimating { messages, history, source } => PhaseView::Estimating {
                messages: data::views(messages@),
                history: data::views(history@),
                source: *source,
            },
            Phase::Compacting => PhaseView::Compacting,
            Phase::Beginning { messages, history } => PhaseView::Beginning {
                messages: data::views(messages@),
                history: data::views(history@),
            },
            Phase::Hydrating { index, message_count } => PhaseView::Hydrating {
                index: *index,
                message_count: *message_count,
            },
            Phase::Streaming { index } => PhaseView::Streaming { index: *index },
            Phase::Stopping { reason } => PhaseView::Stopping { reason: reason@ },
            Phase::Interrupting { insertion } => PhaseView::Interrupting { insertion: insertion@ },
            Phase::FlushingBreak { insertion } => PhaseView::FlushingBreak {
                insertion: insertion@,
            },
            Phase::InsertingBreak => PhaseView::InsertingBreak,
            Phase::StoringSummary { summary } => PhaseView::StoringSummary { summary: summary@ },
            Phase::FlushingSummary { summary } => PhaseView::FlushingSummary { summary: summary@ },
            Phase::DrainingSummary { summary } => PhaseView::DrainingSummary { summary: summary@ },
            Phase::ClosingSummary { summary } => PhaseView::ClosingSummary { summary: summary@ },
            Phase::AnnouncingSummary => PhaseView::AnnouncingSummary,
            Phase::StoringAnswer => PhaseView::StoringAnswer,
            Phase::FlushingAnswer => PhaseView::FlushingAnswer,
            Phase::DrainingAnswer => PhaseView::DrainingAnswer,
            Phase::ClosingAnswer => PhaseView::ClosingAnswer,
            Phase::AnnouncingAnswer => PhaseView::AnnouncingAnswer,
            Phase::Over => PhaseView::Over,
        }
    }
}

/// What the caller does next, and which method takes the answer. A store that fails is reported to
/// [`RunEngine::on_failed`] in any phase.
pub enum EngineStep {
    /// Append the initial message at this position unless it is there: `on_appended`.
    AppendInitial { index: usize },
    /// Send the announcement and wait until the client has taken it over: `on_ready`.
    Announce(MessagesCommitted),
    /// Execute the round, then append the insertions: `on_round_done`.
    ExecuteRound { round: ToolRound, insertions: Vec<MessageInsertion> },
    /// Check whether the run was cancelled; with `resume`, first take messages again: `on_checked`.
    CheckCancelled { resume: bool },
    /// Load the messages of the checkpoint and, if asked, the latest usage anchor: `on_loaded`.
    LoadContext { checkpoint: CheckpointId, with_anchor: bool },
    /// Serialize the part of the conversation: `on_estimated`.
    Estimate(EstimateSource),
    /// Compact these messages: `on_compacted`.
    AutoCompact { messages: Vec<CanonicalMessage> },
    /// Register a provider call: `on_call_begun`.
    BeginCall,
    /// Load the images of tool results, and serialize prompt and history: `on_hydrated`.
    Hydrate { history: Vec<ProjectedMessage> },
    /// Start the provider call. Commands go to `on_command`, its end to `on_cycle_ended`.
    Stream(ModelInvocation),
    /// Go on with the provider call.
    KeepStreaming,
    /// Cancel the provider call and wait for its end: `on_cycle_stopped`.
    StopCycle,
    /// Tell the client that the cycle was interrupted: `on_interruption_sent`.
    EmitInterrupted,
    /// Append the messages of the insertions: `on_batches`.
    AppendBatches(Vec<MessageInsertion>),
    /// Replace the conversation by these messages: `on_stored`.
    ReplaceCheckpoint(Vec<CanonicalMessage>),
    /// Append these messages: `on_stored`.
    AppendCheckpoint(Vec<CanonicalMessage>),
    /// Take no more messages, and hand over those already accepted: `on_drained`.
    Drain,
    /// Store the outcome and tell the client; with `interrupted`, first that the cycle was.
    Finish { outcome: RunOutcome, usage: Option<Usage>, interrupted: bool },
}

#[verifier::ext_equal]
pub enum EngineStepView {
    AppendInitial { index: usize },
    Announce(MessagesCommittedView),
    ExecuteRound { round: ToolRoundView, insertions: Seq<MessageInsertionView> },
    CheckCancelled { resume: bool },
    LoadContext { checkpoint: CheckpointId, with_anchor: bool },
    Estimate(EstimateSource),
    AutoCompact { messages: Seq<CanonicalMessageView> },
    BeginCall,
    Hydrate { history: Seq<ProjectedMessageView> },
    Stream(ModelInvocationView),
    KeepStreaming,
    StopCycle,
    EmitInterrupted,
    AppendBatches(Seq<MessageInsertionView>),
    ReplaceCheckpoint(Seq<CanonicalMessageView>),
    AppendCheckpoint(Seq<CanonicalMessageView>),
    Drain,
    Finish { outcome: RunOutcomeView, usage: Option<Usage>, interrupted: bool },
}

impl View for EngineStep {
    type V = EngineStepView;

    open spec fn view(&self) -> EngineStepView {
        match self {
            EngineStep::AppendInitial { index } => EngineStepView::AppendInitial { index: *index },
            EngineStep::Announce(committed) => EngineStepView::Announce(committed@),
            EngineStep::ExecuteRound { round, insertions } => EngineStepView::ExecuteRound {
                round: round@,
                insertions: data::views(insertions@),
            },
            EngineStep::CheckCancelled { resume } => EngineStepView::CheckCancelled {
                resume: *resume,
            },
            EngineStep::LoadContext { checkpoint, with_anchor } => EngineStepView::LoadContext {
                checkpoint: *checkpoint,
                with_anchor: *with_anchor,
            },
            EngineStep::Estimate(source) => EngineStepView::Estimate(*source),
            EngineStep::AutoCompact { messages } => EngineStepView::AutoCompact {
                messages: data::views(messages@),
            },
            EngineStep::BeginCall => EngineStepView::BeginCall,
            EngineStep::Hydrate { history } => EngineStepView::Hydrate {
                history: data::views(history@),
            },
            EngineStep::Stream(invocation) => EngineStepView::Stream(invocation@),
            EngineStep::KeepStreaming => EngineStepView::KeepStreaming,
            EngineStep::StopCycle => EngineStepView::StopCycle,
            EngineStep::EmitInterrupted => EngineStepView::EmitInterrupted,
            EngineStep::AppendBatches(insertions) => EngineStepView::AppendBatches(
                data::views(insertions@),
            ),
            EngineStep::ReplaceCheckpoint(messages) => EngineStepView::ReplaceCheckpoint(
                data::views(messages@),
            ),
            EngineStep::AppendCheckpoint(messages) => EngineStepView::AppendCheckpoint(
                data::views(messages@),
            ),
            EngineStep::Drain => EngineStepView::Drain,
            EngineStep::Finish { outcome, usage, interrupted } => EngineStepView::Finish {
                outcome: outcome@,
                usage: *usage,
                interrupted: *interrupted,
            },
        }
    }
}

/// A run in progress.
pub struct RunEngine {
    pub prepared: PreparedRun,
    pub checkpoint: CheckpointId,
    pub usage: Option<Usage>,
    pub auto_compacted: bool,
    pub context_tokens: Option<u64>,
    pub pending: Vec<MessageInsertion>,
    pub phase: Phase,
}

#[verifier::ext_equal]
pub struct EngineView {
    pub prepared: PreparedRunView,
    pub checkpoint: CheckpointId,
    pub usage: Option<Usage>,
    pub auto_compacted: bool,
    pub context_tokens: Option<u64>,
    pub pending: Seq<MessageInsertionView>,
    pub phase: PhaseView,
}

impl View for RunEngine {
    type V = EngineView;

    open spec fn view(&self) -> EngineView {
        EngineView {
            prepared: self.prepared@,
            checkpoint: self.checkpoint,
            usage: self.usage,
            auto_compacted: self.auto_compacted,
            context_tokens: self.context_tokens,
            pending: data::views(self.pending@),
            phase: self.phase@,
        }
    }
}

/// The message that a summary is kept in.
pub open spec fn summary_message(event_id: Seq<char>, summary: Seq<char>) -> CanonicalMessageView {
    CanonicalMessageView {
        message_id: "runtime:"@ + event_id,
        role: Role::User,
        origin: Origin::Runtime,
        content: MessageContentView::Parts {
            parts: seq![
                ContentPartView::Text {
                    text: "<conversation_summary>\n"@ + summary + "\n</conversation_summary>"@,
                },
            ],
        },
        runtime_event_id: Some(event_id),
    }
}

/// The message that a summary is kept in.
pub fn make_summary_message(event_id: String, summary: &str) -> (r: CanonicalMessage)
    ensures
        r@ == summary_message(event_id@, summary@),
{
    let mut content = "<conversation_summary>\n".to_owned();
    content.append(summary);
    content.append("\n</conversation_summary>");
    let mut message_id = "runtime:".to_owned();
    message_id.append(event_id.as_str());
    CanonicalMessage {
        message_id,
        role: Role::User,
        origin: Origin::Runtime,
        content: text_content(content),
        runtime_event_id: Some(event_id),
    }
}

/// The message that holds a final answer.
pub open spec fn answer_message(
    run_id: Seq<char>,
    index: u64,
    cycle: ModelCycleResultView,
) -> CanonicalMessageView {
    CanonicalMessageView {
        message_id: run_id + ":assistant:"@ + text::decimal(index as nat),
        role: Role::Assistant,
        origin: Origin::Assistant,
        content: MessageContentView::Assistant {
            text: cycle.text,
            thinking: cycle.reasoning,
            tool_round_id: None,
            replay_state: cycle.replay_state,
            tool_calls: Seq::empty(),
        },
        runtime_event_id: None,
    }
}

impl EngineView {
    /// The run in another phase.
    pub open spec fn at(self, phase: PhaseView) -> EngineView {
        EngineView { phase, ..self }
    }

    /// The end of the run.
    pub open spec fn ends(self, outcome: RunOutcomeView, interrupted: bool) -> (
        EngineView,
        EngineStepView,
    ) {
        (
            self.at(PhaseView::Over),
            EngineStepView::Finish { outcome, usage: self.usage, interrupted },
        )
    }

    /// The end of the run with a failure that the provider or the client caused.
    pub open spec fn breaks(self, message: Seq<char>) -> (EngineView, EngineStepView) {
        self.ends(RunOutcomeView::Failed(RunFailureView::Protocol(message)), false)
    }

    /// The announcement of the current checkpoint.
    pub open spec fn announcement(self, cause: CommitCauseView) -> EngineStepView {
        EngineStepView::Announce(
            MessagesCommittedView {
                checkpoint_id: self.checkpoint,
                tool_round_version: 0,
                cause,
                barrier: true,
            },
        )
    }

    /// The way to the next model call.
    pub open spec fn turns(self, resume: bool) -> (EngineView, EngineStepView) {
        (self.at(PhaseView::Checking), EngineStepView::CheckCancelled { resume })
    }

    /// What follows the initial messages.
    pub open spec fn after_initial(self) -> (EngineView, EngineStepView) {
        match self.prepared.action {
            RunActionView::Resume { pending_tool_round: Some(round) } => (
                self.at(PhaseView::InRound),
                EngineStepView::ExecuteRound {
                    round: ToolRoundView {
                        id: self.prepared.run_id + ":round:resume"@,
                        assistant: round.assistant,
                        calls: round.calls,
                        recovered_started_at_ms: Some(round.started_at_ms),
                    },
                    insertions: Seq::empty(),
                },
            ),
            _ => self.turns(false),
        }
    }

    /// The first step.
    pub open spec fn begin(self) -> (EngineView, EngineStepView) {
        if self.prepared.initial_messages.len() > 0 {
            (
                self.at(PhaseView::Appending { next: 0, changed: false }),
                EngineStepView::AppendInitial { index: 0 },
            )
        } else {
            self.after_initial()
        }
    }

    /// The step after an initial message was appended, or was there already.
    pub open spec fn appended(self, checkpoint: CheckpointId, inserted: bool) -> (
        EngineView,
        EngineStepView,
    ) {
        let now = EngineView { checkpoint, ..self };
        match self.phase {
            PhaseView::Appending { next, changed } => if next + 1
                < self.prepared.initial_messages.len() {
                (
                    now.at(
                        PhaseView::Appending {
                            next: (next + 1) as usize,
                            changed: changed || inserted,
                        },
                    ),
                    EngineStepView::AppendInitial { index: (next + 1) as usize },
                )
            } else if changed || inserted {
                (
                    now.at(PhaseView::AnnouncingInitial),
                    now.announcement(CommitCauseView::InitialMessages),
                )
            } else {
                now.after_initial()
            },
            _ => (now, EngineStepView::KeepStreaming),
        }
    }

    /// The step after the client took over what was announced.
    pub open spec fn ready(self) -> (EngineView, EngineStepView) {
        if self.phase is AnnouncingInitial {
            self.after_initial()
        } else {
            self.ends(RunOutcomeView::Completed, false)
        }
    }

    /// The step after it was checked whether the run was cancelled.
    pub open spec fn checked(self, cancelled: bool) -> (EngineView, EngineStepView) {
        if cancelled {
            self.ends(RunOutcomeView::Cancelled, false)
        } else {
            (
                self.at(PhaseView::Loading),
                EngineStepView::LoadContext {
                    checkpoint: self.checkpoint,
                    with_anchor: !self.auto_compacted && self.prepared.action is Start,
                },
            )
        }
    }

    /// The step after the conversation was loaded, with what the latest call reported where it was
    /// asked for.
    pub open spec fn loaded(
        self,
        messages: Seq<CanonicalMessageView>,
        call: Option<LlmCallUsageAnchor>,
    ) -> (EngineView, EngineStepView) {
        let anchor = match call {
            Some(call) if !self.auto_compacted
                && self.prepared.action is Start => compaction::anchor_of(call),
            _ => None,
        };
        let now = if anchor is Some {
            EngineView { context_tokens: None, ..self }
        } else {
            self
        };
        match projection::projection(messages) {
            Err(error) => now.ends(RunOutcomeView::Failed(failure_of(error)), false),
            Ok(history) => match compaction::estimate_source_of(
                now.prepared,
                messages.len() as int,
                history.len() as int,
                anchor,
                now.context_tokens,
            ) {
                Some(source) if !self.auto_compacted => (
                    now.at(PhaseView::Estimating { messages, history, source }),
                    EngineStepView::Estimate(source),
                ),
                _ => (
                    now.at(PhaseView::Beginning { messages, history }),
                    EngineStepView::BeginCall,
                ),
            },
        }
    }

    /// The step after a part of the conversation was serialized.
    pub open spec fn estimated(self, serialized: Seq<char>) -> (EngineView, EngineStepView) {
        match self.phase {
            PhaseView::Estimating { messages, history, source } => if compaction::over_budget(
                self.prepared,
                source.known(),
                compaction::estimated_tokens(serialized),
            ) {
                (self.at(PhaseView::Compacting), EngineStepView::AutoCompact { messages })
            } else {
                (self.at(PhaseView::Beginning { messages, history }), EngineStepView::BeginCall)
            },
            _ => (self, EngineStepView::KeepStreaming),
        }
    }

    /// The step after the conversation was compacted.
    pub open spec fn compacted(self, checkpoint: CheckpointId, usage: Option<Usage>) -> (
        EngineView,
        EngineStepView,
    ) {
        EngineView {
            checkpoint,
            auto_compacted: true,
            usage: accumulated(self.usage, usage),
            ..self
        }.turns(false)
    }

    /// The step after a provider call was registered.
    pub open spec fn call_begun(self, index: u64) -> (EngineView, EngineStepView) {
        match self.phase {
            PhaseView::Beginning { messages, history } => {
                let shown = if self.prepared.action is Compact {
                    seq![projection::compaction_input(messages)]
                } else {
                    history
                };
                (
                    self.at(
                        PhaseView::Hydrating { index, message_count: messages.len() as usize },
                    ),
                    EngineStepView::Hydrate { history: inference::short_history(shown) },
                )
            },
            _ => (self, EngineStepView::KeepStreaming),
        }
    }

    /// The step after images were loaded, with the serialized prompt and history.
    pub open spec fn hydrated(
        self,
        history: Seq<ProjectedMessageView>,
        serialized: Seq<u8>,
    ) -> (EngineView, EngineStepView) {
        match self.phase {
            PhaseView::Hydrating { index, message_count } => (
                EngineView {
                    phase: PhaseView::Streaming { index },
                    pending: Seq::empty(),
                    ..self
                },
                EngineStepView::Stream(
                    ModelInvocationView {
                        call_id: self.prepared.run_id + ":"@ + text::decimal(index as nat),
                        run_id: self.prepared.run_id,
                        conversation_id: self.prepared.conversation_id,
                        provider_call_index: index,
                        canonical_message_count: message_count,
                        projected_message_count: history.len() as usize,
                        history_fingerprint: digest::hex_text(digest::sha256(serialized)),
                        request: ModelRequestView {
                            prompt: self.prepared.prompt,
                            model: self.prepared.model,
                            history,
                        },
                    },
                ),
            ),
            _ => (self, EngineStepView::KeepStreaming),
        }
    }

    /// The step that stops the provider call.
    pub open spec fn stops(self, reason: StopReasonView) -> (EngineView, EngineStepView) {
        (self.at(PhaseView::Stopping { reason }), EngineStepView::StopCycle)
    }

    /// The step on a command while the model is answering. `None` stands for a client that is gone.
    pub open spec fn commanded(self, command: Option<RunCommandView>) -> (
        EngineView,
        EngineStepView,
    ) {
        match command {
            Some(RunCommandView::InsertMessages(insertion)) => (
                EngineView { pending: self.pending.push(insertion), ..self },
                EngineStepView::KeepStreaming,
            ),
            Some(RunCommandView::BreakMessages(insertion)) => self.stops(
                StopReasonView::Break(insertion),
            ),
            Some(RunCommandView::Cancel) => self.stops(
                StopReasonView::Abort(RunOutcomeView::Cancelled),
            ),
            Some(RunCommandView::ToolResult(_)) => self.stops(
                StopReasonView::Abort(
                    RunOutcomeView::Failed(
                        RunFailureView::Protocol(
                            "received a tool result while the model was running"@,
                        ),
                    ),
                ),
            ),
            None => self.stops(StopReasonView::Abort(crate::run::event::client_gone())),
        }
    }

    /// The step after a provider call that was being stopped has ended.
    pub open spec fn cycle_stopped(self, usage: Option<Usage>) -> (EngineView, EngineStepView) {
        match self.phase {
            PhaseView::Stopping { reason: StopReasonView::Abort(outcome) } => self.ends(
                outcome,
                true,
            ),
            PhaseView::Stopping { reason: StopReasonView::Break(insertion) } => (
                EngineView {
                    usage: accumulated(self.usage, usage),
                    phase: PhaseView::Interrupting { insertion },
                    ..self
                },
                EngineStepView::EmitInterrupted,
            ),
            _ => (self, EngineStepView::KeepStreaming),
        }
    }

    /// The step after the client was told of the interruption, or could not be.
    pub open spec fn interruption_sent(self, sent: bool) -> (EngineView, EngineStepView) {
        match self.phase {
            PhaseView::Interrupting { insertion } => if sent {
                (
                    EngineView {
                        pending: Seq::empty(),
                        phase: PhaseView::FlushingBreak { insertion },
                        ..self
                    },
                    EngineStepView::AppendBatches(self.pending),
                )
            } else {
                self.ends(crate::run::event::client_gone(), false)
            },
            _ => (self, EngineStepView::KeepStreaming),
        }
    }

    /// The step after a provider call of a run that compacts has completed.
    pub open spec fn summarized(self, cycle: ModelCycleResultView) -> (EngineView, EngineStepView) {
        let summary = text::trimmed(cycle.text);
        if cycle.calls.len() > 0 {
            self.breaks("compaction model returned tool calls"@)
        } else if summary.len() == 0 {
            self.breaks("compaction model returned an empty summary"@)
        } else {
            (
                self.at(PhaseView::StoringSummary { summary }),
                EngineStepView::ReplaceCheckpoint(
                    seq![summary_message("summary:"@ + self.prepared.run_id, summary)],
                ),
            )
        }
    }

    /// The step after a provider call has completed.
    pub open spec fn answered(self, index: u64, cycle: ModelCycleResultView) -> (
        EngineView,
        EngineStepView,
    ) {
        if self.prepared.action is Compact {
            self.summarized(cycle)
        } else if cycle.calls.len() == 0 {
            (
                self.at(PhaseView::StoringAnswer),
                EngineStepView::AppendCheckpoint(
                    seq![answer_message(self.prepared.run_id, index, cycle)],
                ),
            )
        } else {
            (
                EngineView { pending: Seq::empty(), phase: PhaseView::InRound, ..self },
                EngineStepView::ExecuteRound {
                    round: ToolRoundView {
                        id: self.prepared.run_id + ":round:"@ + text::decimal(index as nat),
                        assistant: ToolRoundAssistantView {
                            text: cycle.text,
                            thinking: cycle.reasoning,
                            model_call_id: cycle.model_call_id,
                            replay_state: cycle.replay_state,
                        },
                        calls: cycle.calls,
                        recovered_started_at_ms: None,
                    },
                    insertions: self.pending,
                },
            )
        }
    }

    /// The step after a provider call has ended by itself.
    pub open spec fn cycle_ended(
        self,
        cycle: Result<ModelCycleResultView, ModelCycleFailureView>,
        cancelled: bool,
    ) -> (EngineView, EngineStepView) {
        match self.phase {
            PhaseView::Streaming { index } => match cycle {
                Err(failure) => {
                    let now = EngineView {
                        usage: accumulated(self.usage, failure.usage),
                        ..self
                    };
                    if cancelled {
                        now.ends(RunOutcomeView::Cancelled, true)
                    } else {
                        now.ends(RunOutcomeView::Failed(failure.failure), false)
                    }
                },
                Ok(cycle) => EngineView {
                    usage: accumulated(self.usage, cycle.usage),
                    ..self
                }.answered(index, cycle),
            },
            _ => (self, EngineStepView::KeepStreaming),
        }
    }

    /// The step after the summary or the answer was stored.
    pub open spec fn stored(self, checkpoint: CheckpointId) -> (EngineView, EngineStepView) {
        let flushed = EngineView { checkpoint, pending: Seq::empty(), ..self };
        match self.phase {
            PhaseView::StoringSummary { summary } => if self.pending.len() > 0 {
                (
                    flushed.at(PhaseView::FlushingSummary { summary }),
                    EngineStepView::AppendBatches(self.pending),
                )
            } else {
                (flushed.at(PhaseView::DrainingSummary { summary }), EngineStepView::Drain)
            },
            _ => if self.pending.len() > 0 {
                (
                    flushed.at(PhaseView::FlushingAnswer),
                    EngineStepView::AppendBatches(self.pending),
                )
            } else {
                (flushed.at(PhaseView::DrainingAnswer), EngineStepView::Drain)
            },
        }
    }

    /// The step after insertions were appended.
    pub open spec fn batched(self, checkpoint: CheckpointId, inserted: bool) -> (
        EngineView,
        EngineStepView,
    ) {
        let now = EngineView { checkpoint, ..self };
        match self.phase {
            PhaseView::FlushingBreak { insertion } => (
                now.at(PhaseView::InsertingBreak),
                EngineStepView::AppendBatches(seq![insertion]),
            ),
            PhaseView::InsertingBreak => now.turns(false),
            PhaseView::FlushingSummary { summary } => (
                now.at(PhaseView::DrainingSummary { summary }),
                EngineStepView::Drain,
            ),
            PhaseView::ClosingSummary { summary } => (
                now.at(PhaseView::AnnouncingSummary),
                now.announcement(CommitCauseView::Compaction { summary }),
            ),
            PhaseView::FlushingAnswer => if inserted {
                now.turns(false)
            } else {
                (now.at(PhaseView::DrainingAnswer), EngineStepView::Drain)
            },
            PhaseView::ClosingAnswer => now.turns(true),
            _ => (now, EngineStepView::KeepStreaming),
        }
    }

    /// The step after the client handed over its last messages.
    pub open spec fn drained(self, insertions: Seq<MessageInsertionView>) -> (
        EngineView,
        EngineStepView,
    ) {
        match self.phase {
            PhaseView::DrainingSummary { summary } => if insertions.len() > 0 {
                (
                    self.at(PhaseView::ClosingSummary { summary }),
                    EngineStepView::AppendBatches(insertions),
                )
            } else {
                (
                    self.at(PhaseView::AnnouncingSummary),
                    self.announcement(CommitCauseView::Compaction { summary }),
                )
            },
            _ => if insertions.len() > 0 {
                (
                    self.at(PhaseView::ClosingAnswer),
                    EngineStepView::AppendBatches(insertions),
                )
            } else {
                (
                    self.at(PhaseView::AnnouncingAnswer),
                    self.announcement(CommitCauseView::FinalTurn),
                )
            },
        }
    }

    /// The step after a tool round.
    pub open spec fn round_done(self, checkpoint: CheckpointId) -> (EngineView, EngineStepView) {
        EngineView { checkpoint, ..self }.turns(false)
    }
}

/// Whether an announcement is being taken over.
pub open spec fn announcing(phase: PhaseView) -> bool {
    phase is AnnouncingInitial || phase is AnnouncingSummary || phase is AnnouncingAnswer
}

/// Whether insertions are being appended.
pub open spec fn appending_batches(phase: PhaseView) -> bool {
    phase is FlushingBreak || phase is InsertingBreak || phase is FlushingSummary
        || phase is ClosingSummary || phase is FlushingAnswer || phase is ClosingAnswer
}

impl RunEngine {
    /// A run that holds its conversation at this checkpoint and has not begun.
    pub fn new(prepared: PreparedRun, checkpoint: CheckpointId) -> (r: Self)
        ensures
            r@ == (EngineView {
                prepared: prepared@,
                checkpoint,
                usage: None,
                auto_compacted: false,
                context_tokens: prepared@.checkpoint_context_tokens,
                pending: Seq::empty(),
                phase: PhaseView::Over,
            }),
    {
        let context_tokens = prepared.checkpoint_context_tokens;
        let pending: Vec<MessageInsertion> = Vec::new();
        assert(data::views(pending@) =~= Seq::empty());
        RunEngine {
            prepared,
            checkpoint,
            usage: None,
            auto_compacted: false,
            context_tokens,
            pending,
            phase: Phase::Over,
        }
    }

    fn enter(self, phase: Phase) -> (r: Self)
        ensures
            r@ == self@.at(phase@),
            r.prepared == self.prepared,
    {
        RunEngine { phase, ..self }
    }

    fn end(self, outcome: RunOutcome, interrupted: bool) -> (r: (Self, EngineStep))
        ensures
            (r.0@, r.1@) == self@.ends(outcome@, interrupted),
    {
        let usage = self.usage;
        (self.enter(Phase::Over), EngineStep::Finish { outcome, usage, interrupted })
    }

    fn break_off(self, message: &str) -> (r: (Self, EngineStep))
        ensures
            (r.0@, r.1@) == self@.breaks(message@),
    {
        self.end(RunOutcome::Failed(RunFailure::Protocol(message.to_owned())), false)
    }

    fn announce(&self, cause: CommitCause) -> (r: EngineStep)
        ensures
            r@ == self@.announcement(cause@),
    {
        EngineStep::Announce(
            MessagesCommitted {
                checkpoint_id: self.checkpoint,
                tool_round_version: 0,
                cause,
                barrier: true,
            },
        )
    }

    fn turn(self, resume: bool) -> (r: (Self, EngineStep))
        ensures
            (r.0@, r.1@) == self@.turns(resume),
    {
        (self.enter(Phase::Checking), EngineStep::CheckCancelled { resume })
    }

    fn go_on(self) -> (r: (Self, EngineStep))
        ensures
            (r.0@, r.1@) == self@.after_initial(),
    {
        let round = match &self.prepared.action {
            RunAction::Resume { pending_tool_round: Some(round) } => round.duplicate(),
            _ => {
                return self.turn(false);
            },
        };
        let mut id = self.prepared.run_id.0.clone();
        id.append(":round:resume");
        let insertions: Vec<MessageInsertion> = Vec::new();
        assert(data::views(insertions@) =~= Seq::empty());
        (
            self.enter(Phase::InRound),
            EngineStep::ExecuteRound {
                round: ToolRound {
                    id: ToolRoundId(id),
                    assistant: round.assistant,
                    calls: round.calls,
                    recovered_started_at_ms: Some(round.started_at_ms),
                },
                insertions,
            },
        )
    }

    /// The first step.
    pub fn begin(self) -> (r: (Self, EngineStep))
        ensures
            (r.0@, r.1@) == self@.begin(),
    {
        if self.prepared.initial_messages.len() > 0 {
            (
                self.enter(Phase::Appending { next: 0, changed: false }),
                EngineStep::AppendInitial { index: 0 },
            )
        } else {
            self.go_on()
        }
    }

    /// The step after an initial message was appended (`inserted`), or was there already.
    pub fn on_appended(self, checkpoint: CheckpointId, inserted: bool) -> (r: (Self, EngineStep))
        requires
            self@.phase is Appending,
        ensures
            (r.0@, r.1@) == self@.appended(checkpoint, inserted),
    {
        let (next, changed) = match self.phase {
            Phase::Appending { next, changed } => (next, changed),
            _ => (0, false),
        };
        let now = RunEngine { checkpoint, ..self };
        assert(now@ =~= (EngineView { checkpoint, ..self@ }));
        let count: usize = now.prepared.initial_messages.len();
        if count > 0 && next < count - 1 {
            (
                now.enter(Phase::Appending { next: next + 1, changed: changed || inserted }),
                EngineStep::AppendInitial { index: next + 1 },
            )
        } else if changed || inserted {
            let step = now.announce(CommitCause::InitialMessages);
            (now.enter(Phase::AnnouncingInitial), step)
        } else {
            now.go_on()
        }
    }

    /// The step after the client took over what was announced.
    pub fn on_ready(self) -> (r: (Self, EngineStep))
        requires
            announcing(self@.phase),
        ensures
            (r.0@, r.1@) == self@.ready(),
    {
        match self.phase {
            Phase::AnnouncingInitial => self.go_on(),
            _ => self.end(RunOutcome::Completed, false),
        }
    }

    /// The end of the run where the store, the client or an inner procedure could not go on.
    pub fn on_failed(self, outcome: RunOutcome) -> (r: (Self, EngineStep))
        ensures
            (r.0@, r.1@) == self@.ends(outcome@, false),
    {
        self.end(outcome, false)
    }

    /// The step after it was checked whether the run was cancelled.
    pub fn on_checked(self, cancelled: bool) -> (r: (Self, EngineStep))
        requires
            self@.phase is Checking,
        ensures
            (r.0@, r.1@) == self@.checked(cancelled),
    {
        if cancelled {
            return self.end(RunOutcome::Cancelled, false);
        }
        let starts = match &self.prepared.action {
            RunAction::Start => true,
            _ => false,
        };
        let with_anchor = !self.auto_compacted && starts;
        let checkpoint = self.checkpoint;
        (self.enter(Phase::Loading), EngineStep::LoadContext { checkpoint, with_anchor })
    }

    /// The step after the conversation was loaded, with what the latest call reported where it was
    /// asked for.
    pub fn on_loaded(
        self,
        messages: Vec<CanonicalMessage>,
        call: Option<LlmCallUsageAnchor>,
    ) -> (r: (Self, EngineStep))
        requires
            self@.phase is Loading,
        ensures
            (r.0@, r.1@) == self@.loaded(data::views(messages@), call),
    {
        let starts = match &self.prepared.action {
            RunAction::Start => true,
            _ => false,
        };
        let anchor = match call {
            Some(call) => if !self.auto_compacted && starts {
                ContextUsageAnchor::from_llm_call(call)
            } else {
                None
            },
            None => None,
        };
        let now = if anchor.is_some() {
            RunEngine { context_tokens: None, ..self }
        } else {
            self
        };
        let ghost seen = if anchor is Some {
            EngineView { context_tokens: None, ..self@ }
        } else {
            self@
        };
        assert(now@ =~= seen);
        let history = match projection::project_messages(messages.as_slice()) {
            Ok(history) => history,
            Err(error) => {
                return now.end(RunOutcome::Failed(failure_from(error)), false);
            },
        };
        let source = compaction::estimate_source(
            &now.prepared,
            messages.as_slice(),
            history.as_slice(),
            anchor,
            now.context_tokens,
        );
        match source {
            Some(source) if !now.auto_compacted => (
                now.enter(Phase::Estimating { messages, history, source }),
                EngineStep::Estimate(source),
            ),
            _ => (now.enter(Phase::Beginning { messages, history }), EngineStep::BeginCall),
        }
    }

    /// The step after a part of the conversation was serialized.
    pub fn on_estimated(self, serialized: &str) -> (r: (Self, EngineStep))
        requires
            self@.phase is Estimating,
        ensures
            (r.0@, r.1@) == self@.estimated(serialized@),
    {
        let RunEngine {
            prepared,
            checkpoint,
            usage,
            auto_compacted,
            context_tokens,
            pending,
            phase,
        } = self;
        match phase {
            Phase::Estimating { messages, history, source } => {
                if compaction::exceeds_budget(&prepared, source, serialized) {
                    (
                        RunEngine {
                            prepared,
                            checkpoint,
                            usage,
                            auto_compacted,
                            context_tokens,
                            pending,
                            phase: Phase::Compacting,
                        },
                        EngineStep::AutoCompact { messages },
                    )
                } else {
                    (
                        RunEngine {
                            prepared,
                            checkpoint,
                            usage,
                            auto_compacted,
                            context_tokens,
                            pending,
                            phase: Phase::Beginning { messages, history },
                        },
                        EngineStep::BeginCall,
                    )
                }
            },
            phase => (
                RunEngine {
                    prepared,
                    checkpoint,
                    usage,
                    auto_compacted,
                    context_tokens,
                    pending,
                    phase,
                },
                EngineStep::KeepStreaming,
            ),
        }
    }

    /// The step after the conversation was compacted.
    pub fn on_compacted(self, checkpoint: CheckpointId, usage: Option<Usage>) -> (r: (
        Self,
        EngineStep,
    ))
        requires
            self@.phase is Compacting,
        ensures
            (r.0@, r.1@) == self@.compacted(checkpoint, usage),
    {
        let total = accumulate_usage(self.usage, usage);
        let now = RunEngine { checkpoint, auto_compacted: true, usage: total, ..self };
        assert(now@ =~= (EngineView { checkpoint, auto_compacted: true, usage: total, ..self@ }));
        now.turn(false)
    }

    /// The step after a provider call was registered.
    pub fn on_call_begun(self, index: u64) -> (r: (Self, EngineStep))
        requires
            self@.phase is Beginning,
        ensures
            (r.0@, r.1@) == self@.call_begun(index),
    {
        let RunEngine {
            prepared,
            checkpoint,
            usage,
            auto_compacted,
            context_tokens,
            pending,
            phase,
        } = self;
        match phase {
            Phase::Beginning { messages, history } => {
                let mut shown = match &prepared.action {
                    RunAction::Compact => match projection::project_compaction_messages(
                        messages.as_slice(),
                    ) {
                        Ok(shown) => shown,
                        Err(_) => Vec::new(),
                    },
                    _ => history,
                };
                inference::normalize_provider_tool_call_ids(&mut shown);
                let message_count: usize = messages.len();
                assert(message_count == data::views(messages@).len() as usize);
                (
                    RunEngine {
                        prepared,
                        checkpoint,
                        usage,
                        auto_compacted,
                        context_tokens,
                        pending,
                        phase: Phase::Hydrating { index, message_count },
                    },
                    EngineStep::Hydrate { history: shown },
                )
            },
            phase => (
                RunEngine {
                    prepared,
                    checkpoint,
                    usage,
                    auto_compacted,
                    context_tokens,
                    pending,
                    phase,
                },
                EngineStep::KeepStreaming,
            ),
        }
    }

    /// The step after images were loaded, with the serialized prompt and history.
    pub fn on_hydrated(self, history: Vec<ProjectedMessage>, serialized: &[u8]) -> (r: (
        Self,
        EngineStep,
    ))
        requires
            self@.phase is Hydrating,
        ensures
            (r.0@, r.1@) == self@.hydrated(data::views(history@), serialized@),
    {
        let (index, message_count) = match self.phase {
            Phase::Hydrating { index, message_count } => (index, message_count),
            _ => (0, 0),
        };
        let mut call_id = self.prepared.run_id.0.clone();
        call_id.append(":");
        let number = text::decimal_u64(index);
        call_id.append(number.as_str());
        let projected_message_count: usize = history.len();
        assert(projected_message_count == data::views(history@).len() as usize);
        let invocation = ModelInvocation {
            call_id,
            run_id: self.prepared.run_id.0.clone(),
            conversation_id: self.prepared.conversation_id.0.clone(),
            provider_call_index: index,
            canonical_message_count: message_count,
            projected_message_count,
            history_fingerprint: digest::fingerprint(serialized),
            request: ModelRequest {
                prompt: self.prepared.prompt.duplicate(),
                model: self.prepared.model.duplicate(),
                history,
            },
        };
        let pending: Vec<MessageInsertion> = Vec::new();
        assert(data::views(pending@) =~= Seq::empty());
        (
            RunEngine { phase: Phase::Streaming { index }, pending, ..self },
            EngineStep::Stream(invocation),
        )
    }

    fn stop(self, reason: StopReason) -> (r: (Self, EngineStep))
        ensures
            (r.0@, r.1@) == self@.stops(reason@),
    {
        (self.enter(Phase::Stopping { reason }), EngineStep::StopCycle)
    }

    /// The step on a command while the model is answering. `None` stands for a client that is gone.
    pub fn on_command(self, command: Option<RunCommand>) -> (r: (Self, EngineStep))
        requires
            self@.phase is Streaming,
        ensures
            (r.0@, r.1@) == self@.commanded(data::option_view(command)),
    {
        broadcast use crate::data::group_views;

        match command {
            Some(RunCommand::InsertMessages(insertion)) => {
                let mut now = self;
                now.pending.push(insertion);
                (now, EngineStep::KeepStreaming)
            },
            Some(RunCommand::BreakMessages(insertion)) => self.stop(StopReason::Break(insertion)),
            Some(RunCommand::Cancel) => self.stop(StopReason::Abort(RunOutcome::Cancelled)),
            Some(RunCommand::ToolResult(_)) => self.stop(
                StopReason::Abort(
                    RunOutcome::Failed(
                        RunFailure::Protocol(
                            "received a tool result while the model was running".to_owned(),
                        ),
                    ),
                ),
            ),
            None => self.stop(StopReason::Abort(client_failure())),
        }
    }

    /// The step after a provider call that was being stopped has ended, with the usage it reported.
    pub fn on_cycle_stopped(self, usage: Option<Usage>) -> (r: (Self, EngineStep))
        requires
            self@.phase is Stopping,
        ensures
            (r.0@, r.1@) == self@.cycle_stopped(usage),
    {
        let RunEngine {
            prepared,
            checkpoint,
            usage: total,
            auto_compacted,
            context_tokens,
            pending,
            phase,
        } = self;
        match phase {
            Phase::Stopping { reason: StopReason::Abort(outcome) } => (
                RunEngine {
                    prepared,
                    checkpoint,
                    usage: total,
                    auto_compacted,
                    context_tokens,
                    pending,
                    phase: Phase::Over,
                },
                EngineStep::Finish { outcome, usage: total, interrupted: true },
            ),
            Phase::Stopping { reason: StopReason::Break(insertion) } => (
                RunEngine {
                    prepared,
                    checkpoint,
                    usage: accumulate_usage(total, usage),
                    auto_compacted,
                    context_tokens,
                    pending,
                    phase: Phase::Interrupting { insertion },
                },
                EngineStep::EmitInterrupted,
            ),
            phase => (
                RunEngine {
                    prepared,
                    checkpoint,
                    usage: total,
                    auto_compacted,
                    context_tokens,
                    pending,
                    phase,
                },
                EngineStep::KeepStreaming,
            ),
        }
    }

    /// The step after the client was told of the interruption, or could not be.
    pub fn on_interruption_sent(self, sent: bool) -> (r: (Self, EngineStep))
        requires
            self@.phase is Interrupting,
        ensures
            (r.0@, r.1@) == self@.interruption_sent(sent),
    {
        if !sent {
            return self.end(client_failure(), false);
        }
        let RunEngine {
            prepared,
            checkpoint,
            usage,
            auto_compacted,
            context_tokens,
            pending,
            phase,
        } = self;
        match phase {
            Phase::Interrupting { insertion } => {
                let none: Vec<MessageInsertion> = Vec::new();
                assert(data::views(none@) =~= Seq::empty());
                (
                    RunEngine {
                        prepared,
                        checkpoint,
                        usage,
                        auto_compacted,
                        context_tokens,
                        pending: none,
                        phase: Phase::FlushingBreak { insertion },
                    },
                    EngineStep::AppendBatches(pending),
                )
            },
            phase => (
                RunEngine {
                    prepared,
                    checkpoint,
                    usage,
                    auto_compacted,
                    context_tokens,
                    pending,
                    phase,
                },
                EngineStep::KeepStreaming,
            ),
        }
    }

    fn summarize(self, cycle: ModelCycleResult) -> (r: (Self, EngineStep))
        ensures
            (r.0@, r.1@) == self@.summarized(cycle@),
    {
        if cycle.calls.len() > 0 {
            return self.break_off("compaction model returned tool calls");
        }
        let summary = text::trim(cycle.text.as_str());
        if summary.as_str().is_empty() {
            return self.break_off("compaction model returned an empty summary");
        }
        let mut event_id = "summary:".to_owned();
        event_id.append(self.prepared.run_id.0.as_str());
        let mut messages: Vec<CanonicalMessage> = Vec::new();
        let message = make_summary_message(event_id, summary.as_str());
        messages.push(message);
        assert(data::views(messages@) =~= seq![message@]);
        (self.enter(Phase::StoringSummary { summary }), EngineStep::ReplaceCheckpoint(messages))
    }

    fn answer(self, index: u64, cycle: ModelCycleResult) -> (r: (Self, EngineStep))
        ensures
            (r.0@, r.1@) == self@.answered(index, cycle@),
    {
        let compacts = match &self.prepared.action {
            RunAction::Compact => true,
            _ => false,
        };
        if compacts {
            return self.summarize(cycle);
        }
        let number = text::decimal_u64(index);
        if cycle.calls.len() == 0 {
            let mut message_id = self.prepared.run_id.0.clone();
            message_id.append(":assistant:");
            message_id.append(number.as_str());
            let ghost seen = cycle@;
            let tool_calls = Vec::new();
            let message = CanonicalMessage {
                message_id,
                role: Role::Assistant,
                origin: Origin::Assistant,
                content: MessageContent::Assistant {
                    text: cycle.text,
                    thinking: cycle.reasoning,
                    tool_round_id: None,
                    replay_state: cycle.replay_state,
                    tool_calls,
                },
                runtime_event_id: None,
            };
            assert(data::views(tool_calls@) =~= Seq::empty());
            assert(message@ =~= answer_message(self@.prepared.run_id, index, seen));
            let mut messages: Vec<CanonicalMessage> = Vec::new();
            messages.push(message);
            assert(data::views(messages@) =~= seq![message@]);
            return (self.enter(Phase::StoringAnswer), EngineStep::AppendCheckpoint(messages));
        }
        let mut id = self.prepared.run_id.0.clone();
        id.append(":round:");
        id.append(number.as_str());
        let RunEngine {
            prepared,
            checkpoint,
            usage,
            auto_compacted,
            context_tokens,
            pending,
            phase: _,
        } = self;
        let none: Vec<MessageInsertion> = Vec::new();
        assert(data::views(none@) =~= Seq::empty());
        (
            RunEngine {
                prepared,
                checkpoint,
                usage,
                auto_compacted,
                context_tokens,
                pending: none,
                phase: Phase::InRound,
            },
            EngineStep::ExecuteRound {
                round: ToolRound {
                    id: ToolRoundId(id),
                    assistant: ToolRoundAssistant {
                        text: cycle.text,
                        thinking: cycle.reasoning,
                        model_call_id: cycle.model_call_id,
                        replay_state: cycle.replay_state,
                    },
                    calls: cycle.calls,
                    recovered_started_at_ms: None,
                },
                insertions: pending,
            },
        )
    }

    /// The step after a provider call has ended by itself; `cancelled` says whether the run was
    /// cancelled meanwhile.
    pub fn on_cycle_ended(
        self,
        cycle: Result<ModelCycleResult, ModelCycleFailure>,
        cancelled: bool,
    ) -> (r: (Self, EngineStep))
        requires
            self@.phase is Streaming,
        ensures
            (r.0@, r.1@) == self@.cycle_ended(crate::error::result_view(cycle), cancelled),
    {
        let index: u64 = match self.phase {
            Phase::Streaming { index } => index,
            _ => 0,
        };
        match cycle {
            Err(failure) => {
                let usage = accumulate_usage(self.usage, failure.usage);
                let now = RunEngine { usage, ..self };
                assert(now@ =~= (EngineView { usage, ..self@ }));
                if cancelled {
                    now.end(RunOutcome::Cancelled, true)
                } else {
                    now.end(RunOutcome::Failed(failure.failure), false)
                }
            },
            Ok(cycle) => {
                let usage = accumulate_usage(self.usage, cycle.usage);
                let now = RunEngine { usage, ..self };
                assert(now@ =~= (EngineView { usage, ..self@ }));
                now.answer(index, cycle)
            },
        }
    }

    /// The step after the summary or the answer was stored.
    pub fn on_stored(self, checkpoint: CheckpointId) -> (r: (Self, EngineStep))
        requires
            self@.phase is StoringSummary || self@.phase is StoringAnswer,
        ensures
            (r.0@, r.1@) == self@.stored(checkpoint),
    {
        let RunEngine {
            prepared,
            checkpoint: _,
            usage,
            auto_compacted,
            context_tokens,
            pending,
            phase,
        } = self;
        let waiting = pending.len() > 0;
        let next = match phase {
            Phase::StoringSummary { summary } => if waiting {
                Phase::FlushingSummary { summary }
            } else {
                Phase::DrainingSummary { summary }
            },
            _ => if waiting {
                Phase::FlushingAnswer
            } else {
                Phase::DrainingAnswer
            },
        };
        let none: Vec<MessageInsertion> = Vec::new();
        assert(data::views(none@) =~= Seq::empty());
        let step = if waiting {
            EngineStep::AppendBatches(pending)
        } else {
            EngineStep::Drain
        };
        (
            RunEngine {
                prepared,
                checkpoint,
                usage,
                auto_compacted,
                context_tokens,
                pending: none,
                phase: next,
            },
            step,
        )
    }

    /// The step after insertions were appended; `inserted` says whether any was new.
    pub fn on_batches(self, checkpoint: CheckpointId, inserted: bool) -> (r: (Self, EngineStep))
        requires
            appending_batches(self@.phase),
        ensures
            (r.0@, r.1@) == self@.batched(checkpoint, inserted),
    {
        let RunEngine {
            prepared,
            checkpoint: _,
            usage,
            auto_compacted,
            context_tokens,
            pending,
            phase,
        } = self;
        let now = RunEngine {
            prepared,
            checkpoint,
            usage,
            auto_compacted,
            context_tokens,
            pending,
            phase: Phase::Over,
        };
        let ghost seen = EngineView { checkpoint, ..self@ };
        assert(now@ =~= seen.at(PhaseView::Over));
        match phase {
            Phase::FlushingBreak { insertion } => {
                let ghost wanted = insertion@;
                let mut batch: Vec<MessageInsertion> = Vec::new();
                batch.push(insertion);
                assert(data::views(batch@) =~= seq![wanted]);
                let next = now.enter(Phase::InsertingBreak);
                (next, EngineStep::AppendBatches(batch))
            },
            Phase::InsertingBreak => now.turn(false),
            Phase::FlushingSummary { summary } => {
                (now.enter(Phase::DrainingSummary { summary }), EngineStep::Drain)
            },
            Phase::ClosingSummary { summary } => {
                let step = now.announce(CommitCause::Compaction { summary });
                (now.enter(Phase::AnnouncingSummary), step)
            },
            Phase::FlushingAnswer => if inserted {
                now.turn(false)
            } else {
                (now.enter(Phase::DrainingAnswer), EngineStep::Drain)
            },
            Phase::ClosingAnswer => now.turn(true),
            phase => (now.enter(phase), EngineStep::KeepStreaming),
        }
    }

    /// The step after the client handed over its last messages.
    pub fn on_drained(self, insertions: Vec<MessageInsertion>) -> (r: (Self, EngineStep))
        requires
            self@.phase is DrainingSummary || self@.phase is DrainingAnswer,
        ensures
            (r.0@, r.1@) == self@.drained(data::views(insertions@)),
    {
        let RunEngine {
            prepared,
            checkpoint,
            usage,
            auto_compacted,
            context_tokens,
            pending,
            phase,
        } = self;
        let now = RunEngine {
            prepared,
            checkpoint,
            usage,
            auto_compacted,
            context_tokens,
            pending,
            phase: Phase::Over,
        };
        assert(now@ =~= self@.at(PhaseView::Over));
        match phase {
            Phase::DrainingSummary { summary } => if insertions.len() > 0 {
                (
                    now.enter(Phase::ClosingSummary { summary }),
                    EngineStep::AppendBatches(insertions),
                )
            } else {
                let step = now.announce(CommitCause::Compaction { summary });
                (now.enter(Phase::AnnouncingSummary), step)
            },
            _ => if insertions.len() > 0 {
                (now.enter(Phase::ClosingAnswer), EngineStep::AppendBatches(insertions))
            } else {
                let step = now.announce(CommitCause::FinalTurn);
                (now.enter(Phase::AnnouncingAnswer), step)
            },
        }
    }

    /// The step after a tool round.
    pub fn on_round_done(self, checkpoint: CheckpointId) -> (r: (Self, EngineStep))
        requires
            self@.phase is InRound,
        ensures
            (r.0@, r.1@) == self@.round_done(checkpoint),
    {
        let now = RunEngine { checkpoint, ..self };
        assert(now@ =~= (EngineView { checkpoint, ..self@ }));
        now.turn(false)
    }
}

/// Whatever can be reported to a run.
pub enum EngineInput {
    Begin,
    Appended { checkpoint: CheckpointId, inserted: bool },
    Ready,
    Failed(RunOutcomeView),
    Checked(bool),
    Loaded { messages: Seq<CanonicalMessageView>, call: Option<LlmCallUsageAnchor> },
    Estimated(Seq<char>),
    Compacted { checkpoint: CheckpointId, usage: Option<Usage> },
    CallBegun(u64),
    Hydrated { history: Seq<ProjectedMessageView>, serialized: Seq<u8> },
    Command(Option<RunCommandView>),
    CycleStopped(Option<Usage>),
    InterruptionSent(bool),
    CycleEnded { cycle: Result<ModelCycleResultView, ModelCycleFailureView>, cancelled: bool },
    Stored(CheckpointId),
    Batched { checkpoint: CheckpointId, inserted: bool },
    Drained(Seq<MessageInsertionView>),
    RoundDone(CheckpointId),
}

impl EngineView {
    /// The step of a run on a report.
    pub open spec fn react(self, input: EngineInput) -> (EngineView, EngineStepView) {
        match input {
            EngineInput::Begin => self.begin(),
            EngineInput::Appended { checkpoint, inserted } => self.appended(checkpoint, inserted),
            EngineInput::Ready => self.ready(),
            EngineInput::Failed(outcome) => self.ends(outcome, false),
            EngineInput::Checked(cancelled) => self.checked(cancelled),
            EngineInput::Loaded { messages, call } => self.loaded(messages, call),
            EngineInput::Estimated(serialized) => self.estimated(serialized),
            EngineInput::Compacted { checkpoint, usage } => self.compacted(checkpoint, usage),
            EngineInput::CallBegun(index) => self.call_begun(index),
            EngineInput::Hydrated { history, serialized } => self.hydrated(history, serialized),
            EngineInput::Command(command) => self.commanded(command),
            EngineInput::CycleStopped(usage) => self.cycle_stopped(usage),
            EngineInput::InterruptionSent(sent) => self.interruption_sent(sent),
            EngineInput::CycleEnded { cycle, cancelled } => self.cycle_ended(cycle, cancelled),
            EngineInput::Stored(checkpoint) => self.stored(checkpoint),
            EngineInput::Batched { checkpoint, inserted } => self.batched(checkpoint, inserted),
            EngineInput::Drained(insertions) => self.drained(insertions),
            EngineInput::RoundDone(checkpoint) => self.round_done(checkpoint),
        }
    }

    /// Whether the run waits for such a report.
    pub open spec fn awaits(self, input: EngineInput) -> bool {
        match input {
            EngineInput::Begin => self.phase is Over,
            EngineInput::Appended { .. } => self.phase is Appending,
            EngineInput::Ready => announcing(self.phase),
            EngineInput::Failed(_) => true,
            EngineInput::Checked(_) => self.phase is Checking,
            EngineInput::Loaded { .. } => self.phase is Loading,
            EngineInput::Estimated(_) => self.phase is Estimating,
            EngineInput::Compacted { .. } => self.phase is Compacting,
            EngineInput::CallBegun(_) => self.phase is Beginning,
            EngineInput::Hydrated { .. } => self.phase is Hydrating,
            EngineInput::Command(_) => self.phase is Streaming,
            EngineInput::CycleStopped(_) => self.phase is Stopping,
            EngineInput::InterruptionSent(_) => self.phase is Interrupting,
            EngineInput::CycleEnded { .. } => self.phase is Streaming,
            EngineInput::Stored(_) => self.phase is StoringSummary || self.phase is StoringAnswer,
            EngineInput::Batched { .. } => appending_batches(self.phase),
            EngineInput::Drained(_) => self.phase is DrainingSummary
                || self.phase is DrainingAnswer,
            EngineInput::RoundDone(_) => self.phase is InRound,
        }
    }

    /// What holds of a run at all times: messages wait only while a model is answering or its answer
    /// is being stored, the size of the context is estimated only before the first compaction, and a run
    /// that is being stopped does not complete.
    pub open spec fn wf(self) -> bool {
        &&& self.pending.len() > 0 ==> self.phase is Streaming || self.phase is Stopping
            || self.phase is Interrupting || self.phase is StoringSummary
            || self.phase is StoringAnswer || self.phase is Over
        &&& (self.phase is Estimating || self.phase is Compacting) ==> !self.auto_compacted
        &&& self.phase matches PhaseView::Stopping { reason: StopReasonView::Abort(outcome) }
            ==> !(outcome is Completed)
    }
}

/// Every report that a run waits for leaves it in order, and leaves alone what was prepared.
pub proof fn law_run_stays_in_order(engine: EngineView, input: EngineInput)
    requires
        engine.wf(),
        engine.awaits(input),
        input is Begin ==> engine.pending.len() == 0,
    ensures
        engine.react(input).0.wf(),
        engine.react(input).0.prepared == engine.prepared,
        (engine.react(input).1 is Finish) == (engine.react(input).0.phase is Over),
{
}

/// A run completes only when the client has taken over its last messages.
pub proof fn law_completion_needs_the_client(engine: EngineView, input: EngineInput)
    requires
        engine.wf(),
        engine.awaits(input),
        engine.react(input).1 matches EngineStepView::Finish { outcome, .. }
            && outcome is Completed,
    ensures
        input is Ready && !(engine.phase is AnnouncingInitial) || input is Failed,
{
}

/// A run compacts its conversation at most once: after a compaction no other is asked for.
pub proof fn law_compacts_at_most_once(engine: EngineView, input: EngineInput)
    requires
        engine.wf(),
        engine.awaits(input),
    ensures
        engine.react(input).1 is AutoCompact ==> !engine.auto_compacted,
        engine.auto_compacted ==> engine.react(input).0.auto_compacted,
        input is Compacted ==> engine.react(input).0.auto_compacted,
{
}

/// What waits for the model's answer is handed on in order, unless the run ends: it goes on waiting,
/// or it is appended, or it goes along with the tool round.
pub proof fn law_waiting_messages_are_kept(engine: EngineView, input: EngineInput)
    requires
        engine.wf(),
        engine.awaits(input),
        engine.pending.len() > 0,
        !(engine.react(input).1 is Finish),
        !(engine.phase is Over),
    ensures
        ({
            let (next, step) = engine.react(input);
            ||| engine.pending.is_prefix_of(next.pending)
            ||| step == EngineStepView::AppendBatches(engine.pending)
            ||| (step matches EngineStepView::ExecuteRound { insertions, .. } && insertions
                == engine.pending)
        }),
{
}

/// What a run reports at its end is the usage of all its calls: no step loses any.
pub proof fn law_usage_is_never_lost(engine: EngineView, input: EngineInput)
    requires
        engine.awaits(input),
    ensures
        ({
            let (next, step) = engine.react(input);
            &&& engine.usage is Some ==> next.usage is Some
            &&& step matches EngineStepView::Finish { usage, .. } ==> usage == next.usage
            &&& next.usage == engine.usage || exists|more: Option<Usage>|
                next.usage == #[trigger] accumulated(engine.usage, more)
        }),
{
}

/// The run after the conversation was loaded and, where it was asked for, its size was estimated.
pub open spec fn after_loading(
    engine: EngineView,
    messages: Seq<CanonicalMessageView>,
    call: Option<LlmCallUsageAnchor>,
    serialized: Seq<char>,
) -> (EngineView, EngineStepView) {
    let (loaded, step) = engine.react(EngineInput::Loaded { messages, call });
    if step is Estimate {
        loaded.react(EngineInput::Estimated(serialized))
    } else {
        (loaded, step)
    }
}

/// A model that is asked to go on with a conversation is shown the whole conversation: message by
/// message what was loaded, in its order, with only the ids of tool calls cut. A model that is asked
/// to compact it is shown one message of the user instead, which holds the history as text.
pub proof fn law_model_is_shown_the_conversation(
    engine: EngineView,
    messages: Seq<CanonicalMessageView>,
    call: Option<LlmCallUsageAnchor>,
    serialized: Seq<char>,
    index: u64,
)
    requires
        engine.phase is Loading,
        after_loading(engine, messages, call, serialized).1 is BeginCall,
    ensures
        ({
            let begun = after_loading(engine, messages, call, serialized).0;
            let (next, step) = begun.react(EngineInput::CallBegun(index));
            let shown = projection::projection(messages);
            &&& begun.awaits(EngineInput::CallBegun(index))
            &&& next.awaits(EngineInput::Hydrated { history: Seq::empty(), serialized: Seq::empty() })
            &&& shown is Ok
            &&& step is Hydrate
            &&& !(engine.prepared.action is Compact) ==> {
                &&& step->history.len() == shown->Ok_0.len()
                &&& forall|i: int|
                    0 <= i < step->history.len() ==> inference::says_the_same(
                        #[trigger] step->history[i],
                        shown->Ok_0[i],
                    )
            }
            &&& engine.prepared.action is Compact ==> {
                &&& step->history.len() == 1
                &&& step->history[0].message_id == "compaction:input"@
                &&& step->history[0].role == Role::User
                &&& step->history[0].content is Parts
                &&& step->history[0].content->Parts_0.len() == 1
                &&& step->history[0].content->Parts_0[0] is Text
                &&& text::ends(
                    step->history[0].content->Parts_0[0]->text,
                    "Return only the replacement summary text."@,
                )
            }
        }),
{
    let begun = after_loading(engine, messages, call, serialized).0;
    let shown = projection::projection(messages);
    if engine.prepared.action is Compact {
        projection::law_compaction_asks_for_a_summary(messages);
        inference::law_only_ids_are_cut(seq![projection::compaction_input(messages)]);
    } else {
        inference::law_only_ids_are_cut(shown->Ok_0);
    }
}

/// A conversation of users' messages reaches the model as it was written: as many messages, with
/// their ids, roles and parts.
pub proof fn law_users_are_heard(
    engine: EngineView,
    messages: Seq<CanonicalMessageView>,
    call: Option<LlmCallUsageAnchor>,
    serialized: Seq<char>,
    index: u64,
)
    requires
        engine.phase is Loading,
        !(engine.prepared.action is Compact),
        forall|i: int| 0 <= i < messages.len() ==> (#[trigger] messages[i]).content is Parts,
    ensures
        ({
            let (begun, begins) = after_loading(engine, messages, call, serialized);
            let step = begun.react(EngineInput::CallBegun(index)).1;
            begins is BeginCall ==> {
                &&& step is Hydrate
                &&& step->history.len() == messages.len()
                &&& forall|i: int|
                    0 <= i < messages.len() ==> {
                        &&& (#[trigger] step->history[i]).message_id == messages[i].message_id
                        &&& step->history[i].role == messages[i].role
                        &&& step->history[i].content is Parts
                        &&& step->history[i].content->Parts_0 == messages[i].content->parts
                    }
            }
        }),
{
    if after_loading(engine, messages, call, serialized).1 is BeginCall {
        law_model_is_shown_the_conversation(engine, messages, call, serialized, index);
        projection::law_plain_conversation_is_shown_whole(messages);
    }
}

/// A conversation that cannot be shown ends the run with the error; one that is too large for the
/// model is compacted first, all of it.
pub proof fn law_loading_goes_three_ways(
    engine: EngineView,
    messages: Seq<CanonicalMessageView>,
    call: Option<LlmCallUsageAnchor>,
    serialized: Seq<char>,
)
    requires
        engine.phase is Loading,
    ensures
        ({
            let (next, step) = after_loading(engine, messages, call, serialized);
            &&& step is BeginCall || step is AutoCompact || step is Finish
            &&& step is Finish <==> projection::projection(messages) is Err
            &&& step is Finish ==> step->outcome is Failed
            &&& step is AutoCompact ==> step->AutoCompact_messages == messages
                && engine.prepared.action is Start && !engine.auto_compacted
                && engine.prepared.initial_messages.len() < messages.len()
        }),
{
}

/// The call that is started belongs to the run: it asks the model of the run, with the prompt of the
/// run, and hands over the history as it was loaded. Calls of one run have ids of their own.
pub proof fn law_call_is_that_of_the_run(
    engine: EngineView,
    history: Seq<ProjectedMessageView>,
    serialized: Seq<u8>,
    other: u64,
)
    requires
        engine.phase is Hydrating,
        history.len() <= usize::MAX,
    ensures
        ({
            let input = EngineInput::Hydrated { history, serialized };
            let (next, step) = engine.react(input);
            let elsewhere = EngineView {
                phase: PhaseView::Hydrating {
                    index: other,
                    message_count: engine.phase->Hydrating_message_count,
                },
                ..engine
            }.react(input).1;
            &&& step is Stream
            &&& step->Stream_0.run_id == engine.prepared.run_id
            &&& step->Stream_0.conversation_id == engine.prepared.conversation_id
            &&& step->Stream_0.provider_call_index == engine.phase->Hydrating_index
            &&& step->Stream_0.canonical_message_count == engine.phase->Hydrating_message_count
            &&& step->Stream_0.projected_message_count == history.len()
            &&& step->Stream_0.request.history == history
            &&& step->Stream_0.request.prompt == engine.prepared.prompt
            &&& step->Stream_0.request.model == engine.prepared.model
            &&& next.phase == PhaseView::Streaming { index: engine.phase->Hydrating_index }
            &&& elsewhere is Stream
            &&& other != engine.phase->Hydrating_index ==> elsewhere->Stream_0.call_id
                != step->Stream_0.call_id
        }),
{
    let index = engine.phase->Hydrating_index;
    let start = engine.prepared.run_id + ":"@;
    text::lemma_decimal_reads_back(index as nat);
    text::lemma_decimal_reads_back(other as nat);
    assert((start + text::decimal(index as nat)).skip(start.len() as int) =~= text::decimal(
        index as nat,
    ));
    assert((start + text::decimal(other as nat)).skip(start.len() as int) =~= text::decimal(
        other as nat,
    ));
}

/// How many messages the model was shown of is how many were loaded.
pub proof fn law_loaded_messages_are_counted(
    engine: EngineView,
    messages: Seq<CanonicalMessageView>,
    call: Option<LlmCallUsageAnchor>,
    serialized: Seq<char>,
    index: u64,
)
    requires
        engine.phase is Loading,
        messages.len() <= usize::MAX,
        after_loading(engine, messages, call, serialized).1 is BeginCall,
    ensures
        after_loading(engine, messages, call, serialized).0.react(
            EngineInput::CallBegun(index),
        ).0.phase == (PhaseView::Hydrating { index, message_count: messages.len() as usize }),
{
}

/// An answer without tool calls becomes the next message of the conversation as the model gave it,
/// under an id of its own. An answer that calls tools has all its calls executed, and what waited
/// meanwhile goes along.
pub proof fn law_answers_are_kept_as_they_came(
    engine: EngineView,
    cycle: ModelCycleResultView,
    cancelled: bool,
    other: u64,
)
    requires
        engine.phase is Streaming,
        !(engine.prepared.action is Compact),
    ensures
        ({
            let input = EngineInput::CycleEnded { cycle: Ok(cycle), cancelled };
            let (next, step) = engine.react(input);
            let elsewhere = engine.at(PhaseView::Streaming { index: other }).react(input).1;
            &&& cycle.calls.len() == 0 ==> {
                let message = step->AppendCheckpoint_0[0];
                &&& step is AppendCheckpoint
                &&& next.phase is StoringAnswer
                &&& step->AppendCheckpoint_0.len() == 1
                &&& message.role == Role::Assistant
                &&& message.origin == Origin::Assistant
                &&& message.runtime_event_id is None
                &&& message.content is Assistant
                &&& message.content->Assistant_text == cycle.text
                &&& message.content->thinking == cycle.reasoning
                &&& message.content->replay_state == cycle.replay_state
                &&& message.content->tool_round_id is None
                &&& message.content->tool_calls.len() == 0
                &&& other != engine.phase->Streaming_index ==> elsewhere is AppendCheckpoint
                    && elsewhere->AppendCheckpoint_0[0].message_id != message.message_id
            }
            &&& cycle.calls.len() > 0 ==> {
                &&& step is ExecuteRound
                &&& next.phase is InRound
                &&& step->round.calls == cycle.calls
                &&& step->round.assistant.text == cycle.text
                &&& step->round.assistant.thinking == cycle.reasoning
                &&& step->round.assistant.model_call_id == cycle.model_call_id
                &&& step->round.assistant.replay_state == cycle.replay_state
                &&& step->round.recovered_started_at_ms is None
                &&& step->insertions == engine.pending
                &&& other != engine.phase->Streaming_index ==> elsewhere is ExecuteRound
                    && elsewhere->round.id != step->round.id
            }
        }),
{
    let index = engine.phase->Streaming_index;
    text::lemma_decimal_reads_back(index as nat);
    text::lemma_decimal_reads_back(other as nat);
    let said = engine.prepared.run_id + ":assistant:"@;
    let round = engine.prepared.run_id + ":round:"@;
    assert((said + text::decimal(index as nat)).skip(said.len() as int) =~= text::decimal(
        index as nat,
    ));
    assert((said + text::decimal(other as nat)).skip(said.len() as int) =~= text::decimal(
        other as nat,
    ));
    assert((round + text::decimal(index as nat)).skip(round.len() as int) =~= text::decimal(
        index as nat,
    ));
    assert((round + text::decimal(other as nat)).skip(round.len() as int) =~= text::decimal(
        other as nat,
    ));
}

/// A run that compacts puts one message in the place of the conversation, which holds what the model
/// wrote; it fails where the model wrote nothing or called tools. What is stored is what the client is
/// told of.
pub proof fn law_summary_takes_the_place_of_the_conversation(
    engine: EngineView,
    cycle: ModelCycleResultView,
    cancelled: bool,
    checkpoint: CheckpointId,
)
    requires
        engine.phase is Streaming,
        engine.prepared.action is Compact,
    ensures
        ({
            let (next, step) = engine.react(EngineInput::CycleEnded { cycle: Ok(cycle), cancelled });
            let summary = text::trimmed(cycle.text);
            if cycle.calls.len() > 0 || summary.len() == 0 {
                &&& step is Finish
                &&& step->outcome is Failed
            } else {
                let message = step->ReplaceCheckpoint_0[0];
                let stored = next.react(EngineInput::Stored(checkpoint)).0;
                let flushed = if engine.pending.len() > 0 {
                    stored.react(EngineInput::Batched { checkpoint, inserted: true }).0
                } else {
                    stored
                };
                let told = flushed.react(EngineInput::Drained(Seq::empty()));
                &&& step is ReplaceCheckpoint
                &&& next.phase is StoringSummary
                &&& step->ReplaceCheckpoint_0.len() == 1
                &&& message.role == Role::User
                &&& message.origin == Origin::Runtime
                &&& message.runtime_event_id is Some
                &&& message.content is Parts
                &&& message.content->parts.len() == 1
                &&& message.content->parts[0] is Text
                &&& text::contains_text(message.content->parts[0]->text, summary)
                &&& told.1 is Announce
                &&& told.1->Announce_0.checkpoint_id == checkpoint
                &&& told.1->Announce_0.cause == (CommitCauseView::Compaction { summary })
                &&& told.0.react(EngineInput::Ready).1 is Finish
                &&& told.0.react(EngineInput::Ready).1->outcome is Completed
            }
        }),
{
    let summary = text::trimmed(cycle.text);
    let open = "<conversation_summary>\n"@;
    let shown = open + summary + "\n</conversation_summary>"@;
    assert(shown.subrange(open.len() as int, (open.len() + summary.len()) as int) =~= summary);
    assert(text::occurs_at(shown, summary, open.len() as int));
}

/// What a client sends while the model answers: messages wait behind those that wait already; a break
/// and a cancellation stop the model; a result that nobody asked for, and a client that is gone, end
/// the run as failed.
pub proof fn law_commands_are_obeyed(
    engine: EngineView,
    insertion: MessageInsertionView,
    command: Option<RunCommandView>,
    usage: Option<Usage>,
)
    requires
        engine.phase is Streaming,
    ensures
        ({
            let (next, step) = engine.react(EngineInput::Command(command));
            let (stopped, end) = next.react(EngineInput::CycleStopped(usage));
            match command {
                Some(RunCommandView::InsertMessages(insertion)) => {
                    &&& step is KeepStreaming
                    &&& next.pending == engine.pending.push(insertion)
                    &&& next.phase == engine.phase
                },
                Some(RunCommandView::BreakMessages(insertion)) => {
                    &&& step is StopCycle
                    &&& next.pending == engine.pending
                    &&& end is EmitInterrupted
                },
                Some(RunCommandView::Cancel) => {
                    &&& step is StopCycle
                    &&& end is Finish
                    &&& end->outcome is Cancelled
                    &&& end->interrupted
                },
                _ => {
                    &&& step is StopCycle
                    &&& end is Finish
                    &&& end->outcome is Failed
                    &&& end->interrupted
                },
            }
        }),
{
}

/// Messages that break in are appended behind those that waited, and then the model is asked again.
pub proof fn law_breaking_messages_follow_the_waiting_ones(
    engine: EngineView,
    insertion: MessageInsertionView,
    usage: Option<Usage>,
    first: CheckpointId,
    second: CheckpointId,
)
    requires
        engine.phase is Streaming,
    ensures
        ({
            let broken = engine.react(
                EngineInput::Command(Some(RunCommandView::BreakMessages(insertion))),
            ).0;
            let stopped = broken.react(EngineInput::CycleStopped(usage)).0;
            let (flushing, waiting) = stopped.react(EngineInput::InterruptionSent(true));
            let (inserting, breaking) = flushing.react(
                EngineInput::Batched { checkpoint: first, inserted: true },
            );
            let (checking, again) = inserting.react(
                EngineInput::Batched { checkpoint: second, inserted: true },
            );
            let asked = checking.react(EngineInput::Checked(false)).1;
            &&& waiting == EngineStepView::AppendBatches(engine.pending)
            &&& breaking == EngineStepView::AppendBatches(seq![insertion])
            &&& again is CheckCancelled
            &&& asked is LoadContext
            &&& asked->checkpoint == second
            &&& stopped.react(EngineInput::InterruptionSent(false)).1 is Finish
            &&& checking.pending.len() == 0
            &&& checking.usage == accumulated(engine.usage, usage)
        }),
{
}

/// Behind a stored answer stand the messages that waited, and behind these the client's last ones.
/// Where any of them is new the model is asked again; otherwise the client is told of the checkpoint,
/// and the run completes.
pub proof fn law_end_of_a_turn(
    engine: EngineView,
    stored: CheckpointId,
    flushed: CheckpointId,
    inserted: bool,
    last: Seq<MessageInsertionView>,
    closed: CheckpointId,
)
    requires
        engine.phase is StoringAnswer,
    ensures
        ({
            let (after, step) = engine.react(EngineInput::Stored(stored));
            let (ready, flush) = if engine.pending.len() > 0 {
                after.react(EngineInput::Batched { checkpoint: flushed, inserted })
            } else {
                (after, step)
            };
            let (ending, end) = ready.react(EngineInput::Drained(last));
            let here = if engine.pending.len() > 0 {
                flushed
            } else {
                stored
            };
            &&& engine.pending.len() > 0 ==> step == EngineStepView::AppendBatches(engine.pending)
            &&& engine.pending.len() == 0 ==> step is Drain
            &&& after.pending.len() == 0
            &&& after.checkpoint == stored
            &&& engine.pending.len() > 0 && inserted ==> flush is CheckCancelled
                && ready.checkpoint == flushed
            &&& !(engine.pending.len() > 0 && inserted) ==> {
                &&& flush is Drain
                &&& last.len() > 0 ==> {
                    let (again, turn) = ending.react(
                        EngineInput::Batched { checkpoint: closed, inserted },
                    );
                    &&& end == EngineStepView::AppendBatches(last)
                    &&& turn == (EngineStepView::CheckCancelled { resume: true })
                    &&& again.checkpoint == closed
                }
                &&& last.len() == 0 ==> {
                    let finish = ending.react(EngineInput::Ready).1;
                    &&& end is Announce
                    &&& end->Announce_0.checkpoint_id == here
                    &&& end->Announce_0.cause is FinalTurn
                    &&& finish is Finish
                    &&& finish->outcome is Completed
                    &&& finish->usage == engine.usage
                    &&& !finish->interrupted
                }
            }
        }),
{
}

/// A run that was cancelled ends as cancelled; otherwise the conversation is loaded as it stands at the
/// latest checkpoint.
pub proof fn law_latest_checkpoint_is_loaded(
    engine: EngineView,
    checkpoint: CheckpointId,
    usage: Option<Usage>,
)
    requires
        engine.phase is InRound || engine.phase is Compacting,
    ensures
        ({
            let checking = if engine.phase is InRound {
                engine.react(EngineInput::RoundDone(checkpoint)).0
            } else {
                engine.react(EngineInput::Compacted { checkpoint, usage }).0
            };
            let stops = checking.react(EngineInput::Checked(true)).1;
            let (loading, loads) = checking.react(EngineInput::Checked(false));
            &&& checking.phase is Checking
            &&& stops is Finish
            &&& stops->outcome is Cancelled
            &&& stops->usage == checking.usage
            &&& loads is LoadContext
            &&& loads->checkpoint == checkpoint
            &&& loading.phase is Loading
            &&& engine.phase is InRound ==> checking.usage == engine.usage
                && checking.auto_compacted == engine.auto_compacted
        }),
{
}

/// A call that fails ends the run with its failure, or as cancelled where the run was cancelled
/// meanwhile; what it used is reported too.
pub proof fn law_failures_end_the_run(
    engine: EngineView,
    failure: ModelCycleFailureView,
    cancelled: bool,
    outcome: RunOutcomeView,
)
    requires
        engine.phase is Streaming,
    ensures
        ({
            let step = engine.react(EngineInput::CycleEnded { cycle: Err(failure), cancelled }).1;
            &&& step is Finish
            &&& cancelled ==> step->outcome is Cancelled && step->interrupted
            &&& !cancelled ==> step->outcome == RunOutcomeView::Failed(failure.failure)
                && !step->interrupted
            &&& failure.usage is Some && engine.usage is None ==> step->usage == failure.usage
            &&& failure.usage is None ==> step->usage == engine.usage
        }),
        engine.react(EngineInput::Failed(outcome)).1 is Finish,
        engine.react(EngineInput::Failed(outcome)).1->outcome == outcome,
        engine.react(EngineInput::Failed(outcome)).1->usage == engine.usage,
{
}

/// The usage of a run is the sum of what its calls reported, count by count.
pub proof fn law_usage_adds_up(total: Usage, more: Usage)
    ensures
        accumulated(None, Some(more)) == Some(more),
        accumulated(Some(total), None) == Some(total),
        accumulated(None, None) is None,
        ({
            let sum = accumulated(Some(total), Some(more));
            &&& sum is Some
            &&& (total.input_tokens is Some && more.input_tokens is Some && total.input_tokens->0
                + more.input_tokens->0 <= u64::MAX) ==> sum->0.input_tokens == Some(
                (total.input_tokens->0 + more.input_tokens->0) as u64,
            )
            &&& (total.output_tokens is Some && more.output_tokens is Some
                && total.output_tokens->0 + more.output_tokens->0 <= u64::MAX)
                ==> sum->0.output_tokens == Some(
                (total.output_tokens->0 + more.output_tokens->0) as u64,
            )
            &&& (total.total_tokens is Some && more.total_tokens is Some && total.total_tokens->0
                + more.total_tokens->0 <= u64::MAX) ==> sum->0.total_tokens == Some(
                (total.total_tokens->0 + more.total_tokens->0) as u64,
            )
        }),
{
    crate::model::usage::law_counts_are_added(total, more);
}

/// The run after some of its initial messages were reported as appended.
pub open spec fn after_appending(engine: EngineView, reports: Seq<(CheckpointId, bool)>) -> (
    EngineView,
    EngineStepView,
)
    decreases reports.len(),
{
    if reports.len() == 0 {
        engine.react(EngineInput::Begin)
    } else {
        after_appending(engine, reports.drop_last()).0.react(
            EngineInput::Appended { checkpoint: reports.last().0, inserted: reports.last().1 },
        )
    }
}

/// A run brings in its initial messages one after the other, none left out. When the last one is
/// there, the client is told of the checkpoint if any of them was new. Then the tool round that an
/// earlier run left is executed with its calls, if there is one, or else the model is asked.
pub proof fn law_initial_messages_are_brought_in(
    engine: EngineView,
    reports: Seq<(CheckpointId, bool)>,
)
    requires
        engine.phase is Over,
        reports.len() <= engine.prepared.initial_messages.len() <= usize::MAX,
    ensures
        ({
            let (next, step) = after_appending(engine, reports);
            let some_new = exists|i: int| 0 <= i < reports.len() && (#[trigger] reports[i]).1;
            let done = reports.len() == engine.prepared.initial_messages.len();
            let (going, goes) = if done && some_new {
                next.react(EngineInput::Ready)
            } else {
                (next, step)
            };
            &&& next.prepared == engine.prepared
            &&& reports.len() > 0 ==> next.checkpoint == reports.last().0
            &&& !done ==> step == (EngineStepView::AppendInitial { index: reports.len() as usize })
                && next.phase == (PhaseView::Appending {
                next: reports.len() as usize,
                changed: some_new,
            })
            &&& done && some_new ==> {
                &&& step is Announce
                &&& step->Announce_0.cause is InitialMessages
                &&& step->Announce_0.checkpoint_id == reports.last().0
                &&& next.phase is AnnouncingInitial
            }
            &&& done ==> match engine.prepared.action {
                RunActionView::Resume { pending_tool_round: Some(round) } => {
                    &&& goes is ExecuteRound
                    &&& going.phase is InRound
                    &&& goes->round.calls == round.calls
                    &&& goes->round.assistant == round.assistant
                    &&& goes->round.recovered_started_at_ms == Some(round.started_at_ms)
                    &&& goes->insertions.len() == 0
                },
                _ => goes is CheckCancelled && going.phase is Checking,
            }
        }),
    decreases reports.len(),
{
    if reports.len() > 0 {
        let earlier = reports.drop_last();
        law_initial_messages_are_brought_in(engine, earlier);
        assert(reports[reports.len() - 1] == reports.last());
        if exists|i: int| 0 <= i < earlier.len() && (#[trigger] earlier[i]).1 {
            let i = choose|i: int| 0 <= i < earlier.len() && (#[trigger] earlier[i]).1;
            assert(reports[i].1);
        } else {
            assert forall|i: int| 0 <= i < earlier.len() implies !(#[trigger] reports[i]).1 by {
                assert(earlier[i] == reports[i]);
            }
        }
    }
}

/// A provider call is marked with the digest of what is sent and named after its run.
pub proof fn law_call_is_marked(
    engine: EngineView,
    history: Seq<ProjectedMessageView>,
    serialized: Seq<u8>,
)
    requires
        engine.phase is Hydrating,
    ensures
        ({
            let call = engine.react(EngineInput::Hydrated { history, serialized }).1->Stream_0;
            &&& call.history_fingerprint == digest::hex_text(digest::sha256(serialized))
            &&& text::starts(call.call_id, engine.prepared.run_id + ":"@)
            &&& text::ends(call.call_id, text::decimal(engine.phase->Hydrating_index as nat))
        }),
{
    let start = engine.prepared.run_id + ":"@;
    let number = text::decimal(engine.phase->Hydrating_index as nat);
    let id = start + number;
    assert(id.subrange(0, start.len() as int) =~= start);
    assert(id.subrange(id.len() - number.len(), id.len() as int) =~= number);
}

} // verus!
