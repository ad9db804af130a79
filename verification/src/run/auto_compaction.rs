//! Compacting a conversation in the middle of a run.
//!
//! The caller performs each [`CompactionStep`] and hands the answer to the method that the step
//! names, as with the run itself.
use crate::data;
use crate::data::Duplicate;
use crate::digest;
use crate::ident;
use crate::model::ids::CheckpointId;
use crate::model::inference::{
    ModelInvocation, ModelInvocationView, ModelRequest, ModelRequestView, ModelSpec, ModelSpecView,
    PromptSpec, PromptSpecView, ReasoningSpec, ReasoningSpecView,
};
use crate::model::message::{CanonicalMessage, CanonicalMessageView, ContentPartView, Role};
use crate::model::projection;
use crate::model::projection::{ProjectedMessage, ProjectedMessageView};
use crate::model::run::{PreparedRun, PreparedRunView};
use crate::model::usage::Usage;
use crate::run::command::{
    MessageInsertion, MessageInsertionView, RunCommand, RunCommandView,
};
use crate::run::compaction;
use crate::run::engine;
use crate::run::event::{
    client_failure, CommitCause, CommitCauseView, MessagesCommitted, MessagesCommittedView,
    RunFailure, RunFailureView, RunOutcome, RunOutcomeView,
};
use crate::run::model_cycle::{
    ModelCycleFailure, ModelCycleFailureView, ModelCycleResult, ModelCycleResultView,
};
use crate::text;
use vstd::prelude::*;

verus! {

/// What a compaction is waiting for.
pub enum CompactionPhase {
    /// The client is being told that compaction started.
    Starting,
    /// A provider call is being registered.
    Beginning,
    /// Prompt and history are being serialized.
    Preparing { index: u64 },
    /// The model is writing the summary.
    Streaming,
    /// The provider call is being stopped to end the run.
    Aborting { outcome: RunOutcome },
    /// The provider call is being stopped to make way for other messages.
    Breaking,
    /// The conversation is being replaced.
    Storing { summary: String },
    /// The client is taking over the summary.
    Announcing,
    /// The client is being told that compaction has completed.
    Completing,
    /// Messages that waited are being appended.
    Flushing,
    /// The messages that interrupted the model are being appended.
    Inserting,
    /// The compaction has ended.
    Over,
}

#[verifier::ext_equal]
pub enum CompactionPhaseView {
    Starting,
    Beginning,
    Preparing { index: u64 },
    Streaming,
    Aborting { outcome: RunOutcomeView },
    Breaking,
    Storing { summary: Seq<char> },
    Announcing,
    Completing,
    Flushing,
    Inserting,
    Over,
}

impl View for CompactionPhase {
    type V = CompactionPhaseView;

    open spec fn view(&self) -> CompactionPhaseView {
        match self {
            CompactionPhase::Starting => CompactionPhaseView::Starting,
            CompactionPhase::Beginning => CompactionPhaseView::Beginning,
            CompactionPhase::Preparing { index } => CompactionPhaseView::Preparing {
                index: *index,
            },
            CompactionPhase::Streaming => CompactionPhaseView::Streaming,
            CompactionPhase::Aborting { outcome } => CompactionPhaseView::Aborting {
                outcome: outcome@,
            },
            CompactionPhase::Breaking => CompactionPhaseView::Breaking,
            CompactionPhase::Storing { summary } => CompactionPhaseView::Storing {
                summary: summary@,
            },
            CompactionPhase::Announcing => CompactionPhaseView::Announcing,
            CompactionPhase::Completing => CompactionPhaseView::Completing,
            CompactionPhase::Flushing => CompactionPhaseView::Flushing,
            CompactionPhase::Inserting => CompactionPhaseView::Inserting,
            CompactionPhase::Over => CompactionPhaseView::Over,
        }
    }
}

/// What the caller does next, and which method takes the answer.
pub enum CompactionStep {
    /// Tell the client that compaction started: `on_started_sent`.
    EmitStarted,
    /// Register a provider call: `on_call_begun`.
    BeginCall,
    /// Serialize instructions, history and tools: `on_serialized`.
    Serialize { prompt: PromptSpec, history: Vec<ProjectedMessage> },
    /// Start the provider call, whose events go nowhere. Commands go to `on_command`, its end to
    /// `on_cycle_ended`.
    Stream(ModelInvocation),
    /// Go on with the provider call.
    KeepStreaming,
    /// Cancel the provider call and wait for its end: `on_cycle_ended`.
    StopCycle,
    /// Replace the conversation by these messages: `on_stored`.
    ReplaceCheckpoint(Vec<CanonicalMessage>),
    /// Send the announcement and wait until the client has taken it over: `on_ready`.
    Announce(MessagesCommitted),
    /// Tell the client that compaction has completed: `on_completed_sent`.
    EmitCompleted,
    /// Append the messages of the insertions: `on_batches`.
    AppendBatches(Vec<MessageInsertion>),
    /// The conversation is compacted.
    Done { checkpoint: CheckpointId, usage: Option<Usage> },
    /// The run is over.
    Abort(RunOutcome),
}

#[verifier::ext_equal]
pub enum CompactionStepView {
    EmitStarted,
    BeginCall,
    Serialize { prompt: PromptSpecView, history: Seq<ProjectedMessageView> },
    Stream(ModelInvocationView),
    KeepStreaming,
    StopCycle,
    ReplaceCheckpoint(Seq<CanonicalMessageView>),
    Announce(MessagesCommittedView),
    EmitCompleted,
    AppendBatches(Seq<MessageInsertionView>),
    Done { checkpoint: CheckpointId, usage: Option<Usage> },
    Abort(RunOutcomeView),
}

impl View for CompactionStep {
    type V = CompactionStepView;

    open spec fn view(&self) -> CompactionStepView {
        match self {
            CompactionStep::EmitStarted => CompactionStepView::EmitStarted,
            CompactionStep::BeginCall => CompactionStepView::BeginCall,
            CompactionStep::Serialize { prompt, history } => CompactionStepView::Serialize {
                prompt: prompt@,
                history: data::views(history@),
            },
            CompactionStep::Stream(invocation) => CompactionStepView::Stream(invocation@),
            CompactionStep::KeepStreaming => CompactionStepView::KeepStreaming,
            CompactionStep::StopCycle => CompactionStepView::StopCycle,
            CompactionStep::ReplaceCheckpoint(messages) => CompactionStepView::ReplaceCheckpoint(
                data::views(messages@),
            ),
            CompactionStep::Announce(committed) => CompactionStepView::Announce(committed@),
            CompactionStep::EmitCompleted => CompactionStepView::EmitCompleted,
            CompactionStep::AppendBatches(insertions) => CompactionStepView::AppendBatches(
                data::views(insertions@),
            ),
            CompactionStep::Done { checkpoint, usage } => CompactionStepView::Done {
                checkpoint: *checkpoint,
                usage: *usage,
            },
            CompactionStep::Abort(outcome) => CompactionStepView::Abort(outcome@),
        }
    }
}

/// A compaction in progress.
pub struct AutoCompaction {
    pub checkpoint: CheckpointId,
    pub compactable: Vec<CanonicalMessage>,
    pub retained: Option<CanonicalMessage>,
    pub pending: Vec<MessageInsertion>,
    pub break_messages: Option<MessageInsertion>,
    pub usage: Option<Usage>,
    pub phase: CompactionPhase,
}

#[verifier::ext_equal]
pub struct AutoCompactionView {
    pub checkpoint: CheckpointId,
    pub compactable: Seq<CanonicalMessageView>,
    pub retained: Option<CanonicalMessageView>,
    pub pending: Seq<MessageInsertionView>,
    pub break_messages: Option<MessageInsertionView>,
    pub usage: Option<Usage>,
    pub phase: CompactionPhaseView,
}

impl View for AutoCompaction {
    type V = AutoCompactionView;

    open spec fn view(&self) -> AutoCompactionView {
        AutoCompactionView {
            checkpoint: self.checkpoint,
            compactable: data::views(self.compactable@),
            retained: data::option_view(self.retained),
            pending: data::views(self.pending@),
            break_messages: data::option_view(self.break_messages),
            usage: self.usage,
            phase: self.phase@,
        }
    }
}

/// The ids of the messages that a run brings.
pub open spec fn brought_ids(prepared: PreparedRunView) -> Seq<Seq<char>> {
    prepared.initial_messages.map_values(|m: CanonicalMessageView| m.message_id)
}

/// The prompt that asks for a summary: the instructions for it, and no tools.
pub open spec fn summary_prompt(prepared: PreparedRunView) -> PromptSpecView {
    PromptSpecView { instructions: prepared.compaction_prompt.instructions, tools: Seq::empty() }
}

/// The model that writes a summary: the model of the run with a short answer and no reasoning.
pub open spec fn summary_model(model: ModelSpecView) -> ModelSpecView {
    ModelSpecView {
        max_output_tokens: Some(compaction::OUTPUT_TOKENS),
        reasoning: ReasoningSpecView { enabled: false, effort: None },
        ..model
    }
}

/// The summary that is kept: what the model wrote, if it was left to finish, called no tools and
/// wrote anything; otherwise the end of the serialized conversation.
pub open spec fn kept_summary(
    interrupted: bool,
    cycle: Result<ModelCycleResultView, ModelCycleFailureView>,
    serialized: Seq<char>,
) -> Seq<char> {
    match cycle {
        Ok(cycle) if !interrupted && cycle.calls.len() == 0 && !text::blank(
            cycle.text,
        ) => text::trimmed(cycle.text),
        _ => "Durable recent conversation state:\n"@ + compaction::recent_part(serialized),
    }
}

/// The usage that a provider call reported.
pub open spec fn cycle_usage(
    cycle: Result<ModelCycleResultView, ModelCycleFailureView>,
) -> Option<Usage> {
    match cycle {
        Ok(cycle) => cycle.usage,
        Err(failure) => failure.usage,
    }
}

/// The conversation after compaction: the request context, the summary and what the run brings.
pub open spec fn replacement(
    retained: Option<CanonicalMessageView>,
    summary: CanonicalMessageView,
    brought: Seq<CanonicalMessageView>,
) -> Seq<CanonicalMessageView> {
    (match retained {
        Some(message) => seq![message],
        None => Seq::empty(),
    }) + seq![summary] + brought
}

/// The name of the event that a compaction of this run is.
pub open spec fn summary_event_id(run_id: Seq<char>, suffix: Seq<char>) -> Seq<char> {
    "summary:auto:"@ + run_id + ":"@ + suffix
}

impl AutoCompactionView {
    pub open spec fn at(self, phase: CompactionPhaseView) -> AutoCompactionView {
        AutoCompactionView { phase, ..self }
    }

    /// The end of the run.
    pub open spec fn aborts(self, outcome: RunOutcomeView) -> (
        AutoCompactionView,
        CompactionStepView,
    ) {
        (self.at(CompactionPhaseView::Over), CompactionStepView::Abort(outcome))
    }

    /// The end of the compaction.
    pub open spec fn done(self) -> (AutoCompactionView, CompactionStepView) {
        (
            self.at(CompactionPhaseView::Over),
            CompactionStepView::Done { checkpoint: self.checkpoint, usage: self.usage },
        )
    }

    /// The compaction of a conversation, and its first step: nothing to do where there is nothing
    /// to replace.
    pub open spec fn starting(
        prepared: PreparedRunView,
        checkpoint: CheckpointId,
        messages: Seq<CanonicalMessageView>,
    ) -> (AutoCompactionView, CompactionStepView) {
        let ids = brought_ids(prepared);
        let fresh = AutoCompactionView {
            checkpoint,
            compactable: compaction::compactable_of(
                messages,
                compaction::request_context_end(messages),
                ids,
            ),
            retained: compaction::retained_of(messages, ids),
            pending: Seq::empty(),
            break_messages: None,
            usage: None,
            phase: CompactionPhaseView::Starting,
        };
        if fresh.compactable.len() == 0 {
            fresh.done()
        } else {
            (fresh, CompactionStepView::EmitStarted)
        }
    }

    /// The step after the client was told of the start, or could not be.
    pub open spec fn started_sent(self, sent: bool) -> (AutoCompactionView, CompactionStepView) {
        if sent {
            (self.at(CompactionPhaseView::Beginning), CompactionStepView::BeginCall)
        } else {
            self.aborts(crate::run::event::client_gone())
        }
    }

    /// The step after a provider call was registered.
    pub open spec fn call_begun(self, prepared: PreparedRunView, index: u64) -> (
        AutoCompactionView,
        CompactionStepView,
    ) {
        (
            self.at(CompactionPhaseView::Preparing { index }),
            CompactionStepView::Serialize {
                prompt: summary_prompt(prepared),
                history: seq![projection::compaction_input(self.compactable)],
            },
        )
    }

    /// The step after instructions, history and tools were serialized.
    pub open spec fn serialized(self, prepared: PreparedRunView, bytes: Seq<u8>) -> (
        AutoCompactionView,
        CompactionStepView,
    ) {
        match self.phase {
            CompactionPhaseView::Preparing { index } => (
                self.at(CompactionPhaseView::Streaming),
                CompactionStepView::Stream(
                    ModelInvocationView {
                        call_id: prepared.run_id + ":"@ + text::decimal(index as nat),
                        run_id: prepared.run_id,
                        conversation_id: prepared.conversation_id,
                        provider_call_index: index,
                        canonical_message_count: self.compactable.len() as usize,
                        projected_message_count: 1,
                        history_fingerprint: digest::hex_text(digest::sha256(bytes)),
                        request: ModelRequestView {
                            prompt: summary_prompt(prepared),
                            model: summary_model(prepared.model),
                            history: seq![projection::compaction_input(self.compactable)],
                        },
                    },
                ),
            ),
            _ => (self, CompactionStepView::KeepStreaming),
        }
    }

    /// The step on a command while the model writes the summary. `None` stands for a client that is
    /// gone.
    pub open spec fn commanded(self, command: Option<RunCommandView>) -> (
        AutoCompactionView,
        CompactionStepView,
    ) {
        match command {
            Some(RunCommandView::InsertMessages(insertion)) => (
                AutoCompactionView { pending: self.pending.push(insertion), ..self },
                CompactionStepView::KeepStreaming,
            ),
            Some(RunCommandView::BreakMessages(insertion)) => (
                AutoCompactionView {
                    break_messages: Some(insertion),
                    phase: CompactionPhaseView::Breaking,
                    ..self
                },
                CompactionStepView::StopCycle,
            ),
            Some(RunCommandView::Cancel) => (
                self.at(CompactionPhaseView::Aborting { outcome: RunOutcomeView::Cancelled }),
                CompactionStepView::StopCycle,
            ),
            Some(RunCommandView::ToolResult(_)) => (
                self.at(
                    CompactionPhaseView::Aborting {
                        outcome: RunOutcomeView::Failed(
                            RunFailureView::Protocol(
                                "received a tool result while automatic compaction was running"@,
                            ),
                        ),
                    },
                ),
                CompactionStepView::StopCycle,
            ),
            None => (
                self.at(
                    CompactionPhaseView::Aborting { outcome: crate::run::event::client_gone() },
                ),
                CompactionStepView::StopCycle,
            ),
        }
    }

    /// The step after the provider call has ended, with the suffix that tells this compaction from
    /// others and the serialized messages that it replaces.
    pub open spec fn cycle_ended(
        self,
        prepared: PreparedRunView,
        cycle: Result<ModelCycleResultView, ModelCycleFailureView>,
        serialized: Seq<char>,
        suffix: Seq<char>,
    ) -> (AutoCompactionView, CompactionStepView) {
        match self.phase {
            CompactionPhaseView::Aborting { outcome } => self.aborts(outcome),
            _ => {
                let summary = kept_summary(self.break_messages is Some, cycle, serialized);
                (
                    AutoCompactionView {
                        usage: cycle_usage(cycle),
                        phase: CompactionPhaseView::Storing { summary },
                        ..self
                    },
                    CompactionStepView::ReplaceCheckpoint(
                        replacement(
                            self.retained,
                            engine::summary_message(
                                summary_event_id(prepared.run_id, suffix),
                                summary,
                            ),
                            prepared.initial_messages,
                        ),
                    ),
                )
            },
        }
    }

    /// The step after the conversation was replaced.
    pub open spec fn stored(self, checkpoint: CheckpointId) -> (
        AutoCompactionView,
        CompactionStepView,
    ) {
        match self.phase {
            CompactionPhaseView::Storing { summary } => (
                AutoCompactionView { checkpoint, phase: CompactionPhaseView::Announcing, ..self },
                CompactionStepView::Announce(
                    MessagesCommittedView {
                        checkpoint_id: checkpoint,
                        tool_round_version: 0,
                        cause: CommitCauseView::Compaction { summary },
                        barrier: true,
                    },
                ),
            ),
            _ => (self, CompactionStepView::KeepStreaming),
        }
    }

    /// The step after the client was told of the end, or could not be.
    pub open spec fn completed_sent(self, sent: bool) -> (AutoCompactionView, CompactionStepView) {
        if sent {
            (
                AutoCompactionView {
                    pending: Seq::empty(),
                    phase: CompactionPhaseView::Flushing,
                    ..self
                },
                CompactionStepView::AppendBatches(self.pending),
            )
        } else {
            self.aborts(crate::run::event::client_gone())
        }
    }

    /// The step after insertions were appended.
    pub open spec fn batched(self, checkpoint: CheckpointId) -> (
        AutoCompactionView,
        CompactionStepView,
    ) {
        let now = AutoCompactionView { checkpoint, ..self };
        match self.break_messages {
            Some(insertion) if self.phase is Flushing => (
                AutoCompactionView {
                    break_messages: None,
                    phase: CompactionPhaseView::Inserting,
                    ..now
                },
                CompactionStepView::AppendBatches(seq![insertion]),
            ),
            _ => now.done(),
        }
    }
}

fn initial_ids(prepared: &PreparedRun) -> (r: Vec<String>)
    ensures
        data::views(r@) == brought_ids(prepared@),
{
    let ghost wanted = brought_ids(prepared@);
    let mut ids: Vec<String> = Vec::new();
    let mut i: usize = 0;
    while i < prepared.initial_messages.len()
        invariant
            i <= prepared.initial_messages@.len(),
            wanted == brought_ids(prepared@),
            data::views(ids@) == wanted.take(i as int),
        decreases prepared.initial_messages@.len() - i,
    {
        let ghost before = data::views(ids@);
        let id = prepared.initial_messages[i].message_id.clone();
        ids.push(id);
        assert(id@ == wanted[i as int]);
        assert(data::views(ids@) =~= before.push(id@));
        i += 1;
        assert(wanted.take(i as int) =~= before.push(wanted[i - 1]));
    }
    assert(wanted.take(i as int) =~= wanted);
    ids
}

fn prompt_for_summary(prepared: &PreparedRun) -> (r: PromptSpec)
    ensures
        r@ == summary_prompt(prepared@),
{
    let tools = Vec::new();
    let r = PromptSpec { instructions: prepared.compaction_prompt.instructions.clone(), tools };
    assert(data::views(r.tools@) =~= Seq::empty());
    r
}

fn model_for_summary(model: &ModelSpec) -> (r: ModelSpec)
    ensures
        r@ == summary_model(model@),
{
    let mut r = model.duplicate();
    r.max_output_tokens = Some(compaction::OUTPUT_TOKENS);
    r.reasoning = ReasoningSpec { enabled: false, effort: None };
    r
}

fn choose_summary(
    interrupted: bool,
    cycle: &Result<ModelCycleResult, ModelCycleFailure>,
    serialized: &str,
) -> (r: String)
    ensures
        r@ == kept_summary(interrupted, crate::error::result_view(*cycle), serialized@),
{
    match cycle {
        Ok(cycle) => if !interrupted && cycle.calls.len() == 0 && !text::is_blank(
            cycle.text.as_str(),
        ) {
            text::trim(cycle.text.as_str())
        } else {
            compaction::fallback_summary(serialized)
        },
        Err(_) => compaction::fallback_summary(serialized),
    }
}

impl AutoCompaction {
    fn abort(self, outcome: RunOutcome) -> (r: (Self, CompactionStep))
        ensures
            (r.0@, r.1@) == self@.aborts(outcome@),
    {
        (
            AutoCompaction { phase: CompactionPhase::Over, ..self },
            CompactionStep::Abort(outcome),
        )
    }

    fn finish(self) -> (r: (Self, CompactionStep))
        ensures
            (r.0@, r.1@) == self@.done(),
    {
        let checkpoint = self.checkpoint;
        let usage = self.usage;
        (
            AutoCompaction { phase: CompactionPhase::Over, ..self },
            CompactionStep::Done { checkpoint, usage },
        )
    }

    /// The compaction of a conversation, and its first step.
    pub fn start(
        prepared: &PreparedRun,
        checkpoint: CheckpointId,
        messages: &[CanonicalMessage],
    ) -> (r: (Self, CompactionStep))
        ensures
            (r.0@, r.1@) == AutoCompactionView::starting(
                prepared@,
                checkpoint,
                data::views(messages@),
            ),
    {
        let ids = initial_ids(prepared);
        let (compactable, retained) = compaction::partition(messages, &ids);
        let empty = compactable.len() == 0;
        let pending: Vec<MessageInsertion> = Vec::new();
        assert(data::views(pending@) =~= Seq::empty());
        let fresh = AutoCompaction {
            checkpoint,
            compactable,
            retained,
            pending,
            break_messages: None,
            usage: None,
            phase: CompactionPhase::Starting,
        };
        if empty {
            fresh.finish()
        } else {
            (fresh, CompactionStep::EmitStarted)
        }
    }

    /// The end of the run where the store, the client or an inner procedure could not go on.
    pub fn on_failed(self, outcome: RunOutcome) -> (r: (Self, CompactionStep))
        ensures
            (r.0@, r.1@) == self@.aborts(outcome@),
    {
        self.abort(outcome)
    }

    /// The step after the client was told of the start, or could not be.
    pub fn on_started_sent(self, sent: bool) -> (r: (Self, CompactionStep))
        requires
            self@.phase is Starting,
        ensures
            (r.0@, r.1@) == self@.started_sent(sent),
    {
        if sent {
            (
                AutoCompaction { phase: CompactionPhase::Beginning, ..self },
                CompactionStep::BeginCall,
            )
        } else {
            self.abort(client_failure())
        }
    }

    fn summary_request(&self) -> (r: Vec<ProjectedMessage>)
        ensures
            data::views(r@) == seq![projection::compaction_input(self@.compactable)],
    {
        match projection::project_compaction_messages(self.compactable.as_slice()) {
            Ok(history) => history,
            Err(_) => Vec::new(),
        }
    }

    /// The step after a provider call was registered.
    pub fn on_call_begun(self, prepared: &PreparedRun, index: u64) -> (r: (Self, CompactionStep))
        requires
            self@.phase is Beginning,
        ensures
            (r.0@, r.1@) == self@.call_begun(prepared@, index),
    {
        let history = self.summary_request();
        (
            AutoCompaction { phase: CompactionPhase::Preparing { index }, ..self },
            CompactionStep::Serialize { prompt: prompt_for_summary(prepared), history },
        )
    }

    /// The step after instructions, history and tools were serialized.
    pub fn on_serialized(self, prepared: &PreparedRun, bytes: &[u8]) -> (r: (Self, CompactionStep))
        requires
            self@.phase is Preparing,
        ensures
            (r.0@, r.1@) == self@.serialized(prepared@, bytes@),
    {
        let index: u64 = match self.phase {
            CompactionPhase::Preparing { index } => index,
            _ => 0,
        };
        let mut call_id = prepared.run_id.0.clone();
        call_id.append(":");
        let number = text::decimal_u64(index);
        call_id.append(number.as_str());
        let history = self.summary_request();
        let canonical_message_count: usize = self.compactable.len();
        assert(canonical_message_count == self@.compactable.len() as usize);
        let invocation = ModelInvocation {
            call_id,
            run_id: prepared.run_id.0.clone(),
            conversation_id: prepared.conversation_id.0.clone(),
            provider_call_index: index,
            canonical_message_count,
            projected_message_count: 1,
            history_fingerprint: digest::fingerprint(bytes),
            request: ModelRequest {
                prompt: prompt_for_summary(prepared),
                model: model_for_summary(&prepared.model),
                history,
            },
        };
        (
            AutoCompaction { phase: CompactionPhase::Streaming, ..self },
            CompactionStep::Stream(invocation),
        )
    }

    /// The step on a command while the model writes the summary. `None` stands for a client that is
    /// gone.
    pub fn on_command(self, command: Option<RunCommand>) -> (r: (Self, CompactionStep))
        requires
            self@.phase is Streaming,
        ensures
            (r.0@, r.1@) == self@.commanded(data::option_view(command)),
    {
        broadcast use crate::data::group_views;

        let outcome = match command {
            Some(RunCommand::InsertMessages(insertion)) => {
                let mut now = self;
                now.pending.push(insertion);
                return (now, CompactionStep::KeepStreaming);
            },
            Some(RunCommand::BreakMessages(insertion)) => {
                return (
                    AutoCompaction {
                        break_messages: Some(insertion),
                        phase: CompactionPhase::Breaking,
                        ..self
                    },
                    CompactionStep::StopCycle,
                );
            },
            Some(RunCommand::Cancel) => RunOutcome::Cancelled,
            Some(RunCommand::ToolResult(_)) => RunOutcome::Failed(
                RunFailure::Protocol(
                    "received a tool result while automatic compaction was running".to_owned(),
                ),
            ),
            None => client_failure(),
        };
        (
            AutoCompaction { phase: CompactionPhase::Aborting { outcome }, ..self },
            CompactionStep::StopCycle,
        )
    }

    /// The step after the provider call has ended. `serialized` is the text of the messages that the
    /// summary replaces; `suffix` tells this compaction from others.
    pub fn conclude(
        self,
        prepared: &PreparedRun,
        cycle: Result<ModelCycleResult, ModelCycleFailure>,
        serialized: &str,
        suffix: &str,
    ) -> (r: (Self, CompactionStep))
        ensures
            (r.0@, r.1@) == self@.cycle_ended(
                prepared@,
                crate::error::result_view(cycle),
                serialized@,
                suffix@,
            ),
    {
        let AutoCompaction {
            checkpoint,
            compactable,
            retained,
            pending,
            break_messages,
            usage,
            phase,
        } = self;
        if let CompactionPhase::Aborting { outcome } = phase {
            let now = AutoCompaction {
                checkpoint,
                compactable,
                retained,
                pending,
                break_messages,
                usage,
                phase: CompactionPhase::Over,
            };
            return (now, CompactionStep::Abort(outcome));
        }
        let summary = choose_summary(break_messages.is_some(), &cycle, serialized);
        let used = match &cycle {
            Ok(cycle) => cycle.usage,
            Err(failure) => failure.usage,
        };
        let mut event_id = "summary:auto:".to_owned();
        event_id.append(prepared.run_id.0.as_str());
        event_id.append(":");
        event_id.append(suffix);
        let message = engine::make_summary_message(event_id, summary.as_str());
        let ghost kept = data::option_view(retained);
        let mut messages: Vec<CanonicalMessage> = Vec::new();
        if let Some(context) = &retained {
            messages.push(context.duplicate());
        }
        messages.push(message);
        let mut brought = data::duplicate_all(&prepared.initial_messages);
        let ghost head = data::views(messages@);
        let ghost tail = data::views(brought@);
        messages.append(&mut brought);
        assert(data::views(messages@) =~= head + tail);
        assert(data::views(messages@) =~= replacement(
            kept,
            message@,
            prepared@.initial_messages,
        ));
        (
            AutoCompaction {
                checkpoint,
                compactable,
                retained,
                pending,
                break_messages,
                usage: used,
                phase: CompactionPhase::Storing { summary },
            },
            CompactionStep::ReplaceCheckpoint(messages),
        )
    }

    /// The step after the provider call has ended, under a name that chance picks. `serialized` is
    /// the text of the messages that the summary replaces.
    pub fn on_cycle_ended(
        self,
        prepared: &PreparedRun,
        cycle: Result<ModelCycleResult, ModelCycleFailure>,
        serialized: &str,
    ) -> (r: (Self, CompactionStep))
        requires
            self@.phase is Streaming || self@.phase is Breaking || self@.phase is Aborting,
        ensures
            exists|suffix: Seq<char>|
                suffix.len() == 8 && ident::all_hex(suffix) && (r.0@, r.1@)
                    == #[trigger] self@.cycle_ended(
                    prepared@,
                    crate::error::result_view(cycle),
                    serialized@,
                    suffix,
                ),
    {
        let suffix = ident::short_random_id();
        self.conclude(prepared, cycle, serialized, suffix.as_str())
    }

    /// The step after the conversation was replaced.
    pub fn on_stored(self, checkpoint: CheckpointId) -> (r: (Self, CompactionStep))
        requires
            self@.phase is Storing,
        ensures
            (r.0@, r.1@) == self@.stored(checkpoint),
    {
        let AutoCompaction {
            checkpoint: before,
            compactable,
            retained,
            pending,
            break_messages,
            usage,
            phase,
        } = self;
        match phase {
            CompactionPhase::Storing { summary } => (
                AutoCompaction {
                    checkpoint,
                    compactable,
                    retained,
                    pending,
                    break_messages,
                    usage,
                    phase: CompactionPhase::Announcing,
                },
                CompactionStep::Announce(
                    MessagesCommitted {
                        checkpoint_id: checkpoint,
                        tool_round_version: 0,
                        cause: CommitCause::Compaction { summary },
                        barrier: true,
                    },
                ),
            ),
            phase => (
                AutoCompaction {
                    checkpoint: before,
                    compactable,
                    retained,
                    pending,
                    break_messages,
                    usage,
                    phase,
                },
                CompactionStep::KeepStreaming,
            ),
        }
    }

    /// The step after the client took over the summary.
    pub fn on_ready(self) -> (r: (Self, CompactionStep))
        requires
            self@.phase is Announcing,
        ensures
            (r.0@, r.1@) == (
                self@.at(CompactionPhaseView::Completing),
                CompactionStepView::EmitCompleted,
            ),
    {
        (
            AutoCompaction { phase: CompactionPhase::Completing, ..self },
            CompactionStep::EmitCompleted,
        )
    }

    /// The step after the client was told of the end, or could not be.
    pub fn on_completed_sent(self, sent: bool) -> (r: (Self, CompactionStep))
        requires
            self@.phase is Completing,
        ensures
            (r.0@, r.1@) == self@.completed_sent(sent),
    {
        if !sent {
            return self.abort(client_failure());
        }
        let AutoCompaction {
            checkpoint,
            compactable,
            retained,
            pending,
            break_messages,
            usage,
            phase: _,
        } = self;
        let none: Vec<MessageInsertion> = Vec::new();
        assert(data::views(none@) =~= Seq::empty());
        (
            AutoCompaction {
                checkpoint,
                compactable,
                retained,
                pending: none,
                break_messages,
                usage,
                phase: CompactionPhase::Flushing,
            },
            CompactionStep::AppendBatches(pending),
        )
    }

    /// The step after insertions were appended.
    pub fn on_batches(self, checkpoint: CheckpointId) -> (r: (Self, CompactionStep))
        requires
            self@.phase is Flushing || self@.phase is Inserting,
        ensures
            (r.0@, r.1@) == self@.batched(checkpoint),
    {
        let flushing = match self.phase {
            CompactionPhase::Flushing => true,
            _ => false,
        };
        let AutoCompaction {
            checkpoint: _,
            compactable,
            retained,
            pending,
            break_messages,
            usage,
            phase,
        } = self;
        match break_messages {
            Some(insertion) if flushing => {
                let ghost wanted = insertion@;
                let mut batch: Vec<MessageInsertion> = Vec::new();
                batch.push(insertion);
                assert(data::views(batch@) =~= seq![wanted]);
                (
                    AutoCompaction {
                        checkpoint,
                        compactable,
                        retained,
                        pending,
                        break_messages: None,
                        usage,
                        phase: CompactionPhase::Inserting,
                    },
                    CompactionStep::AppendBatches(batch),
                )
            },
            break_messages => {
                let now = AutoCompaction {
                    checkpoint,
                    compactable,
                    retained,
                    pending,
                    break_messages,
                    usage,
                    phase,
                };
                assert(now@ =~= (AutoCompactionView { checkpoint, ..self@ }));
                now.finish()
            },
        }
    }
}

/// Compacting keeps the request context and everything that the run brings, in order, and adds one
/// summary.
pub proof fn law_compaction_keeps_what_the_run_brings(
    retained: Option<CanonicalMessageView>,
    summary: CanonicalMessageView,
    brought: Seq<CanonicalMessageView>,
)
    ensures
        brought.is_suffix_of(replacement(retained, summary, brought)),
        replacement(retained, summary, brought).contains(summary),
        retained matches Some(message) ==> replacement(retained, summary, brought)[0] == message,
        replacement(retained, summary, brought).len() == brought.len() + 1 + (if retained is Some {
            1int
        } else {
            0int
        }),
{
    let out = replacement(retained, summary, brought);
    let at = if retained is Some {
        1int
    } else {
        0int
    };
    assert(out[at] == summary);
    assert(out.subrange(out.len() - brought.len(), out.len() as int) =~= brought);
}

/// A compaction always comes to a summary: where the model fails, is interrupted, calls tools or
/// writes nothing, the end of the conversation stands in.
pub proof fn law_summary_is_never_blank(
    interrupted: bool,
    cycle: Result<ModelCycleResultView, ModelCycleFailureView>,
    serialized: Seq<char>,
)
    ensures
        kept_summary(interrupted, cycle, serialized).len() > 0,
{
    reveal_strlit("Durable recent conversation state:\n");
}

/// The model that compacts is asked about exactly the messages that the summary is to replace, by the
/// instructions for it and without tools; it is the model of the run, told to answer shortly and not
/// to reason.
pub proof fn law_model_is_asked_for_the_summary(
    compaction: AutoCompactionView,
    prepared: PreparedRunView,
    index: u64,
    bytes: Seq<u8>,
)
    requires
        compaction.phase is Beginning,
    ensures
        ({
            let (preparing, serialize) = compaction.call_begun(prepared, index);
            let (streaming, stream) = preparing.serialized(prepared, bytes);
            let request = stream->Stream_0.request;
            &&& serialize is Serialize
            &&& stream is Stream
            &&& request.history == serialize->history
            &&& request.prompt == serialize->prompt
            &&& request.history.len() == 1
            &&& request.history[0].role == Role::User
            &&& request.history[0].content is Parts
            &&& request.history[0].content->Parts_0.len() == 1
            &&& request.history[0].content->Parts_0[0] == (ContentPartView::Text {
                text: projection::compaction_text(compaction.compactable),
            })
            &&& request.prompt.instructions == prepared.compaction_prompt.instructions
            &&& request.prompt.tools.len() == 0
            &&& request.model.max_output_tokens == Some(4_096u64)
            &&& !request.model.reasoning.enabled
            &&& request.model.model_id == prepared.model.model_id
            &&& stream->Stream_0.run_id == prepared.run_id
            &&& stream->Stream_0.conversation_id == prepared.conversation_id
            &&& stream->Stream_0.provider_call_index == index
            &&& streaming.phase is Streaming
            &&& streaming.compactable == compaction.compactable
        }),
{
}

/// A compaction sets out to replace everything but the last request context and what the run brings;
/// where that is nothing, it ends at once and changes nothing.
pub proof fn law_compaction_takes_the_old_messages(
    prepared: PreparedRunView,
    checkpoint: CheckpointId,
    messages: Seq<CanonicalMessageView>,
    i: int,
)
    requires
        0 <= i < messages.len(),
    ensures
        ({
            let (fresh, step) = AutoCompactionView::starting(prepared, checkpoint, messages);
            let brought = exists|k: int|
                0 <= k < prepared.initial_messages.len() && (
                #[trigger] prepared.initial_messages[k]).message_id == messages[i].message_id;
            &&& brought ==> !fresh.compactable.contains(messages[i])
            &&& !brought && !text::starts(messages[i].message_id, "request-context:"@)
                ==> fresh.compactable.contains(messages[i])
            &&& fresh.compactable.len() == 0 ==> step == (CompactionStepView::Done {
                checkpoint,
                usage: None,
            })
            &&& fresh.compactable.len() > 0 ==> step is EmitStarted
        }),
{
    let ids = brought_ids(prepared);
    let end = compaction::request_context_end(messages);
    compaction::law_current_messages_stay(messages, end, ids);
    compaction::law_partition_loses_nothing(messages, end, ids, i);
    let taken = compaction::compactable_of(messages, end, ids);
    if exists|k: int|
        0 <= k < prepared.initial_messages.len() && (
        #[trigger] prepared.initial_messages[k]).message_id == messages[i].message_id {
        let k = choose|k: int|
            0 <= k < prepared.initial_messages.len() && (
            #[trigger] prepared.initial_messages[k]).message_id == messages[i].message_id;
        assert(ids[k] == messages[i].message_id);
        if taken.contains(messages[i]) {
            let n = choose|n: int| 0 <= n < taken.len() && taken[n] == messages[i];
            assert(!ids.contains(taken[n].message_id));
        }
    } else {
        if ids.contains(messages[i].message_id) {
            let k = choose|k: int| 0 <= k < ids.len() && ids[k] == messages[i].message_id;
            assert(prepared.initial_messages[k].message_id == messages[i].message_id);
        }
        if i + 1 == end {
            lemma_context_end_is_context(messages);
        }
    }
}

proof fn lemma_context_end_is_context(messages: Seq<CanonicalMessageView>)
    ensures
        compaction::request_context_end(messages) <= messages.len(),
        compaction::request_context_end(messages) > 0 ==> text::starts(
            messages[compaction::request_context_end(messages) - 1].message_id,
            "request-context:"@,
        ),
    decreases messages.len(),
{
    if messages.len() > 0 {
        lemma_context_end_is_context(messages.drop_last());
    }
}

/// The summary is what the model wrote, without the space around it, where the model was left to
/// finish, called no tools and wrote anything. Otherwise it ends in the end of the conversation.
pub proof fn law_summary_is_what_the_model_wrote(
    interrupted: bool,
    cycle: Result<ModelCycleResultView, ModelCycleFailureView>,
    serialized: Seq<char>,
)
    ensures
        cycle matches Ok(result) ==> (!interrupted && result.calls.len() == 0 && text::trimmed(
            result.text,
        ).len() > 0 ==> kept_summary(interrupted, cycle, serialized) == text::trimmed(
            result.text,
        )),
        (interrupted || cycle is Err || cycle->Ok_0.calls.len() > 0 || text::trimmed(
            cycle->Ok_0.text,
        ).len() == 0) && serialized.len() <= 12_000 ==> serialized.is_suffix_of(
            kept_summary(interrupted, cycle, serialized),
        ),
{
}

/// The conversation that takes the place of the old one begins with the request context that is kept,
/// goes on with a message that holds the summary, and ends with what the run brings. The client is
/// told of it; messages that waited follow, those that broke in last; and the usage of the call is
/// reported.
pub proof fn law_compaction_runs_to_its_end(
    compaction: AutoCompactionView,
    prepared: PreparedRunView,
    cycle: Result<ModelCycleResultView, ModelCycleFailureView>,
    serialized: Seq<char>,
    suffix: Seq<char>,
    stored: CheckpointId,
    flushed: CheckpointId,
    inserted: CheckpointId,
)
    requires
        compaction.phase is Streaming || compaction.phase is Breaking,
    ensures
        ({
            let (storing, replace) = compaction.cycle_ended(prepared, cycle, serialized, suffix);
            let (announcing, announce) = storing.stored(stored);
            let completing = announcing.at(CompactionPhaseView::Completing);
            let (flushing, flush) = completing.completed_sent(true);
            let (then, step) = flushing.batched(flushed);
            let messages = replace->ReplaceCheckpoint_0;
            let first = if compaction.retained is Some {
                1int
            } else {
                0int
            };
            let summary = kept_summary(compaction.break_messages is Some, cycle, serialized);
            let usage = match cycle {
                Ok(result) => result.usage,
                Err(failure) => failure.usage,
            };
            &&& replace is ReplaceCheckpoint
            &&& messages.len() == first + 1 + prepared.initial_messages.len()
            &&& compaction.retained is Some ==> messages[0] == compaction.retained->0
            &&& messages[first].role == Role::User
            &&& messages[first].content is Parts
            &&& messages[first].content->parts.len() == 1
            &&& messages[first].content->parts[0] is Text
            &&& text::contains_text(messages[first].content->parts[0]->text, summary)
            &&& forall|i: int|
                0 <= i < prepared.initial_messages.len() ==> messages[first + 1 + i]
                    == #[trigger] prepared.initial_messages[i]
            &&& announce is Announce
            &&& announce->Announce_0.checkpoint_id == stored
            &&& announce->Announce_0.cause == (CommitCauseView::Compaction { summary })
            &&& flush == CompactionStepView::AppendBatches(compaction.pending)
            &&& compaction.break_messages matches Some(insertion) ==> step
                == CompactionStepView::AppendBatches(seq![insertion]) && then.batched(inserted).1
                == (CompactionStepView::Done { checkpoint: inserted, usage })
            &&& compaction.break_messages is None ==> step == (CompactionStepView::Done {
                checkpoint: flushed,
                usage,
            })
        }),
{
    let summary = kept_summary(compaction.break_messages is Some, cycle, serialized);
    let open = "<conversation_summary>\n"@;
    let shown = open + summary + "\n</conversation_summary>"@;
    assert(shown.subrange(open.len() as int, (open.len() + summary.len()) as int) =~= summary);
    assert(text::occurs_at(shown, summary, open.len() as int));
}

/// A cancellation, a result that nobody asked for and a client that is gone end the run once the model
/// has stopped; messages that break in stop the model only.
pub proof fn law_compaction_commands_are_obeyed(
    compaction: AutoCompactionView,
    command: Option<RunCommandView>,
    prepared: PreparedRunView,
    cycle: Result<ModelCycleResultView, ModelCycleFailureView>,
    serialized: Seq<char>,
    suffix: Seq<char>,
)
    requires
        compaction.phase is Streaming,
    ensures
        ({
            let (next, step) = compaction.commanded(command);
            let end = next.cycle_ended(prepared, cycle, serialized, suffix).1;
            match command {
                Some(RunCommandView::InsertMessages(insertion)) => {
                    &&& step is KeepStreaming
                    &&& next.pending == compaction.pending.push(insertion)
                    &&& next.phase is Streaming
                },
                Some(RunCommandView::BreakMessages(insertion)) => {
                    &&& step is StopCycle
                    &&& next.break_messages == Some(insertion)
                    &&& next.pending == compaction.pending
                    &&& end is ReplaceCheckpoint
                },
                Some(RunCommandView::Cancel) => {
                    &&& step is StopCycle
                    &&& end == CompactionStepView::Abort(RunOutcomeView::Cancelled)
                },
                _ => {
                    &&& step is StopCycle
                    &&& end is Abort
                    &&& end->Abort_0 is Failed
                },
            }
        }),
{
}

/// A client that was told of the start or of the end lets the compaction go on; one that is gone ends the
/// run as a failure of the client, and nothing more is stored.
pub proof fn law_compaction_needs_its_client(compaction: AutoCompactionView)
    ensures
        compaction.started_sent(true).1 is BeginCall,
        compaction.started_sent(true).0.phase is Beginning,
        compaction.started_sent(true).0.compactable == compaction.compactable,
        compaction.started_sent(true).0.retained == compaction.retained,
        compaction.started_sent(false).1 matches CompactionStepView::Abort(outcome)
            && outcome is Failed && outcome->Failed_0 is Client,
        compaction.started_sent(false).0.phase is Over,
        compaction.completed_sent(true).1 == CompactionStepView::AppendBatches(compaction.pending),
        compaction.completed_sent(true).0.pending.len() == 0,
        compaction.completed_sent(true).0.break_messages == compaction.break_messages,
        compaction.completed_sent(false).1 matches CompactionStepView::Abort(outcome)
            && outcome is Failed && outcome->Failed_0 is Client,
        compaction.completed_sent(false).0.phase is Over,
{
}

/// A compaction starts with no messages that wait, no usage and the last request context that it keeps.
pub proof fn law_compaction_starts_afresh(
    prepared: PreparedRunView,
    checkpoint: CheckpointId,
    messages: Seq<CanonicalMessageView>,
)
    ensures
        ({
            let (fresh, _) = AutoCompactionView::starting(prepared, checkpoint, messages);
            &&& fresh.checkpoint == checkpoint
            &&& fresh.pending.len() == 0
            &&& fresh.break_messages is None
            &&& fresh.usage is None
            &&& fresh.retained == compaction::retained_of(messages, brought_ids(prepared))
        }),
{
}

/// The call that asks for a summary is told apart by the run and its number, counts the messages that the
/// summary is to replace, and is marked with the digest of what is sent.
pub proof fn law_summary_call_is_marked(
    compaction: AutoCompactionView,
    prepared: PreparedRunView,
    index: u64,
    bytes: Seq<u8>,
)
    requires
        compaction.phase == (CompactionPhaseView::Preparing { index }),
        compaction.compactable.len() <= usize::MAX,
    ensures
        ({
            let call = compaction.serialized(prepared, bytes).1->Stream_0;
            &&& text::starts(call.call_id, prepared.run_id)
            &&& text::ends(call.call_id, ":"@ + text::decimal(index as nat))
            &&& call.canonical_message_count == compaction.compactable.len()
            &&& call.projected_message_count == 1
            &&& call.history_fingerprint == digest::hex_text(digest::sha256(bytes))
        }),
{
    let end = ":"@ + text::decimal(index as nat);
    let id = prepared.run_id + ":"@ + text::decimal(index as nat);
    assert(id.subrange(0, prepared.run_id.len() as int) =~= prepared.run_id);
    assert(id.subrange(id.len() - end.len(), id.len() as int) =~= end);
}

} // verus!
