//! Runs as they are prepared.
use crate::data;
use crate::data::Duplicate;
use crate::model::ids::{CheckpointId, ConversationId, RunId};
use crate::model::inference::{ModelSpec, ModelSpecView, PromptSpec, PromptSpecView};
use crate::model::message::{CanonicalMessage, CanonicalMessageView};
use crate::model::tool::{ToolCall, ToolCallView, ToolRoundAssistant, ToolRoundAssistantView};
use vstd::prelude::*;

verus! {

#[derive(Debug)]
pub enum SubagentKind {
    GeneralPurpose,
    Named(String),
}

#[verifier::ext_equal]
pub enum SubagentKindView {
    GeneralPurpose,
    Named(Seq<char>),
}

impl View for SubagentKind {
    type V = SubagentKindView;

    open spec fn view(&self) -> SubagentKindView {
        match self {
            SubagentKind::GeneralPurpose => SubagentKindView::GeneralPurpose,
            SubagentKind::Named(name) => SubagentKindView::Named(name@),
        }
    }
}

#[derive(Debug)]
pub enum RunKind {
    Root,
    Subagent {
        parent_run_id: RunId,
        parent_tool_call_id: String,
        kind: SubagentKind,
        background: bool,
    },
}

#[verifier::ext_equal]
pub enum RunKindView {
    Root,
    Subagent {
        parent_run_id: Seq<char>,
        parent_tool_call_id: Seq<char>,
        kind: SubagentKindView,
        background: bool,
    },
}

impl View for RunKind {
    type V = RunKindView;

    open spec fn view(&self) -> RunKindView {
        match self {
            RunKind::Root => RunKindView::Root,
            RunKind::Subagent {
                parent_run_id,
                parent_tool_call_id,
                kind,
                background,
            } => RunKindView::Subagent {
                parent_run_id: parent_run_id@,
                parent_tool_call_id: parent_tool_call_id@,
                kind: kind@,
                background: *background,
            },
        }
    }
}

/// Which model a subagent of some kind runs on.
#[derive(Debug)]
pub enum SubagentModelOverride {
    Explicit(ModelSpec),
    Inherit,
    Disabled,
}

/// A tool round that an earlier run left unfinished.
#[derive(Debug)]
pub struct RecoveredToolRound {
    pub assistant: ToolRoundAssistant,
    pub calls: Vec<ToolCall>,
    pub started_at_ms: u64,
}

#[verifier::ext_equal]
pub struct RecoveredToolRoundView {
    pub assistant: ToolRoundAssistantView,
    pub calls: Seq<ToolCallView>,
    pub started_at_ms: u64,
}

impl View for RecoveredToolRound {
    type V = RecoveredToolRoundView;

    open spec fn view(&self) -> RecoveredToolRoundView {
        RecoveredToolRoundView {
            assistant: self.assistant@,
            calls: data::views(self.calls@),
            started_at_ms: self.started_at_ms,
        }
    }
}

impl Duplicate for RecoveredToolRound {
    fn duplicate(&self) -> (r: Self) {
        RecoveredToolRound {
            assistant: self.assistant.duplicate(),
            calls: data::duplicate_all(&self.calls),
            started_at_ms: self.started_at_ms,
        }
    }
}

/// What a run sets out to do.
#[derive(Debug)]
pub enum RunAction {
    Start,
    Compact,
    Resume { pending_tool_round: Option<RecoveredToolRound> },
}

#[verifier::ext_equal]
pub enum RunActionView {
    Start,
    Compact,
    Resume { pending_tool_round: Option<RecoveredToolRoundView> },
}

impl View for RunAction {
    type V = RunActionView;

    open spec fn view(&self) -> RunActionView {
        match self {
            RunAction::Start => RunActionView::Start,
            RunAction::Compact => RunActionView::Compact,
            RunAction::Resume { pending_tool_round } => RunActionView::Resume {
                pending_tool_round: data::option_view(*pending_tool_round),
            },
        }
    }
}

/// A run that is ready to start.
#[derive(Debug)]
pub struct PreparedRun {
    pub run_id: RunId,
    pub cursor_request_id: Option<String>,
    pub conversation_id: ConversationId,
    pub kind: RunKind,
    pub model: ModelSpec,
    pub checkpoint_context_tokens: Option<u64>,
    pub prompt: PromptSpec,
    pub compaction_prompt: PromptSpec,
    pub initial_messages: Vec<CanonicalMessage>,
    pub action: RunAction,
    pub base_checkpoint_id: CheckpointId,
}

#[verifier::ext_equal]
pub struct PreparedRunView {
    pub run_id: Seq<char>,
    pub cursor_request_id: Option<Seq<char>>,
    pub conversation_id: Seq<char>,
    pub kind: RunKindView,
    pub model: ModelSpecView,
    pub checkpoint_context_tokens: Option<u64>,
    pub prompt: PromptSpecView,
    pub compaction_prompt: PromptSpecView,
    pub initial_messages: Seq<CanonicalMessageView>,
    pub action: RunActionView,
    pub base_checkpoint_id: CheckpointId,
}

impl View for PreparedRun {
    type V = PreparedRunView;

    open spec fn view(&self) -> PreparedRunView {
        PreparedRunView {
            run_id: self.run_id@,
            cursor_request_id: data::option_view(self.cursor_request_id),
            conversation_id: self.conversation_id@,
            kind: self.kind@,
            model: self.model@,
            checkpoint_context_tokens: self.checkpoint_context_tokens,
            prompt: self.prompt@,
            compaction_prompt: self.compaction_prompt@,
            initial_messages: data::views(self.initial_messages@),
            action: self.action@,
            base_checkpoint_id: self.base_checkpoint_id,
        }
    }
}

} // verus!
