//! Tool calls while a run is executing them.
use crate::data;
use crate::data::Duplicate;
use crate::json::{Json, JsonView};
use crate::model::message::ProviderReplayState;
use vstd::prelude::*;

verus! {

/// A tool that a prompt offers to the model.
#[derive(Debug)]
pub struct ToolDefinition {
    pub name: String,
    pub description: String,
    pub parameters: Json,
}

#[verifier::ext_equal]
pub struct ToolDefinitionView {
    pub name: Seq<char>,
    pub description: Seq<char>,
    pub parameters: JsonView,
}

impl View for ToolDefinition {
    type V = ToolDefinitionView;

    open spec fn view(&self) -> ToolDefinitionView {
        ToolDefinitionView {
            name: self.name@,
            description: self.description@,
            parameters: self.parameters@,
        }
    }
}

impl Duplicate for ToolDefinition {
    fn duplicate(&self) -> (r: Self) {
        ToolDefinition {
            name: self.name.clone(),
            description: self.description.clone(),
            parameters: self.parameters.duplicate(),
        }
    }
}

/// A tool call that a model made.
#[derive(Debug)]
pub struct ToolCall {
    pub index: usize,
    pub call_id: String,
    pub model_call_id: String,
    pub name: String,
    pub arguments_text: String,
    pub arguments: Json,
}

#[verifier::ext_equal]
pub struct ToolCallView {
    pub index: usize,
    pub call_id: Seq<char>,
    pub model_call_id: Seq<char>,
    pub name: Seq<char>,
    pub arguments_text: Seq<char>,
    pub arguments: JsonView,
}

impl View for ToolCall {
    type V = ToolCallView;

    open spec fn view(&self) -> ToolCallView {
        ToolCallView {
            index: self.index,
            call_id: self.call_id@,
            model_call_id: self.model_call_id@,
            name: self.name@,
            arguments_text: self.arguments_text@,
            arguments: self.arguments@,
        }
    }
}

impl Duplicate for ToolCall {
    fn duplicate(&self) -> (r: Self) {
        ToolCall {
            index: self.index,
            call_id: self.call_id.clone(),
            model_call_id: self.model_call_id.clone(),
            name: self.name.clone(),
            arguments_text: self.arguments_text.clone(),
            arguments: self.arguments.duplicate(),
        }
    }
}

/// What the model said in the turn whose tool calls a round executes.
#[derive(Debug)]
pub struct ToolRoundAssistant {
    pub text: String,
    pub thinking: String,
    pub model_call_id: String,
    pub replay_state: Option<ProviderReplayState>,
}

#[verifier::ext_equal]
pub struct ToolRoundAssistantView {
    pub text: Seq<char>,
    pub thinking: Seq<char>,
    pub model_call_id: Seq<char>,
    pub replay_state: Option<JsonView>,
}

impl View for ToolRoundAssistant {
    type V = ToolRoundAssistantView;

    open spec fn view(&self) -> ToolRoundAssistantView {
        ToolRoundAssistantView {
            text: self.text@,
            thinking: self.thinking@,
            model_call_id: self.model_call_id@,
            replay_state: data::option_view(self.replay_state),
        }
    }
}

impl Duplicate for ToolRoundAssistant {
    fn duplicate(&self) -> (r: Self) {
        ToolRoundAssistant {
            text: self.text.clone(),
            thinking: self.thinking.clone(),
            model_call_id: self.model_call_id.clone(),
            replay_state: data::duplicate_option(&self.replay_state),
        }
    }
}

} // verus!
