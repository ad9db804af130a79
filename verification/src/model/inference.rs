//! What a provider is asked for.
use crate::data;
use crate::data::Duplicate;
use crate::model::message::{ToolCallContent, ToolCallContentView, ToolResultContentView};
use crate::model::projection::{
    ProjectedContent, ProjectedContentView, ProjectedMessage, ProjectedMessageView,
};
use crate::model::tool::{ToolDefinition, ToolDefinitionView};
use crate::text;
use vstd::prelude::*;

verus! {

/// Most characters of a tool call id that every provider takes.
pub const PROVIDER_TOOL_CALL_ID_MAX_CHARS: usize = 64;

/// Whether and how hard a model should reason.
#[derive(Debug)]
pub struct ReasoningSpec {
    pub enabled: bool,
    pub effort: Option<String>,
}

#[verifier::ext_equal]
pub struct ReasoningSpecView {
    pub enabled: bool,
    pub effort: Option<Seq<char>>,
}

impl View for ReasoningSpec {
    type V = ReasoningSpecView;

    open spec fn view(&self) -> ReasoningSpecView {
        ReasoningSpecView { enabled: self.enabled, effort: data::option_view(self.effort) }
    }
}

impl Duplicate for ReasoningSpec {
    fn duplicate(&self) -> (r: Self) {
        ReasoningSpec { enabled: self.enabled, effort: data::duplicate_option(&self.effort) }
    }
}

/// A model with its limits.
#[derive(Debug)]
pub struct ModelSpec {
    pub model_id: String,
    pub context_window_tokens: Option<u64>,
    pub max_output_tokens: Option<u64>,
    pub reasoning: ReasoningSpec,
    pub fast: bool,
}

#[verifier::ext_equal]
pub struct ModelSpecView {
    pub model_id: Seq<char>,
    pub context_window_tokens: Option<u64>,
    pub max_output_tokens: Option<u64>,
    pub reasoning: ReasoningSpecView,
    pub fast: bool,
}

impl View for ModelSpec {
    type V = ModelSpecView;

    open spec fn view(&self) -> ModelSpecView {
        ModelSpecView {
            model_id: self.model_id@,
            context_window_tokens: self.context_window_tokens,
            max_output_tokens: self.max_output_tokens,
            reasoning: self.reasoning@,
            fast: self.fast,
        }
    }
}

impl Duplicate for ModelSpec {
    fn duplicate(&self) -> (r: Self) {
        ModelSpec {
            model_id: self.model_id.clone(),
            context_window_tokens: self.context_window_tokens,
            max_output_tokens: self.max_output_tokens,
            reasoning: self.reasoning.duplicate(),
            fast: self.fast,
        }
    }
}

impl ModelSpec {
    /// A model of which only the name is known.
    pub fn new(model_id: &str) -> (r: Self)
        ensures
            r@ == (ModelSpecView {
                model_id: model_id@,
                context_window_tokens: None,
                max_output_tokens: None,
                reasoning: ReasoningSpecView { enabled: false, effort: None },
                fast: false,
            }),
    {
        ModelSpec {
            model_id: model_id.to_owned(),
            context_window_tokens: None,
            max_output_tokens: None,
            reasoning: ReasoningSpec { enabled: false, effort: None },
            fast: false,
        }
    }
}

/// What a model is told before the conversation.
#[derive(Debug)]
pub struct PromptSpec {
    pub instructions: String,
    pub tools: Vec<ToolDefinition>,
}

#[verifier::ext_equal]
pub struct PromptSpecView {
    pub instructions: Seq<char>,
    pub tools: Seq<ToolDefinitionView>,
}

impl View for PromptSpec {
    type V = PromptSpecView;

    open spec fn view(&self) -> PromptSpecView {
        PromptSpecView { instructions: self.instructions@, tools: data::views(self.tools@) }
    }
}

impl Duplicate for PromptSpec {
    fn duplicate(&self) -> (r: Self) {
        PromptSpec {
            instructions: self.instructions.clone(),
            tools: data::duplicate_all(&self.tools),
        }
    }
}

/// A prompt, a model and the conversation so far.
#[derive(Debug)]
pub struct ModelRequest {
    pub prompt: PromptSpec,
    pub model: ModelSpec,
    pub history: Vec<ProjectedMessage>,
}

#[verifier::ext_equal]
pub struct ModelRequestView {
    pub prompt: PromptSpecView,
    pub model: ModelSpecView,
    pub history: Seq<ProjectedMessageView>,
}

impl View for ModelRequest {
    type V = ModelRequestView;

    open spec fn view(&self) -> ModelRequestView {
        ModelRequestView {
            prompt: self.prompt@,
            model: self.model@,
            history: data::views(self.history@),
        }
    }
}

/// One provider call of a run.
#[derive(Debug)]
pub struct ModelInvocation {
    pub call_id: String,
    pub run_id: String,
    pub conversation_id: String,
    pub provider_call_index: u64,
    pub canonical_message_count: usize,
    pub projected_message_count: usize,
    pub history_fingerprint: String,
    pub request: ModelRequest,
}

#[verifier::ext_equal]
pub struct ModelInvocationView {
    pub call_id: Seq<char>,
    pub run_id: Seq<char>,
    pub conversation_id: Seq<char>,
    pub provider_call_index: u64,
    pub canonical_message_count: usize,
    pub projected_message_count: usize,
    pub history_fingerprint: Seq<char>,
    pub request: ModelRequestView,
}

impl View for ModelInvocation {
    type V = ModelInvocationView;

    open spec fn view(&self) -> ModelInvocationView {
        ModelInvocationView {
            call_id: self.call_id@,
            run_id: self.run_id@,
            conversation_id: self.conversation_id@,
            provider_call_index: self.provider_call_index,
            canonical_message_count: self.canonical_message_count,
            projected_message_count: self.projected_message_count,
            history_fingerprint: self.history_fingerprint@,
            request: self.request@,
        }
    }
}

/// A tool call id as providers take it.
pub open spec fn short_id(call_id: Seq<char>) -> Seq<char> {
    if call_id.len() > PROVIDER_TOOL_CALL_ID_MAX_CHARS {
        call_id.take(PROVIDER_TOOL_CALL_ID_MAX_CHARS as int)
    } else {
        call_id
    }
}

/// A tool call with its id as providers take it.
pub open spec fn short_call(call: ToolCallContentView) -> ToolCallContentView {
    ToolCallContentView { call_id: short_id(call.call_id), ..call }
}

/// A message with its tool call ids as providers take them.
pub open spec fn short_message(message: ProjectedMessageView) -> ProjectedMessageView {
    ProjectedMessageView {
        content: match message.content {
            ProjectedContentView::Assistant {
                text,
                thinking,
                replay_state,
                calls,
            } => ProjectedContentView::Assistant {
                text,
                thinking,
                replay_state,
                calls: calls.map_values(|call: ToolCallContentView| short_call(call)),
            },
            ProjectedContentView::ToolResult(result) => ProjectedContentView::ToolResult(
                ToolResultContentView { call_id: short_id(result.call_id), ..result },
            ),
            ProjectedContentView::Parts(parts) => ProjectedContentView::Parts(parts),
        },
        ..message
    }
}

/// A history with its tool call ids as providers take them.
pub open spec fn short_history(history: Seq<ProjectedMessageView>) -> Seq<ProjectedMessageView> {
    history.map_values(|message: ProjectedMessageView| short_message(message))
}

fn truncate_tool_call_id(call_id: &mut String)
    ensures
        final(call_id)@ == short_id(old(call_id)@),
{
    let chars = text::to_chars(call_id.as_str());
    if chars.len() > PROVIDER_TOOL_CALL_ID_MAX_CHARS {
        *call_id = text::slice(&chars, 0, PROVIDER_TOOL_CALL_ID_MAX_CHARS);
        assert(call_id@ =~= chars@.take(PROVIDER_TOOL_CALL_ID_MAX_CHARS as int));
    }
}

fn truncate_calls(calls: &mut Vec<ToolCallContent>)
    ensures
        data::views(final(calls)@) == data::views(old(calls)@).map_values(
            |call: ToolCallContentView| short_call(call),
        ),
{
    let ghost before = data::views(calls@);
    let ghost wanted = before.map_values(|call: ToolCallContentView| short_call(call));
    let mut i: usize = 0;
    while i < calls.len()
        invariant
            i <= calls@.len(),
            calls@.len() == before.len(),
            wanted == before.map_values(|call: ToolCallContentView| short_call(call)),
            forall|k: int| 0 <= k < i ==> (#[trigger] calls@[k])@ == wanted[k],
            forall|k: int| i <= k < calls@.len() ==> (#[trigger] calls@[k])@ == before[k],
        decreases calls@.len() - i,
    {
        truncate_tool_call_id(&mut calls[i].call_id);
        assert(calls@[i as int]@ =~= wanted[i as int]);
        i += 1;
    }
    assert(data::views(calls@) =~= wanted);
}

fn truncate_message(message: &mut ProjectedMessage)
    ensures
        final(message)@ == short_message(old(message)@),
{
    match &mut message.content {
        ProjectedContent::Assistant { calls, .. } => {
            truncate_calls(calls);
        },
        ProjectedContent::ToolResult(result) => {
            truncate_tool_call_id(&mut result.call_id);
        },
        ProjectedContent::Parts(_) => {},
    }
}

/// Cuts every tool call id to what all providers take, in calls and in results alike.
pub fn normalize_provider_tool_call_ids(history: &mut Vec<ProjectedMessage>)
    ensures
        data::views(final(history)@) == short_history(data::views(old(history)@)),
{
    let ghost before = data::views(history@);
    let ghost wanted = short_history(before);
    let mut i: usize = 0;
    while i < history.len()
        invariant
            i <= history@.len(),
            history@.len() == before.len(),
            wanted == short_history(before),
            forall|k: int| 0 <= k < i ==> (#[trigger] history@[k])@ == wanted[k],
            forall|k: int| i <= k < history@.len() ==> (#[trigger] history@[k])@ == before[k],
        decreases history@.len() - i,
    {
        truncate_message(&mut history[i]);
        i += 1;
    }
    assert(data::views(history@) =~= wanted);
}

/// Cutting the ids of a history that was cut changes nothing.
pub proof fn law_cutting_twice_is_cutting_once(history: Seq<ProjectedMessageView>)
    ensures
        short_history(short_history(history)) == short_history(history),
{
    assert forall|i: int| 0 <= i < history.len() implies short_message(
        short_message(#[trigger] history[i]),
    ) == short_message(history[i]) by {
        if let ProjectedContentView::Assistant { calls, .. } = history[i].content {
            let once = calls.map_values(|call: ToolCallContentView| short_call(call));
            assert(once.map_values(|call: ToolCallContentView| short_call(call)) =~= once);
        }
    }
    assert(short_history(short_history(history)) =~= short_history(history));
}

/// Calls and results that went together still do after their ids were cut.
pub proof fn law_cutting_keeps_pairs(call_id: Seq<char>, result_id: Seq<char>)
    requires
        call_id == result_id,
    ensures
        short_id(call_id) == short_id(result_id),
        short_id(call_id).len() <= PROVIDER_TOOL_CALL_ID_MAX_CHARS,
{
}

/// Whether an id is another one, or the first 64 characters of it where it is longer.
pub open spec fn is_cut_id(id: Seq<char>, whole: Seq<char>) -> bool {
    &&& id.is_prefix_of(whole)
    &&& whole.len() <= 64 ==> id.len() == whole.len()
    &&& whole.len() > 64 ==> id.len() == 64
}

/// Whether two messages say the same, but for the length of the ids of tool calls.
pub open spec fn says_the_same(a: ProjectedMessageView, b: ProjectedMessageView) -> bool {
    &&& a.message_id == b.message_id
    &&& a.role == b.role
    &&& match b.content {
        ProjectedContentView::Parts(parts) => a.content == ProjectedContentView::Parts(parts),
        ProjectedContentView::Assistant { text, thinking, replay_state, calls } => {
            &&& a.content is Assistant
            &&& a.content->text == text
            &&& a.content->thinking == thinking
            &&& a.content->replay_state == replay_state
            &&& a.content->calls.len() == calls.len()
            &&& forall|i: int|
                0 <= i < calls.len() ==> {
                    &&& (#[trigger] a.content->calls[i]).index == calls[i].index
                    &&& a.content->calls[i].name == calls[i].name
                    &&& a.content->calls[i].arguments == calls[i].arguments
                    &&& is_cut_id(a.content->calls[i].call_id, calls[i].call_id)
                }
        },
        ProjectedContentView::ToolResult(result) => {
            &&& a.content is ToolResult
            &&& a.content->ToolResult_0.name == result.name
            &&& a.content->ToolResult_0.content == result.content
            &&& a.content->ToolResult_0.is_error == result.is_error
            &&& a.content->ToolResult_0.image == result.image
            &&& a.content->ToolResult_0.provider_parts == result.provider_parts
            &&& is_cut_id(a.content->ToolResult_0.call_id, result.call_id)
        },
    }
}

/// Cutting the ids of a history leaves everything else in it as it was, message by message.
pub proof fn law_only_ids_are_cut(history: Seq<ProjectedMessageView>)
    ensures
        short_history(history).len() == history.len(),
        forall|i: int|
            0 <= i < history.len() ==> says_the_same(
                #[trigger] short_history(history)[i],
                history[i],
            ),
{
}

} // verus!
