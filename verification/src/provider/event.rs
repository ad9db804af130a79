//! The events of one streaming provider call.
use crate::json::JsonView;
use crate::model::message::ProviderReplayState;
use crate::model::usage::Usage;
use vstd::prelude::*;

verus! {

#[derive(Clone, Copy, Debug, PartialEq, Eq, Structural)]
pub enum FinishReason {
    Stop,
    Length,
    ToolUse,
}

#[derive(Debug)]
pub enum ModelEvent {
    Start { model_call_id: String },
    TextStart,
    TextDelta(String),
    TextEnd,
    ThinkingStart,
    ThinkingDelta(String),
    ThinkingEnd,
    ToolCallStart { index: usize, call_id: String, name: String },
    ToolCallArgumentsDelta { index: usize, delta: String },
    ToolCallEnd { index: usize },
    ProviderReplayState(ProviderReplayState),
    Usage(Usage),
    Done(FinishReason),
}

#[verifier::ext_equal]
pub enum ModelEventView {
    Start { model_call_id: Seq<char> },
    TextStart,
    TextDelta(Seq<char>),
    TextEnd,
    ThinkingStart,
    ThinkingDelta(Seq<char>),
    ThinkingEnd,
    ToolCallStart { index: usize, call_id: Seq<char>, name: Seq<char> },
    ToolCallArgumentsDelta { index: usize, delta: Seq<char> },
    ToolCallEnd { index: usize },
    ProviderReplayState(JsonView),
    Usage(Usage),
    Done(FinishReason),
}

impl View for ModelEvent {
    type V = ModelEventView;

    open spec fn view(&self) -> ModelEventView {
        match self {
            ModelEvent::Start { model_call_id } => ModelEventView::Start {
                model_call_id: model_call_id@,
            },
            ModelEvent::TextStart => ModelEventView::TextStart,
            ModelEvent::TextDelta(delta) => ModelEventView::TextDelta(delta@),
            ModelEvent::TextEnd => ModelEventView::TextEnd,
            ModelEvent::ThinkingStart => ModelEventView::ThinkingStart,
            ModelEvent::ThinkingDelta(delta) => ModelEventView::ThinkingDelta(delta@),
            ModelEvent::ThinkingEnd => ModelEventView::ThinkingEnd,
            ModelEvent::ToolCallStart { index, call_id, name } => ModelEventView::ToolCallStart {
                index: *index,
                call_id: call_id@,
                name: name@,
            },
            ModelEvent::ToolCallArgumentsDelta {
                index,
                delta,
            } => ModelEventView::ToolCallArgumentsDelta { index: *index, delta: delta@ },
            ModelEvent::ToolCallEnd { index } => ModelEventView::ToolCallEnd { index: *index },
            ModelEvent::ProviderReplayState(state) => ModelEventView::ProviderReplayState(state@),
            ModelEvent::Usage(usage) => ModelEventView::Usage(*usage),
            ModelEvent::Done(reason) => ModelEventView::Done(*reason),
        }
    }
}

/// Whether an event shows that the model itself answered: a piece of text, thinking or a tool call,
/// even an empty one. Transport markers, replay state, usage and completion do not.
pub open spec fn is_response(event: ModelEventView) -> bool {
    match event {
        ModelEventView::TextDelta(_)
        | ModelEventView::ThinkingStart
        | ModelEventView::ThinkingDelta(_)
        | ModelEventView::ThinkingEnd
        | ModelEventView::ToolCallStart { .. }
        | ModelEventView::ToolCallArgumentsDelta { .. }
        | ModelEventView::ToolCallEnd { .. } => true,
        _ => false,
    }
}

/// Whether an event counts as the first valid upstream response.
pub fn is_valid_response_event(event: &ModelEvent) -> (r: bool)
    ensures
        r == is_response(event@),
{
    match event {
        ModelEvent::TextDelta(_)
        | ModelEvent::ThinkingStart
        | ModelEvent::ThinkingDelta(_)
        | ModelEvent::ThinkingEnd
        | ModelEvent::ToolCallStart { .. }
        | ModelEvent::ToolCallArgumentsDelta { .. }
        | ModelEvent::ToolCallEnd { .. } => true,
        _ => false,
    }
}

/// What the model thinks, says or calls shows that it answered; what only frames an answer does not.
pub proof fn law_pieces_show_an_answer(event: ModelEventView)
    ensures
        event is TextDelta || event is ThinkingDelta || event is ToolCallStart
            || event is ToolCallArgumentsDelta || event is ToolCallEnd || event is ThinkingStart
            || event is ThinkingEnd <==> is_response(event),
        event is Start || event is TextStart || event is TextEnd || event is Usage || event is Done
            || event is ProviderReplayState ==> !is_response(event),
{
}

} // verus!
