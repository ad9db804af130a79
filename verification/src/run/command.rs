//! What a client asks of a running run.
use crate::data;
use crate::data::Duplicate;
use crate::model::message::{
    CanonicalMessage, CanonicalMessageView, ToolResultContent, ToolResultContentView,
};
use vstd::prelude::*;

verus! {

/// Messages to add to the conversation. The ticket names the party that waits for the delivery.
#[derive(Debug)]
pub struct MessageInsertion {
    pub ticket: u64,
    pub messages: Vec<CanonicalMessage>,
}

#[verifier::ext_equal]
pub struct MessageInsertionView {
    pub ticket: u64,
    pub messages: Seq<CanonicalMessageView>,
}

impl View for MessageInsertion {
    type V = MessageInsertionView;

    open spec fn view(&self) -> MessageInsertionView {
        MessageInsertionView { ticket: self.ticket, messages: data::views(self.messages@) }
    }
}

impl Duplicate for MessageInsertion {
    fn duplicate(&self) -> (r: Self) {
        MessageInsertion { ticket: self.ticket, messages: data::duplicate_all(&self.messages) }
    }
}

/// What a client can ask while a model is answering.
#[derive(Debug)]
pub enum RunCommand {
    /// Add messages when the model has answered.
    InsertMessages(MessageInsertion),
    /// Interrupt the model and add messages.
    BreakMessages(MessageInsertion),
    /// Deliver a tool result, which nothing waits for here.
    ToolResult(ToolResultContent),
    /// Stop the run.
    Cancel,
}

#[verifier::ext_equal]
pub enum RunCommandView {
    InsertMessages(MessageInsertionView),
    BreakMessages(MessageInsertionView),
    ToolResult(ToolResultContentView),
    Cancel,
}

impl View for RunCommand {
    type V = RunCommandView;

    open spec fn view(&self) -> RunCommandView {
        match self {
            RunCommand::InsertMessages(insertion) => RunCommandView::InsertMessages(insertion@),
            RunCommand::BreakMessages(insertion) => RunCommandView::BreakMessages(insertion@),
            RunCommand::ToolResult(result) => RunCommandView::ToolResult(result@),
            RunCommand::Cancel => RunCommandView::Cancel,
        }
    }
}

} // verus!
