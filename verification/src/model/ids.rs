//! Names of runs, conversations, tool rounds and checkpoints.
use crate::data::Duplicate;
use vstd::prelude::*;

verus! {

#[derive(Debug)]
pub struct RunId(pub String);

#[derive(Debug)]
pub struct ConversationId(pub String);

#[derive(Debug)]
pub struct ToolRoundId(pub String);

/// A stored state of a conversation.
#[derive(Clone, Copy, Debug, PartialEq, Eq, Structural)]
pub struct CheckpointId(pub i64);

/// A state of a conversation that others can build on.
#[derive(Clone, Copy, Debug, PartialEq, Eq, Structural)]
pub struct RevisionId(pub i64);

impl View for RunId {
    type V = Seq<char>;

    open spec fn view(&self) -> Seq<char> {
        self.0@
    }
}

impl View for ConversationId {
    type V = Seq<char>;

    open spec fn view(&self) -> Seq<char> {
        self.0@
    }
}

impl View for ToolRoundId {
    type V = Seq<char>;

    open spec fn view(&self) -> Seq<char> {
        self.0@
    }
}

impl RunId {
    pub fn new(id: &str) -> (r: Self)
        ensures
            r@ == id@,
    {
        RunId(id.to_owned())
    }
}

impl ConversationId {
    pub fn new(id: &str) -> (r: Self)
        ensures
            r@ == id@,
    {
        ConversationId(id.to_owned())
    }
}

impl ToolRoundId {
    pub fn new(id: &str) -> (r: Self)
        ensures
            r@ == id@,
    {
        ToolRoundId(id.to_owned())
    }
}

impl Duplicate for RunId {
    fn duplicate(&self) -> (r: Self) {
        RunId(self.0.clone())
    }
}

impl Duplicate for ConversationId {
    fn duplicate(&self) -> (r: Self) {
        ConversationId(self.0.clone())
    }
}

impl Duplicate for ToolRoundId {
    fn duplicate(&self) -> (r: Self) {
        ToolRoundId(self.0.clone())
    }
}

} // verus!
