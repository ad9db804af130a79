//! Consumes one streaming provider call.
//!
//! The caller reads the provider's stream and hands each event to [`ModelCycle::on_event`], which
//! says what to send to the client or why the stream broke the protocol. At the end of the stream
//! [`ModelCycle::finish`] says what the call came to.
use crate::data;
use crate::data::Duplicate;
use crate::json;
use crate::json::{Json, JsonView};
use crate::model::message::ProviderReplayState;
use crate::model::tool::{ToolCall, ToolCallView};
use crate::model::usage::Usage;
use crate::provider::event::{FinishReason, ModelEvent, ModelEventView};
use crate::run::event::{RunEvent, RunEventView, RunFailure, RunFailureView};
use crate::text;
use vstd::prelude::*;

verus! {

/// What a completed provider call came to.
#[derive(Debug)]
pub struct ModelCycleResult {
    pub model_call_id: String,
    pub text: String,
    pub reasoning: String,
    pub replay_state: Option<ProviderReplayState>,
    pub calls: Vec<ToolCall>,
    pub usage: Option<Usage>,
    pub finish_reason: FinishReason,
}

#[verifier::ext_equal]
pub struct ModelCycleResultView {
    pub model_call_id: Seq<char>,
    pub text: Seq<char>,
    pub reasoning: Seq<char>,
    pub replay_state: Option<JsonView>,
    pub calls: Seq<ToolCallView>,
    pub usage: Option<Usage>,
    pub finish_reason: FinishReason,
}

impl View for ModelCycleResult {
    type V = ModelCycleResultView;

    open spec fn view(&self) -> ModelCycleResultView {
        ModelCycleResultView {
            model_call_id: self.model_call_id@,
            text: self.text@,
            reasoning: self.reasoning@,
            replay_state: data::option_view(self.replay_state),
            calls: data::views(self.calls@),
            usage: self.usage,
            finish_reason: self.finish_reason,
        }
    }
}

/// Why a provider call did not complete, with what it had produced by then.
#[derive(Debug)]
pub struct ModelCycleFailure {
    pub failure: RunFailure,
    pub partial_text: String,
    pub partial_reasoning: String,
    pub usage: Option<Usage>,
}

#[verifier::ext_equal]
pub struct ModelCycleFailureView {
    pub failure: RunFailureView,
    pub partial_text: Seq<char>,
    pub partial_reasoning: Seq<char>,
    pub usage: Option<Usage>,
}

impl View for ModelCycleFailure {
    type V = ModelCycleFailureView;

    open spec fn view(&self) -> ModelCycleFailureView {
        ModelCycleFailureView {
            failure: self.failure@,
            partial_text: self.partial_text@,
            partial_reasoning: self.partial_reasoning@,
            usage: self.usage,
        }
    }
}

/// A tool call whose arguments are still streaming in, or have ended.
pub struct OpenTool {
    pub call: ToolCall,
    pub ended: bool,
}

#[verifier::ext_equal]
pub struct OpenToolView {
    pub call: ToolCallView,
    pub ended: bool,
}

impl View for OpenTool {
    type V = OpenToolView;

    open spec fn view(&self) -> OpenToolView {
        OpenToolView { call: self.call@, ended: self.ended }
    }
}

/// A provider call in progress.
pub struct ModelCycle {
    pub model_call_id: Option<String>,
    pub text: String,
    pub reasoning: String,
    pub text_open: bool,
    pub thinking_open: bool,
    pub tools: Vec<OpenTool>,
    pub replay_state: Option<ProviderReplayState>,
    pub usage: Option<Usage>,
    pub finish: Option<FinishReason>,
}

#[verifier::ext_equal]
pub struct CycleView {
    pub model_call_id: Option<Seq<char>>,
    pub text: Seq<char>,
    pub reasoning: Seq<char>,
    pub text_open: bool,
    pub thinking_open: bool,
    pub tools: Seq<OpenToolView>,
    pub replay_state: Option<JsonView>,
    pub usage: Option<Usage>,
    pub finish: Option<FinishReason>,
}

impl View for ModelCycle {
    type V = CycleView;

    open spec fn view(&self) -> CycleView {
        CycleView {
            model_call_id: data::option_view(self.model_call_id),
            text: self.text@,
            reasoning: self.reasoning@,
            text_open: self.text_open,
            thinking_open: self.thinking_open,
            tools: data::views(self.tools@),
            replay_state: data::option_view(self.replay_state),
            usage: self.usage,
            finish: self.finish,
        }
    }
}

/// What to do after an event: nothing, send an event to the client, or give the call up.
pub enum CycleStep {
    Quiet,
    Send(RunEvent),
    Fail(ModelCycleFailure),
}

#[verifier::ext_equal]
pub enum CycleStepView {
    Quiet,
    Send(RunEventView),
    Fail(ModelCycleFailureView),
}

impl View for CycleStep {
    type V = CycleStepView;

    open spec fn view(&self) -> CycleStepView {
        match self {
            CycleStep::Quiet => CycleStepView::Quiet,
            CycleStep::Send(event) => CycleStepView::Send(event@),
            CycleStep::Fail(failure) => CycleStepView::Fail(failure@),
        }
    }
}

/// Position of the first tool whose index is not below `index`.
pub open spec fn rank(tools: Seq<OpenToolView>, index: usize) -> int
    decreases tools.len(),
{
    if tools.len() == 0 || tools[0].call.index >= index {
        0
    } else {
        1 + rank(tools.drop_first(), index)
    }
}

/// Whether a tool with this index was started.
pub open spec fn has_index(tools: Seq<OpenToolView>, index: usize) -> bool {
    exists|i: int| 0 <= i < tools.len() && #[trigger] tools[i].call.index == index
}

/// Whether a tool with this call id was started.
pub open spec fn has_call_id(tools: Seq<OpenToolView>, call_id: Seq<char>) -> bool {
    exists|i: int| 0 <= i < tools.len() && #[trigger] tools[i].call.call_id == call_id
}

/// The tools stand in the order of their indices, and no index or call id occurs twice.
pub open spec fn tools_wf(tools: Seq<OpenToolView>) -> bool {
    &&& forall|i: int, j: int|
        0 <= i < j < tools.len() ==> (#[trigger] tools[i]).call.index < (
        #[trigger] tools[j]).call.index
    &&& forall|i: int, j: int|
        0 <= i < j < tools.len() ==> (#[trigger] tools[i]).call.call_id != (
        #[trigger] tools[j]).call.call_id
}

/// A tool that has just been started.
pub open spec fn started_tool(
    index: usize,
    call_id: Seq<char>,
    model_call_id: Seq<char>,
    name: Seq<char>,
) -> OpenToolView {
    OpenToolView {
        call: ToolCallView {
            index,
            call_id,
            model_call_id,
            name,
            arguments_text: Seq::empty(),
            arguments: JsonView::Null,
        },
        ended: false,
    }
}

/// The arguments that a tool call's text denotes: a blank text stands for no arguments.
pub open spec fn arguments_of(arguments_text: Seq<char>) -> Option<JsonView> {
    if text::blank(arguments_text) {
        Some(JsonView::Object(Seq::empty()))
    } else {
        json::parsed(arguments_text)
    }
}

impl CycleView {
    /// A call of which nothing has arrived yet.
    pub open spec fn fresh() -> CycleView {
        CycleView {
            model_call_id: None,
            text: Seq::empty(),
            reasoning: Seq::empty(),
            text_open: false,
            thinking_open: false,
            tools: Seq::empty(),
            replay_state: None,
            usage: None,
            finish: None,
        }
    }

    /// What every call in progress satisfies: its tools are in order, and once it is done nothing is
    /// left open.
    pub open spec fn wf(self) -> bool {
        &&& tools_wf(self.tools)
        &&& self.finish is Some ==> {
            &&& self.model_call_id is Some
            &&& !self.text_open
            &&& !self.thinking_open
            &&& self.all_ended()
        }
    }

    /// Whether the arguments of every tool have ended.
    pub open spec fn all_ended(self) -> bool {
        forall|i: int| 0 <= i < self.tools.len() ==> (#[trigger] self.tools[i]).ended
    }

    /// The call given up for this reason.
    pub open spec fn failed(self, failure: RunFailureView) -> ModelCycleFailureView {
        ModelCycleFailureView {
            failure,
            partial_text: self.text,
            partial_reasoning: self.reasoning,
            usage: self.usage,
        }
    }

    /// A step that gives the call up because the provider broke the protocol.
    pub open spec fn rejects(self, message: Seq<char>) -> (CycleView, CycleStepView) {
        (self, CycleStepView::Fail(self.failed(RunFailureView::Protocol(message))))
    }

    /// The tool with this index.
    pub open spec fn tool(self, index: usize) -> Option<OpenToolView> {
        if has_index(self.tools, index) {
            Some(self.tools[rank(self.tools, index)])
        } else {
            None
        }
    }

    /// The call with the tool with this index replaced.
    pub open spec fn with_tool(self, index: usize, tool: OpenToolView) -> CycleView {
        CycleView { tools: self.tools.update(rank(self.tools, index), tool), ..self }
    }

    /// The step on the end of a tool's arguments, which were read as `arguments`.
    pub open spec fn end_tool(self, index: usize, arguments: Option<JsonView>) -> (
        CycleView,
        CycleStepView,
    ) {
        match self.tool(index) {
            None => self.rejects("provider ended an unknown tool index"@),
            Some(tool) => if tool.ended {
                self.rejects("provider emitted duplicate ToolCallEnd"@)
            } else {
                match arguments {
                    None => self.rejects(
                        "provider ended a tool call with invalid JSON arguments"@,
                    ),
                    Some(value) => (
                        self.with_tool(
                            index,
                            OpenToolView {
                                call: ToolCallView { arguments: value, ..tool.call },
                                ended: true,
                            },
                        ),
                        CycleStepView::Send(RunEventView::ToolCallEnd { index }),
                    ),
                }
            },
        }
    }

    /// The step on the start of a tool call.
    pub open spec fn start_tool(self, index: usize, call_id: Seq<char>, name: Seq<char>) -> (
        CycleView,
        CycleStepView,
    ) {
        match self.model_call_id {
            None => self.rejects("provider emitted content before Start"@),
            Some(model_call_id) => if has_index(self.tools, index) {
                self.rejects("provider reused a tool index"@)
            } else if has_call_id(self.tools, call_id) {
                self.rejects("provider reused a tool call_id"@)
            } else {
                (
                    CycleView {
                        tools: self.tools.insert(
                            rank(self.tools, index),
                            started_tool(index, call_id, model_call_id, name),
                        ),
                        ..self
                    },
                    CycleStepView::Send(
                        RunEventView::ToolCallStart { index, call_id, name, model_call_id },
                    ),
                )
            },
        }
    }

    /// The step on a piece of a tool's arguments.
    pub open spec fn extend_tool(self, index: usize, delta: Seq<char>) -> (
        CycleView,
        CycleStepView,
    ) {
        match self.tool(index) {
            None => self.rejects("provider emitted tool arguments for an unknown index"@),
            Some(tool) => if tool.ended {
                self.rejects("provider emitted tool arguments after ToolCallEnd"@)
            } else {
                (
                    self.with_tool(
                        index,
                        OpenToolView {
                            call: ToolCallView {
                                arguments_text: tool.call.arguments_text + delta,
                                ..tool.call
                            },
                            ended: false,
                        },
                    ),
                    CycleStepView::Send(RunEventView::ToolCallArgumentsDelta { index, delta }),
                )
            },
        }
    }

    /// The step on one event of the provider. `elapsed_ns` is the time since thinking began.
    pub open spec fn step(self, event: ModelEventView, elapsed_ns: u64) -> (
        CycleView,
        CycleStepView,
    ) {
        if self.finish is Some {
            self.rejects("provider emitted an event after Done"@)
        } else {
            match event {
                ModelEventView::Start { model_call_id } => if self.model_call_id is Some {
                    self.rejects("provider emitted duplicate Start"@)
                } else {
                    (
                        CycleView { model_call_id: Some(model_call_id), ..self },
                        CycleStepView::Quiet,
                    )
                },
                ModelEventView::TextStart => if self.model_call_id is None {
                    self.rejects("provider emitted content before Start"@)
                } else if self.text_open {
                    self.rejects("provider emitted duplicate TextStart"@)
                } else {
                    (
                        CycleView { text_open: true, ..self },
                        CycleStepView::Send(RunEventView::TextStart),
                    )
                },
                ModelEventView::TextDelta(delta) => if !self.text_open {
                    self.rejects("provider emitted TextDelta before TextStart"@)
                } else {
                    (
                        CycleView { text: self.text + delta, ..self },
                        CycleStepView::Send(RunEventView::TextDelta(delta)),
                    )
                },
                ModelEventView::TextEnd => if !self.text_open {
                    self.rejects("provider emitted TextEnd before TextStart"@)
                } else {
                    (
                        CycleView { text_open: false, ..self },
                        CycleStepView::Send(RunEventView::TextEnd),
                    )
                },
                ModelEventView::ThinkingStart => if self.model_call_id is None {
                    self.rejects("provider emitted content before Start"@)
                } else if self.thinking_open {
                    self.rejects("provider emitted duplicate ThinkingStart"@)
                } else {
                    (
                        CycleView { thinking_open: true, ..self },
                        CycleStepView::Send(RunEventView::ThinkingStart),
                    )
                },
                ModelEventView::ThinkingDelta(delta) => if !self.thinking_open {
                    self.rejects("provider emitted ThinkingDelta before ThinkingStart"@)
                } else {
                    (
                        CycleView { reasoning: self.reasoning + delta, ..self },
                        CycleStepView::Send(RunEventView::ThinkingDelta(delta)),
                    )
                },
                ModelEventView::ThinkingEnd => if !self.thinking_open {
                    self.rejects("provider emitted ThinkingEnd before ThinkingStart"@)
                } else {
                    (
                        CycleView { thinking_open: false, ..self },
                        CycleStepView::Send(
                            RunEventView::ThinkingEnd { duration_ns: elapsed_ns },
                        ),
                    )
                },
                ModelEventView::ToolCallStart { index, call_id, name } => self.start_tool(
                    index,
                    call_id,
                    name,
                ),
                ModelEventView::ToolCallArgumentsDelta { index, delta } => self.extend_tool(
                    index,
                    delta,
                ),
                ModelEventView::ToolCallEnd { index } => self.end_tool(
                    index,
                    match self.tool(index) {
                        Some(tool) => arguments_of(tool.call.arguments_text),
                        None => None,
                    },
                ),
                ModelEventView::ProviderReplayState(state) => if self.replay_state is Some {
                    self.rejects("provider emitted duplicate ProviderReplayState"@)
                } else {
                    (CycleView { replay_state: Some(state), ..self }, CycleStepView::Quiet)
                },
                // A second usage report replaces the first in what the failure records.
                ModelEventView::Usage(usage) => {
                    let next = CycleView { usage: Some(usage), ..self };
                    if self.usage is Some {
                        next.rejects("provider emitted duplicate Usage"@)
                    } else {
                        (next, CycleStepView::Quiet)
                    }
                },
                ModelEventView::Done(reason) => if self.model_call_id is None {
                    self.rejects("provider emitted content before Start"@)
                } else if self.text_open || self.thinking_open || !self.all_ended() {
                    self.rejects("provider emitted Done with an open content block"@)
                } else {
                    (CycleView { finish: Some(reason), ..self }, CycleStepView::Quiet)
                },
            }
        }
    }

    /// What the call came to at the end of its stream.
    pub open spec fn result(self) -> Result<ModelCycleResultView, ModelCycleFailureView> {
        match self.finish {
            None => Err(
                self.failed(
                    RunFailureView::Provider("provider stream reached EOF before Done"@),
                ),
            ),
            Some(FinishReason::Length) => Err(
                self.failed(
                    RunFailureView::Provider("model stopped before completing the response"@),
                ),
            ),
            Some(finish_reason) => if (finish_reason == FinishReason::ToolUse) != (
            self.tools.len() > 0) {
                Err(
                    self.failed(
                        RunFailureView::Protocol("finish reason and tool calls disagree"@),
                    ),
                )
            } else {
                Ok(
                    ModelCycleResultView {
                        model_call_id: self.model_call_id.unwrap_or(Seq::empty()),
                        text: self.text,
                        reasoning: self.reasoning,
                        replay_state: self.replay_state,
                        calls: self.tools.map_values(|tool: OpenToolView| tool.call),
                        usage: self.usage,
                        finish_reason,
                    },
                )
            },
        }
    }

    /// What the client is told when the call is interrupted.
    pub open spec fn closing_events(self, elapsed_ns: u64) -> Seq<RunEventView> {
        (if self.text_open {
            seq![RunEventView::TextEnd]
        } else {
            Seq::empty()
        }) + (if self.thinking_open {
            seq![RunEventView::ThinkingEnd { duration_ns: elapsed_ns }]
        } else {
            Seq::empty()
        })
    }
}

/// With an index that was not used, the rank is where the tool belongs; with one that was, it is
/// where the tool stands.
proof fn lemma_rank(tools: Seq<OpenToolView>, index: usize)
    requires
        tools_wf(tools),
    ensures
        0 <= rank(tools, index) <= tools.len(),
        forall|i: int| 0 <= i < rank(tools, index) ==> (#[trigger] tools[i]).call.index < index,
        forall|i: int|
            rank(tools, index) <= i < tools.len() ==> (#[trigger] tools[i]).call.index >= index,
        has_index(tools, index) ==> rank(tools, index) < tools.len() && tools[rank(
            tools,
            index,
        )].call.index == index,
    decreases tools.len(),
{
    if tools.len() > 0 && tools[0].call.index < index {
        let rest = tools.drop_first();
        assert(tools_wf(rest)) by {
            assert forall|i: int, j: int| 0 <= i < j < rest.len() implies (
            #[trigger] rest[i]).call.index < (#[trigger] rest[j]).call.index by {
                assert(rest[i] == tools[i + 1] && rest[j] == tools[j + 1]);
            }
            assert forall|i: int, j: int| 0 <= i < j < rest.len() implies (
            #[trigger] rest[i]).call.call_id != (#[trigger] rest[j]).call.call_id by {
                assert(rest[i] == tools[i + 1] && rest[j] == tools[j + 1]);
            }
        }
        lemma_rank(rest, index);
        assert forall|i: int| 0 <= i < rank(tools, index) implies (
        #[trigger] tools[i]).call.index < index by {
            if i > 0 {
                assert(rest[i - 1] == tools[i]);
            }
        }
        assert forall|i: int| rank(tools, index) <= i < tools.len() implies (
        #[trigger] tools[i]).call.index >= index by {
            assert(rest[i - 1] == tools[i]);
        }
        if has_index(tools, index) {
            let k = choose|i: int| 0 <= i < tools.len() && #[trigger] tools[i].call.index == index;
            assert(rest[k - 1] == tools[k]);
            assert(has_index(rest, index));
            assert(tools[rank(tools, index)] == rest[rank(rest, index)]);
        }
    } else if has_index(tools, index) {
        let k = choose|i: int| 0 <= i < tools.len() && #[trigger] tools[i].call.index == index;
        if k > 0 {
            assert(tools[0].call.index < tools[k].call.index);
        }
    }
}

/// Every step of a well-formed call leaves it well-formed.
pub proof fn law_step_keeps_wf(cycle: CycleView, event: ModelEventView, elapsed_ns: u64)
    requires
        cycle.wf(),
    ensures
        cycle.step(event, elapsed_ns).0.wf(),
{
    match event {
        ModelEventView::ToolCallStart { index, call_id, name } => {
            lemma_rank(cycle.tools, index);
            let at = rank(cycle.tools, index);
            let next = cycle.step(event, elapsed_ns).0;
            if cycle.finish is None && cycle.model_call_id is Some && !has_index(
                cycle.tools,
                index,
            ) && !has_call_id(cycle.tools, call_id) {
                let tool = started_tool(index, call_id, cycle.model_call_id->0, name);
                let out = next.tools;
                assert(out == cycle.tools.insert(at, tool));
                assert forall|i: int, j: int| 0 <= i < j < out.len() implies (
                #[trigger] out[i]).call.index < (#[trigger] out[j]).call.index by {
                    let a = if i < at {
                        i
                    } else {
                        i - 1
                    };
                    let b = if j < at {
                        j
                    } else {
                        j - 1
                    };
                    assert(i != at ==> out[i] == cycle.tools[a]);
                    assert(j != at ==> out[j] == cycle.tools[b]);
                }
                assert forall|i: int, j: int| 0 <= i < j < out.len() implies (
                #[trigger] out[i]).call.call_id != (#[trigger] out[j]).call.call_id by {
                    let a = if i < at {
                        i
                    } else {
                        i - 1
                    };
                    let b = if j < at {
                        j
                    } else {
                        j - 1
                    };
                    assert(i != at ==> out[i] == cycle.tools[a]);
                    assert(j != at ==> out[j] == cycle.tools[b]);
                }
            }
        },
        ModelEventView::ToolCallArgumentsDelta { index, .. } => {
            lemma_rank(cycle.tools, index);
        },
        ModelEventView::ToolCallEnd { index } => {
            lemma_rank(cycle.tools, index);
        },
        _ => {},
    }
}

impl ModelCycle {
    /// A call of which nothing has arrived yet.
    pub fn new() -> (r: Self)
        ensures
            r@ == CycleView::fresh(),
            r@.wf(),
    {
        let r = ModelCycle {
            model_call_id: None,
            text: String::new(),
            reasoning: String::new(),
            text_open: false,
            thinking_open: false,
            tools: Vec::new(),
            replay_state: None,
            usage: None,
            finish: None,
        };
        assert(r@ =~= CycleView::fresh());
        r
    }

    /// The call given up for this reason, with what it had produced by then.
    pub fn failure(&self, failure: RunFailure) -> (r: ModelCycleFailure)
        ensures
            r@ == self@.failed(failure@),
    {
        ModelCycleFailure {
            failure,
            partial_text: self.text.clone(),
            partial_reasoning: self.reasoning.clone(),
            usage: self.usage,
        }
    }

    fn reject(&self, message: &str) -> (r: CycleStep)
        ensures
            r@ == CycleStepView::Fail(self@.failed(RunFailureView::Protocol(message@))),
    {
        CycleStep::Fail(self.failure(RunFailure::Protocol(message.to_owned())))
    }

    /// Where the tool with this index stands or belongs.
    fn position(&self, index: usize) -> (r: usize)
        requires
            self@.wf(),
        ensures
            r == rank(self@.tools, index),
            r <= self.tools@.len(),
            has_index(self@.tools, index) == (r < self.tools@.len()
                && self.tools@[r as int].call.index == index),
    {
        let ghost tools = self@.tools;
        proof {
            lemma_rank(tools, index);
        }
        let mut at: usize = 0;
        while at < self.tools.len() && self.tools[at].call.index < index
            invariant
                at <= self.tools@.len(),
                tools == data::views(self.tools@),
                0 <= rank(tools, index) <= tools.len(),
                forall|i: int|
                    rank(tools, index) <= i < tools.len() ==> (#[trigger] tools[i]).call.index
                        >= index,
                at <= rank(tools, index),
            decreases self.tools@.len() - at,
        {
            assert(tools[at as int].call.index == self.tools@[at as int].call.index);
            at += 1;
        }
        if at < self.tools.len() {
            assert(tools[at as int].call.index == self.tools@[at as int].call.index);
        }
        at
    }

    /// Whether a tool with this call id was started.
    fn knows_call_id(&self, call_id: &str) -> (r: bool)
        ensures
            r == has_call_id(self@.tools, call_id@),
    {
        let ghost tools = self@.tools;
        let mut i: usize = 0;
        while i < self.tools.len()
            invariant
                i <= self.tools@.len(),
                tools == data::views(self.tools@),
                forall|k: int| 0 <= k < i ==> (#[trigger] tools[k]).call.call_id != call_id@,
            decreases self.tools@.len() - i,
        {
            assert(tools[i as int].call.call_id == self.tools@[i as int].call.call_id@);
            if text::same(self.tools[i].call.call_id.as_str(), call_id) {
                return true;
            }
            i += 1;
        }
        false
    }

    /// Whether the arguments of every tool have ended.
    fn tools_ended(&self) -> (r: bool)
        ensures
            r == self@.all_ended(),
    {
        let ghost tools = self@.tools;
        let mut i: usize = 0;
        while i < self.tools.len()
            invariant
                i <= self.tools@.len(),
                tools == data::views(self.tools@),
                tools == self@.tools,
                forall|k: int| 0 <= k < i ==> (#[trigger] tools[k]).ended,
            decreases self.tools@.len() - i,
        {
            assert(tools[i as int].ended == self.tools@[i as int].ended);
            if !self.tools[i].ended {
                assert(!self@.tools[i as int].ended);
                return false;
            }
            i += 1;
        }
        true
    }

    /// The step on the start of a tool call.
    fn start_tool(&mut self, index: usize, call_id: String, name: String) -> (r: CycleStep)
        requires
            old(self)@.wf(),
            old(self)@.finish is None,
        ensures
            (final(self)@, r@) == old(self)@.start_tool(index, call_id@, name@),
    {
        let model_call_id = match &self.model_call_id {
            Some(id) => id.clone(),
            None => {
                return self.reject("provider emitted content before Start");
            },
        };
        let at = self.position(index);
        if at < self.tools.len() && self.tools[at].call.index == index {
            return self.reject("provider reused a tool index");
        }
        if self.knows_call_id(call_id.as_str()) {
            return self.reject("provider reused a tool call_id");
        }
        let tool = OpenTool {
            call: ToolCall {
                index,
                call_id: call_id.clone(),
                model_call_id: model_call_id.clone(),
                name: name.clone(),
                arguments_text: String::new(),
                arguments: Json::Null,
            },
            ended: false,
        };
        assert(tool@ =~= started_tool(index, call_id@, model_call_id@, name@));
        self.tools.insert(at, tool);
        assert(data::views(self.tools@) =~= data::views(old(self).tools@).insert(at as int, tool@));
        assert(self@ =~= old(self)@.start_tool(index, call_id@, name@).0);
        CycleStep::Send(RunEvent::ToolCallStart { index, call_id, name, model_call_id })
    }

    /// The step on a piece of a tool's arguments.
    fn extend_tool(&mut self, index: usize, delta: String) -> (r: CycleStep)
        requires
            old(self)@.wf(),
        ensures
            (final(self)@, r@) == old(self)@.extend_tool(index, delta@),
    {
        let at = self.position(index);
        if !(at < self.tools.len() && self.tools[at].call.index == index) {
            return self.reject("provider emitted tool arguments for an unknown index");
        }
        assert(self@.tools[at as int] == self.tools@[at as int]@);
        if self.tools[at].ended {
            return self.reject("provider emitted tool arguments after ToolCallEnd");
        }
        self.tools[at].call.arguments_text.append(delta.as_str());
        assert(data::views(self.tools@) =~= data::views(old(self).tools@).update(
            at as int,
            self.tools@[at as int]@,
        ));
        assert(self@ =~= old(self)@.extend_tool(index, delta@).0);
        CycleStep::Send(RunEvent::ToolCallArgumentsDelta { index, delta })
    }

    /// The step on the end of a tool's arguments, which were read as `arguments`.
    pub fn end_tool(&mut self, index: usize, arguments: Option<Json>) -> (r: CycleStep)
        requires
            old(self)@.wf(),
        ensures
            (final(self)@, r@) == old(self)@.end_tool(index, data::option_view(arguments)),
            final(self)@.wf(),
    {
        let at = self.position(index);
        if !(at < self.tools.len() && self.tools[at].call.index == index) {
            return self.reject("provider ended an unknown tool index");
        }
        assert(self@.tools[at as int] == self.tools@[at as int]@);
        if self.tools[at].ended {
            return self.reject("provider emitted duplicate ToolCallEnd");
        }
        match arguments {
            None => self.reject("provider ended a tool call with invalid JSON arguments"),
            Some(value) => {
                let ghost wanted = value@;
                self.tools[at].call.arguments = value;
                self.tools[at].ended = true;
                assert(data::views(self.tools@) =~= data::views(old(self).tools@).update(
                    at as int,
                    self.tools@[at as int]@,
                ));
                assert(self@ =~= old(self)@.end_tool(index, Some(wanted)).0);
                CycleStep::Send(RunEvent::ToolCallEnd { index })
            },
        }
    }

    /// The arguments of the tool with this index, read from the text that has arrived for it.
    fn read_arguments(&self, index: usize) -> (r: Option<Json>)
        requires
            self@.wf(),
        ensures
            data::option_view(r) == (match self@.tool(index) {
                Some(tool) => arguments_of(tool.call.arguments_text),
                None => None,
            }),
    {
        let at = self.position(index);
        if !(at < self.tools.len() && self.tools[at].call.index == index) {
            return None;
        }
        assert(self@.tools[at as int] == self.tools@[at as int]@);
        let arguments_text = self.tools[at].call.arguments_text.as_str();
        if text::is_blank(arguments_text) {
            let empty = Json::Object(Vec::new());
            assert(empty@->Object_0 =~= Seq::empty());
            Some(empty)
        } else {
            json::parse(arguments_text)
        }
    }

    /// The step on one event of the provider. `elapsed_ns` is the time since thinking began.
    pub fn on_event(&mut self, event: ModelEvent, elapsed_ns: u64) -> (r: CycleStep)
        requires
            old(self)@.wf(),
        ensures
            (final(self)@, r@) == old(self)@.step(event@, elapsed_ns),
            final(self)@.wf(),
    {
        proof {
            law_step_keeps_wf(self@, event@, elapsed_ns);
        }
        if self.finish.is_some() {
            return self.reject("provider emitted an event after Done");
        }
        match event {
            ModelEvent::Start { model_call_id } => {
                if self.model_call_id.is_some() {
                    self.reject("provider emitted duplicate Start")
                } else {
                    self.model_call_id = Some(model_call_id);
                    CycleStep::Quiet
                }
            },
            ModelEvent::TextStart => {
                if self.model_call_id.is_none() {
                    self.reject("provider emitted content before Start")
                } else if self.text_open {
                    self.reject("provider emitted duplicate TextStart")
                } else {
                    self.text_open = true;
                    CycleStep::Send(RunEvent::TextStart)
                }
            },
            ModelEvent::TextDelta(delta) => {
                if !self.text_open {
                    self.reject("provider emitted TextDelta before TextStart")
                } else {
                    self.text.append(delta.as_str());
                    CycleStep::Send(RunEvent::TextDelta(delta))
                }
            },
            ModelEvent::TextEnd => {
                if !self.text_open {
                    self.reject("provider emitted TextEnd before TextStart")
                } else {
                    self.text_open = false;
                    CycleStep::Send(RunEvent::TextEnd)
                }
            },
            ModelEvent::ThinkingStart => {
                if self.model_call_id.is_none() {
                    self.reject("provider emitted content before Start")
                } else if self.thinking_open {
                    self.reject("provider emitted duplicate ThinkingStart")
                } else {
                    self.thinking_open = true;
                    CycleStep::Send(RunEvent::ThinkingStart)
                }
            },
            ModelEvent::ThinkingDelta(delta) => {
                if !self.thinking_open {
                    self.reject("provider emitted ThinkingDelta before ThinkingStart")
                } else {
                    self.reasoning.append(delta.as_str());
                    CycleStep::Send(RunEvent::ThinkingDelta(delta))
                }
            },
            ModelEvent::ThinkingEnd => {
                if !self.thinking_open {
                    self.reject("provider emitted ThinkingEnd before ThinkingStart")
                } else {
                    self.thinking_open = false;
                    CycleStep::Send(RunEvent::ThinkingEnd { duration_ns: elapsed_ns })
                }
            },
            ModelEvent::ToolCallStart { index, call_id, name } => self.start_tool(
                index,
                call_id,
                name,
            ),
            ModelEvent::ToolCallArgumentsDelta { index, delta } => self.extend_tool(index, delta),
            ModelEvent::ToolCallEnd { index } => {
                let arguments = self.read_arguments(index);
                self.end_tool(index, arguments)
            },
            ModelEvent::ProviderReplayState(state) => {
                if self.replay_state.is_some() {
                    self.reject("provider emitted duplicate ProviderReplayState")
                } else {
                    self.replay_state = Some(state);
                    CycleStep::Quiet
                }
            },
            ModelEvent::Usage(usage) => {
                let repeated = self.usage.is_some();
                self.usage = Some(usage);
                if repeated {
                    self.reject("provider emitted duplicate Usage")
                } else {
                    CycleStep::Quiet
                }
            },
            ModelEvent::Done(reason) => {
                if self.model_call_id.is_none() {
                    self.reject("provider emitted content before Start")
                } else if self.text_open || self.thinking_open || !self.tools_ended() {
                    self.reject("provider emitted Done with an open content block")
                } else {
                    self.finish = Some(reason);
                    CycleStep::Quiet
                }
            },
        }
    }

    /// The call given up because the client took an event of it no longer.
    pub fn on_send_failed(&self) -> (r: ModelCycleFailure)
        ensures
            r@ == self@.failed(RunFailureView::Protocol("client event channel closed"@)),
    {
        self.failure(RunFailure::Protocol("client event channel closed".to_owned()))
    }

    /// The call given up because the run was cancelled.
    pub fn on_cancelled(&self) -> (r: ModelCycleFailure)
        ensures
            r@ == self@.failed(RunFailureView::Client("run was cancelled"@)),
    {
        self.failure(RunFailure::Client("run was cancelled".to_owned()))
    }

    /// What the client is told when the call is interrupted: the end of each open block.
    pub fn interrupt_cycle(&self, elapsed_ns: u64) -> (r: Vec<RunEvent>)
        ensures
            data::views(r@) == self@.closing_events(elapsed_ns),
    {
        let mut events: Vec<RunEvent> = Vec::new();
        if self.text_open {
            events.push(RunEvent::TextEnd);
        }
        if self.thinking_open {
            events.push(RunEvent::ThinkingEnd { duration_ns: elapsed_ns });
        }
        assert(data::views(events@) =~= self@.closing_events(elapsed_ns));
        events
    }

    /// What the call came to at the end of its stream. Where it completed with a usage, the usage is
    /// sent to the client before the result counts.
    pub fn finish(self) -> (r: Result<ModelCycleResult, ModelCycleFailure>)
        requires
            self@.wf(),
        ensures
            match r {
                Ok(result) => self@.result() == Ok::<ModelCycleResultView, ModelCycleFailureView>(
                    result@,
                ),
                Err(failure) => self@.result() == Err::<
                    ModelCycleResultView,
                    ModelCycleFailureView,
                >(failure@),
            },
    {
        let finish_reason = match self.finish {
            None => {
                return Err(
                    self.failure(
                        RunFailure::Provider("provider stream reached EOF before Done".to_owned()),
                    ),
                );
            },
            Some(reason) => reason,
        };
        if finish_reason == FinishReason::Length {
            return Err(
                self.failure(
                    RunFailure::Provider("model stopped before completing the response".to_owned()),
                ),
            );
        }
        if (finish_reason == FinishReason::ToolUse) != (self.tools.len() > 0) {
            return Err(
                self.failure(
                    RunFailure::Protocol("finish reason and tool calls disagree".to_owned()),
                ),
            );
        }
        let ghost tools = self@.tools;
        let mut calls: Vec<ToolCall> = Vec::new();
        let mut i: usize = 0;
        while i < self.tools.len()
            invariant
                i <= self.tools@.len(),
                tools == data::views(self.tools@),
                data::views(calls@) == tools.map_values(|tool: OpenToolView| tool.call).take(
                    i as int,
                ),
            decreases self.tools@.len() - i,
        {
            let ghost before = data::views(calls@);
            calls.push(self.tools[i].call.duplicate());
            assert(data::views(calls@) =~= before.push(self.tools@[i as int].call@));
            i += 1;
            assert(tools.map_values(|tool: OpenToolView| tool.call).take(i as int) =~= before.push(
                self.tools@[i - 1].call@,
            ));
        }
        assert(tools.map_values(|tool: OpenToolView| tool.call).take(i as int)
            =~= tools.map_values(|tool: OpenToolView| tool.call));
        let model_call_id = match self.model_call_id {
            Some(id) => id,
            None => String::new(),
        };
        Ok(
            ModelCycleResult {
                model_call_id,
                text: self.text,
                reasoning: self.reasoning,
                replay_state: self.replay_state,
                calls,
                usage: self.usage,
                finish_reason,
            },
        )
    }
}

/// What the client is told last of a completed call: its usage, where there is one.
pub open spec fn closing(result: ModelCycleResultView) -> Option<RunEventView> {
    match result.usage {
        Some(usage) => Some(RunEventView::Usage(usage)),
        None => None,
    }
}

/// What the client is told last of a completed call: its usage, where there is one.
pub fn closing_event(result: &ModelCycleResult) -> (r: Option<RunEvent>)
    ensures
        data::option_view(r) == closing(result@),
{
    match result.usage {
        Some(usage) => Some(RunEvent::Usage(usage)),
        None => None,
    }
}

/// A completed call given up because the client did not take its usage.
pub fn usage_not_taken(result: ModelCycleResult) -> (r: ModelCycleFailure)
    ensures
        r@ == (ModelCycleFailureView {
            failure: RunFailureView::Client("client event channel closed"@),
            partial_text: result@.text,
            partial_reasoning: result@.reasoning,
            usage: result@.usage,
        }),
{
    ModelCycleFailure {
        failure: RunFailure::Client("client event channel closed".to_owned()),
        partial_text: result.text,
        partial_reasoning: result.reasoning,
        usage: result.usage,
    }
}

/// The call after a sequence of events, each with the time since thinking began, as long as none of
/// them is rejected.
pub open spec fn after(events: Seq<(ModelEventView, u64)>) -> Option<CycleView>
    decreases events.len(),
{
    if events.len() == 0 {
        Some(CycleView::fresh())
    } else {
        match after(events.drop_last()) {
            None => None,
            Some(cycle) => {
                let (next, done) = cycle.step(events.last().0, events.last().1);
                if done is Fail {
                    None
                } else {
                    Some(next)
                }
            },
        }
    }
}

/// The pieces of text in a sequence of events, one after the other.
pub open spec fn streamed_text(events: Seq<(ModelEventView, u64)>) -> Seq<char>
    decreases events.len(),
{
    if events.len() == 0 {
        Seq::empty()
    } else {
        match events.last().0 {
            ModelEventView::TextDelta(delta) => streamed_text(events.drop_last()) + delta,
            _ => streamed_text(events.drop_last()),
        }
    }
}

/// The pieces of thinking in a sequence of events, one after the other.
pub open spec fn streamed_reasoning(events: Seq<(ModelEventView, u64)>) -> Seq<char>
    decreases events.len(),
{
    if events.len() == 0 {
        Seq::empty()
    } else {
        match events.last().0 {
            ModelEventView::ThinkingDelta(delta) => streamed_reasoning(events.drop_last()) + delta,
            _ => streamed_reasoning(events.drop_last()),
        }
    }
}

/// Whatever a provider streams, a call that has not been given up is well-formed, and its text and
/// its reasoning are exactly the pieces streamed so far.
pub proof fn law_stream_is_kept(events: Seq<(ModelEventView, u64)>)
    ensures
        after(events) matches Some(cycle) ==> {
            &&& cycle.wf()
            &&& cycle.text == streamed_text(events)
            &&& cycle.reasoning == streamed_reasoning(events)
        },
    decreases events.len(),
{
    if events.len() > 0 {
        law_stream_is_kept(events.drop_last());
        if let Some(cycle) = after(events.drop_last()) {
            law_step_keeps_wf(cycle, events.last().0, events.last().1);
        }
    }
}

/// The usage that a sequence of events reports first.
pub open spec fn streamed_usage(events: Seq<(ModelEventView, u64)>) -> Option<Usage>
    decreases events.len(),
{
    if events.len() == 0 {
        None
    } else {
        match (streamed_usage(events.drop_last()), events.last().0) {
            (None, ModelEventView::Usage(usage)) => Some(usage),
            (known, _) => known,
        }
    }
}

/// The replay state that a sequence of events carries first.
pub open spec fn streamed_replay(events: Seq<(ModelEventView, u64)>) -> Option<JsonView>
    decreases events.len(),
{
    if events.len() == 0 {
        None
    } else {
        match (streamed_replay(events.drop_last()), events.last().0) {
            (None, ModelEventView::ProviderReplayState(state)) => Some(state),
            (known, _) => known,
        }
    }
}

/// How many tool calls a sequence of events starts.
pub open spec fn started_count(events: Seq<(ModelEventView, u64)>) -> nat
    decreases events.len(),
{
    if events.len() == 0 {
        0
    } else {
        started_count(events.drop_last()) + (if events.last().0 is ToolCallStart {
            1nat
        } else {
            0nat
        })
    }
}

/// The pieces of the arguments of the tool call with this index, one after the other.
pub open spec fn streamed_arguments(events: Seq<(ModelEventView, u64)>, index: usize) -> Seq<char>
    decreases events.len(),
{
    if events.len() == 0 {
        Seq::empty()
    } else {
        let before = streamed_arguments(events.drop_last(), index);
        match events.last().0 {
            ModelEventView::ToolCallArgumentsDelta { index: i, delta } => if i == index {
                before + delta
            } else {
                before
            },
            _ => before,
        }
    }
}

/// The tool call that the start of one and the pieces of its arguments came to, as long as it has
/// not been given up: its index, its ids, its name and its text.
pub open spec fn streamed_tool(
    events: Seq<(ModelEventView, u64)>,
    start: int,
    tool: OpenToolView,
) -> bool {
    &&& events[start].0 matches ModelEventView::ToolCallStart { index, call_id, name }
    &&& tool.call.index == index
    &&& tool.call.call_id == call_id
    &&& tool.call.name == name
    &&& Some(tool.call.model_call_id) == streamed_id(events)
    &&& tool.call.arguments_text == streamed_arguments(events, index)
    &&& tool.ended ==> Some(tool.call.arguments) == arguments_of(tool.call.arguments_text)
}

/// The id of a call, from its stream.
pub open spec fn streamed_id(events: Seq<(ModelEventView, u64)>) -> Option<Seq<char>>
    decreases events.len(),
{
    if events.len() == 0 {
        None
    } else {
        match (streamed_id(events.drop_last()), events.last().0) {
            (None, ModelEventView::Start { model_call_id }) => Some(model_call_id),
            (known, _) => known,
        }
    }
}

/// What the client is told of an event of a stream; nothing of those that only concern the provider.
/// `model_call_id` is the id of the call.
pub open spec fn passed_on(event: ModelEventView, elapsed_ns: u64, model_call_id: Seq<char>) -> Option<
    RunEventView,
> {
    match event {
        ModelEventView::TextStart => Some(RunEventView::TextStart),
        ModelEventView::TextDelta(delta) => Some(RunEventView::TextDelta(delta)),
        ModelEventView::TextEnd => Some(RunEventView::TextEnd),
        ModelEventView::ThinkingStart => Some(RunEventView::ThinkingStart),
        ModelEventView::ThinkingDelta(delta) => Some(RunEventView::ThinkingDelta(delta)),
        ModelEventView::ThinkingEnd => Some(RunEventView::ThinkingEnd { duration_ns: elapsed_ns }),
        ModelEventView::ToolCallStart { index, call_id, name } => Some(
            RunEventView::ToolCallStart { index, call_id, name, model_call_id },
        ),
        ModelEventView::ToolCallArgumentsDelta { index, delta } => Some(
            RunEventView::ToolCallArgumentsDelta { index, delta },
        ),
        ModelEventView::ToolCallEnd { index } => Some(RunEventView::ToolCallEnd { index }),
        ModelEventView::Start { .. } => None,
        ModelEventView::ProviderReplayState(_) => None,
        ModelEventView::Usage(_) => None,
        ModelEventView::Done(_) => None,
    }
}

/// What the client is told of a stream, event by event.
pub open spec fn all_passed_on(events: Seq<(ModelEventView, u64)>) -> Seq<RunEventView>
    decreases events.len(),
{
    if events.len() == 0 {
        Seq::empty()
    } else {
        let before = events.drop_last();
        let id = streamed_id(before).unwrap_or(Seq::empty());
        match passed_on(events.last().0, events.last().1, id) {
            Some(event) => all_passed_on(before).push(event),
            None => all_passed_on(before),
        }
    }
}

/// What the steps on the events of a stream send.
pub open spec fn sent_over(events: Seq<(ModelEventView, u64)>) -> Seq<RunEventView>
    decreases events.len(),
{
    if events.len() == 0 {
        Seq::empty()
    } else {
        let before = sent_over(events.drop_last());
        match after(events.drop_last()) {
            None => before,
            Some(cycle) => match cycle.step(events.last().0, events.last().1).1 {
                CycleStepView::Send(event) => before.push(event),
                _ => before,
            },
        }
    }
}

/// What the client is told of a call that has not been given up is the text, the thinking and the
/// tool calls that were streamed, in order and one for one; nothing else is sent before its end.
pub proof fn law_events_are_passed_on(events: Seq<(ModelEventView, u64)>)
    requires
        after(events) is Some,
    ensures
        sent_over(events) == all_passed_on(events),
        after(events)->0.model_call_id == streamed_id(events),
    decreases events.len(),
{
    if events.len() > 0 {
        law_events_are_passed_on(events.drop_last());
    }
}

/// Whether a tool is what one of the starts in a sequence of events came to.
pub open spec fn was_streamed(events: Seq<(ModelEventView, u64)>, tool: OpenToolView) -> bool {
    exists|start: int| 0 <= start < events.len() && streamed_tool(events, start, tool)
}

/// Whether one of the tools is what a start in a sequence of events came to.
pub open spec fn is_kept(
    events: Seq<(ModelEventView, u64)>,
    start: int,
    tools: Seq<OpenToolView>,
) -> bool {
    exists|k: int| 0 <= k < tools.len() && streamed_tool(events, start, #[trigger] tools[k])
}

/// A tool that an event does not concern is what it was.
proof fn lemma_tool_stays(events: Seq<(ModelEventView, u64)>, start: int, tool: OpenToolView)
    requires
        events.len() > 0,
        0 <= start < events.len() - 1,
        streamed_tool(events.drop_last(), start, tool),
        !(events.last().0 matches ModelEventView::ToolCallArgumentsDelta { index, .. } && index
            == tool.call.index),
    ensures
        streamed_tool(events, start, tool),
{
    assert(events.drop_last()[start] == events[start]);
}

/// Whether each tool is what one of the starts came to.
#[verifier::opaque]
pub open spec fn all_were_streamed(
    events: Seq<(ModelEventView, u64)>,
    tools: Seq<OpenToolView>,
) -> bool {
    forall|k: int| 0 <= k < tools.len() ==> was_streamed(events, #[trigger] tools[k])
}

/// Whether each start came to one of the tools.
#[verifier::opaque]
pub open spec fn all_are_kept(events: Seq<(ModelEventView, u64)>, tools: Seq<OpenToolView>) -> bool {
    forall|start: int|
        0 <= start < events.len() && (#[trigger] events[start]).0 is ToolCallStart ==> is_kept(
            events,
            start,
            tools,
        )
}

/// Whether tools are those that a sequence of events came to: one for each start, and no other.
pub open spec fn tools_kept(events: Seq<(ModelEventView, u64)>, tools: Seq<OpenToolView>) -> bool {
    &&& tools.len() == started_count(events)
    &&& all_were_streamed(events, tools)
    &&& all_are_kept(events, tools)
}

/// Whether no arguments were streamed for an index under which no tool was started.
#[verifier::opaque]
spec fn others_are_empty(events: Seq<(ModelEventView, u64)>, tools: Seq<OpenToolView>) -> bool {
    forall|index: usize|
        !has_index(tools, index) ==> #[trigger] streamed_arguments(events, index) == Seq::<
            char,
        >::empty()
}

/// Where an event leaves the tools in place and starts none, or adds a tool for the one it starts,
/// an index without a tool is still one without arguments.
proof fn lemma_others_stay_empty(
    events: Seq<(ModelEventView, u64)>,
    old_tools: Seq<OpenToolView>,
    tools: Seq<OpenToolView>,
)
    requires
        events.len() > 0,
        others_are_empty(events.drop_last(), old_tools),
        forall|index: usize| has_index(old_tools, index) ==> #[trigger] has_index(tools, index),
        events.last().0 matches ModelEventView::ToolCallArgumentsDelta { index, .. } ==> has_index(
            tools,
            index,
        ),
    ensures
        others_are_empty(events, tools),
{
    reveal(others_are_empty);
    assert forall|i: usize| !has_index(tools, i) implies #[trigger] streamed_arguments(events, i)
        == Seq::<char>::empty() by {
        assert(!has_index(old_tools, i));
        assert(streamed_arguments(events.drop_last(), i) == Seq::<char>::empty());
    }
}

/// A tool that was started anew stands among the others, which stay as they are.
proof fn lemma_added_were_streamed(
    events: Seq<(ModelEventView, u64)>,
    old_tools: Seq<OpenToolView>,
    at: int,
    tool: OpenToolView,
)
    requires
        events.len() > 0,
        events.last().0 is ToolCallStart,
        0 <= at <= old_tools.len(),
        all_were_streamed(events.drop_last(), old_tools),
        streamed_tool(events, events.len() - 1, tool),
    ensures
        all_were_streamed(events, old_tools.insert(at, tool)),
{
    reveal(all_were_streamed);
    let before = events.drop_last();
    let tools = old_tools.insert(at, tool);
    assert forall|k: int| 0 <= k < tools.len() implies was_streamed(events, #[trigger] tools[k]) by {
        if k != at {
            let j = if k < at {
                k
            } else {
                k - 1
            };
            assert(tools[k] == old_tools[j]);
            assert(was_streamed(before, old_tools[j]));
            let start = choose|start: int|
                0 <= start < before.len() && streamed_tool(before, start, old_tools[j]);
            lemma_tool_stays(events, start, old_tools[j]);
        }
    }
}

proof fn lemma_added_are_kept(
    events: Seq<(ModelEventView, u64)>,
    old_tools: Seq<OpenToolView>,
    at: int,
    tool: OpenToolView,
)
    requires
        events.len() > 0,
        events.last().0 is ToolCallStart,
        0 <= at <= old_tools.len(),
        all_are_kept(events.drop_last(), old_tools),
        streamed_tool(events, events.len() - 1, tool),
    ensures
        all_are_kept(events, old_tools.insert(at, tool)),
{
    reveal(all_are_kept);
    let before = events.drop_last();
    let tools = old_tools.insert(at, tool);
    let last = events.len() - 1;
    assert(tools[at] == tool);
    assert forall|start: int|
        0 <= start < events.len() && (#[trigger] events[start]).0 is ToolCallStart implies is_kept(
        events,
        start,
        tools,
    ) by {
        if start < last {
            assert(before[start] == events[start]);
            assert(is_kept(before, start, old_tools));
            let j = choose|j: int|
                0 <= j < old_tools.len() && streamed_tool(before, start, #[trigger] old_tools[j]);
            lemma_tool_stays(events, start, old_tools[j]);
            let k = if j < at {
                j
            } else {
                j + 1
            };
            assert(tools[k] == old_tools[j]);
        }
    }
}

proof fn lemma_start_is_kept(events: Seq<(ModelEventView, u64)>)
    requires
        events.len() > 0,
        events.last().0 is ToolCallStart,
        after(events) is Some,
        tools_kept(events.drop_last(), after(events.drop_last())->0.tools),
        others_are_empty(events.drop_last(), after(events.drop_last())->0.tools),
    ensures
        tools_kept(events, after(events)->0.tools),
        others_are_empty(events, after(events)->0.tools),
{
    let before = events.drop_last();
    law_stream_is_kept(before);
    law_events_are_passed_on(before);
    law_events_are_passed_on(events);
    let cycle = after(before)->0;
    if let ModelEventView::ToolCallStart { index, call_id, name } = events.last().0 {
        lemma_rank(cycle.tools, index);
        let at = rank(cycle.tools, index);
        let tool = started_tool(index, call_id, cycle.model_call_id->0, name);
        let tools = cycle.tools.insert(at, tool);
        assert(streamed_arguments(before, index) == Seq::<char>::empty()) by {
            reveal(others_are_empty);
        }
        lemma_added_were_streamed(events, cycle.tools, at, tool);
        lemma_added_are_kept(events, cycle.tools, at, tool);
        assert forall|i: usize| has_index(cycle.tools, i) implies #[trigger] has_index(tools, i) by {
            let j = choose|j: int|
                0 <= j < cycle.tools.len() && #[trigger] cycle.tools[j].call.index == i;
            let k = if j < at {
                j
            } else {
                j + 1
            };
            assert(tools[k] == cycle.tools[j]);
        }
        lemma_others_stay_empty(events, cycle.tools, tools);
    }
}

proof fn lemma_tools_stay_in_place(events: Seq<(ModelEventView, u64)>)
    requires
        events.len() > 0,
        !(events.last().0 is ToolCallStart),
        after(events) is Some,
    ensures
        after(events)->0.tools.len() == after(events.drop_last())->0.tools.len(),
{
    let before = events.drop_last();
    law_stream_is_kept(before);
    match events.last().0 {
        ModelEventView::ToolCallArgumentsDelta { index, .. } => {
            lemma_rank(after(before)->0.tools, index);
        },
        ModelEventView::ToolCallEnd { index } => {
            lemma_rank(after(before)->0.tools, index);
        },
        _ => {},
    }
}

/// A tool after an event that starts none is what its start and its pieces came to.
proof fn lemma_piece_is_kept(events: Seq<(ModelEventView, u64)>, k: int, start: int)
    requires
        events.len() > 0,
        !(events.last().0 is ToolCallStart),
        after(events) is Some,
        0 <= k < after(events.drop_last())->0.tools.len(),
        0 <= start < events.len() - 1,
        streamed_tool(events.drop_last(), start, after(events.drop_last())->0.tools[k]),
    ensures
        after(events)->0.tools[k].call.index == after(events.drop_last())->0.tools[k].call.index,
        streamed_tool(events, start, after(events)->0.tools[k]),
{
    let before = events.drop_last();
    law_stream_is_kept(before);
    law_events_are_passed_on(before);
    law_events_are_passed_on(events);
    let old_tools = after(before)->0.tools;
    let tools = after(events)->0.tools;
    let old_tool = old_tools[k];
    assert(before[start] == events[start]);
    match events.last().0 {
        ModelEventView::ToolCallArgumentsDelta { index, delta } => {
            lemma_rank(old_tools, index);
            let r = rank(old_tools, index);
            if k != r {
                assert(old_tools[k].call.index != old_tools[r].call.index);
                assert(tools[k] == old_tool);
                lemma_tool_stays(events, start, old_tool);
            }
        },
        ModelEventView::ToolCallEnd { index } => {
            lemma_rank(old_tools, index);
            let r = rank(old_tools, index);
            if k != r {
                assert(tools[k] == old_tool);
                lemma_tool_stays(events, start, old_tool);
            }
        },
        _ => {
            assert(tools == old_tools);
            lemma_tool_stays(events, start, old_tool);
        },
    }
}

proof fn lemma_pieces_were_streamed(events: Seq<(ModelEventView, u64)>)
    requires
        events.len() > 0,
        !(events.last().0 is ToolCallStart),
        after(events) is Some,
        all_were_streamed(events.drop_last(), after(events.drop_last())->0.tools),
    ensures
        all_were_streamed(events, after(events)->0.tools),
        forall|k: int|
            0 <= k < after(events)->0.tools.len() ==> (
            #[trigger] after(events)->0.tools[k]).call.index == after(
                events.drop_last(),
            )->0.tools[k].call.index,
{
    reveal(all_were_streamed);
    let before = events.drop_last();
    let old_tools = after(before)->0.tools;
    let tools = after(events)->0.tools;
    lemma_tools_stay_in_place(events);
    assert forall|k: int| 0 <= k < tools.len() implies was_streamed(events, #[trigger] tools[k])
        && tools[k].call.index == old_tools[k].call.index by {
        assert(was_streamed(before, old_tools[k]));
        let start = choose|start: int|
            0 <= start < before.len() && streamed_tool(before, start, old_tools[k]);
        lemma_piece_is_kept(events, k, start);
    }
}

proof fn lemma_pieces_are_kept(events: Seq<(ModelEventView, u64)>)
    requires
        events.len() > 0,
        !(events.last().0 is ToolCallStart),
        after(events) is Some,
        all_are_kept(events.drop_last(), after(events.drop_last())->0.tools),
    ensures
        all_are_kept(events, after(events)->0.tools),
{
    reveal(all_are_kept);
    let before = events.drop_last();
    let old_tools = after(before)->0.tools;
    let tools = after(events)->0.tools;
    lemma_tools_stay_in_place(events);
    assert forall|start: int|
        0 <= start < events.len() && (#[trigger] events[start]).0 is ToolCallStart implies is_kept(
        events,
        start,
        tools,
    ) by {
        assert(before[start] == events[start]);
        assert(is_kept(before, start, old_tools));
        let k = choose|k: int|
            0 <= k < old_tools.len() && streamed_tool(before, start, #[trigger] old_tools[k]);
        lemma_piece_is_kept(events, k, start);
    }
}

proof fn lemma_other_event_is_kept(events: Seq<(ModelEventView, u64)>)
    requires
        events.len() > 0,
        !(events.last().0 is ToolCallStart),
        after(events) is Some,
        tools_kept(events.drop_last(), after(events.drop_last())->0.tools),
        others_are_empty(events.drop_last(), after(events.drop_last())->0.tools),
    ensures
        tools_kept(events, after(events)->0.tools),
        others_are_empty(events, after(events)->0.tools),
{
    let old_tools = after(events.drop_last())->0.tools;
    let tools = after(events)->0.tools;
    lemma_tools_stay_in_place(events);
    lemma_pieces_were_streamed(events);
    lemma_pieces_are_kept(events);
    assert forall|i: usize| has_index(old_tools, i) implies #[trigger] has_index(tools, i) by {
        let j = choose|j: int| 0 <= j < old_tools.len() && #[trigger] old_tools[j].call.index == i;
        assert(tools[j].call.index == i);
    }
    lemma_others_stay_empty(events, old_tools, tools);
}

proof fn lemma_tools_are_kept(events: Seq<(ModelEventView, u64)>)
    requires
        after(events) is Some,
    ensures
        tools_kept(events, after(events)->0.tools),
        others_are_empty(events, after(events)->0.tools),
    decreases events.len(),
{
    if events.len() == 0 {
        reveal(all_were_streamed);
        reveal(all_are_kept);
        reveal(others_are_empty);
    } else {
        lemma_tools_are_kept(events.drop_last());
        if events.last().0 is ToolCallStart {
            lemma_start_is_kept(events);
        } else {
            lemma_other_event_is_kept(events);
        }
    }
}

/// Nothing that a provider streams of its tool calls is lost: each start is one tool of the call,
/// whose arguments are the pieces streamed for its index, read as JSON once they have ended, and
/// there is no other tool.
pub proof fn law_tool_calls_are_kept(events: Seq<(ModelEventView, u64)>)
    requires
        after(events) is Some,
    ensures
        tools_kept(events, after(events)->0.tools),
{
    lemma_tools_are_kept(events);
}

/// The usage and the replay state of a call are those that were streamed, and neither is streamed
/// twice.
pub proof fn law_reports_are_kept(events: Seq<(ModelEventView, u64)>)
    requires
        after(events) is Some,
    ensures
        after(events)->0.usage == streamed_usage(events),
        after(events)->0.replay_state == streamed_replay(events),
        forall|i: int|
            0 <= i < events.len() ==> ((#[trigger] events[i]).0 matches ModelEventView::Usage(usage)
                ==> after(events)->0.usage == Some(usage)),
        forall|i: int|
            0 <= i < events.len() ==> ((
            #[trigger] events[i]).0 matches ModelEventView::ProviderReplayState(state)
                ==> after(events)->0.replay_state == Some(state)),
        forall|i: int, j: int|
            0 <= i < j < events.len() ==> !((#[trigger] events[i]).0 is Usage && (
            #[trigger] events[j]).0 is Usage),
        forall|i: int, j: int|
            0 <= i < j < events.len() ==> !((#[trigger] events[i]).0 is ProviderReplayState && (
            #[trigger] events[j]).0 is ProviderReplayState),
    decreases events.len(),
{
    if events.len() > 0 {
        let before = events.drop_last();
        law_reports_are_kept(before);
        assert forall|i: int| 0 <= i < before.len() implies before[i] == #[trigger] events[i] by {}
    }
}

/// After `Done` nothing more is accepted.
pub proof fn law_done_is_last(events: Seq<(ModelEventView, u64)>, i: int)
    requires
        0 <= i < events.len(),
        events[i].0 is Done,
        after(events) is Some,
    ensures
        i == events.len() - 1,
    decreases events.len(),
{
    if i < events.len() - 1 {
        let before = events.drop_last();
        assert(before[i] == events[i]);
        assert(after(before) is Some);
        law_done_is_last(before, i);
        assert(before.last().0 is Done);
        assert(after(before)->0.finish is Some);
    }
}

/// A call that completes ended with a reason that matches its tool calls, and its tool calls come
/// out in the order of their indices, each with a call id of its own.
pub proof fn law_completed_call_is_consistent(cycle: CycleView)
    requires
        cycle.wf(),
        cycle.result() is Ok,
    ensures
        cycle.model_call_id == Some(cycle.result()->Ok_0.model_call_id),
        cycle.result()->Ok_0.finish_reason != FinishReason::Length,
        (cycle.result()->Ok_0.finish_reason == FinishReason::ToolUse) == (
        cycle.result()->Ok_0.calls.len() > 0),
        forall|i: int, j: int|
            0 <= i < j < cycle.result()->Ok_0.calls.len() ==> (
            #[trigger] cycle.result()->Ok_0.calls[i]).index < (
            #[trigger] cycle.result()->Ok_0.calls[j]).index && cycle.result()->Ok_0.calls[i].call_id
                != cycle.result()->Ok_0.calls[j].call_id,
{
    let calls = cycle.result()->Ok_0.calls;
    assert forall|i: int, j: int| 0 <= i < j < calls.len() implies (#[trigger] calls[i]).index < (
    #[trigger] calls[j]).index && calls[i].call_id != calls[j].call_id by {
        assert(calls[i] == cycle.tools[i].call);
        assert(calls[j] == cycle.tools[j].call);
    }
}

/// What a provider streams is taken where it belongs and refused elsewhere: everything but a replay
/// state and a usage needs a start before it, a piece needs its block or its tool to be open, nothing is
/// started twice, and a call is done only when all is closed.
pub proof fn law_events_are_taken_where_they_belong(
    cycle: CycleView,
    event: ModelEventView,
    elapsed_ns: u64,
)
    requires
        cycle.wf(),
    ensures
        !(cycle.step(event, elapsed_ns).1 is Fail) <==> cycle.finish is None && match event {
            ModelEventView::Start { .. } => cycle.model_call_id is None,
            ModelEventView::TextStart => cycle.model_call_id is Some && !cycle.text_open,
            ModelEventView::TextDelta(_) => cycle.text_open,
            ModelEventView::TextEnd => cycle.text_open,
            ModelEventView::ThinkingStart => cycle.model_call_id is Some && !cycle.thinking_open,
            ModelEventView::ThinkingDelta(_) => cycle.thinking_open,
            ModelEventView::ThinkingEnd => cycle.thinking_open,
            ModelEventView::ToolCallStart { index, call_id, .. } => cycle.model_call_id is Some
                && !(exists|i: int|
                0 <= i < cycle.tools.len() && (#[trigger] cycle.tools[i]).call.index == index) && !(
            exists|i: int|
                0 <= i < cycle.tools.len() && (#[trigger] cycle.tools[i]).call.call_id == call_id),
            ModelEventView::ToolCallArgumentsDelta { index, .. } => exists|i: int|
                0 <= i < cycle.tools.len() && (#[trigger] cycle.tools[i]).call.index == index
                    && !cycle.tools[i].ended,
            ModelEventView::ToolCallEnd { index } => exists|i: int|
                0 <= i < cycle.tools.len() && (#[trigger] cycle.tools[i]).call.index == index
                    && !cycle.tools[i].ended && arguments_of(
                    cycle.tools[i].call.arguments_text,
                ) is Some,
            ModelEventView::ProviderReplayState(_) => cycle.replay_state is None,
            ModelEventView::Usage(_) => cycle.usage is None,
            ModelEventView::Done(_) => cycle.model_call_id is Some && !cycle.text_open
                && !cycle.thinking_open && forall|i: int|
                0 <= i < cycle.tools.len() ==> (#[trigger] cycle.tools[i]).ended,
        },
{
    match event {
        ModelEventView::ToolCallArgumentsDelta { index, .. } => lemma_open_tool(cycle, index),
        ModelEventView::ToolCallEnd { index } => lemma_open_tool(cycle, index),
        _ => {},
    }
}

/// The tool with an index is the only one that has it.
proof fn lemma_open_tool(cycle: CycleView, index: usize)
    requires
        cycle.wf(),
    ensures
        forall|i: int|
            0 <= i < cycle.tools.len() && (#[trigger] cycle.tools[i]).call.index == index
                ==> cycle.tool(index) == Some(cycle.tools[i]),
        cycle.tool(index) matches Some(tool) ==> exists|i: int|
            0 <= i < cycle.tools.len() && (#[trigger] cycle.tools[i]).call.index == index
                && cycle.tools[i] == tool,
{
    if has_index(cycle.tools, index) {
        lemma_rank(cycle.tools, index);
    }
}

/// What is taken is kept where it belongs and passed on as it came: a piece of text joins the text, a
/// piece of thinking the thinking, and neither touches the other.
pub proof fn law_each_piece_joins_its_kind(
    cycle: CycleView,
    event: ModelEventView,
    elapsed_ns: u64,
)
    requires
        cycle.wf(),
        !(cycle.step(event, elapsed_ns).1 is Fail),
    ensures
        ({
            let (next, step) = cycle.step(event, elapsed_ns);
            &&& match event {
                ModelEventView::TextDelta(delta) => next.text == cycle.text + delta
                    && next.reasoning == cycle.reasoning && step == CycleStepView::Send(
                    RunEventView::TextDelta(delta),
                ),
                ModelEventView::ThinkingDelta(delta) => next.reasoning == cycle.reasoning + delta
                    && next.text == cycle.text && step == CycleStepView::Send(
                    RunEventView::ThinkingDelta(delta),
                ),
                _ => next.text == cycle.text && next.reasoning == cycle.reasoning,
            }
            &&& event matches ModelEventView::Start { model_call_id } ==> next.model_call_id
                == Some(model_call_id)
            &&& !(event is Start) ==> next.model_call_id == cycle.model_call_id
            &&& event matches ModelEventView::Usage(usage) ==> next.usage == Some(usage)
            &&& event matches ModelEventView::ProviderReplayState(state) ==> next.replay_state
                == Some(state)
            &&& event matches ModelEventView::Done(reason) ==> next.finish == Some(reason)
            &&& event matches ModelEventView::ThinkingEnd ==> step == CycleStepView::Send(
                RunEventView::ThinkingEnd { duration_ns: elapsed_ns },
            )
            &&& event matches ModelEventView::ToolCallStart { index, call_id, name } ==> exists|
                i: int,
            |
                0 <= i < next.tools.len() && (#[trigger] next.tools[i]).call.index == index
                    && next.tools[i].call.call_id == call_id && next.tools[i].call.name == name
                    && next.tools[i].call.model_call_id == cycle.model_call_id->0
                    && next.tools[i].call.arguments_text.len() == 0 && !next.tools[i].ended
        }),
{
    if let ModelEventView::ToolCallStart { index, .. } = event {
        lemma_rank(cycle.tools, index);
        let at = rank(cycle.tools, index);
        let next = cycle.step(event, elapsed_ns).0;
        assert(next.tools[at].call.index == index);
    }
}

/// A call completes where the provider said that it is done, for a reason that goes with whether it
/// called tools; the result then holds everything that was kept, and the calls in the order of
/// their indices. Otherwise the call fails, and the failure keeps what there is.
pub proof fn law_result_is_what_was_kept(cycle: CycleView)
    requires
        cycle.wf(),
    ensures
        cycle.result() is Ok <==> (cycle.finish == Some(FinishReason::Stop) && cycle.tools.len()
            == 0) || (cycle.finish == Some(FinishReason::ToolUse) && cycle.tools.len() > 0),
        cycle.result() matches Ok(result) ==> {
            &&& result.text == cycle.text
            &&& result.reasoning == cycle.reasoning
            &&& result.usage == cycle.usage
            &&& result.replay_state == cycle.replay_state
            &&& Some(result.model_call_id) == cycle.model_call_id
            &&& Some(result.finish_reason) == cycle.finish
            &&& result.calls.len() == cycle.tools.len()
            &&& forall|i: int|
                0 <= i < cycle.tools.len() ==> #[trigger] result.calls[i] == cycle.tools[i].call
            &&& closing(result) == (match cycle.usage {
                Some(usage) => Some(RunEventView::Usage(usage)),
                None => None,
            })
        },
        cycle.result() matches Err(failure) ==> {
            &&& failure.partial_text == cycle.text
            &&& failure.partial_reasoning == cycle.reasoning
            &&& failure.usage == cycle.usage
        },
        forall|reason: RunFailureView|
            {
                &&& (#[trigger] cycle.failed(reason)).failure == reason
                &&& cycle.failed(reason).partial_text == cycle.text
                &&& cycle.failed(reason).usage == cycle.usage
            },
{
}

/// A call that is interrupted leaves nothing open: the end of each block that is open is told, and
/// no other.
pub proof fn law_open_blocks_are_closed(cycle: CycleView, elapsed_ns: u64)
    ensures
        cycle.closing_events(elapsed_ns).contains(RunEventView::TextEnd) <==> cycle.text_open,
        cycle.closing_events(elapsed_ns).contains(
            RunEventView::ThinkingEnd { duration_ns: elapsed_ns },
        ) <==> cycle.thinking_open,
        cycle.closing_events(elapsed_ns).len() == (if cycle.text_open {
            1int
        } else {
            0int
        }) + (if cycle.thinking_open {
            1int
        } else {
            0int
        }),
{
    let events = cycle.closing_events(elapsed_ns);
    if cycle.text_open {
        assert(events[0] == RunEventView::TextEnd);
    }
    if cycle.thinking_open {
        assert(events[events.len() - 1] == (RunEventView::ThinkingEnd { duration_ns: elapsed_ns }));
    }
}

/// Arguments that are blank stand for an object without members; others are read as JSON.
pub proof fn law_blank_arguments_are_none(arguments_text: Seq<char>)
    ensures
        (forall|i: int| 0 <= i < arguments_text.len() ==> text::whitespace(#[trigger] arguments_text[i]))
            ==> arguments_of(arguments_text) == Some(JsonView::Object(Seq::empty())),
        (exists|i: int|
            0 <= i < arguments_text.len() && !text::whitespace(#[trigger] arguments_text[i]))
            ==> arguments_of(arguments_text) == json::parsed(arguments_text),
{
    text::law_trimming_takes_off_white_space(arguments_text);
}

} // verus!
