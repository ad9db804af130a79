//! Executing the tool calls of one model turn.
//!
//! The caller performs each [`RoundStep`] and hands the answer to the method that the step names.
use crate::data;
use crate::data::Duplicate;
use crate::model::ids::{CheckpointId, ToolRoundId};
use crate::model::message::{
    text_content, CanonicalMessage, CanonicalMessageView, ContentPartView, MessageContentView,
    Origin, Role, ToolResultContent, ToolResultContentView,
};
use crate::model::tool::{ToolCall, ToolCallView};
use crate::run::command::{MessageInsertion, MessageInsertionView};
use crate::run::engine::{ToolRound, ToolRoundView};
use crate::run::event::{
    client_failure, CommitCause, CommitCauseView, MessagesCommitted, MessagesCommittedView,
    RunFailure, RunFailureView, RunOutcome, RunOutcomeView,
};
use vstd::prelude::*;

verus! {

/// Something that happened to the server while a conversation was running.
#[derive(Debug)]
pub struct RuntimeEvent {
    pub event_id: String,
    pub text: String,
}

/// The message that tells a model of an event.
pub open spec fn event_message(event_id: Seq<char>, text: Seq<char>) -> CanonicalMessageView {
    CanonicalMessageView {
        message_id: "runtime:"@ + event_id,
        role: Role::User,
        origin: Origin::Runtime,
        content: MessageContentView::Parts { parts: seq![ContentPartView::Text { text }] },
        runtime_event_id: Some(event_id),
    }
}

impl RuntimeEvent {
    /// The message that tells a model of the event.
    pub fn into_message(self) -> (r: CanonicalMessage)
        ensures
            r@ == event_message(self.event_id@, self.text@),
    {
        let mut message_id = "runtime:".to_owned();
        message_id.append(self.event_id.as_str());
        CanonicalMessage {
            message_id,
            role: Role::User,
            origin: Origin::Runtime,
            content: text_content(self.text),
            runtime_event_id: Some(self.event_id),
        }
    }
}

/// What a client can say while tools are running.
#[derive(Debug)]
pub enum RoundCommand {
    ToolResult(ToolResultContent),
    RuntimeEvent(RuntimeEvent),
    RuntimeMessage(CanonicalMessage),
    InsertMessages(MessageInsertion),
    Cancel,
    ClientClosed { error: String },
}

#[verifier::ext_equal]
pub enum RoundCommandView {
    ToolResult(ToolResultContentView),
    RuntimeMessage(CanonicalMessageView),
    InsertMessages(MessageInsertionView),
    Cancel,
    ClientClosed { error: Seq<char> },
}

impl View for RoundCommand {
    type V = RoundCommandView;

    open spec fn view(&self) -> RoundCommandView {
        match self {
            RoundCommand::ToolResult(result) => RoundCommandView::ToolResult(result@),
            RoundCommand::RuntimeEvent(event) => RoundCommandView::RuntimeMessage(
                event_message(event.event_id@, event.text@),
            ),
            RoundCommand::RuntimeMessage(message) => RoundCommandView::RuntimeMessage(message@),
            RoundCommand::InsertMessages(insertion) => RoundCommandView::InsertMessages(
                insertion@,
            ),
            RoundCommand::Cancel => RoundCommandView::Cancel,
            RoundCommand::ClientClosed { error } => RoundCommandView::ClientClosed {
                error: error@,
            },
        }
    }
}

/// Messages that wait until every tool has answered.
#[derive(Debug)]
pub enum PendingRuntimeMessage {
    Message(CanonicalMessage),
    Insertion(MessageInsertion),
}

#[verifier::ext_equal]
pub enum PendingRuntimeMessageView {
    Message(CanonicalMessageView),
    Insertion(MessageInsertionView),
}

impl View for PendingRuntimeMessage {
    type V = PendingRuntimeMessageView;

    open spec fn view(&self) -> PendingRuntimeMessageView {
        match self {
            PendingRuntimeMessage::Message(message) => PendingRuntimeMessageView::Message(message@),
            PendingRuntimeMessage::Insertion(insertion) => PendingRuntimeMessageView::Insertion(
                insertion@,
            ),
        }
    }
}

/// What the store made of a tool result.
#[derive(Clone, Copy, Debug, PartialEq, Eq, Structural)]
pub struct CommittedResult {
    pub checkpoint_id: CheckpointId,
    pub tool_round_version: u64,
    pub settled: bool,
}

/// What a round is waiting for.
pub enum RoundPhase {
    /// The round is being stored.
    Creating,
    /// The client is taking over the start of the round.
    Announcing,
    /// The client is being told to execute the calls.
    Dispatching,
    /// Tools are running.
    Awaiting,
    /// A result is being stored.
    Committing { call_id: String },
    /// The client is being told of a result.
    Reporting,
    /// Messages that waited are being appended.
    Flushing,
    /// The round has ended.
    Over,
}

#[verifier::ext_equal]
pub enum RoundPhaseView {
    Creating,
    Announcing,
    Dispatching,
    Awaiting,
    Committing { call_id: Seq<char> },
    Reporting,
    Flushing,
    Over,
}

impl View for RoundPhase {
    type V = RoundPhaseView;

    open spec fn view(&self) -> RoundPhaseView {
        match self {
            RoundPhase::Creating => RoundPhaseView::Creating,
            RoundPhase::Announcing => RoundPhaseView::Announcing,
            RoundPhase::Dispatching => RoundPhaseView::Dispatching,
            RoundPhase::Awaiting => RoundPhaseView::Awaiting,
            RoundPhase::Committing { call_id } => RoundPhaseView::Committing { call_id: call_id@ },
            RoundPhase::Reporting => RoundPhaseView::Reporting,
            RoundPhase::Flushing => RoundPhaseView::Flushing,
            RoundPhase::Over => RoundPhaseView::Over,
        }
    }
}

/// What the caller does next, and which method takes the answer.
pub enum RoundStep {
    /// Store the round at the checkpoint: `on_created`.
    CreateRound { checkpoint: CheckpointId },
    /// Send the announcement and, with a barrier, wait until the client has taken it over:
    /// `on_ready`.
    Announce(MessagesCommitted),
    /// Tell the client to execute the calls: `on_dispatched`.
    Dispatch { round_id: ToolRoundId, calls: Vec<ToolCall> },
    /// Wait for a command or for the cancellation of the run: `on_command`, `on_cancelled`.
    Await,
    /// Store the result: `on_committed`.
    Commit(ToolResultContent),
    /// Append the message: `on_flushed`.
    AppendMessage(CanonicalMessage),
    /// Append the messages of the insertion: `on_flushed`.
    AppendInsertion(MessageInsertion),
    /// The round is done.
    Done { checkpoint: CheckpointId },
    /// The run is over.
    Abort(RunOutcome),
}

#[verifier::ext_equal]
pub enum RoundStepView {
    CreateRound { checkpoint: CheckpointId },
    Announce(MessagesCommittedView),
    Dispatch { round_id: Seq<char>, calls: Seq<ToolCallView> },
    Await,
    Commit(ToolResultContentView),
    AppendMessage(CanonicalMessageView),
    AppendInsertion(MessageInsertionView),
    Done { checkpoint: CheckpointId },
    Abort(RunOutcomeView),
}

impl View for RoundStep {
    type V = RoundStepView;

    open spec fn view(&self) -> RoundStepView {
        match self {
            RoundStep::CreateRound { checkpoint } => RoundStepView::CreateRound {
                checkpoint: *checkpoint,
            },
            RoundStep::Announce(committed) => RoundStepView::Announce(committed@),
            RoundStep::Dispatch { round_id, calls } => RoundStepView::Dispatch {
                round_id: round_id@,
                calls: data::views(calls@),
            },
            RoundStep::Await => RoundStepView::Await,
            RoundStep::Commit(result) => RoundStepView::Commit(result@),
            RoundStep::AppendMessage(message) => RoundStepView::AppendMessage(message@),
            RoundStep::AppendInsertion(insertion) => RoundStepView::AppendInsertion(insertion@),
            RoundStep::Done { checkpoint } => RoundStepView::Done { checkpoint: *checkpoint },
            RoundStep::Abort(outcome) => RoundStepView::Abort(outcome@),
        }
    }
}

/// A tool round in progress.
pub struct RoundExecution {
    pub checkpoint: CheckpointId,
    pub round: ToolRound,
    pub remaining: usize,
    pub pending: Vec<PendingRuntimeMessage>,
    pub phase: RoundPhase,
}

#[verifier::ext_equal]
pub struct RoundExecutionView {
    pub checkpoint: CheckpointId,
    pub round: ToolRoundView,
    pub remaining: nat,
    pub pending: Seq<PendingRuntimeMessageView>,
    pub phase: RoundPhaseView,
}

impl View for RoundExecution {
    type V = RoundExecutionView;

    open spec fn view(&self) -> RoundExecutionView {
        RoundExecutionView {
            checkpoint: self.checkpoint,
            round: self.round@,
            remaining: self.remaining as nat,
            pending: data::views(self.pending@),
            phase: self.phase@,
        }
    }
}

/// Insertions that wait until every tool has answered.
pub open spec fn waiting(insertions: Seq<MessageInsertionView>) -> Seq<PendingRuntimeMessageView> {
    insertions.map_values(|i: MessageInsertionView| PendingRuntimeMessageView::Insertion(i))
}

impl RoundExecutionView {
    pub open spec fn at(self, phase: RoundPhaseView) -> RoundExecutionView {
        RoundExecutionView { phase, ..self }
    }

    pub open spec fn aborts(self, outcome: RunOutcomeView) -> (RoundExecutionView, RoundStepView) {
        (self.at(RoundPhaseView::Over), RoundStepView::Abort(outcome))
    }

    /// A round of which nothing has happened yet.
    pub open spec fn starting(
        checkpoint: CheckpointId,
        round: ToolRoundView,
        insertions: Seq<MessageInsertionView>,
    ) -> (RoundExecutionView, RoundStepView) {
        (
            RoundExecutionView {
                checkpoint,
                round,
                remaining: round.calls.len(),
                pending: waiting(insertions),
                phase: RoundPhaseView::Creating,
            },
            RoundStepView::CreateRound { checkpoint },
        )
    }

    /// The step after the round was stored.
    pub open spec fn created(self) -> (RoundExecutionView, RoundStepView) {
        (
            self.at(RoundPhaseView::Announcing),
            RoundStepView::Announce(
                MessagesCommittedView {
                    checkpoint_id: self.checkpoint,
                    tool_round_version: 0,
                    cause: CommitCauseView::ToolRoundStarted {
                        round_id: self.round.id,
                        assistant: self.round.assistant,
                        calls: self.round.calls,
                    },
                    barrier: true,
                },
            ),
        )
    }

    /// What follows when nothing is under way: wait for tools, or append what waited for them.
    pub open spec fn goes_on(self) -> (RoundExecutionView, RoundStepView) {
        if self.remaining > 0 {
            (self.at(RoundPhaseView::Awaiting), RoundStepView::Await)
        } else if self.pending.len() > 0 {
            (
                RoundExecutionView {
                    pending: self.pending.drop_first(),
                    phase: RoundPhaseView::Flushing,
                    ..self
                },
                match self.pending[0] {
                    PendingRuntimeMessageView::Message(message) => RoundStepView::AppendMessage(
                        message,
                    ),
                    PendingRuntimeMessageView::Insertion(
                        insertion,
                    ) => RoundStepView::AppendInsertion(insertion),
                },
            )
        } else {
            (
                self.at(RoundPhaseView::Over),
                RoundStepView::Done { checkpoint: self.checkpoint },
            )
        }
    }

    /// The step after the client took over what was announced.
    pub open spec fn ready(self) -> (RoundExecutionView, RoundStepView) {
        if self.phase is Announcing {
            (
                self.at(RoundPhaseView::Dispatching),
                RoundStepView::Dispatch { round_id: self.round.id, calls: self.round.calls },
            )
        } else {
            self.goes_on()
        }
    }

    /// The step on a command while tools are running. `None` stands for a client that is gone.
    pub open spec fn commanded(self, command: Option<RoundCommandView>) -> (
        RoundExecutionView,
        RoundStepView,
    ) {
        match command {
            Some(RoundCommandView::ToolResult(result)) => (
                self.at(RoundPhaseView::Committing { call_id: result.call_id }),
                RoundStepView::Commit(result),
            ),
            Some(RoundCommandView::RuntimeMessage(message)) => (
                RoundExecutionView {
                    pending: self.pending.push(PendingRuntimeMessageView::Message(message)),
                    ..self
                },
                RoundStepView::Await,
            ),
            Some(RoundCommandView::InsertMessages(insertion)) => (
                RoundExecutionView {
                    pending: self.pending.push(PendingRuntimeMessageView::Insertion(insertion)),
                    ..self
                },
                RoundStepView::Await,
            ),
            Some(RoundCommandView::Cancel) => self.aborts(RunOutcomeView::Cancelled),
            Some(RoundCommandView::ClientClosed { error }) => self.aborts(
                RunOutcomeView::Failed(RunFailureView::Client(error)),
            ),
            None => self.aborts(crate::run::event::client_gone()),
        }
    }

    /// The step after a result was stored.
    pub open spec fn committed(self, committed: CommittedResult) -> (
        RoundExecutionView,
        RoundStepView,
    ) {
        match self.phase {
            RoundPhaseView::Committing { call_id } => (
                RoundExecutionView {
                    checkpoint: committed.checkpoint_id,
                    remaining: (self.remaining - 1) as nat,
                    phase: RoundPhaseView::Reporting,
                    ..self
                },
                RoundStepView::Announce(
                    MessagesCommittedView {
                        checkpoint_id: committed.checkpoint_id,
                        tool_round_version: committed.tool_round_version,
                        cause: CommitCauseView::ToolResult { call_id },
                        barrier: committed.settled,
                    },
                ),
            ),
            _ => (self, RoundStepView::Await),
        }
    }

    /// The step after something that waited was appended.
    pub open spec fn flushed(self, checkpoint: CheckpointId) -> (RoundExecutionView, RoundStepView) {
        RoundExecutionView { checkpoint, ..self }.goes_on()
    }

    /// While tools are running or a result of one is being stored, one is owed; once messages that
    /// waited are being appended, none is.
    pub open spec fn wf(self) -> bool {
        &&& self.phase is Awaiting || self.phase is Committing ==> self.remaining > 0
        &&& self.phase is Flushing ==> self.remaining == 0
    }
}

impl RoundExecution {
    /// A round of which nothing has happened yet, and its first step.
    pub fn start(
        checkpoint: CheckpointId,
        round: ToolRound,
        insertions: Vec<MessageInsertion>,
    ) -> (r: (Self, RoundStep))
        ensures
            (r.0@, r.1@) == RoundExecutionView::starting(
                checkpoint,
                round@,
                data::views(insertions@),
            ),
            r.0@.wf(),
    {
        let ghost all = data::views(insertions@);
        let remaining: usize = round.calls.len();
        let mut pending: Vec<PendingRuntimeMessage> = Vec::new();
        let mut i: usize = 0;
        while i < insertions.len()
            invariant
                i <= insertions@.len(),
                all == data::views(insertions@),
                data::views(pending@) == waiting(all).take(i as int),
            decreases insertions@.len() - i,
        {
            let ghost before = data::views(pending@);
            let item = PendingRuntimeMessage::Insertion(insertions[i].duplicate());
            assert(item@ == waiting(all)[i as int]);
            pending.push(item);
            assert(data::views(pending@) =~= before.push(item@));
            i += 1;
            assert(waiting(all).take(i as int) =~= before.push(waiting(all)[i - 1]));
        }
        assert(waiting(all).take(i as int) =~= waiting(all));
        (
            RoundExecution { checkpoint, round, remaining, pending, phase: RoundPhase::Creating },
            RoundStep::CreateRound { checkpoint },
        )
    }

    fn abort(self, outcome: RunOutcome) -> (r: (Self, RoundStep))
        ensures
            (r.0@, r.1@) == self@.aborts(outcome@),
    {
        (RoundExecution { phase: RoundPhase::Over, ..self }, RoundStep::Abort(outcome))
    }

    /// The end of the run where the store or the client could not go on.
    pub fn on_failed(self, outcome: RunOutcome) -> (r: (Self, RoundStep))
        ensures
            (r.0@, r.1@) == self@.aborts(outcome@),
    {
        self.abort(outcome)
    }

    /// The step after the round was stored.
    pub fn on_created(self) -> (r: (Self, RoundStep))
        requires
            self@.phase is Creating,
        ensures
            (r.0@, r.1@) == self@.created(),
            r.0@.wf(),
    {
        let step = RoundStep::Announce(
            MessagesCommitted {
                checkpoint_id: self.checkpoint,
                tool_round_version: 0,
                cause: CommitCause::ToolRoundStarted {
                    round_id: self.round.id.duplicate(),
                    assistant: self.round.assistant.duplicate(),
                    calls: data::duplicate_all(&self.round.calls),
                },
                barrier: true,
            },
        );
        (RoundExecution { phase: RoundPhase::Announcing, ..self }, step)
    }

    fn go_on(self) -> (r: (Self, RoundStep))
        ensures
            (r.0@, r.1@) == self@.goes_on(),
            r.0@.wf(),
    {
        if self.remaining > 0 {
            return (RoundExecution { phase: RoundPhase::Awaiting, ..self }, RoundStep::Await);
        }
        let mut now = self;
        if now.pending.len() > 0 {
            let ghost before = data::views(now.pending@);
            let first = now.pending.remove(0);
            assert(data::views(now.pending@) =~= before.drop_first());
            assert(first@ == before[0]);
            let step = match first {
                PendingRuntimeMessage::Message(message) => RoundStep::AppendMessage(message),
                PendingRuntimeMessage::Insertion(insertion) => RoundStep::AppendInsertion(
                    insertion,
                ),
            };
            now.phase = RoundPhase::Flushing;
            assert(now@ =~= self@.goes_on().0);
            (now, step)
        } else {
            let checkpoint = now.checkpoint;
            now.phase = RoundPhase::Over;
            (now, RoundStep::Done { checkpoint })
        }
    }

    /// The step after the client took over what was announced.
    pub fn on_ready(self) -> (r: (Self, RoundStep))
        requires
            self@.phase is Announcing || self@.phase is Reporting,
        ensures
            (r.0@, r.1@) == self@.ready(),
            r.0@.wf(),
    {
        match self.phase {
            RoundPhase::Announcing => {
                let step = RoundStep::Dispatch {
                    round_id: self.round.id.duplicate(),
                    calls: data::duplicate_all(&self.round.calls),
                };
                (RoundExecution { phase: RoundPhase::Dispatching, ..self }, step)
            },
            _ => self.go_on(),
        }
    }

    /// The step after the client was told to execute the calls, or could not be.
    pub fn on_dispatched(self, sent: bool) -> (r: (Self, RoundStep))
        requires
            self@.phase is Dispatching,
        ensures
            (r.0@, r.1@) == (if sent {
                self@.goes_on()
            } else {
                self@.aborts(crate::run::event::client_gone())
            }),
            r.0@.wf(),
    {
        if sent {
            self.go_on()
        } else {
            self.abort(client_failure())
        }
    }

    /// The step after the run was cancelled while tools were running.
    pub fn on_cancelled(self) -> (r: (Self, RoundStep))
        requires
            self@.phase is Awaiting,
        ensures
            (r.0@, r.1@) == self@.aborts(RunOutcomeView::Cancelled),
    {
        self.abort(RunOutcome::Cancelled)
    }

    /// The step on a command while tools are running. `None` stands for a client that is gone.
    pub fn on_command(self, command: Option<RoundCommand>) -> (r: (Self, RoundStep))
        requires
            self@.phase is Awaiting,
            self@.wf(),
        ensures
            (r.0@, r.1@) == self@.commanded(data::option_view(command)),
            r.0@.wf(),
    {
        broadcast use crate::data::group_views;

        let mut now = self;
        match command {
            Some(RoundCommand::ToolResult(result)) => {
                now.phase = RoundPhase::Committing { call_id: result.call_id.clone() };
                (now, RoundStep::Commit(result))
            },
            Some(RoundCommand::RuntimeEvent(event)) => {
                now.pending.push(PendingRuntimeMessage::Message(event.into_message()));
                (now, RoundStep::Await)
            },
            Some(RoundCommand::RuntimeMessage(message)) => {
                now.pending.push(PendingRuntimeMessage::Message(message));
                (now, RoundStep::Await)
            },
            Some(RoundCommand::InsertMessages(insertion)) => {
                now.pending.push(PendingRuntimeMessage::Insertion(insertion));
                (now, RoundStep::Await)
            },
            Some(RoundCommand::Cancel) => now.abort(RunOutcome::Cancelled),
            Some(RoundCommand::ClientClosed { error }) => now.abort(
                RunOutcome::Failed(RunFailure::Client(error)),
            ),
            None => now.abort(client_failure()),
        }
    }

    /// The step after a result was stored.
    pub fn on_committed(self, committed: CommittedResult) -> (r: (Self, RoundStep))
        requires
            self@.phase is Committing,
            self@.wf(),
        ensures
            (r.0@, r.1@) == self@.committed(committed),
            r.0@.wf(),
    {
        let RoundExecution { checkpoint, round, remaining, pending, phase } = self;
        match phase {
            RoundPhase::Committing { call_id } => (
                RoundExecution {
                    checkpoint: committed.checkpoint_id,
                    round,
                    remaining: remaining - 1,
                    pending,
                    phase: RoundPhase::Reporting,
                },
                RoundStep::Announce(
                    MessagesCommitted {
                        checkpoint_id: committed.checkpoint_id,
                        tool_round_version: committed.tool_round_version,
                        cause: CommitCause::ToolResult { call_id },
                        barrier: committed.settled,
                    },
                ),
            ),
            phase => (
                RoundExecution { checkpoint, round, remaining, pending, phase },
                RoundStep::Await,
            ),
        }
    }

    /// The step after something that waited was appended.
    pub fn on_flushed(self, checkpoint: CheckpointId) -> (r: (Self, RoundStep))
        requires
            self@.phase is Flushing,
        ensures
            (r.0@, r.1@) == self@.flushed(checkpoint),
            r.0@.wf(),
    {
        let now = RoundExecution { checkpoint, ..self };
        assert(now@ =~= (RoundExecutionView { checkpoint, ..self@ }));
        now.go_on()
    }
}

/// A round ends well only when every call is answered and nothing is left waiting.
pub proof fn law_round_ends_when_all_is_answered(round: RoundExecutionView)
    requires
        round.goes_on().1 is Done,
    ensures
        round.remaining == 0,
        round.pending.len() == 0,
{
}

/// Each stored result settles one call, and nothing else does.
pub proof fn law_results_are_counted(
    round: RoundExecutionView,
    command: Option<RoundCommandView>,
    committed: CommittedResult,
)
    requires
        round.wf(),
    ensures
        round.phase is Committing ==> round.committed(committed).0.remaining + 1 == round.remaining,
        round.commanded(command).0.remaining == round.remaining,
        round.goes_on().0.remaining == round.remaining,
{
}

/// What waits for the tools stays in order: a command only adds to its end, and it is appended from
/// its front.
pub proof fn law_waiting_stays_in_order(
    round: RoundExecutionView,
    command: Option<RoundCommandView>,
)
    ensures
        round.pending.is_prefix_of(round.commanded(command).0.pending),
        round.goes_on().0.pending.is_suffix_of(round.pending),
{
    if round.pending.len() > 0 {
        assert(round.pending.subrange(1, round.pending.len() as int)
            =~= round.pending.drop_first());
    }
    assert(round.pending.subrange(0, round.pending.len() as int) =~= round.pending);
}

/// A round is told to the client with everything in it, and the client is then told to execute all
/// its calls.
pub proof fn law_round_is_handed_to_the_client(
    checkpoint: CheckpointId,
    round: ToolRoundView,
    insertions: Seq<MessageInsertionView>,
)
    ensures
        ({
            let (fresh, create) = RoundExecutionView::starting(checkpoint, round, insertions);
            let (announcing, announce) = fresh.created();
            let (dispatching, dispatch) = announcing.ready();
            let cause = announce->Announce_0.cause;
            &&& create == (RoundStepView::CreateRound { checkpoint })
            &&& announce is Announce
            &&& announce->Announce_0.checkpoint_id == checkpoint
            &&& announce->Announce_0.barrier
            &&& cause is ToolRoundStarted
            &&& cause->round_id == round.id
            &&& cause->assistant == round.assistant
            &&& cause->calls == round.calls
            &&& dispatch == (RoundStepView::Dispatch { round_id: round.id, calls: round.calls })
            &&& dispatching.remaining == round.calls.len()
            &&& dispatching.pending.len() == insertions.len()
            &&& forall|i: int|
                0 <= i < insertions.len() ==> #[trigger] dispatching.pending[i]
                    == PendingRuntimeMessageView::Insertion(insertions[i])
        }),
{
}

/// A result is stored as it came, and the client is told that the call is answered, at the checkpoint
/// that holds the result. Other messages wait; a cancellation and a client that is gone end the run.
pub proof fn law_round_commands_are_obeyed(
    round: RoundExecutionView,
    command: Option<RoundCommandView>,
    committed: CommittedResult,
)
    requires
        round.phase is Awaiting,
        round.wf(),
    ensures
        ({
            let (next, step) = round.commanded(command);
            match command {
                Some(RoundCommandView::ToolResult(result)) => {
                    let (reporting, told) = next.committed(committed);
                    &&& step == RoundStepView::Commit(result)
                    &&& told is Announce
                    &&& told->Announce_0.checkpoint_id == committed.checkpoint_id
                    &&& told->Announce_0.tool_round_version == committed.tool_round_version
                    &&& told->Announce_0.barrier == committed.settled
                    &&& told->Announce_0.cause is ToolResult
                    &&& told->Announce_0.cause->call_id == result.call_id
                    &&& reporting.checkpoint == committed.checkpoint_id
                    &&& reporting.remaining == round.remaining - 1
                    &&& round.remaining > 1 ==> reporting.ready().1 is Await
                    &&& round.remaining == 1 ==> !(reporting.ready().1 is Await)
                },
                Some(RoundCommandView::RuntimeMessage(message)) => {
                    &&& step is Await
                    &&& next.pending == round.pending.push(
                        PendingRuntimeMessageView::Message(message),
                    )
                },
                Some(RoundCommandView::InsertMessages(insertion)) => {
                    &&& step is Await
                    &&& next.pending == round.pending.push(
                        PendingRuntimeMessageView::Insertion(insertion),
                    )
                },
                Some(RoundCommandView::Cancel) => step == RoundStepView::Abort(
                    RunOutcomeView::Cancelled,
                ),
                Some(RoundCommandView::ClientClosed { error }) => step == RoundStepView::Abort(
                    RunOutcomeView::Failed(RunFailureView::Client(error)),
                ),
                None => step is Abort && step->Abort_0 is Failed,
            }
        }),
{
}

/// Once all calls are answered, what waited is appended from its front, one after the other, and the
/// round is done at the checkpoint of the last of them.
pub proof fn law_waiting_messages_end_the_round(
    round: RoundExecutionView,
    checkpoint: CheckpointId,
)
    requires
        round.phase is Flushing,
        round.wf(),
    ensures
        ({
            let (next, step) = round.flushed(checkpoint);
            &&& next.checkpoint == checkpoint
            &&& round.pending.len() == 0 ==> step == (RoundStepView::Done { checkpoint })
            &&& round.pending.len() > 0 ==> {
                &&& next.phase is Flushing
                &&& next.pending.len() == round.pending.len() - 1
                &&& match round.pending[0] {
                    PendingRuntimeMessageView::Message(message) => step
                        == RoundStepView::AppendMessage(message),
                    PendingRuntimeMessageView::Insertion(insertion) => step
                        == RoundStepView::AppendInsertion(insertion),
                }
                &&& forall|i: int|
                    0 <= i < next.pending.len() ==> #[trigger] next.pending[i] == round.pending[i
                        + 1]
            }
        }),
{
}

} // verus!
