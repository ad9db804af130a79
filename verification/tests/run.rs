use cursor_server::error::Error;
use cursor_server::json::Json;
use cursor_server::model::ids::{CheckpointId, ConversationId, RunId, ToolRoundId};
use cursor_server::model::inference::{ModelSpec, PromptSpec};
use cursor_server::model::message::{
    CanonicalMessage, ContentPart, Origin, ProviderReplayState, Role, ToolResultContent,
    ToolResultImage,
};
use cursor_server::model::projection::{ProjectedContent, ProjectedMessage};
use cursor_server::model::run::{PreparedRun, RunAction, RunKind, SubagentKind};
use cursor_server::model::tool::{ToolCall, ToolRoundAssistant};
use cursor_server::model::usage::Usage;
use cursor_server::provider::event::{FinishReason, ModelEvent};
use cursor_server::run::actor::{should_notify_parent, subagent_completion};
use cursor_server::run::compaction::partition;
use cursor_server::run::engine::{failure_from, EngineStep, RunEngine, ToolRound};
use cursor_server::run::event::{
    failure_message, finished_run, wait_for_state_ready, FailureCategory, ReadySignal, RunEvent,
    RunFailure, RunOutcome, RunStatus,
};
use cursor_server::run::images::{hydrate_tool_image, wanted_image};
use cursor_server::run::model_cycle::{closing_event, CycleStep, ModelCycle, ModelCycleResult};
use cursor_server::run::registry::{Delivery, RunRegistry};
use cursor_server::run::tool_round::{CommittedResult, RoundCommand, RoundExecution, RoundStep};

fn prepared(kind: RunKind, initial_messages: Vec<CanonicalMessage>) -> PreparedRun {
    PreparedRun {
        run_id: RunId::new("run"),
        cursor_request_id: Some("request".into()),
        conversation_id: ConversationId::new("conversation"),
        kind,
        model: ModelSpec::new("model"),
        checkpoint_context_tokens: None,
        prompt: PromptSpec { instructions: "be brief".into(), tools: Vec::new() },
        compaction_prompt: PromptSpec { instructions: String::new(), tools: Vec::new() },
        initial_messages,
        action: RunAction::Start,
        base_checkpoint_id: CheckpointId(1),
    }
}

fn user(id: &str, text: &str) -> CanonicalMessage {
    CanonicalMessage::text(id, Role::User, Origin::User, text)
}

fn call(call_id: &str) -> ToolCall {
    ToolCall {
        index: 0,
        call_id: call_id.into(),
        model_call_id: "model-call".into(),
        name: "Read".into(),
        arguments_text: "{}".into(),
        arguments: Json::Object(vec![]),
    }
}

fn result(call_id: &str) -> ToolResultContent {
    ToolResultContent {
        call_id: call_id.into(),
        name: "Read".into(),
        content: "done".into(),
        is_error: false,
        image: None,
        provider_parts: Vec::new(),
    }
}

#[test]
fn a_cycle_collects_what_the_model_streams() {
    let mut cycle = ModelCycle::new();
    let events = vec![
        ModelEvent::Start { model_call_id: "m".into() },
        ModelEvent::ThinkingStart,
        ModelEvent::ThinkingDelta("hm".into()),
        ModelEvent::ThinkingEnd,
        ModelEvent::TextStart,
        ModelEvent::TextDelta("Hel".into()),
        ModelEvent::TextDelta("lo".into()),
        ModelEvent::TextEnd,
        ModelEvent::ToolCallStart { index: 0, call_id: "c".into(), name: "Read".into() },
        ModelEvent::ToolCallArgumentsDelta { index: 0, delta: r#"{"path":"a"}"#.into() },
        ModelEvent::ToolCallEnd { index: 0 },
        ModelEvent::Usage(Usage { input_tokens: Some(3), ..Default::default() }),
        ModelEvent::Done(FinishReason::ToolUse),
    ];
    for event in events {
        assert!(!matches!(cycle.on_event(event, 5), CycleStep::Fail(_)));
    }
    let done = cycle.finish().unwrap();
    assert_eq!(done.text, "Hello");
    assert_eq!(done.reasoning, "hm");
    assert_eq!(done.calls.len(), 1);
    assert_eq!(done.calls[0].arguments.get_str("path"), Some("a"));
    assert_eq!(done.usage.unwrap().input_tokens, Some(3));
    assert_eq!(done.finish_reason, FinishReason::ToolUse);
}

#[test]
fn a_cycle_keeps_each_tool_call_and_each_report() {
    let start = |index: usize, call_id: &str| ModelEvent::ToolCallStart {
        index,
        call_id: call_id.into(),
        name: "Read".into(),
    };
    let piece =
        |index: usize, delta: &str| ModelEvent::ToolCallArgumentsDelta { index, delta: delta.into() };
    let state = || ModelEvent::ProviderReplayState(ProviderReplayState { value: Json::Bool(true) });
    let mut cycle = ModelCycle::new();
    let events = vec![
        ModelEvent::Start { model_call_id: "m".into() },
        start(1, "second"),
        piece(1, r#"{"path":"#),
        start(0, "first"),
        piece(0, "{"),
        piece(1, r#""b"}"#),
        piece(0, "}"),
        ModelEvent::ToolCallEnd { index: 1 },
        ModelEvent::ToolCallEnd { index: 0 },
        state(),
        ModelEvent::Usage(Usage { output_tokens: Some(4), ..Default::default() }),
    ];
    for event in events {
        assert!(!matches!(cycle.on_event(event, 0), CycleStep::Fail(_)));
    }
    assert!(matches!(cycle.on_event(state(), 0), CycleStep::Fail(_)));
    cycle.on_event(ModelEvent::Done(FinishReason::ToolUse), 0);
    let done = cycle.finish().unwrap();
    assert_eq!(done.calls.len(), 2);
    assert_eq!(done.calls[0].call_id, "first");
    assert_eq!(done.calls[0].arguments_text, "{}");
    assert_eq!(done.calls[1].arguments_text, r#"{"path":"b"}"#);
    assert_eq!(done.calls[1].arguments.get_str("path"), Some("b"));
    assert_eq!(done.usage.unwrap().output_tokens, Some(4));
    assert_eq!(done.replay_state.unwrap().value.as_bool(), Some(true));
}

#[test]
fn a_cycle_refuses_what_is_out_of_order() {
    let mut cycle = ModelCycle::new();
    let step = cycle.on_event(ModelEvent::TextDelta("x".into()), 0);
    let CycleStep::Fail(failure) = step else {
        panic!("expected a failure");
    };
    assert!(matches!(failure.failure, RunFailure::Protocol(_)));
    assert!(ModelCycle::new().finish().is_err());
    let mut cycle = ModelCycle::new();
    cycle.on_event(ModelEvent::Start { model_call_id: "m".into() }, 0);
    cycle.on_event(ModelEvent::ThinkingStart, 0);
    let closing = cycle.interrupt_cycle(7);
    assert!(matches!(closing[0], RunEvent::ThinkingEnd { duration_ns: 7 }));
}

fn answer(text: &str) -> ModelCycleResult {
    ModelCycleResult {
        model_call_id: "m".into(),
        text: text.into(),
        reasoning: String::new(),
        replay_state: None,
        calls: Vec::new(),
        usage: Some(Usage { input_tokens: Some(10), ..Default::default() }),
        finish_reason: FinishReason::Stop,
    }
}

#[test]
fn a_completed_call_ends_with_its_usage() {
    let mut result = answer("done");
    let Some(RunEvent::Usage(usage)) = closing_event(&result) else {
        panic!("expected the usage");
    };
    assert_eq!(usage.input_tokens, Some(10));
    result.usage = None;
    assert!(closing_event(&result).is_none());
}

#[test]
fn a_run_goes_from_its_first_message_to_its_answer() {
    let prepared = prepared(RunKind::Root, vec![user("u", "hi")]);
    let engine = RunEngine::new(prepared, CheckpointId(1));
    let (engine, step) = engine.begin();
    assert!(matches!(step, EngineStep::AppendInitial { index: 0 }));
    let (engine, step) = engine.on_appended(CheckpointId(2), true);
    assert!(matches!(step, EngineStep::Announce(_)));
    let (engine, step) = engine.on_ready();
    assert!(matches!(step, EngineStep::CheckCancelled { .. }));
    let (engine, step) = engine.on_checked(false);
    assert!(matches!(
        step,
        EngineStep::LoadContext { checkpoint: CheckpointId(2), with_anchor: true }
    ));
    let (engine, step) = engine.on_loaded(vec![user("u", "hi")], None);
    let (engine, step) = match step {
        EngineStep::Estimate(_) => engine.on_estimated("[]"),
        _ => (engine, step),
    };
    assert!(matches!(step, EngineStep::BeginCall));
    let (engine, step) = engine.on_call_begun(0);
    let EngineStep::Hydrate { history } = step else {
        panic!("expected the history");
    };
    assert_eq!(history.len(), 1);
    let (engine, step) = engine.on_hydrated(history, b"[]");
    assert!(matches!(step, EngineStep::Stream(_)));
    let (engine, step) = engine.on_cycle_ended(Ok(answer("hello")), false);
    let EngineStep::AppendCheckpoint(messages) = step else {
        panic!("expected the answer to be stored");
    };
    assert_eq!(messages[0].extract_text().unwrap(), "hello");
    let (engine, step) = engine.on_stored(CheckpointId(3));
    let (engine, step) = match step {
        EngineStep::AppendBatches(_) => engine.on_batches(CheckpointId(3), false),
        _ => (engine, step),
    };
    let (engine, step) = match step {
        EngineStep::Drain => engine.on_drained(vec![]),
        _ => (engine, step),
    };
    assert!(matches!(step, EngineStep::Announce(_)));
    let (_, step) = engine.on_ready();
    let EngineStep::Finish { outcome, usage, .. } = step else {
        panic!("expected the end");
    };
    assert!(matches!(outcome, RunOutcome::Completed));
    assert_eq!(usage.unwrap().input_tokens, Some(10));
}

#[test]
fn a_cancelled_run_ends_as_cancelled() {
    let engine = RunEngine::new(prepared(RunKind::Root, vec![]), CheckpointId(1));
    let (engine, step) = engine.begin();
    assert!(matches!(step, EngineStep::CheckCancelled { .. }));
    let (_, step) = engine.on_checked(true);
    assert!(matches!(step, EngineStep::Finish { outcome: RunOutcome::Cancelled, .. }));
}

#[test]
fn a_round_ends_when_every_call_is_answered() {
    let round = ToolRound {
        id: ToolRoundId::new("round"),
        assistant: ToolRoundAssistant {
            text: String::new(),
            thinking: String::new(),
            model_call_id: "m".into(),
            replay_state: None,
        },
        calls: vec![call("a"), call("b")],
        recovered_started_at_ms: None,
    };
    let (round, step) = RoundExecution::start(CheckpointId(1), round, vec![]);
    assert!(matches!(step, RoundStep::CreateRound { checkpoint: CheckpointId(1) }));
    let (round, step) = round.on_created();
    assert!(matches!(step, RoundStep::Announce(_)));
    let (round, step) = round.on_ready();
    assert!(matches!(step, RoundStep::Dispatch { .. }));
    let (round, step) = round.on_dispatched(true);
    assert!(matches!(step, RoundStep::Await));
    let (round, step) = round.on_command(Some(RoundCommand::ToolResult(result("a"))));
    assert!(matches!(step, RoundStep::Commit(_)));
    let committed = |checkpoint: i64, settled: bool| CommittedResult {
        checkpoint_id: CheckpointId(checkpoint),
        tool_round_version: 1,
        settled,
    };
    let (round, step) = round.on_committed(committed(2, false));
    let (round, step) = match step {
        RoundStep::Announce(_) => round.on_ready(),
        _ => (round, step),
    };
    assert!(matches!(step, RoundStep::Await));
    let (round, _) = round.on_command(Some(RoundCommand::ToolResult(result("b"))));
    let (round, step) = round.on_committed(committed(3, true));
    let (_, step) = match step {
        RoundStep::Announce(_) => round.on_ready(),
        _ => (round, step),
    };
    assert!(matches!(step, RoundStep::Done { checkpoint: CheckpointId(3) }));
}

#[test]
fn a_cancelled_round_ends_the_run() {
    let round = ToolRound {
        id: ToolRoundId::new("round"),
        assistant: ToolRoundAssistant {
            text: String::new(),
            thinking: String::new(),
            model_call_id: "m".into(),
            replay_state: None,
        },
        calls: vec![call("a")],
        recovered_started_at_ms: None,
    };
    let (round, _) = RoundExecution::start(CheckpointId(1), round, vec![]);
    let (round, _) = round.on_created();
    let (round, _) = round.on_ready();
    let (round, _) = round.on_dispatched(true);
    let (_, step) = round.on_cancelled();
    assert!(matches!(step, RoundStep::Abort(RunOutcome::Cancelled)));
}

#[test]
fn a_conversation_belongs_to_the_latest_run() {
    let mut registry = RunRegistry::new();
    assert_eq!(registry.activate("c", "first", 1), None);
    assert_eq!(registry.activate("c", "second", 2), Some(1));
    registry.release("c", "first");
    assert_eq!(registry.handle_of("c"), Some(2));
    assert!(matches!(registry.insert_messages("c", 1), Delivery::Send(2)));
    assert!(matches!(registry.insert_messages("c", 0), Delivery::Nothing));
    assert!(matches!(registry.insert_messages("other", 1), Delivery::Refused));
    registry.release("c", "second");
    assert_eq!(registry.handle_of("c"), None);
    registry.activate("c", "third", 3);
    assert_eq!(registry.shutdown(), vec![3]);
}

#[test]
fn only_subagents_tell_their_parents() {
    let root = prepared(RunKind::Root, vec![]);
    assert!(subagent_completion(&root, &RunOutcome::Completed, &[]).is_none());
    assert!(!should_notify_parent(&root, &[]));
    let child = prepared(
        RunKind::Subagent {
            parent_run_id: RunId::new("parent"),
            parent_tool_call_id: "task".into(),
            kind: SubagentKind::Named("explore".into()),
            background: true,
        },
        vec![],
    );
    let completion = subagent_completion(&child, &RunOutcome::Completed, &[]).unwrap();
    assert!(format!("{completion:?}").contains("Subagent explore"));
}

#[test]
fn compaction_keeps_what_the_run_brought() {
    let messages = vec![user("old", "one"), user("new", "two")];
    let (compactable, _) = partition(&messages, &vec!["new".into()]);
    assert!(compactable.iter().all(|message| message.message_id != "new"));
    assert!(compactable.iter().any(|message| message.message_id == "old"));
}

#[test]
fn images_of_tool_results_are_filled_in() {
    let image = ToolResultImage { blob_id: "blob".into(), mime_type: "image/png".into() };
    let message = || ProjectedMessage {
        message_id: "result".into(),
        role: Role::Tool,
        content: ProjectedContent::ToolResult(ToolResultContent {
            image: Some(ToolResultImage {
                blob_id: image.blob_id.clone(),
                mime_type: image.mime_type.clone(),
            }),
            ..result("a")
        }),
    };
    assert_eq!(wanted_image(&message()).as_deref(), Some("blob"));
    let filled = hydrate_tool_image(message(), Some(vec![1, 2])).unwrap();
    let ProjectedContent::ToolResult(result) = filled.content else {
        panic!("expected a result");
    };
    assert_eq!(result.provider_parts.len(), 2);
    assert!(matches!(&result.provider_parts[1], ContentPart::Image { data, .. } if data == &[1, 2]));
    let missing = hydrate_tool_image(message(), None).unwrap_err();
    assert_eq!(missing.message(), "protocol error: Read image Blob is missing: blob");
    let plain = ProjectedMessage {
        message_id: "user".into(),
        role: Role::User,
        content: ProjectedContent::Parts(vec![]),
    };
    assert_eq!(wanted_image(&plain), None);
    assert!(hydrate_tool_image(plain, None).is_ok());
}

#[test]
fn ends_of_runs_are_filed() {
    let failed = RunOutcome::Failed(RunFailure::Provider("no".into()));
    assert_eq!(
        finished_run(&failed),
        (RunStatus::Failed, Some((FailureCategory::Provider, "no".to_string())))
    );
    assert_eq!(finished_run(&RunOutcome::Cancelled), (RunStatus::Cancelled, None));
    assert!(wait_for_state_ready(ReadySignal::Ready).is_none());
    assert!(matches!(
        wait_for_state_ready(ReadySignal::Closed),
        Some(RunOutcome::Failed(RunFailure::Client(m))) if m == "client event channel closed"
    ));
    assert!(matches!(
        wait_for_state_ready(ReadySignal::Refused("why".into())),
        Some(RunOutcome::Failed(RunFailure::Client(m))) if m == "why"
    ));
    assert_eq!(failure_message(&failure_from(Error::Provider("x".into()))), "x");
    assert!(matches!(failure_from(Error::Database("x".into())), RunFailure::Store(_)));
    assert!(matches!(failure_from(Error::Json("x".into())), RunFailure::Protocol(_)));
}
