use cursor_server::cursor::transport::inbox::OrderedInbox;
use cursor_server::json;
use cursor_server::json::Json;
use cursor_server::model::ids::{CheckpointId, ConversationId, RunId};
use cursor_server::model::inference::{
    normalize_provider_tool_call_ids, ModelSpec, PromptSpec,
};
use cursor_server::model::message::{
    CanonicalMessage, ContentPart, MessageContent, Origin, Role, ToolCallContent,
    ToolResultContent,
};
use cursor_server::model::projection::{
    project_compaction_messages, project_messages, ProjectedContent, ProjectedMessage,
};
use cursor_server::model::run::{PreparedRun, RunAction, RunKind};
use cursor_server::model::token_count::{format_token_count, parse_token_count};
use cursor_server::model::usage::Usage;
use cursor_server::provider::event::{is_valid_response_event, FinishReason, ModelEvent};
use cursor_server::run::compaction::{
    estimate_serialized_tokens, fallback_summary, should_compact, ContextUsageAnchor,
};

#[test]
fn default_releases_first_protocol_append() {
    let mut inbox = OrderedInbox::default();
    assert_eq!(inbox.push(0, "first"), vec![(0, "first")]);
    assert_eq!(inbox.push(1, "second"), vec![(1, "second")]);
}

#[test]
fn independent_inboxes_release_their_first_appends() {
    let mut first = OrderedInbox::default();
    let mut second = OrderedInbox::default();

    assert_eq!(first.push(0, "first-request"), vec![(0, "first-request")]);
    assert_eq!(second.push(0, "second-request"), vec![(0, "second-request")]);
}

#[test]
fn inbox_holds_back_what_came_early_and_drops_what_came_late() {
    let mut inbox = OrderedInbox::starting_at(5);
    assert_eq!(inbox.push(7, "seven"), vec![]);
    assert_eq!(inbox.push(6, "six"), vec![]);
    assert_eq!(inbox.push(5, "five"), vec![(5, "five"), (6, "six"), (7, "seven")]);
    assert_eq!(inbox.push(6, "again"), vec![]);
    assert_eq!(inbox.push(8, "eight"), vec![(8, "eight")]);
}

#[test]
fn context_tokens_include_cached_prompt_tokens() {
    let usage = Usage {
        input_tokens: Some(17_000),
        cache_read_tokens: Some(10_000),
        cache_write_tokens: Some(3_000),
        ..Default::default()
    };

    assert_eq!(usage.context_tokens(), Some(30_000));
}

#[test]
fn absent_prompt_usage_uses_local_estimation() {
    assert_eq!(Usage::default().context_tokens(), None);
}

#[test]
fn turn_total_only_reports_fields_known_for_every_cycle() {
    let mut total = Usage {
        input_tokens: Some(10),
        output_tokens: Some(2),
        total_tokens: Some(12),
        cache_read_tokens: None,
        cache_write_tokens: None,
        reasoning_tokens: Some(1),
    };
    total += Usage {
        input_tokens: Some(20),
        output_tokens: Some(3),
        total_tokens: Some(23),
        cache_read_tokens: Some(8),
        cache_write_tokens: None,
        reasoning_tokens: None,
    };
    assert_eq!(total.input_tokens, Some(30));
    assert_eq!(total.output_tokens, Some(5));
    assert_eq!(total.total_tokens, Some(35));
    assert_eq!(total.cache_read_tokens, None);
    assert_eq!(total.cache_write_tokens, None);
    assert_eq!(total.reasoning_tokens, None);
}

#[test]
fn a_sum_that_does_not_fit_is_not_reported() {
    let mut total = Usage { input_tokens: Some(u64::MAX), ..Default::default() };
    total += Usage { input_tokens: Some(1), ..Default::default() };
    assert_eq!(total.input_tokens, None);
}

#[test]
fn response_markers_include_empty_content_but_exclude_transport_events() {
    assert!(is_valid_response_event(&ModelEvent::TextDelta(String::new())));
    assert!(is_valid_response_event(&ModelEvent::ThinkingDelta(String::new())));
    assert!(is_valid_response_event(&ModelEvent::ToolCallArgumentsDelta {
        index: 0,
        delta: String::new(),
    }));
    assert!(is_valid_response_event(&ModelEvent::ThinkingStart));
    assert!(is_valid_response_event(&ModelEvent::ToolCallStart {
        index: 0,
        call_id: "call".into(),
        name: "tool".into(),
    }));
    assert!(!is_valid_response_event(&ModelEvent::Start { model_call_id: "call".into() }));
    assert!(!is_valid_response_event(&ModelEvent::TextStart));
    assert!(!is_valid_response_event(&ModelEvent::Usage(Usage::default())));
    assert!(!is_valid_response_event(&ModelEvent::Done(FinishReason::Stop)));
}

fn tool_call(call_id: String, name: &str) -> ToolCallContent {
    ToolCallContent { index: 0, call_id, name: name.into(), arguments: Json::Object(vec![]) }
}

#[test]
fn provider_tool_call_ids_are_truncated_once_for_every_provider() {
    let call_id = format!("cursor-tool-call:{}", "x".repeat(68));
    assert_eq!(call_id.len(), 85);
    let expected = call_id[..64].to_string();
    let mut history = vec![
        ProjectedMessage {
            message_id: "assistant".into(),
            role: Role::Assistant,
            content: ProjectedContent::Assistant {
                text: String::new(),
                thinking: String::new(),
                replay_state: None,
                calls: vec![tool_call(call_id.clone(), "Shell")],
            },
        },
        ProjectedMessage {
            message_id: "result".into(),
            role: Role::Tool,
            content: ProjectedContent::ToolResult(ToolResultContent {
                call_id,
                name: "Shell".into(),
                content: "done".into(),
                is_error: false,
                image: None,
                provider_parts: Vec::new(),
            }),
        },
    ];

    normalize_provider_tool_call_ids(&mut history);

    let ProjectedContent::Assistant { calls, .. } = &history[0].content else {
        panic!("expected assistant message");
    };
    let ProjectedContent::ToolResult(result) = &history[1].content else {
        panic!("expected tool result");
    };
    assert_eq!(calls[0].call_id, expected);
    assert_eq!(result.call_id, expected);
}

#[test]
fn provider_tool_call_id_truncation_counts_unicode_characters() {
    let mut history = vec![ProjectedMessage {
        message_id: "assistant".into(),
        role: Role::Assistant,
        content: ProjectedContent::Assistant {
            text: String::new(),
            thinking: String::new(),
            replay_state: None,
            calls: vec![tool_call(format!("{}界y", "x".repeat(63)), "Read")],
        },
    }];

    normalize_provider_tool_call_ids(&mut history);

    let ProjectedContent::Assistant { calls, .. } = &history[0].content else {
        panic!("expected assistant message");
    };
    assert_eq!(calls[0].call_id, format!("{}界", "x".repeat(63)));
}

#[test]
fn compaction_messages_formats_history_into_single_user_message() {
    let messages = vec![
        CanonicalMessage::text("u1", Role::User, Origin::User, "Hello"),
        CanonicalMessage {
            message_id: "a1".into(),
            role: Role::Assistant,
            origin: Origin::Assistant,
            content: MessageContent::Assistant {
                text: "I can help".into(),
                thinking: "".into(),
                tool_round_id: None,
                replay_state: None,
                tool_calls: vec![ToolCallContent {
                    index: 0,
                    call_id: "call-1".into(),
                    name: "Read".into(),
                    arguments: json::parse(r#"{"path": "foo.rs"}"#).unwrap(),
                }],
            },
            runtime_event_id: None,
        },
        CanonicalMessage {
            message_id: "unicode-tool-result".into(),
            role: Role::Tool,
            origin: Origin::Tool,
            content: MessageContent::ToolResult(ToolResultContent {
                call_id: "call-unicode".into(),
                name: "Read".into(),
                content: format!("{}ỉ", "x".repeat(298)),
                is_error: false,
                image: None,
                provider_parts: Vec::new(),
            }),
            runtime_event_id: None,
        },
    ];

    let projected = project_compaction_messages(&messages).unwrap();
    assert_eq!(projected.len(), 1);
    assert_eq!(projected[0].role, Role::User);

    let ProjectedContent::Parts(parts) = &projected[0].content else {
        panic!("expected parts content");
    };
    let ContentPart::Text { text } = &parts[0] else {
        panic!("expected text part");
    };

    assert!(text.contains("History to compact:"));
    assert!(text.contains("1. user=Hello"));
    assert!(text.contains("assistant=I can help"));
    assert!(text.contains("tool_call=Read"));
    assert!(text.contains("Read=xxxxxxxx"));
    assert!(text.contains("..."));
    assert!(text.contains("Return only the replacement summary text."));
}

#[test]
fn conversations_are_shown_in_parts() {
    let message = |id: &str, text: &str| CanonicalMessage::text(id, Role::User, Origin::User, text);
    let first = vec![message("a", "one"), message("b", "two")];
    let second = vec![message("c", "three")];
    let whole = vec![message("a", "one"), message("b", "two"), message("c", "three")];
    let ids = |messages: &[CanonicalMessage]| -> Vec<String> {
        project_messages(messages).unwrap().into_iter().map(|shown| shown.message_id).collect()
    };
    let mut parts = ids(&first);
    parts.extend(ids(&second));
    assert_eq!(ids(&whole), parts);
}

#[test]
fn messages_come_out_in_order_whatever_order_they_arrive_in() {
    let mut inbox = OrderedInbox::starting_at(3);
    let mut handed = Vec::new();
    for (seqno, value) in [(5, "e"), (3, "c"), (2, "late"), (5, "again"), (7, "g"), (4, "d")] {
        handed.extend(inbox.push(seqno, value));
    }
    assert_eq!(handed, vec![(3, "c"), (4, "d"), (5, "e")]);
}

#[test]
fn automatic_compaction_starts_only_after_the_context_window_is_exceeded() {
    let mut model = ModelSpec::new("model");
    model.context_window_tokens = Some(200_000);
    let prepared = PreparedRun {
        run_id: RunId::new("run"),
        cursor_request_id: None,
        conversation_id: ConversationId::new("conversation"),
        kind: RunKind::Root,
        model,
        checkpoint_context_tokens: None,
        prompt: PromptSpec { instructions: String::new(), tools: Vec::new() },
        compaction_prompt: PromptSpec { instructions: String::new(), tools: Vec::new() },
        initial_messages: Vec::new(),
        action: RunAction::Start,
        base_checkpoint_id: CheckpointId(1),
    };
    let messages = vec![CanonicalMessage::text("user", Role::User, Origin::Runtime, "hello")];
    let projected = project_messages(&messages).unwrap();
    let serialized =
        r#"[{"message_id":"user","role":"user","content":{"parts":[{"text":"hello"}]}}]"#;
    let tail_tokens = estimate_serialized_tokens(serialized);
    let anchor = |estimated_input: u64| {
        Some(ContextUsageAnchor {
            input_tokens: estimated_input - tail_tokens,
            message_count: 0,
            tool_count: 0,
        })
    };

    assert!(!should_compact(&prepared, &messages, &projected, anchor(189_999), None, serialized));
    assert!(should_compact(&prepared, &messages, &projected, anchor(190_000), None, serialized));
    assert!(should_compact(&prepared, &messages, &projected, anchor(200_001), None, serialized));
}

#[test]
fn serialized_text_is_estimated_by_its_characters() {
    assert_eq!(estimate_serialized_tokens(""), 0);
    assert_eq!(estimate_serialized_tokens("a"), 1);
    assert_eq!(estimate_serialized_tokens("aaaa"), 2);
    assert_eq!(estimate_serialized_tokens("界界"), 2);
}

#[test]
fn fallback_summary_keeps_the_end_of_the_conversation() {
    let summary = fallback_summary("[]");
    assert_eq!(summary, "Durable recent conversation state:\n[]");
}

#[test]
fn token_counts_read_thousands_and_millions() {
    assert_eq!(parse_token_count("200k"), Some(200_000));
    assert_eq!(parse_token_count(" 1M "), Some(1_000_000));
    assert_eq!(parse_token_count("4096"), Some(4_096));
    assert_eq!(parse_token_count(""), None);
    assert_eq!(parse_token_count("k"), None);
    assert_eq!(parse_token_count("1.5m"), None);
    assert_eq!(parse_token_count("18446744073709551615m"), None);
    assert_eq!(format_token_count(1_000_000), "1M");
    assert_eq!(format_token_count(200_000), "200K");
    assert_eq!(format_token_count(1_234), "1234");
    assert_eq!(format_token_count(0), "0");
    assert_eq!(parse_token_count(&format_token_count(3_000_000)), Some(3_000_000));
}
