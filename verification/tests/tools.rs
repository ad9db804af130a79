use cursor_server::collections::NameMap;
use cursor_server::cursor::tools::compat::failure;
use cursor_server::cursor::tools::context::{
    CustomSubagent, ExecContext, McpRoute, McpRouteEntry, SubagentModel, MAX_SHELL_BLOCK_UNTIL_MS,
};
use cursor_server::cursor::tools::dispatch::{
    dispatch, normalize_block_until_ms, resolve_mcp, start_batch, start_exec, ExecStart, Route,
    ToolBatchState,
};
use cursor_server::cursor::tools::edit::{advance_edit, EditStep};
use cursor_server::cursor::tools::gate::{
    exec_message, is_mcp_notice, tool_completion, EditSuccess, GatedTool, LsListing, McpItem,
    McpSuccess, ReadOutput, ReadSuccess, ShellStreams, MCP_CONTENT_ITEM_LIMIT, MCP_TEXT_LIMIT,
    PATCH_EDIT_RESULT_LIMIT, READ_CONTENT_LIMIT, SHELL_INTERLEAVED_LIMIT, SHELL_STREAM_LIMIT,
};
use cursor_server::cursor::tools::gate_grep::{
    grep_content_bytes, GREP_CONTENT_LIMIT, GREP_MATCHES_PER_FILE,
};
use cursor_server::cursor::tools::git_archaeology::parse_log_records;
use cursor_server::cursor::tools::grep_engine::{
    asks_index, content, is_settled, local_tgrep_completion, operation_of, start_search,
    ContentSelection, ContentType, GrepEngine, SearchStart, SembleOperation,
};
use cursor_server::cursor::tools::grep_result::{
    parse_grep_content_line, parse_grep_output_to_success, GrepContentMatch, GrepFileMatch,
    GrepOutcome, GrepSuccess, GrepUnionResult,
};
use cursor_server::cursor::tools::mcp_result::format_mcp_output;
use cursor_server::cursor::tools::response::{ExecMessage, ReadOutcome};
use cursor_server::cursor::tools::runtime::{CursorToolRuntime, ExecStage, IdSource};
use cursor_server::cursor::tools::schedule::EditSchedule;
use cursor_server::json;
use cursor_server::json::Json;
use cursor_server::model::tool::ToolCall;
use cursor_server::search::outcome::{TgrepFailure, TgrepOutcome};
use cursor_server::search::registry::ServerReadiness;

const KIB: usize = 1024;

fn tool(call_id: &str, name: &str, arguments: &str) -> ToolCall {
    ToolCall {
        index: 0,
        call_id: call_id.into(),
        model_call_id: "model-call-1".into(),
        name: name.into(),
        arguments_text: arguments.into(),
        arguments: json::parse(arguments).unwrap(),
    }
}

fn named(name: &str, arguments: &str) -> ToolCall {
    tool("call-1", name, arguments)
}

fn task(arguments: &str) -> ToolCall {
    tool("task-1", "Task", arguments)
}

#[test]
fn retired_await_shell_is_a_model_visible_failure() {
    let completion =
        failure(&named("AwaitShell", r#"{"shell_id": "runtime-shell", "block_until_ms": 30000}"#));
    assert!(completion.result.is_error);
    assert!(completion.result.content.contains("current advertised tool set"));
    assert!(completion.result.content.contains("current Shell/background completion flow"));
    assert_eq!(completion.card.provider_identifier, "cursor-byok-compat");
    assert_eq!(completion.card.tool_name, "AwaitShell");
}

#[test]
fn arbitrary_unknown_tool_is_a_model_visible_failure() {
    let completion =
        failure(&named("OldTool", r#"{"shell_id": "runtime-shell", "block_until_ms": 30000}"#));
    assert!(completion.result.is_error);
    assert!(completion.result.content.contains("not available"));
    assert_eq!(completion.card.tool_name, "OldTool");
}

#[test]
fn shell_accepts_integer_valued_float_timeout() {
    let call = named("Shell", r#"{"command": "echo ok", "block_until_ms": 45000.0}"#);

    let call = normalize_block_until_ms(&call).unwrap().unwrap();

    assert_eq!(call.arguments.get("block_until_ms").unwrap().as_i64(), Some(45_000));
}

#[test]
fn bash_accepts_integer_valued_float_timeout() {
    let call = named("Bash", r#"{"command": "echo ok", "block_until_ms": 45000.0}"#);

    let call = normalize_block_until_ms(&call).unwrap().unwrap();

    assert_eq!(call.arguments.get("block_until_ms").unwrap().as_i64(), Some(45_000));
}

#[test]
fn shell_rejects_fractional_timeout() {
    let call = named("Shell", r#"{"command": "echo ok", "block_until_ms": 30000.5}"#);

    let error = normalize_block_until_ms(&call).unwrap_err();

    assert_eq!(error.message(), "protocol error: Shell block_until_ms must be an integer");
}

#[test]
fn shell_rejects_negative_timeout_instead_of_defaulting() {
    let call = named("Shell", r#"{"command": "echo ok", "block_until_ms": -1}"#);

    let error = normalize_block_until_ms(&call).unwrap_err();

    assert_eq!(error.message(), "protocol error: Shell block_until_ms is out of range");
}

#[test]
fn retired_await_shell_does_not_become_a_protocol_error() {
    let call = named("AwaitShell", r#"{"shell_id": "legacy-shell", "block_until_ms": 30000}"#);
    let completion = failure(&call);

    assert!(completion.result.is_error);
    assert!(completion.result.content.contains("older version"));
}

#[test]
fn arbitrary_unknown_tool_does_not_become_a_protocol_error() {
    let call = named("OldTool", r#"{"value": 1}"#);
    let taken = dispatch(&call, false, &ExecContext::default()).unwrap();
    assert_eq!(taken.route, Route::Unavailable);
    let completion = failure(&call);

    assert!(completion.result.is_error);
    assert!(completion.result.content.contains("not available"));
}

#[test]
fn all_content_expands_to_every_indexed_scope() {
    assert_eq!(
        content(ContentSelection::All),
        vec![ContentType::Code, ContentType::Docs, ContentType::Config]
    );
}

#[test]
fn searches_by_meaning_are_known_by_their_names() {
    assert_eq!(operation_of(&named("SembleSearch", "{}")).unwrap(), SembleOperation::Search);
    assert_eq!(
        operation_of(&named("semble_find_related", "{}")).unwrap(),
        SembleOperation::FindRelated
    );
    let error = operation_of(&named("Grep", "{}")).unwrap_err();
    assert_eq!(error.message(), "protocol error: unsupported Semble tool: Grep");
}

#[test]
fn shell_output_keeps_both_ends_within_its_budget() {
    let mut content = format!("HEAD{}TAIL", " ".repeat(1024 * KIB));
    let mut tool = GatedTool::Other;

    tool_completion("Shell", &mut tool, &mut content);

    assert!(content.len() <= 128 * KIB);
    assert!(content.starts_with("HEAD"));
    assert!(content.contains("[truncated: Shell result exceeded"));
    assert!(content.ends_with("TAIL"));
}

fn large_grep() -> GatedTool {
    let matches = (0..150)
        .map(|line_number| GrepContentMatch {
            line_number,
            content: "x".repeat(3 * KIB),
            content_truncated: false,
            is_context_line: false,
        })
        .collect();
    GatedTool::Grep(GrepSuccess {
        pattern: String::new(),
        path: String::new(),
        output_mode: String::new(),
        workspace_results: vec![(
            "workspace".into(),
            GrepUnionResult::Content {
                matches: vec![GrepFileMatch { file: "large.txt".into(), matches }],
                total_lines: 0,
                total_matched_lines: 0,
                client_truncated: false,
            },
        )],
        active_editor_result: None,
    })
}

#[test]
fn grep_limits_matches_per_file_total_bytes_and_adds_notice() {
    let mut tool = large_grep();
    let mut model_content = "x".repeat(128 * KIB);

    tool_completion("Grep", &mut tool, &mut model_content);

    assert!(model_content.len() <= GREP_CONTENT_LIMIT);
    assert!(model_content.contains("[truncated: Grep result exceeded"));
    let once = format!("{tool:?}");
    let GatedTool::Grep(success) = &tool else {
        panic!("expected grep success")
    };
    let GrepUnionResult::Content { matches, client_truncated, .. } =
        &success.workspace_results[0].1
    else {
        panic!("expected grep content")
    };
    assert!(*client_truncated);
    assert!(grep_content_bytes(matches) <= GREP_CONTENT_LIMIT);
    assert!(matches[0].matches.len() <= GREP_MATCHES_PER_FILE + 1);
    assert!(matches[0].matches.last().unwrap().content.contains("[truncated: Grep result exceeded"));

    let mut second_content = model_content.clone();
    tool_completion("Grep", &mut tool, &mut second_content);
    assert_eq!(format!("{tool:?}"), once);
    assert_eq!(second_content, model_content);
}

#[test]
fn read_content_is_limited_and_marked() {
    let mut tool = GatedTool::Read(ReadSuccess {
        output: Some(ReadOutput::Content("前".repeat(READ_CONTENT_LIMIT))),
        exceeded_limit: false,
    });
    let mut content = "前".repeat(READ_CONTENT_LIMIT);

    tool_completion("Read", &mut tool, &mut content);

    assert!(content.len() <= READ_CONTENT_LIMIT);
    let GatedTool::Read(success) = tool else {
        panic!("expected read success")
    };
    assert!(success.exceeded_limit);
    let Some(ReadOutput::Content(output)) = success.output else {
        panic!("expected text output")
    };
    assert!(output.len() <= READ_CONTENT_LIMIT);
    assert!(output.contains("[truncated: Read result exceeded"));
}

#[test]
fn mcp_limits_items_text_and_structured_content() {
    let mut tool = GatedTool::Mcp(McpSuccess {
        content: (0..25).map(|_| McpItem::Text("x".repeat(4 * KIB))).collect(),
        structured_content: Some(Json::Object(vec![(
            "large".into(),
            Json::String("x".repeat(64 * KIB)),
        )])),
    });
    let mut content = "x".repeat(64 * KIB);

    tool_completion("CallMcpTool", &mut tool, &mut content);

    assert!(content.len() <= MCP_TEXT_LIMIT);
    let GatedTool::Mcp(success) = tool else {
        panic!("expected mcp success")
    };
    assert!(success.content.len() > MCP_CONTENT_ITEM_LIMIT);
    assert_eq!(
        success.structured_content.unwrap().get("_truncated").unwrap().as_bool(),
        Some(true)
    );
    assert!(success.content.iter().any(|item| matches!(
        item,
        McpItem::Text(text) if text.contains("MCP content items exceeded")
    )));
}

#[test]
fn mcp_images_are_not_truncated_at_an_invalid_binary_boundary() {
    let mut tool = GatedTool::Mcp(McpSuccess {
        content: vec![McpItem::Other(7)],
        structured_content: None,
    });
    let mut content = "MCP image".into();

    tool_completion("CallMcpTool", &mut tool, &mut content);

    let GatedTool::Mcp(success) = tool else {
        panic!("expected mcp success")
    };
    assert!(matches!(success.content[0], McpItem::Other(7)));
    assert!(!success.content.iter().any(is_mcp_notice));
}

#[test]
fn edit_keeps_only_a_bounded_diff() {
    let mut tool = GatedTool::Edit(EditSuccess {
        diff_string: Some("d".repeat(16 * KIB)),
        before_full_file_content: Some("b".repeat(64 * KIB)),
        after_full_file_content: "a".repeat(64 * KIB),
    });
    let mut content = "x".repeat(64 * KIB);

    tool_completion("StrReplace", &mut tool, &mut content);

    assert!(content.len() <= PATCH_EDIT_RESULT_LIMIT);
    let GatedTool::Edit(success) = tool else {
        panic!("expected edit success")
    };
    assert!(success.diff_string.unwrap().len() <= PATCH_EDIT_RESULT_LIMIT);
    assert!(success.before_full_file_content.is_none());
    assert!(success.after_full_file_content.is_empty());
}

#[test]
fn shell_streams_are_limited_before_rendering() {
    let mut message = GatedTool::Shell(ShellStreams {
        stdout: format!("HEAD{}TAIL", "x".repeat(64 * KIB)),
        stderr: format!("ERROR_HEAD{}ERROR_TAIL", "y".repeat(64 * KIB)),
        interleaved_output: Some(format!("START{}END", "z".repeat(64 * KIB))),
    });

    exec_message(&mut message);

    let GatedTool::Shell(success) = message else {
        panic!("expected Shell success");
    };
    assert!(success.stdout.len() <= SHELL_STREAM_LIMIT);
    assert!(success.stdout.starts_with("HEAD"));
    assert!(success.stdout.ends_with("TAIL"));
    assert!(success.stderr.len() <= SHELL_STREAM_LIMIT);
    assert!(success.stderr.starts_with("ERROR_HEAD"));
    assert!(success.stderr.ends_with("ERROR_TAIL"));
    assert!(success.interleaved_output.unwrap().len() <= SHELL_INTERLEAVED_LIMIT);
}

#[test]
fn ls_results_are_gated_and_marked_truncated() {
    let mut tool = GatedTool::Ls(LsListing {
        children_dirs: (0..150).collect(),
        children_files: (0..150).collect(),
        children_were_processed: true,
    });
    let mut content = "ls content".into();

    tool_completion("Ls", &mut tool, &mut content);

    let GatedTool::Ls(root) = tool else {
        panic!("expected LsToolCall");
    };
    assert_eq!(root.children_dirs.len(), 100);
    assert_eq!(root.children_files.len(), 100);
    assert!(!root.children_were_processed);
}

#[test]
fn shared_runtime_ids_are_unique_across_sessions() {
    let mut ids = IdSource::new();
    let mut first = CursorToolRuntime::new();
    let mut second = CursorToolRuntime::new();
    let call = task(r#"{"prompt":"inspect", "model":"child-model"}"#);

    let id1 = first.reserve_exec_stage(&mut ids, &call, "", ExecStage::Direct, 0).unwrap();
    let id2 = second.reserve_interaction(&mut ids, &call, 0).unwrap();
    assert_eq!(id1, 1);
    assert_eq!(id2, 2);

    assert!(first.exec_call(id1).is_some());
    assert!(first.exec_call(id2).is_none());
    assert!(second.exec_call(id1).is_none());
}

#[test]
fn ids_run_out_with_an_error() {
    let mut ids = IdSource { last: u32::MAX };
    let mut runtime = CursorToolRuntime::new();
    let error = runtime
        .reserve_exec_stage(&mut ids, &task("{}"), "", ExecStage::Direct, 0)
        .unwrap_err();
    assert_eq!(error.message(), "protocol error: Cursor message id space exhausted");
}

fn block_until(context: &ExecContext, call: &ToolCall) -> Option<u64> {
    context.prepare_call(call).unwrap().arguments.get("block_until_ms").unwrap().as_u64()
}

#[test]
fn shell_timeouts_are_clamped_without_affecting_background_execution() {
    let context = ExecContext::default();
    let oversized_shell =
        tool("shell-1", "Shell", r#"{"command": "cargo test", "block_until_ms": 7140000}"#);
    let oversized_await =
        tool("shell-1", "AwaitShell", r#"{"shell_id": "42", "block_until_ms": 7140000}"#);

    assert_eq!(block_until(&context, &oversized_shell), Some(MAX_SHELL_BLOCK_UNTIL_MS));
    assert_eq!(block_until(&context, &oversized_await), Some(MAX_SHELL_BLOCK_UNTIL_MS));

    let background_shell =
        tool("shell-1", "Shell", r#"{"command": "npm run dev", "block_until_ms": 0}"#);
    assert_eq!(block_until(&context, &background_shell), Some(0));
}

#[test]
fn prepared_calls_stay_prepared() {
    let context =
        ExecContext { default_subagent_model: "parent-model".into(), ..ExecContext::default() };
    let shell = tool("shell-1", "Shell", r#"{"command": "x", "block_until_ms": 7140000}"#);
    for call in [shell, task(r#"{"prompt":"inspect"}"#), tool("read-1", "Read", "{}")] {
        let once = context.prepare_call(&call).unwrap();
        let twice = context.prepare_call(&once).unwrap();
        assert!(twice.arguments.equals(&once.arguments));
        assert_eq!(twice.name, once.name);
    }
}

fn model(context: &ExecContext, call: &ToolCall) -> Option<String> {
    context.prepare_call(call).unwrap().arguments.get_str("model").map(str::to_owned)
}

#[test]
fn task_model_defaults_to_parent_and_honors_an_explicit_model() {
    let context =
        ExecContext { default_subagent_model: "parent-model".into(), ..ExecContext::default() };
    let inherited = model(&context, &task(r#"{"prompt":"inspect"}"#));
    let explicit = model(&context, &task(r#"{"prompt":"inspect", "model":"child-model"}"#));

    assert_eq!(inherited.unwrap(), "parent-model");
    assert_eq!(explicit.unwrap(), "child-model");
}

#[test]
fn global_subagent_model_applies_to_every_task_type() {
    let context = ExecContext {
        default_subagent_model: "parent-model".into(),
        subagent_model: Some(SubagentModel::Model("child-model".into())),
        ..ExecContext::default()
    };
    let call = task(r#"{"prompt":"inspect", "subagent_type":"test-subagent"}"#);

    assert_eq!(model(&context, &call).unwrap(), "child-model");
}

fn models(name: &str, model: SubagentModel) -> NameMap<SubagentModel> {
    let mut models = NameMap::new();
    models.insert(name.into(), model);
    models
}

#[test]
fn custom_subagent_model_and_named_override_take_precedence() {
    let context = ExecContext {
        default_subagent_model: "parent-model".into(),
        custom_subagents: vec![CustomSubagent {
            name: "advisor".into(),
            model: "advisor-model".into(),
            force_default_model: false,
        }],
        ..ExecContext::default()
    };
    let call = task(r#"{"prompt":"inspect", "subagent_type":"advisor"}"#);
    assert_eq!(model(&context, &call).unwrap(), "advisor-model");

    let context = ExecContext {
        subagent_models: models("explore", SubagentModel::Model("explore-model".into())),
        ..context
    };
    assert_eq!(model(&context, &call).unwrap(), "explore-model");

    let context = ExecContext {
        subagent_models: models("advisor", SubagentModel::Model("override-model".into())),
        ..context
    };
    assert_eq!(model(&context, &call).unwrap(), "override-model");
}

#[test]
fn disabled_named_subagent_is_not_prepared() {
    let context = ExecContext {
        subagent_models: models("advisor", SubagentModel::Disabled),
        ..ExecContext::default()
    };
    let call = task(r#"{"prompt":"inspect", "subagent_type":"advisor"}"#);
    assert!(context.task_disabled(&call));
    assert!(context.prepare_call(&call).unwrap().arguments.get("model").is_none());
}

#[test]
fn disabled_subagents_disable_every_task_type() {
    let context = ExecContext {
        default_subagent_model: "parent-model".into(),
        subagent_model: Some(SubagentModel::Disabled),
        ..ExecContext::default()
    };
    let call = task(r#"{"prompt":"inspect", "subagent_type":"test-subagent"}"#);

    assert!(context.task_disabled(&call));
    assert!(context.prepare_call(&call).unwrap().arguments.get("model").is_none());
}

#[test]
fn parses_git_log_records() {
    let records = parse_log_records("abc\u{1f}2026-09-11\u{1f}Ada\u{1f}feat: add search\n");
    assert_eq!(records.len(), 1);
    assert_eq!(records[0].get_str("commit"), Some("abc"));
    assert_eq!(records[0].get_str("subject"), Some("feat: add search"));
}

#[test]
fn formats_git_archaeology_pickaxe_for_model_readability() {
    let value = json::parse(
        r#"{
            "repository": "C:/repo",
            "operation": "pickaxe",
            "result": {
                "query": "tgrep",
                "commits": [{
                    "commit": "abc1234",
                    "date": "2026-09-11",
                    "author": "Ada",
                    "subject": "feat: add tgrep"
                }]
            },
            "still_unknown": "Commit messages may omit rationale."
        }"#,
    )
    .unwrap();
    let output = format_mcp_output(&value);
    assert!(output.contains("Git Archaeology: `pickaxe`"));
    assert!(output.contains("`abc1234` (2026-09-11) by **Ada**: feat: add tgrep"));
    assert!(!output.contains("\\u001f"));
}

#[test]
fn parses_grep_content_line_windows_and_posix() {
    let (file, line_num, content, is_ctx) =
        parse_grep_content_line(r"c:\path\to\file.rs:17:pub fn resolve() {").unwrap();
    assert_eq!(file, r"c:\path\to\file.rs");
    assert_eq!(line_num, 17);
    assert_eq!(content, "pub fn resolve() {");
    assert!(!is_ctx);

    let (file, line_num, content, is_ctx) =
        parse_grep_content_line(r"c:\path-with-dashes\file.rs-16-use foo;").unwrap();
    assert_eq!(file, r"c:\path-with-dashes\file.rs");
    assert_eq!(line_num, 16);
    assert_eq!(content, "use foo;");
    assert!(is_ctx);

    let (file, line_num, content, is_ctx) =
        parse_grep_content_line("src/main.rs:42:println!(\"hello\");").unwrap();
    assert_eq!(file, "src/main.rs");
    assert_eq!(line_num, 42);
    assert_eq!(content, "println!(\"hello\");");
    assert!(!is_ctx);
}

#[test]
fn parses_grep_output_to_success_populates_workspace_results() {
    let text = "src/lib.rs:10:fn foo() {}\nsrc/lib.rs:11:fn bar() {}\nsrc/main.rs:5:fn main() {}";
    let success = parse_grep_output_to_success("fn".into(), ".".into(), Some("content"), text);
    assert_eq!(success.pattern, "fn");
    assert_eq!(success.workspace_results.len(), 1);
    assert_eq!(success.workspace_results[0].0, "workspace");
    if let GrepUnionResult::Content { matches, total_matched_lines, .. } =
        &success.workspace_results[0].1
    {
        assert_eq!(matches.len(), 2);
        assert_eq!(*total_matched_lines, 3);
    } else {
        panic!("expected content result");
    }
}

#[test]
fn the_engine_that_the_user_wants_answers_a_search() {
    let call = named("Grep", r#"{"pattern": "needle"}"#);
    assert!(!asks_index(&call, None));
    assert!(!asks_index(&call, Some(GrepEngine::Ripgrep)));
    assert!(asks_index(&call, Some(GrepEngine::Tgrep)));
    assert!(asks_index(&call, Some(GrepEngine::Auto)));
    assert!(!asks_index(&named("Read", "{}"), Some(GrepEngine::Auto)));
}

#[test]
fn an_unreachable_server_settles_a_search_without_running_it() {
    assert!(matches!(
        start_search(ServerReadiness::Unhealthy, false),
        SearchStart::Settled(TgrepFailure::Unavailable)
    ));
    assert!(matches!(
        start_search(ServerReadiness::Unhealthy, true),
        SearchStart::Settled(TgrepFailure::Infrastructure { .. })
    ));
    assert!(matches!(
        start_search(ServerReadiness::Indexing, true),
        SearchStart::Run { force_no_index: true }
    ));
    assert!(matches!(
        start_search(ServerReadiness::Ready, true),
        SearchStart::Run { force_no_index: false }
    ));
}

#[test]
fn only_the_automatic_choice_falls_back() {
    let broken = TgrepOutcome::Failure(TgrepFailure::Unavailable);
    assert!(is_settled(GrepEngine::Tgrep, &broken));
    assert!(!is_settled(GrepEngine::Auto, &broken));
    assert!(is_settled(GrepEngine::Auto, &TgrepOutcome::NoMatch));
    let call = tool("tgrep-unavailable", "Grep", r#"{"pattern": "needle"}"#);
    let completion = local_tgrep_completion(&call, broken).unwrap();
    assert_eq!(completion.call_id, "tgrep-unavailable");
    assert!(completion.is_error);
    assert!(completion.content.contains("tgrep binary not found"));
    let completion = local_tgrep_completion(&call, TgrepOutcome::NoMatch).unwrap();
    assert!(!completion.is_error);
    assert!(completion.content.contains("No matches found"));
}

#[test]
fn numbers_at_the_ends_of_lines_are_added_up_in_count_mode_only() {
    let output = "log:1:at:2147483647\nlog:2:at:1\n";
    let call = named("Grep", r#"{"pattern": "1", "output_mode": "content"}"#);
    let completion = local_tgrep_completion(&call, TgrepOutcome::Match(output.into())).unwrap();
    let GrepOutcome::Success(success) = completion.outcome else {
        panic!("expected a success");
    };
    let GrepUnionResult::Content { matches, total_lines, .. } = &success.workspace_results[0].1
    else {
        panic!("expected content");
    };
    assert_eq!(matches.len(), 1);
    assert_eq!(matches[0].matches[0].content, "at:2147483647");
    assert_eq!(*total_lines, 2);
    let call = named("Grep", r#"{"pattern": "1", "output_mode": "count"}"#);
    assert!(local_tgrep_completion(&call, TgrepOutcome::Match(output.into())).is_none());
}

#[test]
fn auto_fallback_reserve_failure_returns_one_terminal_error_without_retry() {
    let call = tool("auto-reserve-failure", "Grep", r#"{"pattern": "needle"}"#);
    assert!(asks_index(&call, Some(GrepEngine::Auto)));
    let unavailable = TgrepOutcome::Failure(TgrepFailure::Unavailable);
    assert!(!is_settled(GrepEngine::Auto, &unavailable));
    let state = ToolBatchState {
        completed: Vec::new(),
        started: Vec::new(),
        response_text: String::new(),
        response_thinking: String::new(),
    };
    let mut schedule = EditSchedule::default();
    let dispatched = start_batch(&mut schedule, &vec![call], &vec![None], &state, &[]);
    assert_eq!(dispatched.len(), 1);
    let call = &dispatched[0].call;
    let taken = dispatch(call, false, &ExecContext::default()).unwrap();
    assert_eq!(taken.route, Route::Exec);

    let mut ids = IdSource { last: u32::MAX };
    let mut runtime = CursorToolRuntime::new();
    let start = start_exec(&mut runtime, &mut ids, call, "", ExecStage::Direct, 0);
    let ExecStart::Failed(result) = start else {
        panic!("expected a failure");
    };
    assert_eq!(result.call_id, "auto-reserve-failure");
    assert!(result.is_error);
    assert_eq!(result.content, "protocol error: Cursor message id space exhausted");
    assert!(runtime.running_exec_ids().is_empty());

    let mut ids = IdSource::new();
    let start = start_exec(&mut runtime, &mut ids, call, "", ExecStage::Direct, 0);
    assert!(matches!(start, ExecStart::Asked { id: 1 }));
}

fn edit_call(call_id: &str, path: &str) -> ToolCall {
    tool(call_id, "StrReplace", &format!(r#"{{"path":"{path}"}}"#))
}

#[test]
fn same_path_edits_start_one_at_a_time() {
    let mut schedule = EditSchedule::default();
    let calls = vec![
        edit_call("first", "/tmp/a.txt"),
        edit_call("second", "/tmp/a.txt"),
        edit_call("other", "/tmp/b.txt"),
    ];
    let paths =
        vec![Some("/tmp/a.txt".into()), Some("/tmp/a.txt".into()), Some("/tmp/b.txt".into())];
    let state = ToolBatchState {
        completed: vec![],
        started: vec![],
        response_text: String::new(),
        response_thinking: String::new(),
    };

    let dispatched = start_batch(&mut schedule, &calls, &paths, &state, &[]);

    assert_eq!(dispatched.len(), 2);
    assert_eq!(dispatched[0].call.call_id, "first");
    assert_eq!(dispatched[1].call.call_id, "other");
    assert_eq!(dispatched[1].message_index, 3);

    let second = schedule.complete("first").expect("second same-path edit should start");
    assert_eq!(second.call.call_id, "second");
    assert_eq!(second.message_index, 2);
    assert!(schedule.complete("second").is_none());
    assert!(schedule.complete("other").is_none());
}

#[test]
fn completed_calls_are_not_started_and_started_ones_not_announced() {
    let mut schedule = EditSchedule::default();
    let calls = vec![tool("a", "Read", "{}"), tool("b", "Read", "{}"), tool("c", "Read", "{}")];
    let state = ToolBatchState {
        completed: vec!["a".into()],
        started: vec!["b".into()],
        response_text: "text".into(),
        response_thinking: "thinking".into(),
    };
    let dispatched = start_batch(&mut schedule, &calls, &vec![None, None, None], &state, &[]);
    assert_eq!(dispatched.len(), 2);
    assert_eq!(dispatched[0].call.call_id, "b");
    assert!(!dispatched[0].publish_started);
    assert_eq!(dispatched[0].message_index, 4);
    assert!(dispatched[1].publish_started);
}

#[test]
fn an_edit_writes_once_its_file_was_read() {
    let mut ids = IdSource::new();
    let mut runtime = CursorToolRuntime::new();
    let call = edit_call("edit", "/tmp/a.txt");
    let id = runtime.reserve_exec_stage(&mut ids, &call, "", ExecStage::EditRead, 5).unwrap();
    let entry = runtime.take_exec(id).unwrap();
    let read = ExecMessage::Read(ReadOutcome::Content("left".into()));
    let step = advance_edit(&mut runtime, &mut ids, entry, &read, Ok(9)).unwrap();
    assert!(matches!(step, EditStep::Write { id: 2, ticket: 9 }));
    assert!(runtime.exec_call(2).is_some());

    let entry = runtime.take_exec(2).unwrap();
    let error = advance_edit(&mut runtime, &mut ids, entry, &ExecMessage::Other, Ok(9)).unwrap_err();
    assert_eq!(error.message(), "protocol error: expected ReadResult for edit tool StrReplace");
}

#[test]
fn mcp_routes_are_found_under_either_server_name() {

    let route = McpRoute {
        name: "user-github-search".into(),
        provider_identifier: "github".into(),
        server_identifier: "user-github".into(),
        tool_name: "search".into(),
        description: String::new(),
    };
    let context = ExecContext {
        mcp_routes: vec![McpRouteEntry { server: "user-github".into(), tool: "search".into(), route }],
        ..ExecContext::default()
    };
    let found = resolve_mcp(
        &named("CallMcpTool", r#"{"server":"github","toolName":"search"}"#),
        &context,
    );
    assert!(found.route.is_some());
    let missing = resolve_mcp(
        &named("CallMcpTool", r#"{"server":"github","toolName":"other"}"#),
        &context,
    );
    assert!(missing.route.is_none());
}
