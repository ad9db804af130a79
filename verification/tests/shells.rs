use cursor_server::cursor::tools::await_shell::{
    advance_await, recover_transport_closed, stream_closed, stream_closed_immediate, AwaitStep,
    StreamClosed,
};
use cursor_server::cursor::tools::response::{
    client_event, ClientExecEvent, ExecClientMessage, ExecMessage, ExecResult, ReadOutcome,
    ShellExit, ShellOutcome, ShellStreamEvent,
};
use cursor_server::cursor::tools::runtime::{
    is_pid_alive, BackgroundShells, CursorToolRuntime, IdSource,
};
use cursor_server::json;
use cursor_server::model::tool::ToolCall;

fn call(call_id: &str, name: &str, arguments: &str) -> ToolCall {
    ToolCall {
        index: 0,
        call_id: call_id.into(),
        model_call_id: "m".into(),
        name: name.into(),
        arguments_text: arguments.into(),
        arguments: json::parse(arguments).unwrap(),
    }
}

fn told(id: u32, event: ShellStreamEvent) -> ExecClientMessage {
    ExecClientMessage {
        id,
        exec_id: "exec".into(),
        message: Some(ExecMessage::ShellStream(Some(event))),
        local_execution_time_ms: None,
    }
}

fn exit(code: u32) -> ShellStreamEvent {
    ShellStreamEvent::Exit(ShellExit {
        code,
        cwd: "/work".into(),
        aborted: false,
        abort_reason: None,
        local_execution_time_ms: None,
    })
}

#[test]
fn a_shell_shows_its_output_and_then_its_end() {
    let mut ids = IdSource::new();
    let mut runtime = CursorToolRuntime::new();
    let mut shells = BackgroundShells::new();
    let shell = call("c", "Shell", r#"{"command":"ls"}"#);
    let id = runtime.reserve_exec(&mut ids, &shell, "", 0).unwrap();
    let output = told(id, ShellStreamEvent::Stdout { data: "hello".into() });
    let event = client_event(&output, &mut runtime, &mut shells).unwrap();
    assert!(matches!(event, ClientExecEvent::Delta { stdout: true, content, .. } if content == "hello"));
    let event = client_event(&told(id, exit(0)), &mut runtime, &mut shells).unwrap();
    let ClientExecEvent::Completed { entry, result } = event else {
        panic!("expected the end");
    };
    assert_eq!(entry.stdout, "hello");
    let ExecResult::Shell(result) = result else {
        panic!("expected a shell result");
    };
    assert!(matches!(result.outcome, ShellOutcome::Success { exit_code: 0, .. }));
    let again = client_event(&told(id, exit(0)), &mut runtime, &mut shells);
    assert!(again.is_err());
}

#[test]
fn a_shell_that_fails_says_so() {
    let mut ids = IdSource::new();
    let mut runtime = CursorToolRuntime::new();
    let mut shells = BackgroundShells::new();
    let shell = call("c", "Shell", r#"{"command":"false"}"#);
    let id = runtime.reserve_exec(&mut ids, &shell, "", 0).unwrap();
    let event = client_event(&told(id, exit(3)), &mut runtime, &mut shells).unwrap();
    let ClientExecEvent::Completed { result: ExecResult::Shell(result), .. } = event else {
        panic!("expected the end");
    };
    assert!(matches!(result.outcome, ShellOutcome::Failure { exit_code: 3, .. }));
}

#[test]
fn interrupted_calls_stay_silent() {
    let mut ids = IdSource::new();
    let mut runtime = CursorToolRuntime::new();
    let mut shells = BackgroundShells::new();
    let shell = call("c", "Shell", r#"{"command":"ls"}"#);
    let id = runtime.reserve_exec(&mut ids, &shell, "", 0).unwrap();
    assert_eq!(runtime.interrupt_for_run_replacement(), vec![id]);
    let event = client_event(&told(id, exit(0)), &mut runtime, &mut shells).unwrap();
    assert!(matches!(event, ClientExecEvent::Pending));
}

#[test]
fn a_stream_that_closes_fails_its_call() {
    let mut ids = IdSource::new();
    let mut runtime = CursorToolRuntime::new();
    let read = call("c", "Read", "{}");
    let id = runtime.reserve_exec(&mut ids, &read, "", 0).unwrap();
    let closed = stream_closed_immediate(id, &mut runtime);
    assert!(!matches!(closed, StreamClosed::Nothing));
    assert!(matches!(stream_closed_immediate(id, &mut runtime), StreamClosed::Nothing));
    assert!(matches!(stream_closed(99, &mut runtime), StreamClosed::Nothing));
    assert!(matches!(recover_transport_closed(99, &mut runtime), StreamClosed::Nothing));
}

#[test]
fn a_wait_ends_with_what_the_shell_printed_or_at_its_deadline() {
    let mut ids = IdSource::new();
    let mut runtime = CursorToolRuntime::new();
    let wait = call("c", "AwaitShell", r#"{"shell_id":"42","block_until_ms":1000,"pattern":"rea.y"}"#);
    let id = runtime.reserve_await(&mut ids, &wait, "/terminals", 0).unwrap();
    let entry = runtime.take_exec(id).unwrap();
    let quiet = ExecMessage::Read(ReadOutcome::Content("booting".into()));
    let step = advance_await(&entry, &quiet, &None, &None, true, 10).unwrap();
    assert!(matches!(step, AwaitStep::Again { .. }));
    let ready = ExecMessage::Read(ReadOutcome::Content("server ready".into()));
    let step = advance_await(&entry, &ready, &None, &None, true, 10).unwrap();
    assert!(matches!(step, AwaitStep::Done(_)));
    let step = advance_await(&entry, &quiet, &None, &None, true, 5_000).unwrap();
    assert!(matches!(step, AwaitStep::Done(_)));
    let nameless = call("d", "AwaitShell", "{}");
    assert!(runtime.reserve_await(&mut ids, &nameless, "/terminals", 0).is_err());
    assert!(advance_await(&entry, &ExecMessage::Other, &None, &None, true, 0).is_err());
}

#[test]
fn a_process_lives_where_it_can_be_signalled_or_belongs_to_another() {
    assert!(is_pid_alive(0, None, 1));
    assert!(is_pid_alive(-1, Some(1), 1));
    assert!(!is_pid_alive(-1, Some(3), 1));
}
