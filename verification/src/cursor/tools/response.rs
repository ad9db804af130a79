//! What the client's answers to tool calls mean.
use crate::cursor::tools::runtime;
use crate::cursor::tools::runtime::{
    BackgroundShellStatus, BackgroundShellView, BackgroundShells, BackgroundShellsView,
    CursorToolRuntime, ExecStage, ExecStageView, PendingExec, PendingExecView, RuntimeView,
};
use crate::data;
use crate::error::{Error, ErrorView};
use crate::text;
use vstd::prelude::*;

verus! {

/// The end of a shell.
#[derive(Debug)]
pub struct ShellExit {
    pub code: u32,
    pub cwd: String,
    pub aborted: bool,
    pub abort_reason: Option<i32>,
    pub local_execution_time_ms: Option<i32>,
}

/// A shell that went to the background.
#[derive(Debug)]
pub struct ShellBackgrounded {
    pub shell_id: u32,
    pub command: String,
    pub working_directory: String,
    pub pid: Option<u32>,
    pub ms_to_wait: Option<i32>,
    pub reason: Option<i32>,
}

/// What a running shell tells.
#[derive(Debug)]
pub enum ShellStreamEvent {
    Stdout { data: String },
    Stderr { data: String },
    Start,
    HookContext,
    Exit(ShellExit),
    Backgrounded(ShellBackgrounded),
    Rejected,
    PermissionDenied,
    SandboxUnsupported { command: String, working_directory: String, reason: String },
}

/// What reading a file came to.
#[derive(Debug)]
pub enum ReadOutcome {
    Content(String),
    FileNotFound,
    Error(String),
    Other,
}

/// What a client's message holds. What nothing here looks into is left with the caller.
#[derive(Debug)]
pub enum ExecMessage {
    ShellStream(Option<ShellStreamEvent>),
    Read(ReadOutcome),
    Other,
}

/// A client's message about a tool call.
#[derive(Debug)]
pub struct ExecClientMessage {
    pub id: u32,
    pub exec_id: String,
    pub message: Option<ExecMessage>,
    pub local_execution_time_ms: Option<i32>,
}

/// How a shell call ended.
#[derive(Debug)]
pub enum ShellOutcome {
    Success {
        command: String,
        working_directory: String,
        exit_code: i32,
        stdout: String,
        stderr: String,
        interleaved_output: String,
        shell_id: Option<u32>,
        pid: Option<u32>,
        ms_to_wait: Option<i32>,
        background_reason: Option<i32>,
        local_execution_time_ms: Option<i32>,
    },
    Failure {
        working_directory: String,
        exit_code: i32,
        stdout: String,
        stderr: String,
        interleaved_output: String,
        abort_reason: Option<i32>,
        aborted: bool,
        local_execution_time_ms: Option<i32>,
    },
    /// The user refused; the message says more.
    Rejected,
    /// A rule refused; the message says more.
    PermissionDenied,
    SpawnError { command: String, working_directory: String, error: String },
}

#[verifier::ext_equal]
pub enum ShellOutcomeView {
    Success {
        command: Seq<char>,
        working_directory: Seq<char>,
        exit_code: i32,
        stdout: Seq<char>,
        stderr: Seq<char>,
        interleaved_output: Seq<char>,
        shell_id: Option<u32>,
        pid: Option<u32>,
        ms_to_wait: Option<i32>,
        background_reason: Option<i32>,
        local_execution_time_ms: Option<i32>,
    },
    Failure {
        working_directory: Seq<char>,
        exit_code: i32,
        stdout: Seq<char>,
        stderr: Seq<char>,
        interleaved_output: Seq<char>,
        abort_reason: Option<i32>,
        aborted: bool,
        local_execution_time_ms: Option<i32>,
    },
    Rejected,
    PermissionDenied,
    SpawnError { command: Seq<char>, working_directory: Seq<char>, error: Seq<char> },
}

impl View for ShellOutcome {
    type V = ShellOutcomeView;

    open spec fn view(&self) -> ShellOutcomeView {
        match self {
            ShellOutcome::Success {
                command,
                working_directory,
                exit_code,
                stdout,
                stderr,
                interleaved_output,
                shell_id,
                pid,
                ms_to_wait,
                background_reason,
                local_execution_time_ms,
            } => ShellOutcomeView::Success {
                command: command@,
                working_directory: working_directory@,
                exit_code: *exit_code,
                stdout: stdout@,
                stderr: stderr@,
                interleaved_output: interleaved_output@,
                shell_id: *shell_id,
                pid: *pid,
                ms_to_wait: *ms_to_wait,
                background_reason: *background_reason,
                local_execution_time_ms: *local_execution_time_ms,
            },
            ShellOutcome::Failure {
                working_directory,
                exit_code,
                stdout,
                stderr,
                interleaved_output,
                abort_reason,
                aborted,
                local_execution_time_ms,
            } => ShellOutcomeView::Failure {
                working_directory: working_directory@,
                exit_code: *exit_code,
                stdout: stdout@,
                stderr: stderr@,
                interleaved_output: interleaved_output@,
                abort_reason: *abort_reason,
                aborted: *aborted,
                local_execution_time_ms: *local_execution_time_ms,
            },
            ShellOutcome::Rejected => ShellOutcomeView::Rejected,
            ShellOutcome::PermissionDenied => ShellOutcomeView::PermissionDenied,
            ShellOutcome::SpawnError {
                command,
                working_directory,
                error,
            } => ShellOutcomeView::SpawnError {
                command: command@,
                working_directory: working_directory@,
                error: error@,
            },
        }
    }
}

/// The result of a shell call.
#[derive(Debug)]
pub struct ShellResult {
    pub outcome: ShellOutcome,
    pub is_background: Option<bool>,
    pub terminals_folder: Option<String>,
    pub pid: Option<u32>,
}

#[verifier::ext_equal]
pub struct ShellResultView {
    pub outcome: ShellOutcomeView,
    pub is_background: Option<bool>,
    pub terminals_folder: Option<Seq<char>>,
    pub pid: Option<u32>,
}

impl View for ShellResult {
    type V = ShellResultView;

    open spec fn view(&self) -> ShellResultView {
        ShellResultView {
            outcome: self.outcome@,
            is_background: self.is_background,
            terminals_folder: data::option_view(self.terminals_folder),
            pid: self.pid,
        }
    }
}

/// The result of a tool call: the client's message as it came, or what a shell came to.
#[derive(Debug)]
pub enum ExecResult {
    Message,
    Shell(ShellResult),
}

#[verifier::ext_equal]
pub enum ExecResultView {
    Message,
    Shell(ShellResultView),
}

impl View for ExecResult {
    type V = ExecResultView;

    open spec fn view(&self) -> ExecResultView {
        match self {
            ExecResult::Message => ExecResultView::Message,
            ExecResult::Shell(result) => ExecResultView::Shell(result@),
        }
    }
}

/// What a client's message means for a tool call.
#[derive(Debug)]
pub enum ClientExecEvent {
    /// Output to show.
    Delta { call_id: String, model_call_id: String, stdout: bool, content: String },
    /// The call is answered.
    Completed { entry: PendingExec, result: ExecResult },
    /// The file that an edit starts from was read.
    EditRead(PendingExec),
    /// The output of a shell that is waited for was read.
    AwaitRead(PendingExec),
    /// Nothing yet.
    Pending,
}

#[verifier::ext_equal]
pub enum ClientExecEventView {
    Delta { call_id: Seq<char>, model_call_id: Seq<char>, stdout: bool, content: Seq<char> },
    Completed { entry: PendingExecView, result: ExecResultView },
    EditRead(PendingExecView),
    AwaitRead(PendingExecView),
    Pending,
}

impl View for ClientExecEvent {
    type V = ClientExecEventView;

    open spec fn view(&self) -> ClientExecEventView {
        match self {
            ClientExecEvent::Delta {
                call_id,
                model_call_id,
                stdout,
                content,
            } => ClientExecEventView::Delta {
                call_id: call_id@,
                model_call_id: model_call_id@,
                stdout: *stdout,
                content: content@,
            },
            ClientExecEvent::Completed { entry, result } => ClientExecEventView::Completed {
                entry: entry@,
                result: result@,
            },
            ClientExecEvent::EditRead(entry) => ClientExecEventView::EditRead(entry@),
            ClientExecEvent::AwaitRead(entry) => ClientExecEventView::AwaitRead(entry@),
            ClientExecEvent::Pending => ClientExecEventView::Pending,
        }
    }
}

/// Whether a message ends its call.
pub open spec fn ends_call(message: ExecMessage) -> bool {
    match message {
        ExecMessage::ShellStream(event) => match event {
            Some(ShellStreamEvent::Exit(_))
            | Some(ShellStreamEvent::Backgrounded(_))
            | Some(ShellStreamEvent::Rejected)
            | Some(ShellStreamEvent::PermissionDenied)
            | Some(ShellStreamEvent::SandboxUnsupported { .. }) => true,
            _ => false,
        },
        _ => true,
    }
}

fn is_terminal(message: &ExecMessage) -> (r: bool)
    ensures
        r == ends_call(*message),
{
    match message {
        ExecMessage::ShellStream(event) => match event {
            Some(ShellStreamEvent::Exit(_))
            | Some(ShellStreamEvent::Backgrounded(_))
            | Some(ShellStreamEvent::Rejected)
            | Some(ShellStreamEvent::PermissionDenied)
            | Some(ShellStreamEvent::SandboxUnsupported { .. }) => true,
            _ => false,
        },
        _ => true,
    }
}

/// An exit code as the protocol writes it: the 32 bits read as a signed number.
pub open spec fn exit_code(code: u32) -> i32 {
    code as i32
}

/// The result of a shell that has ended, with what it wrote.
pub open spec fn exit_result(
    exit: ShellExit,
    stdout: Seq<char>,
    stderr: Seq<char>,
    message_time_ms: Option<i32>,
) -> ShellResultView {
    let local_execution_time_ms = match exit.local_execution_time_ms {
        Some(ms) => Some(ms),
        None => message_time_ms,
    };
    ShellResultView {
        outcome: if exit.code == 0 && !exit.aborted {
            ShellOutcomeView::Success {
                command: Seq::empty(),
                working_directory: exit.cwd@,
                exit_code: exit_code(exit.code),
                stdout,
                stderr,
                interleaved_output: stdout + stderr,
                shell_id: None,
                pid: None,
                ms_to_wait: None,
                background_reason: None,
                local_execution_time_ms,
            }
        } else {
            ShellOutcomeView::Failure {
                working_directory: exit.cwd@,
                exit_code: exit_code(exit.code),
                stdout,
                stderr,
                interleaved_output: stdout + stderr,
                abort_reason: exit.abort_reason,
                aborted: exit.aborted,
                local_execution_time_ms,
            }
        },
        is_background: Some(false),
        terminals_folder: None,
        pid: None,
    }
}

fn shell_exit_result(
    exit: &ShellExit,
    stdout: &str,
    stderr: &str,
    message_time_ms: Option<i32>,
) -> (r: ShellResult)
    ensures
        r@ == exit_result(*exit, stdout@, stderr@, message_time_ms),
{
    let local_execution_time_ms = match exit.local_execution_time_ms {
        Some(ms) => Some(ms),
        None => message_time_ms,
    };
    let code: i32 = exit.code as i32;
    let outcome = if exit.code == 0 && !exit.aborted {
        ShellOutcome::Success {
            command: String::new(),
            working_directory: exit.cwd.clone(),
            exit_code: code,
            stdout: stdout.to_owned(),
            stderr: stderr.to_owned(),
            interleaved_output: text::concat(stdout, stderr),
            shell_id: None,
            pid: None,
            ms_to_wait: None,
            background_reason: None,
            local_execution_time_ms,
        }
    } else {
        ShellOutcome::Failure {
            working_directory: exit.cwd.clone(),
            exit_code: code,
            stdout: stdout.to_owned(),
            stderr: stderr.to_owned(),
            interleaved_output: text::concat(stdout, stderr),
            abort_reason: exit.abort_reason,
            aborted: exit.aborted,
            local_execution_time_ms,
        }
    };
    ShellResult { outcome, is_background: Some(false), terminals_folder: None, pid: None }
}

/// The result of a shell that went to the background, with what it had written.
pub open spec fn backgrounded_result(
    backgrounded: ShellBackgrounded,
    stdout: Seq<char>,
    stderr: Seq<char>,
    terminals_folder: Seq<char>,
) -> ShellResultView {
    ShellResultView {
        outcome: ShellOutcomeView::Success {
            command: backgrounded.command@,
            working_directory: backgrounded.working_directory@,
            exit_code: 0,
            stdout,
            stderr,
            interleaved_output: stdout + stderr,
            shell_id: Some(backgrounded.shell_id),
            pid: backgrounded.pid,
            ms_to_wait: backgrounded.ms_to_wait,
            background_reason: backgrounded.reason,
            local_execution_time_ms: None,
        },
        is_background: Some(true),
        terminals_folder: if terminals_folder.len() == 0 {
            None
        } else {
            Some(terminals_folder)
        },
        pid: backgrounded.pid,
    }
}

fn shell_backgrounded_result(
    backgrounded: &ShellBackgrounded,
    stdout: &str,
    stderr: &str,
    terminals_folder: &str,
) -> (r: ShellResult)
    ensures
        r@ == backgrounded_result(*backgrounded, stdout@, stderr@, terminals_folder@),
{
    let folder = if terminals_folder.is_empty() {
        None
    } else {
        Some(terminals_folder.to_owned())
    };
    ShellResult {
        outcome: ShellOutcome::Success {
            command: backgrounded.command.clone(),
            working_directory: backgrounded.working_directory.clone(),
            exit_code: 0,
            stdout: stdout.to_owned(),
            stderr: stderr.to_owned(),
            interleaved_output: text::concat(stdout, stderr),
            shell_id: Some(backgrounded.shell_id),
            pid: backgrounded.pid,
            ms_to_wait: backgrounded.ms_to_wait,
            background_reason: backgrounded.reason,
            local_execution_time_ms: None,
        },
        is_background: Some(true),
        terminals_folder: folder,
        pid: backgrounded.pid,
    }
}

/// A shell result that has nothing but an outcome.
pub open spec fn bare_result(outcome: ShellOutcomeView) -> ShellResultView {
    ShellResultView { outcome, is_background: None, terminals_folder: None, pid: None }
}

/// What a message about a shell in the background does to what is known of the shell.
pub open spec fn background_event(
    shells: BackgroundShellsView,
    shell_id: Seq<char>,
    message: Option<ExecMessage>,
) -> BackgroundShellsView {
    let shell = shells.shell(shell_id);
    match message {
        Some(ExecMessage::ShellStream(Some(ShellStreamEvent::Stdout { data }))) => {
            shells.with_shell(shell_id, shell.with_stdout(data@))
        },
        Some(ExecMessage::ShellStream(Some(ShellStreamEvent::Stderr { data }))) => {
            shells.with_shell(shell_id, shell.with_stderr(data@))
        },
        Some(ExecMessage::ShellStream(Some(ShellStreamEvent::Exit(exit)))) => {
            shells.with_shell(shell_id, shell.exited(exit_code(exit.code)))
        },
        Some(ExecMessage::ShellStream(Some(ShellStreamEvent::Rejected))) => {
            shells.with_shell(
                shell_id,
                BackgroundShellView { status: BackgroundShellStatus::Rejected, ..shell },
            )
        },
        Some(ExecMessage::ShellStream(Some(ShellStreamEvent::PermissionDenied))) => {
            shells.with_shell(
                shell_id,
                BackgroundShellView { status: BackgroundShellStatus::PermissionDenied, ..shell },
            )
        },
        _ => shells,
    }
}

fn background_shell_event(
    message: &ExecClientMessage,
    shell_id: &str,
    shells: &mut BackgroundShells,
)
    requires
        old(shells).wf(),
    ensures
        final(shells).wf(),
        final(shells)@ == background_event(old(shells)@, shell_id@, message.message),
{
    let event = match &message.message {
        Some(ExecMessage::ShellStream(Some(event))) => event,
        _ => {
            return ;
        },
    };
    match event {
        ShellStreamEvent::Stdout { data } => {
            shells.background_shell_stdout(shell_id, data.as_str());
        },
        ShellStreamEvent::Stderr { data } => {
            shells.background_shell_stderr(shell_id, data.as_str());
        },
        ShellStreamEvent::Exit(exit) => {
            shells.background_shell_exit(shell_id, exit.code as i32);
        },
        ShellStreamEvent::Rejected => {
            shells.background_shell_terminal(shell_id, BackgroundShellStatus::Rejected);
        },
        ShellStreamEvent::PermissionDenied => {
            shells.background_shell_terminal(shell_id, BackgroundShellStatus::PermissionDenied);
        },
        _ => {},
    }
}

/// What is known of running calls and of shells in the background.
#[verifier::ext_equal]
pub struct ExecStateView {
    pub runtime: RuntimeView,
    pub shells: BackgroundShellsView,
}

/// What a message means, and what is known after it.
pub type ExecStepView = (ExecStateView, Result<ClientExecEventView, ErrorView>);

impl ExecStateView {
    /// The step that answers the call.
    pub open spec fn completes(self, id: u32, result: ExecResultView) -> ExecStepView {
        (
            ExecStateView { runtime: self.runtime.without_exec(id), ..self },
            Ok(ClientExecEventView::Completed { entry: self.runtime.execs[id], result }),
        )
    }

    /// The state after output of a call whose shell may be in the background.
    pub open spec fn with_output(self, id: u32, exec_id: Seq<char>, stdout: bool, data: Seq<char>) -> Self {
        let entry = self.runtime.execs[id];
        let extended = if stdout {
            PendingExecView { stdout: entry.stdout + data, ..entry }
        } else {
            PendingExecView { stderr: entry.stderr + data, ..entry }
        };
        ExecStateView {
            runtime: RuntimeView { execs: self.runtime.execs.insert(id, extended), ..self.runtime },
            shells: match runtime::lookup(self.shells.by_exec, exec_id) {
                Some(shell_id) => self.shells.with_shell(
                    shell_id,
                    if stdout {
                        self.shells.shell(shell_id).with_stdout(data)
                    } else {
                        self.shells.shell(shell_id).with_stderr(data)
                    },
                ),
                None => self.shells,
            },
        }
    }

    /// The step on an event of the shell that runs under this id.
    pub open spec fn shell_event(
        self,
        message: ExecClientMessage,
        event: Option<ShellStreamEvent>,
    ) -> ExecStepView {
        let id = message.id;
        let entry = self.runtime.execs[id];
        match event {
            Some(ShellStreamEvent::Stdout { data }) => (
                self.with_output(id, message.exec_id@, true, data@),
                Ok(
                    ClientExecEventView::Delta {
                        call_id: entry.call.call_id,
                        model_call_id: entry.call.model_call_id,
                        stdout: true,
                        content: data@,
                    },
                ),
            ),
            Some(ShellStreamEvent::Stderr { data }) => (
                self.with_output(id, message.exec_id@, false, data@),
                Ok(
                    ClientExecEventView::Delta {
                        call_id: entry.call.call_id,
                        model_call_id: entry.call.model_call_id,
                        stdout: false,
                        content: data@,
                    },
                ),
            ),
            Some(ShellStreamEvent::Exit(exit)) => {
                let noted = match runtime::lookup(self.shells.by_exec, message.exec_id@) {
                    Some(shell_id) => ExecStateView {
                        shells: self.shells.with_shell(
                            shell_id,
                            self.shells.shell(shell_id).exited(exit_code(exit.code)),
                        ),
                        ..self
                    },
                    None => self,
                };
                noted.completes(
                    id,
                    ExecResultView::Shell(
                        exit_result(
                            exit,
                            entry.stdout,
                            entry.stderr,
                            message.local_execution_time_ms,
                        ),
                    ),
                )
            },
            Some(ShellStreamEvent::Backgrounded(backgrounded)) => {
                let name = text::decimal(backgrounded.shell_id as nat);
                let noted = ExecStateView {
                    shells: BackgroundShellsView {
                        shells: if self.shells.shells.contains_key(name) {
                            self.shells.shells
                        } else {
                            self.shells.shells.insert(
                                name,
                                BackgroundShellView {
                                    shell_id: name,
                                    pid: backgrounded.pid,
                                    status: BackgroundShellStatus::Backgrounded,
                                    stdout: entry.stdout,
                                    stderr: entry.stderr,
                                    exit_code: None,
                                },
                            )
                        },
                        by_exec: self.shells.by_exec.insert(message.exec_id@, name),
                        by_message: self.shells.by_message.insert(id, name),
                    },
                    ..self
                };
                noted.completes(
                    id,
                    ExecResultView::Shell(
                        backgrounded_result(
                            backgrounded,
                            entry.stdout,
                            entry.stderr,
                            entry.terminals_folder,
                        ),
                    ),
                )
            },
            Some(ShellStreamEvent::Rejected) => self.completes(
                id,
                ExecResultView::Shell(bare_result(ShellOutcomeView::Rejected)),
            ),
            Some(ShellStreamEvent::PermissionDenied) => self.completes(
                id,
                ExecResultView::Shell(bare_result(ShellOutcomeView::PermissionDenied)),
            ),
            Some(
                ShellStreamEvent::SandboxUnsupported { command, working_directory, reason },
            ) => self.completes(
                id,
                ExecResultView::Shell(
                    bare_result(
                        ShellOutcomeView::SpawnError {
                            command: command@,
                            working_directory: working_directory@,
                            error: reason@,
                        },
                    ),
                ),
            ),
            _ => (self, Ok(ClientExecEventView::Pending)),
        }
    }

    /// The step on a message about a call that is running.
    pub open spec fn running_event(self, message: ExecClientMessage) -> ExecStepView {
        let entry = self.runtime.execs[message.id];
        match message.message {
            None => (self, Ok(ClientExecEventView::Pending)),
            Some(ExecMessage::ShellStream(event)) => self.shell_event(message, event),
            Some(_) => {
                let taken = ExecStateView { runtime: self.runtime.without_exec(message.id), ..self };
                match entry.stage {
                    ExecStageView::EditRead => (taken, Ok(ClientExecEventView::EditRead(entry))),
                    ExecStageView::Await(_) => (taken, Ok(ClientExecEventView::AwaitRead(entry))),
                    _ => self.completes(message.id, ExecResultView::Message),
                }
            },
        }
    }

    /// The step on a message of the client.
    pub open spec fn client_event(self, message: ExecClientMessage) -> ExecStepView {
        let id = message.id;
        if self.runtime.interrupted.contains(id) {
            if message.message matches Some(m) && ends_call(m) {
                (
                    ExecStateView {
                        runtime: RuntimeView {
                            execs: self.runtime.execs.remove(id),
                            ..self.runtime
                        },
                        ..self
                    },
                    Ok(ClientExecEventView::Pending),
                )
            } else {
                (self, Ok(ClientExecEventView::Pending))
            }
        } else if self.runtime.execs.contains_key(id) {
            self.running_event(message)
        } else {
            match self.shells.for_event(id, message.exec_id@) {
                Some(shell_id) => (
                    ExecStateView {
                        shells: background_event(self.shells, shell_id, message.message),
                        ..self
                    },
                    Ok(ClientExecEventView::Pending),
                ),
                None => (
                    self,
                    Err(
                        ErrorView::Protocol(
                            (if self.runtime.completed.contains_key(id) {
                                "duplicate terminal ExecClientMessage id: "@
                            } else {
                                "unknown ExecClientMessage id: "@
                            }) + text::decimal(id as nat),
                        ),
                    ),
                ),
            }
        }
    }
}

/// What is known of running calls and of shells in the background.
pub open spec fn exec_state(runtime: CursorToolRuntime, shells: BackgroundShells) -> ExecStateView {
    ExecStateView { runtime: runtime@, shells: shells@ }
}

fn complete(runtime: &mut CursorToolRuntime, id: u32, result: ExecResult) -> (r: Result<
    ClientExecEvent,
    Error,
>)
    requires
        old(runtime).wf(),
        old(runtime)@.execs.contains_key(id),
    ensures
        final(runtime).wf(),
        final(runtime)@ == old(runtime)@.without_exec(id),
        crate::error::result_view(r) == Ok::<ClientExecEventView, ErrorView>(
            ClientExecEventView::Completed { entry: old(runtime)@.execs[id], result: result@ },
        ),
{
    match runtime.take_exec(id) {
        Some(entry) => Ok(ClientExecEvent::Completed { entry, result }),
        None => Err(
            Error::Protocol(
                text::concat(
                    "unknown terminal Exec id: ",
                    text::decimal_u64(id as u64).as_str(),
                ),
            ),
        ),
    }
}

fn shell_output(
    message: &ExecClientMessage,
    stdout: bool,
    data: &str,
    runtime: &mut CursorToolRuntime,
    shells: &mut BackgroundShells,
) -> (r: Result<ClientExecEvent, Error>)
    requires
        old(runtime).wf(),
        old(shells).wf(),
        old(runtime)@.execs.contains_key(message.id),
    ensures
        final(runtime).wf(),
        final(shells).wf(),
        exec_state(*final(runtime), *final(shells)) == exec_state(
            *old(runtime),
            *old(shells),
        ).with_output(message.id, message.exec_id@, stdout, data@),
        crate::error::result_view(r) == Ok::<ClientExecEventView, ErrorView>(
            ClientExecEventView::Delta {
                call_id: old(runtime)@.execs[message.id].call.call_id,
                model_call_id: old(runtime)@.execs[message.id].call.model_call_id,
                stdout,
                content: data@,
            },
        ),
{
    let call = match runtime.exec_call(message.id) {
        Some(call) => call,
        None => {
            return Ok(ClientExecEvent::Pending);
        },
    };
    let shell = shells.background_shell_for_exec(message.exec_id.as_str());
    if stdout {
        let _ = runtime.append_stdout(message.id, data);
        if let Some(shell_id) = shell {
            shells.background_shell_stdout(shell_id.as_str(), data);
        }
    } else {
        let _ = runtime.append_stderr(message.id, data);
        if let Some(shell_id) = shell {
            shells.background_shell_stderr(shell_id.as_str(), data);
        }
    }
    Ok(
        ClientExecEvent::Delta {
            call_id: call.call_id,
            model_call_id: call.model_call_id,
            stdout,
            content: data.to_owned(),
        },
    )
}

fn shell_event(
    message: &ExecClientMessage,
    event: &Option<ShellStreamEvent>,
    runtime: &mut CursorToolRuntime,
    shells: &mut BackgroundShells,
) -> (r: Result<ClientExecEvent, Error>)
    requires
        old(runtime).wf(),
        old(shells).wf(),
        old(runtime)@.execs.contains_key(message.id),
    ensures
        final(runtime).wf(),
        final(shells).wf(),
        (exec_state(*final(runtime), *final(shells)), crate::error::result_view(r)) == exec_state(
            *old(runtime),
            *old(shells),
        ).shell_event(*message, *event),
{
    let id = message.id;
    match event {
        Some(ShellStreamEvent::Stdout { data }) => shell_output(
            message,
            true,
            data.as_str(),
            runtime,
            shells,
        ),
        Some(ShellStreamEvent::Stderr { data }) => shell_output(
            message,
            false,
            data.as_str(),
            runtime,
            shells,
        ),
        Some(ShellStreamEvent::Exit(exit)) => {
            if let Some(shell_id) = shells.background_shell_for_exec(message.exec_id.as_str()) {
                shells.background_shell_exit(shell_id.as_str(), exit.code as i32);
            }
            match runtime.take_exec(id) {
                Some(entry) => {
                    let result = shell_exit_result(
                        exit,
                        entry.stdout.as_str(),
                        entry.stderr.as_str(),
                        message.local_execution_time_ms,
                    );
                    Ok(ClientExecEvent::Completed { entry, result: ExecResult::Shell(result) })
                },
                None => Ok(ClientExecEvent::Pending),
            }
        },
        Some(ShellStreamEvent::Backgrounded(backgrounded)) => {
            match runtime.take_exec(id) {
                Some(entry) => {
                    shells.background_shell_backgrounded(
                        backgrounded.shell_id,
                        backgrounded.pid,
                        id,
                        message.exec_id.as_str(),
                        entry.stdout.clone(),
                        entry.stderr.clone(),
                    );
                    let result = shell_backgrounded_result(
                        backgrounded,
                        entry.stdout.as_str(),
                        entry.stderr.as_str(),
                        entry.terminals_folder.as_str(),
                    );
                    Ok(ClientExecEvent::Completed { entry, result: ExecResult::Shell(result) })
                },
                None => Ok(ClientExecEvent::Pending),
            }
        },
        Some(ShellStreamEvent::Rejected) => complete(
            runtime,
            id,
            ExecResult::Shell(
                ShellResult {
                    outcome: ShellOutcome::Rejected,
                    is_background: None,
                    terminals_folder: None,
                    pid: None,
                },
            ),
        ),
        Some(ShellStreamEvent::PermissionDenied) => complete(
            runtime,
            id,
            ExecResult::Shell(
                ShellResult {
                    outcome: ShellOutcome::PermissionDenied,
                    is_background: None,
                    terminals_folder: None,
                    pid: None,
                },
            ),
        ),
        Some(
            ShellStreamEvent::SandboxUnsupported { command, working_directory, reason },
        ) => complete(
            runtime,
            id,
            ExecResult::Shell(
                ShellResult {
                    outcome: ShellOutcome::SpawnError {
                        command: command.clone(),
                        working_directory: working_directory.clone(),
                        error: reason.clone(),
                    },
                    is_background: None,
                    terminals_folder: None,
                    pid: None,
                },
            ),
        ),
        Some(ShellStreamEvent::Start) | Some(ShellStreamEvent::HookContext) | None => Ok(
            ClientExecEvent::Pending,
        ),
    }
}

/// What a client's message means: output to show, an answered call, something that was read, or
/// nothing yet. A message about no call and no shell that is known is refused.
pub fn client_event(
    message: &ExecClientMessage,
    runtime: &mut CursorToolRuntime,
    shells: &mut BackgroundShells,
) -> (r: Result<ClientExecEvent, Error>)
    requires
        old(runtime).wf(),
        old(shells).wf(),
    ensures
        final(runtime).wf(),
        final(shells).wf(),
        (exec_state(*final(runtime), *final(shells)), crate::error::result_view(r)) == exec_state(
            *old(runtime),
            *old(shells),
        ).client_event(*message),
{
    let id = message.id;
    if runtime.is_interrupted(id) {
        let terminal = match &message.message {
            Some(m) => is_terminal(m),
            None => false,
        };
        if terminal {
            runtime.discard_exec(id);
        }
        return Ok(ClientExecEvent::Pending);
    }
    if runtime.exec_call(id).is_none() {
        if let Some(shell_id) = shells.background_shell_for_event(id, message.exec_id.as_str()) {
            background_shell_event(message, shell_id.as_str(), shells);
            return Ok(ClientExecEvent::Pending);
        }
        let number = text::decimal_u64(id as u64);
        if runtime.completed_call(id).is_some() {
            return Err(
                Error::Protocol(
                    text::concat("duplicate terminal ExecClientMessage id: ", number.as_str()),
                ),
            );
        }
        return Err(
            Error::Protocol(text::concat("unknown ExecClientMessage id: ", number.as_str())),
        );
    }
    match &message.message {
        None => Ok(ClientExecEvent::Pending),
        Some(ExecMessage::ShellStream(event)) => shell_event(message, event, runtime, shells),
        Some(_) => match runtime.take_exec(id) {
            Some(entry) => {
                let (edits, awaits) = match &entry.stage {
                    ExecStage::EditRead => (true, false),
                    ExecStage::Await(_) => (false, true),
                    _ => (false, false),
                };
                if edits {
                    Ok(ClientExecEvent::EditRead(entry))
                } else if awaits {
                    Ok(ClientExecEvent::AwaitRead(entry))
                } else {
                    Ok(ClientExecEvent::Completed { entry, result: ExecResult::Message })
                }
            },
            None => Ok(ClientExecEvent::Pending),
        },
    }
}

/// A call that was interrupted is never answered, shown or refused.
pub proof fn law_interrupted_calls_stay_silent(state: ExecStateView, message: ExecClientMessage)
    requires
        state.runtime.interrupted.contains(message.id),
    ensures
        state.client_event(message).1 == Ok::<ClientExecEventView, ErrorView>(
            ClientExecEventView::Pending,
        ),
        state.client_event(message).0.shells == state.shells,
        state.client_event(message).0.runtime.completed == state.runtime.completed,
{
}

/// A call is answered at most once: after an answer, another answer under the same id is refused,
/// unless a shell in the background goes by that id or by that execution.
pub proof fn law_second_answer_is_refused(
    state: ExecStateView,
    first: ExecClientMessage,
    second: ExecClientMessage,
)
    requires
        first.id == second.id,
        !state.runtime.interrupted.contains(first.id),
        state.client_event(first).1 matches Ok(event) && event is Completed,
        state.client_event(first).0.shells.for_event(second.id, second.exec_id@) is None,
    ensures
        state.client_event(first).0.client_event(second).1 == Err::<ClientExecEventView, ErrorView>(
            ErrorView::Protocol(
                "duplicate terminal ExecClientMessage id: "@ + text::decimal(first.id as nat),
            ),
        ),
{
}

/// What is known after some messages, one after the other.
pub open spec fn after_messages(state: ExecStateView, messages: Seq<ExecClientMessage>) -> ExecStateView
    decreases messages.len(),
{
    if messages.len() == 0 {
        state
    } else {
        after_messages(state, messages.drop_last()).client_event(messages.last()).0
    }
}

/// What a message says that the shell wrote to its output.
pub open spec fn printed_in(message: ExecClientMessage) -> Seq<char> {
    match message.message {
        Some(ExecMessage::ShellStream(Some(ShellStreamEvent::Stdout { data }))) => data@,
        _ => Seq::empty(),
    }
}

/// What a message says that the shell wrote to its error output.
pub open spec fn complained_in(message: ExecClientMessage) -> Seq<char> {
    match message.message {
        Some(ExecMessage::ShellStream(Some(ShellStreamEvent::Stderr { data }))) => data@,
        _ => Seq::empty(),
    }
}

/// Whether a message tells of a shell that goes on under this id.
pub open spec fn shell_goes_on(message: ExecClientMessage, id: u32) -> bool {
    message.id == id && match message.message {
        None => true,
        Some(ExecMessage::ShellStream(None)) => true,
        Some(ExecMessage::ShellStream(Some(event))) => event is Stdout || event is Stderr
            || event is Start || event is HookContext,
        _ => false,
    }
}

proof fn lemma_output_is_collected(
    state: ExecStateView,
    id: u32,
    messages: Seq<ExecClientMessage>,
)
    requires
        state.runtime.execs.contains_key(id),
        !state.runtime.interrupted.contains(id),
        forall|i: int| 0 <= i < messages.len() ==> shell_goes_on(#[trigger] messages[i], id),
    ensures
        ({
            let after = after_messages(state, messages);
            let before = state.runtime.execs[id];
            let now = after.runtime.execs[id];
            &&& after.runtime.execs.contains_key(id)
            &&& !after.runtime.interrupted.contains(id)
            &&& now.stdout == before.stdout + messages.map_values(
                |m: ExecClientMessage| printed_in(m),
            ).flatten()
            &&& now.stderr == before.stderr + messages.map_values(
                |m: ExecClientMessage| complained_in(m),
            ).flatten()
            &&& now.call == before.call
            &&& now.terminals_folder == before.terminals_folder
            &&& now.started_at_ms == before.started_at_ms
            &&& now.stage == before.stage
            &&& forall|other: u32|
                other != id ==> (#[trigger] after.runtime.execs.contains_key(other)
                    == state.runtime.execs.contains_key(other)) && after.runtime.execs[other]
                    == state.runtime.execs[other]
            &&& after.shells.by_exec == state.shells.by_exec
            &&& after.shells.by_message == state.shells.by_message
        }),
    decreases messages.len(),
{
    let printed = messages.map_values(|m: ExecClientMessage| printed_in(m));
    let complained = messages.map_values(|m: ExecClientMessage| complained_in(m));
    if messages.len() > 0 {
        let earlier = messages.drop_last();
        assert forall|i: int| 0 <= i < earlier.len() implies shell_goes_on(
            #[trigger] earlier[i],
            id,
        ) by {
            assert(earlier[i] == messages[i]);
        }
        lemma_output_is_collected(state, id, earlier);
        let last = messages.last();
        assert(shell_goes_on(messages[messages.len() - 1], id));
        let said = earlier.map_values(|m: ExecClientMessage| printed_in(m));
        let cried = earlier.map_values(|m: ExecClientMessage| complained_in(m));
        assert(printed =~= said.push(printed_in(last)));
        assert(complained =~= cried.push(complained_in(last)));
        said.lemma_flatten_push(printed_in(last));
        cried.lemma_flatten_push(complained_in(last));
        let before = state.runtime.execs[id];
        assert(before.stdout + said.flatten() + printed_in(last) =~= before.stdout
            + printed.flatten());
        assert(before.stderr + cried.flatten() + complained_in(last) =~= before.stderr
            + complained.flatten());
        assert(before.stdout + said.flatten() + Seq::<char>::empty() =~= before.stdout
            + said.flatten());
        assert(before.stderr + cried.flatten() + Seq::<char>::empty() =~= before.stderr
            + cried.flatten());
    } else {
        assert(printed =~= Seq::empty());
        assert(complained =~= Seq::empty());
        assert(state.runtime.execs[id].stdout + Seq::<char>::empty()
            =~= state.runtime.execs[id].stdout);
        assert(state.runtime.execs[id].stderr + Seq::<char>::empty()
            =~= state.runtime.execs[id].stderr);
    }
}

/// A shell call that ends by its exit is answered with what the shell wrote, each stream by itself
/// and in the order in which it came, with the code of the exit and the directory that the shell was
/// in. It is a success where the code is zero and the shell was not aborted, and only there.
pub proof fn law_shell_is_answered_with_what_it_wrote(
    state: ExecStateView,
    messages: Seq<ExecClientMessage>,
    last: ExecClientMessage,
    exit: ShellExit,
)
    requires
        state.runtime.execs.contains_key(last.id),
        !state.runtime.interrupted.contains(last.id),
        state.runtime.execs[last.id].stdout.len() == 0,
        state.runtime.execs[last.id].stderr.len() == 0,
        forall|i: int| 0 <= i < messages.len() ==> shell_goes_on(#[trigger] messages[i], last.id),
        last.message == Some(ExecMessage::ShellStream(Some(ShellStreamEvent::Exit(exit)))),
    ensures
        ({
            let (after, event) = after_messages(state, messages).client_event(last);
            let printed = messages.map_values(|m: ExecClientMessage| printed_in(m)).flatten();
            let complained = messages.map_values(
                |m: ExecClientMessage| complained_in(m),
            ).flatten();
            let result = event->Ok_0->Completed_result;
            let outcome = result->Shell_0.outcome;
            &&& event is Ok
            &&& event->Ok_0 is Completed
            &&& event->Ok_0->Completed_entry.call == state.runtime.execs[last.id].call
            &&& !after.runtime.execs.contains_key(last.id)
            &&& result is Shell
            &&& result->Shell_0.is_background == Some(false)
            &&& event->Ok_0->Completed_entry.stdout == printed
            &&& event->Ok_0->Completed_entry.stderr == complained
            &&& exit.code == 0 && !exit.aborted ==> {
                &&& outcome is Success
                &&& outcome->Success_stdout == printed
                &&& outcome->Success_stderr == complained
                &&& outcome->Success_interleaved_output == printed + complained
                &&& outcome->Success_exit_code == 0
                &&& outcome->Success_working_directory == exit.cwd@
                &&& outcome->shell_id is None
            }
            &&& !(exit.code == 0 && !exit.aborted) ==> {
                &&& outcome is Failure
                &&& outcome->Failure_stdout == printed
                &&& outcome->Failure_stderr == complained
                &&& outcome->Failure_interleaved_output == printed + complained
                &&& exit.code <= i32::MAX ==> outcome->Failure_exit_code == exit.code
                &&& outcome->Failure_working_directory == exit.cwd@
                &&& outcome->aborted == exit.aborted
                &&& outcome->abort_reason == exit.abort_reason
            }
            &&& exit.local_execution_time_ms is Some ==> (match outcome {
                ShellOutcomeView::Success { local_execution_time_ms, .. } => local_execution_time_ms
                    == exit.local_execution_time_ms,
                ShellOutcomeView::Failure { local_execution_time_ms, .. } => local_execution_time_ms
                    == exit.local_execution_time_ms,
                _ => false,
            })
        }),
{
    lemma_output_is_collected(state, last.id, messages);
    let entry = after_messages(state, messages).runtime.execs[last.id];
    assert(entry.stdout =~= messages.map_values(|m: ExecClientMessage| printed_in(m)).flatten());
    assert(entry.stderr =~= messages.map_values(|m: ExecClientMessage| complained_in(m)).flatten());
}

/// A shell that goes to the background is answered with what it has written so far and with its
/// number; what it writes from then on is kept under that number, each stream behind what came before,
/// and so is the code of its exit.
pub proof fn law_shell_in_the_background_is_followed(
    state: ExecStateView,
    messages: Seq<ExecClientMessage>,
    moved: ExecClientMessage,
    shell: ShellBackgrounded,
    later: ExecClientMessage,
)
    requires
        state.runtime.execs.contains_key(moved.id),
        !state.runtime.interrupted.contains(moved.id),
        state.runtime.execs[moved.id].stdout.len() == 0,
        state.runtime.execs[moved.id].stderr.len() == 0,
        forall|i: int| 0 <= i < messages.len() ==> shell_goes_on(#[trigger] messages[i], moved.id),
        moved.message == Some(ExecMessage::ShellStream(Some(ShellStreamEvent::Backgrounded(shell)))),
        !after_messages(state, messages).shells.shells.contains_key(
            text::decimal(shell.shell_id as nat),
        ),
        later.id == moved.id,
        later.exec_id@ == moved.exec_id@,
    ensures
        ({
            let (after, event) = after_messages(state, messages).client_event(moved);
            let printed = messages.map_values(|m: ExecClientMessage| printed_in(m)).flatten();
            let complained = messages.map_values(
                |m: ExecClientMessage| complained_in(m),
            ).flatten();
            let result = event->Ok_0->Completed_result;
            let outcome = result->Shell_0.outcome;
            let name = text::decimal(shell.shell_id as nat);
            let known = after.shells.shells[name];
            let (then, news) = after.client_event(later);
            let now = then.shells.shells[name];
            &&& event is Ok
            &&& event->Ok_0 is Completed
            &&& result is Shell
            &&& result->Shell_0.is_background == Some(true)
            &&& result->Shell_0.pid == shell.pid
            &&& outcome is Success
            &&& outcome->Success_stdout == printed
            &&& outcome->Success_stderr == complained
            &&& outcome->shell_id == Some(shell.shell_id)
            &&& outcome->Success_command == shell.command@
            &&& outcome->Success_working_directory == shell.working_directory@
            &&& after.shells.shells.contains_key(name)
            &&& known.stdout == printed
            &&& known.stderr == complained
            &&& known.exit_code is None
            &&& known.pid == shell.pid
            &&& !known.status.terminal()
            &&& news is Ok
            &&& news->Ok_0 is Pending
            &&& then.runtime == after.runtime
            &&& match later.message {
                Some(ExecMessage::ShellStream(Some(ShellStreamEvent::Stdout { data }))) => {
                    now.stdout == printed + data@ && now.stderr == complained
                },
                Some(ExecMessage::ShellStream(Some(ShellStreamEvent::Stderr { data }))) => {
                    now.stderr == complained + data@ && now.stdout == printed
                },
                Some(ExecMessage::ShellStream(Some(ShellStreamEvent::Exit(exit)))) => {
                    &&& now.status == BackgroundShellStatus::Completed
                    &&& now.exit_code is Some
                    &&& exit.code <= i32::MAX ==> now.exit_code == Some(exit.code as i32)
                    &&& now.stdout == printed
                    &&& now.stderr == complained
                },
                _ => now.stdout == printed && now.stderr == complained,
            }
        }),
{
    lemma_output_is_collected(state, moved.id, messages);
    let entry = after_messages(state, messages).runtime.execs[moved.id];
    assert(entry.stdout =~= messages.map_values(|m: ExecClientMessage| printed_in(m)).flatten());
    assert(entry.stderr =~= messages.map_values(|m: ExecClientMessage| complained_in(m)).flatten());
}

/// What a shell writes is passed on as it comes: it is told of which call it is, on which of the two
/// streams, and what it says. It is kept behind what that stream said before, and the call goes on.
pub proof fn law_output_is_passed_on(state: ExecStateView, message: ExecClientMessage)
    requires
        state.runtime.execs.contains_key(message.id),
        !state.runtime.interrupted.contains(message.id),
    ensures
        ({
            let (after, event) = state.client_event(message);
            let call = state.runtime.execs[message.id].call;
            match message.message {
                Some(ExecMessage::ShellStream(Some(ShellStreamEvent::Stdout { data }))) => {
                    &&& event is Ok
                    &&& event->Ok_0 is Delta
                    &&& event->Ok_0->call_id == call.call_id
                    &&& event->Ok_0->model_call_id == call.model_call_id
                    &&& event->Ok_0->Delta_stdout
                    &&& event->Ok_0->content == data@
                    &&& after.runtime.execs.contains_key(message.id)
                    &&& after.runtime.execs[message.id].stdout
                        == state.runtime.execs[message.id].stdout + data@
                    &&& after.runtime.execs[message.id].stderr
                        == state.runtime.execs[message.id].stderr
                },
                Some(ExecMessage::ShellStream(Some(ShellStreamEvent::Stderr { data }))) => {
                    &&& event is Ok
                    &&& event->Ok_0 is Delta
                    &&& event->Ok_0->call_id == call.call_id
                    &&& event->Ok_0->model_call_id == call.model_call_id
                    &&& !event->Ok_0->Delta_stdout
                    &&& event->Ok_0->content == data@
                    &&& after.runtime.execs.contains_key(message.id)
                    &&& after.runtime.execs[message.id].stderr
                        == state.runtime.execs[message.id].stderr + data@
                    &&& after.runtime.execs[message.id].stdout
                        == state.runtime.execs[message.id].stdout
                },
                _ => true,
            }
        }),
{
}

/// Any other message about a running call answers it: what an edit starts from and what is waited for
/// is handed on as read, with the call that asked for it; a shell that was refused or could not start
/// is answered with just that; every other message is the answer itself. The call runs no more.
pub proof fn law_other_messages_answer_the_call(state: ExecStateView, message: ExecClientMessage)
    requires
        state.runtime.execs.contains_key(message.id),
        !state.runtime.interrupted.contains(message.id),
    ensures
        ({
            let (after, event) = state.client_event(message);
            let entry = state.runtime.execs[message.id];
            let over = event is Ok && !after.runtime.execs.contains_key(message.id)
                && after.runtime.completed.contains_key(message.id) && after.shells == state.shells;
            match message.message {
                Some(ExecMessage::Read(_)) | Some(ExecMessage::Other) => {
                    &&& over
                    &&& entry.stage is EditRead ==> event->Ok_0 == ClientExecEventView::EditRead(
                        entry,
                    )
                    &&& entry.stage is Await ==> event->Ok_0 == ClientExecEventView::AwaitRead(
                        entry,
                    )
                    &&& !(entry.stage is EditRead) && !(entry.stage is Await) ==> event->Ok_0
                        == (ClientExecEventView::Completed {
                        entry,
                        result: ExecResultView::Message,
                    })
                },
                Some(ExecMessage::ShellStream(Some(ShellStreamEvent::Rejected))) => {
                    &&& over
                    &&& event->Ok_0 is Completed
                    &&& event->Ok_0->Completed_entry == entry
                    &&& event->Ok_0->Completed_result is Shell
                    &&& event->Ok_0->Completed_result->Shell_0.outcome is Rejected
                },
                Some(ExecMessage::ShellStream(Some(ShellStreamEvent::PermissionDenied))) => {
                    &&& over
                    &&& event->Ok_0 is Completed
                    &&& event->Ok_0->Completed_entry == entry
                    &&& event->Ok_0->Completed_result is Shell
                    &&& event->Ok_0->Completed_result->Shell_0.outcome is PermissionDenied
                },
                Some(
                    ExecMessage::ShellStream(
                        Some(
                            ShellStreamEvent::SandboxUnsupported {
                                command,
                                working_directory,
                                reason,
                            },
                        ),
                    ),
                ) => {
                    let outcome = event->Ok_0->Completed_result->Shell_0.outcome;
                    &&& over
                    &&& event->Ok_0 is Completed
                    &&& event->Ok_0->Completed_entry == entry
                    &&& event->Ok_0->Completed_result is Shell
                    &&& outcome is SpawnError
                    &&& outcome->SpawnError_command == command@
                    &&& outcome->SpawnError_working_directory == working_directory@
                    &&& outcome->error == reason@
                },
                None
                | Some(ExecMessage::ShellStream(None))
                | Some(ExecMessage::ShellStream(Some(ShellStreamEvent::Start)))
                | Some(ExecMessage::ShellStream(Some(ShellStreamEvent::HookContext))) => {
                    &&& event is Ok
                    &&& event->Ok_0 is Pending
                    &&& after == state
                },
                _ => true,
            }
        }),
{
}

/// A message concerns the call that it names and no other.
pub proof fn law_other_calls_are_left_alone(
    state: ExecStateView,
    message: ExecClientMessage,
    other: u32,
)
    requires
        other != message.id,
    ensures
        ({
            let after = state.client_event(message).0.runtime;
            &&& after.execs.contains_key(other) == state.runtime.execs.contains_key(other)
            &&& after.execs[other] == state.runtime.execs[other]
            &&& after.completed.contains_key(other) == state.runtime.completed.contains_key(other)
            &&& after.interactions == state.runtime.interactions
            &&& after.interrupted == state.runtime.interrupted
        }),
{
}

/// A message about a call that is not running, and about no shell in the background, is refused and
/// changes nothing.
pub proof fn law_unknown_messages_are_refused(state: ExecStateView, message: ExecClientMessage)
    requires
        !state.runtime.execs.contains_key(message.id),
        !state.runtime.interrupted.contains(message.id),
        !state.shells.by_exec.contains_key(message.exec_id@),
        !state.shells.by_message.contains_key(message.id),
    ensures
        state.client_event(message).1 is Err,
        state.client_event(message).0 == state,
{
}

} // verus!
