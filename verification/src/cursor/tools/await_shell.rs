//! Waiting for shells in the background, and calls whose stream closes.
use crate::cursor::tools::context;
use crate::cursor::tools::response::{
    bare_result, ExecMessage, ReadOutcome, ShellOutcome, ShellOutcomeView, ShellResult,
    ShellResultView,
};
use crate::cursor::tools::runtime;
use crate::cursor::tools::runtime::{
    AwaitState, AwaitStateView, BackgroundShellState, BackgroundShellStatus, BackgroundShellView,
    CursorToolRuntime, ExecStage, ExecStageView, IdSource, PendingExec, PendingExecView,
    RuntimeView,
};
use crate::data;
use crate::error::{Error, ErrorView};
use crate::json::JsonView;
use crate::pattern;
use crate::text;
use vstd::prelude::*;

verus! {

/// Longest pause before the output of a shell is read again.
pub const AWAIT_PAUSE_MS: u64 = 50;

/// The exit code that a line of a terminal file gives.
pub open spec fn line_exit_code(line: Seq<char>) -> Option<int> {
    match text::after_prefix(line, "exit_code:"@) {
        Some(value) => text::signed_of(text::trimmed(value), i32::MIN as int, i32::MAX as int),
        None => None,
    }
}

/// The exit code that a line of a terminal file implies by its status.
pub open spec fn line_status(line: Seq<char>) -> Option<int> {
    match text::after_prefix(line, "status:"@) {
        Some(value) => {
            let status = text::trimmed(value);
            if text::same_ignoring_case(status, "succeeded"@) || text::same_ignoring_case(
                status,
                "completed"@,
            ) {
                Some(0)
            } else if text::same_ignoring_case(status, "failed"@) || text::same_ignoring_case(
                status,
                "error"@,
            ) {
                Some(1)
            } else {
                None
            }
        },
        None => None,
    }
}

/// The process id that a line of a terminal file gives.
pub open spec fn line_pid(line: Seq<char>) -> Option<int> {
    match text::after_prefix(line, "pid:"@) {
        Some(value) => match text::unsigned_of(text::trimmed(value), u32::MAX as nat) {
            Some(pid) => Some(pid as int),
            None => None,
        },
        None => None,
    }
}

/// What kind of line is looked for.
pub enum LineKind {
    ExitCode,
    Status,
    Pid,
}

/// What a line gives.
pub open spec fn line_value(kind: LineKind, line: Seq<char>) -> Option<int> {
    match kind {
        LineKind::ExitCode => line_exit_code(line),
        LineKind::Status => line_status(line),
        LineKind::Pid => line_pid(line),
    }
}

/// What the first line that gives anything gives.
pub open spec fn first_value(kind: LineKind, lines: Seq<Seq<char>>) -> Option<int>
    decreases lines.len(),
{
    if lines.len() == 0 {
        None
    } else {
        match line_value(kind, lines[0]) {
            Some(value) => Some(value),
            None => first_value(kind, lines.drop_first()),
        }
    }
}

fn read_line(kind: &LineKind, line: &str) -> (r: Option<i64>)
    ensures
        match r {
            Some(value) => line_value(*kind, line@) == Some(value as int),
            None => line_value(*kind, line@) is None,
        },
{
    match kind {
        LineKind::ExitCode => match text::strip_prefix(line, "exit_code:") {
            Some(value) => {
                let value = text::trim(value.as_str());
                match text::parse_i32(value.as_str()) {
                    Some(code) => Some(code as i64),
                    None => None,
                }
            },
            None => None,
        },
        LineKind::Status => match text::strip_prefix(line, "status:") {
            Some(value) => {
                let status = text::trim(value.as_str());
                if text::eq_ignore_case(status.as_str(), "succeeded") || text::eq_ignore_case(
                    status.as_str(),
                    "completed",
                ) {
                    Some(0)
                } else if text::eq_ignore_case(status.as_str(), "failed") || text::eq_ignore_case(
                    status.as_str(),
                    "error",
                ) {
                    Some(1)
                } else {
                    None
                }
            },
            None => None,
        },
        LineKind::Pid => match text::strip_prefix(line, "pid:") {
            Some(value) => {
                let value = text::trim(value.as_str());
                match text::parse_u32(value.as_str()) {
                    Some(pid) => Some(pid as i64),
                    None => None,
                }
            },
            None => None,
        },
    }
}

fn find_value(kind: &LineKind, content: &str) -> (r: Option<i64>)
    ensures
        match r {
            Some(value) => first_value(*kind, text::lines_of(content@)) == Some(value as int),
            None => first_value(*kind, text::lines_of(content@)) is None,
        },
{
    let lines = text::lines(content);
    let ghost all = data::views(lines@);
    let mut i: usize = 0;
    assert(all.skip(0) =~= all);
    while i < lines.len()
        invariant
            i <= lines@.len(),
            all == data::views(lines@),
            all == text::lines_of(content@),
            first_value(*kind, all) == first_value(*kind, all.skip(i as int)),
        decreases lines@.len() - i,
    {
        assert(all.skip(i as int)[0] == lines@[i as int]@);
        assert(all.skip(i as int).drop_first() =~= all.skip(i + 1));
        if let Some(value) = read_line(kind, lines[i].as_str()) {
            return Some(value);
        }
        i += 1;
    }
    None
}

/// The values of the three kinds fit the numbers that they stand for.
proof fn lemma_value_bounds(kind: LineKind, lines: Seq<Seq<char>>)
    ensures
        first_value(kind, lines) matches Some(value) ==> match kind {
            LineKind::ExitCode => i32::MIN <= value <= i32::MAX,
            LineKind::Status => 0 <= value <= 1,
            LineKind::Pid => 0 <= value <= u32::MAX,
        },
    decreases lines.len(),
{
    if lines.len() > 0 {
        lemma_value_bounds(kind, lines.drop_first());
    }
}

/// The output of a shell that is gone by: what is on disk, unless that is missing or empty.
pub open spec fn await_content(read: Seq<char>, disk: Option<Seq<char>>) -> Seq<char> {
    match disk {
        Some(content) if content.len() > 0 => content,
        _ => read,
    }
}

/// What the client read.
pub open spec fn read_content(read: ReadOutcome) -> Seq<char> {
    match read {
        ReadOutcome::Content(content) => content@,
        _ => Seq::empty(),
    }
}

/// The text that is searched: for a shell that has ended without a terminal file, what it wrote.
pub open spec fn haystack(content: Seq<char>, shell: Option<BackgroundShellView>) -> Seq<char> {
    match shell {
        Some(shell) if shell.status.terminal() && content.len() == 0 => shell.stdout + shell.stderr,
        _ => content,
    }
}

/// What waiting for a shell came to.
#[derive(Debug)]
pub struct AwaitResult {
    pub output_bytes: u64,
    pub regex_match: Option<String>,
    pub exit_code: Option<i32>,
    pub completed: bool,
}

#[verifier::ext_equal]
pub struct AwaitResultView {
    pub output_bytes: int,
    pub regex_match: Option<Seq<char>>,
    pub exit_code: Option<i32>,
    pub completed: bool,
}

impl View for AwaitResult {
    type V = AwaitResultView;

    open spec fn view(&self) -> AwaitResultView {
        AwaitResultView {
            output_bytes: self.output_bytes as int,
            regex_match: data::option_view(self.regex_match),
            exit_code: self.exit_code,
            completed: self.completed,
        }
    }
}

/// What follows when the output of a shell was read.
#[derive(Debug)]
pub enum AwaitStep {
    /// The wait failed.
    Failed(String),
    /// The wait is over.
    Done(AwaitResult),
    /// The output is read again after a pause.
    Again { pause_ms: u64 },
}

#[verifier::ext_equal]
pub enum AwaitStepView {
    Failed(Seq<char>),
    Done(AwaitResultView),
    Again { pause_ms: u64 },
}

impl View for AwaitStep {
    type V = AwaitStepView;

    open spec fn view(&self) -> AwaitStepView {
        match self {
            AwaitStep::Failed(message) => AwaitStepView::Failed(message@),
            AwaitStep::Done(result) => AwaitStepView::Done(result@),
            AwaitStep::Again { pause_ms } => AwaitStepView::Again { pause_ms: *pause_ms },
        }
    }
}

/// Why waiting for a shell that ended in this way fails.
pub open spec fn failure_for(status: BackgroundShellStatus) -> Seq<char> {
    match status {
        BackgroundShellStatus::Rejected => "background shell was rejected"@,
        BackgroundShellStatus::PermissionDenied => "background shell permission was denied"@,
        BackgroundShellStatus::TransportClosed => "background shell transport closed before exit"@,
        _ => "background shell completed without an exit code"@,
    }
}

/// An exit code that a terminal file gives.
pub open spec fn code_in(kind: LineKind, content: Seq<char>) -> Option<i32> {
    match first_value(kind, text::lines_of(content)) {
        Some(value) => Some(value as i32),
        None => None,
    }
}

/// The exit code that a terminal file gives or implies.
pub open spec fn exit_code_in(content: Seq<char>) -> Option<i32> {
    match code_in(LineKind::ExitCode, content) {
        Some(code) => Some(code),
        None => code_in(LineKind::Status, content),
    }
}

/// The process whose end would end the wait: known from the shell, else from the terminal file.
/// There is none for a shell that has ended, or whose terminal file gives an exit code.
pub open spec fn probed_pid(content: Seq<char>, shell: Option<BackgroundShellView>) -> Option<u32> {
    if (shell matches Some(shell) && shell.status.terminal()) || exit_code_in(content) is Some {
        None
    } else {
        match shell {
            Some(BackgroundShellView { pid: Some(pid), .. }) => Some(pid),
            _ => match first_value(LineKind::Pid, text::lines_of(content)) {
                Some(pid) => Some(pid as u32),
                None => None,
            },
        }
    }
}

/// What follows for a shell that has not ended, as far as is known.
pub open spec fn running_step(
    state: AwaitStateView,
    content: Seq<char>,
    shell: Option<BackgroundShellView>,
    matched: Option<Seq<char>>,
    pid_alive: bool,
    now_ms: u64,
) -> AwaitStepView {
    let exit_code = match exit_code_in(content) {
        Some(code) => Some(code),
        None => if probed_pid(content, shell) is Some && !pid_alive {
            Some(0i32)
        } else {
            None
        },
    };
    if matched is Some || exit_code is Some || now_ms >= state.deadline_ms {
        AwaitStepView::Done(
            AwaitResultView {
                output_bytes: text::utf8_len(content) as int,
                regex_match: matched,
                exit_code,
                completed: exit_code is Some,
            },
        )
    } else {
        AwaitStepView::Again {
            pause_ms: if state.deadline_ms - now_ms < AWAIT_PAUSE_MS {
                (state.deadline_ms - now_ms) as u64
            } else {
                AWAIT_PAUSE_MS
            },
        }
    }
}

/// What follows when the output of a shell was read, given the first match of the expression that is
/// waited for (none where none is), whether the process that was probed is alive, and the time.
pub open spec fn await_step(
    state: AwaitStateView,
    read: ReadOutcome,
    disk: Option<Seq<char>>,
    shell: Option<BackgroundShellView>,
    matched: Result<Option<Seq<char>>, Seq<char>>,
    pid_alive: bool,
    now_ms: u64,
) -> Result<AwaitStepView, ErrorView> {
    let content = await_content(read_content(read), disk);
    match read {
        ReadOutcome::Error(error) => Ok(AwaitStepView::Failed(error@)),
        _ => match matched {
            Err(error) => Err(ErrorView::Protocol("invalid AwaitShell pattern: "@ + error)),
            Ok(matched) => match shell {
                Some(shell) if shell.status.terminal() => if shell.status
                    == BackgroundShellStatus::Completed {
                    Ok(
                        AwaitStepView::Done(
                            AwaitResultView {
                                output_bytes: text::utf8_len(
                                    haystack(content, Some(shell)),
                                ) as int,
                                regex_match: matched,
                                exit_code: match shell.exit_code {
                                    Some(code) => Some(code),
                                    None => code_in(LineKind::ExitCode, content),
                                },
                                completed: true,
                            },
                        ),
                    )
                } else {
                    Ok(AwaitStepView::Failed(failure_for(shell.status)))
                },
                _ => Ok(running_step(state, content, shell, matched, pid_alive, now_ms)),
            },
        },
    }
}

/// The first match of the expression that is waited for, or none where none is.
pub open spec fn awaited_match(
    state: AwaitStateView,
    content: Seq<char>,
    shell: Option<BackgroundShellView>,
) -> Result<Option<Seq<char>>, Seq<char>> {
    match state.regex {
        Some(expression) => pattern::first_match(expression, haystack(content, shell)),
        None => Ok(None),
    }
}

fn choose_content(read: &ReadOutcome, disk: &Option<String>) -> (r: String)
    ensures
        r@ == await_content(read_content(*read), data::option_view(*disk)),
{
    if let Some(content) = disk {
        if !content.as_str().is_empty() {
            return content.clone();
        }
    }
    match read {
        ReadOutcome::Content(content) => content.clone(),
        _ => String::new(),
    }
}

fn choose_haystack(content: &str, shell: &Option<BackgroundShellState>) -> (r: String)
    ensures
        r@ == haystack(content@, data::option_view(*shell)),
{
    if let Some(shell) = shell {
        if shell.status.is_terminal() && content.is_empty() {
            return text::concat(shell.stdout.as_str(), shell.stderr.as_str());
        }
    }
    content.to_owned()
}

fn find_code(kind: &LineKind, content: &str) -> (r: Option<i32>)
    requires
        *kind is ExitCode || *kind is Status,
    ensures
        r == code_in(*kind, content@),
{
    proof {
        lemma_value_bounds(*kind, text::lines_of(content@));
    }
    match find_value(kind, content) {
        Some(value) => Some(value as i32),
        None => None,
    }
}

fn find_exit_code(content: &str) -> (r: Option<i32>)
    ensures
        r == exit_code_in(content@),
{
    match find_code(&LineKind::ExitCode, content) {
        Some(code) => Some(code),
        None => find_code(&LineKind::Status, content),
    }
}

/// The process to be probed before the wait goes on.
pub fn await_probe(
    read: &ReadOutcome,
    disk: &Option<String>,
    shell: &Option<BackgroundShellState>,
) -> (r: Option<u32>)
    ensures
        r == probed_pid(
            await_content(read_content(*read), data::option_view(*disk)),
            data::option_view(*shell),
        ),
{
    let content = choose_content(read, disk);
    if let Some(shell) = shell {
        if shell.status.is_terminal() {
            return None;
        }
    }
    if find_exit_code(content.as_str()).is_some() {
        return None;
    }
    if let Some(shell) = shell {
        if let Some(pid) = shell.pid {
            return Some(pid);
        }
    }
    proof {
        lemma_value_bounds(LineKind::Pid, text::lines_of(content@));
    }
    match find_value(&LineKind::Pid, content.as_str()) {
        Some(pid) => Some(pid as u32),
        None => None,
    }
}

/// What follows when the output of a shell was read, given the first match of the expression that is
/// waited for.
pub fn conclude_await(
    state: &AwaitState,
    read: &ReadOutcome,
    disk: &Option<String>,
    shell: &Option<BackgroundShellState>,
    matched: Result<Option<String>, String>,
    pid_alive: bool,
    now_ms: u64,
) -> (r: Result<AwaitStep, Error>)
    ensures
        crate::error::result_view(r) == await_step(
            state@,
            *read,
            data::option_view(*disk),
            data::option_view(*shell),
            pattern::match_view(matched),
            pid_alive,
            now_ms,
        ),
{
    if let ReadOutcome::Error(error) = read {
        return Ok(AwaitStep::Failed(error.clone()));
    }
    let content = choose_content(read, disk);
    let matched = match matched {
        Ok(matched) => matched,
        Err(error) => {
            return Err(
                Error::Protocol(text::concat("invalid AwaitShell pattern: ", error.as_str())),
            );
        },
    };
    if let Some(known) = shell {
        if known.status.is_terminal() {
            if known.status == BackgroundShellStatus::Completed {
                let searched = choose_haystack(content.as_str(), shell);
                let exit_code = match known.exit_code {
                    Some(code) => Some(code),
                    None => find_code(&LineKind::ExitCode, content.as_str()),
                };
                return Ok(
                    AwaitStep::Done(
                        AwaitResult {
                            output_bytes: text::byte_len(searched.as_str()) as u64,
                            regex_match: matched,
                            exit_code,
                            completed: true,
                        },
                    ),
                );
            }
            let message = match known.status {
                BackgroundShellStatus::Rejected => "background shell was rejected",
                BackgroundShellStatus::PermissionDenied => "background shell permission was denied",
                BackgroundShellStatus::TransportClosed => {
                    "background shell transport closed before exit"
                },
                _ => "background shell completed without an exit code",
            };
            return Ok(AwaitStep::Failed(message.to_owned()));
        }
    }
    let exit_code = match find_exit_code(content.as_str()) {
        Some(code) => Some(code),
        None => {
            let probed = await_probe(read, disk, shell);
            if probed.is_some() && !pid_alive {
                Some(0)
            } else {
                None
            }
        },
    };
    if matched.is_some() || exit_code.is_some() || now_ms >= state.deadline_ms {
        return Ok(
            AwaitStep::Done(
                AwaitResult {
                    output_bytes: text::byte_len(content.as_str()) as u64,
                    regex_match: matched,
                    exit_code,
                    completed: exit_code.is_some(),
                },
            ),
        );
    }
    let left: u64 = state.deadline_ms - now_ms;
    Ok(
        AwaitStep::Again {
            pause_ms: if left < AWAIT_PAUSE_MS {
                left
            } else {
                AWAIT_PAUSE_MS
            },
        },
    )
}

/// What follows when the client answered a call that waits for a shell. `disk` is the terminal file
/// as it is on disk, `shell` what is known of the shell, and `pid_alive` whether the process that
/// [`await_probe`] names is alive.
pub fn advance_await(
    entry: &PendingExec,
    message: &ExecMessage,
    disk: &Option<String>,
    shell: &Option<BackgroundShellState>,
    pid_alive: bool,
    now_ms: u64,
) -> (r: Result<AwaitStep, Error>)
    ensures
        crate::error::result_view(r) == (match *message {
            ExecMessage::Read(read) => match entry@.stage {
                ExecStageView::Await(state) => await_step(
                    state,
                    read,
                    data::option_view(*disk),
                    data::option_view(*shell),
                    awaited_match(
                        state,
                        await_content(read_content(read), data::option_view(*disk)),
                        data::option_view(*shell),
                    ),
                    pid_alive,
                    now_ms,
                ),
                _ => Err(
                    ErrorView::Protocol(
                        "AwaitShell result reached a non-await execution stage"@,
                    ),
                ),
            },
            _ => Err(ErrorView::Protocol("AwaitShell expected ReadResult"@)),
        }),
{
    let read = match message {
        ExecMessage::Read(read) => read,
        _ => {
            return Err(Error::Protocol("AwaitShell expected ReadResult".to_owned()));
        },
    };
    let state = match &entry.stage {
        ExecStage::Await(state) => state,
        _ => {
            return Err(
                Error::Protocol(
                    "AwaitShell result reached a non-await execution stage".to_owned(),
                ),
            );
        },
    };
    let content = choose_content(read, disk);
    let matched = match &state.regex {
        Some(expression) => {
            let searched = choose_haystack(content.as_str(), shell);
            pattern::find_first(expression.as_str(), searched.as_str())
        },
        None => Ok(None),
    };
    conclude_await(state, read, disk, shell, matched, pid_alive, now_ms)
}

/// Registers the wait for another reading, under a new id; it keeps its deadline and its start.
pub fn await_again(entry: PendingExec, runtime: &mut CursorToolRuntime, ids: &mut IdSource) -> (r:
    Result<u32, Error>)
    requires
        old(runtime).wf(),
    ensures
        final(runtime).wf(),
        runtime::reserved(
            old(runtime)@,
            *old(ids),
            runtime::fresh_exec(
                entry@.call,
                entry@.terminals_folder,
                entry@.stage,
                entry@.started_at_ms,
            ),
            crate::error::result_view(r),
            final(runtime)@,
            *final(ids),
        ),
{
    runtime.reserve_exec_stage(
        ids,
        &entry.call,
        entry.terminals_folder.as_str(),
        entry.stage,
        entry.started_at_ms,
    )
}

/// A wait never outlasts its deadline: once that is reached, nothing is read again.
pub proof fn law_wait_ends_at_its_deadline(
    state: AwaitStateView,
    read: ReadOutcome,
    disk: Option<Seq<char>>,
    shell: Option<BackgroundShellView>,
    matched: Result<Option<Seq<char>>, Seq<char>>,
    pid_alive: bool,
    now_ms: u64,
)
    requires
        await_step(state, read, disk, shell, matched, pid_alive, now_ms) matches Ok(
            AwaitStepView::Again { .. },
        ),
    ensures
        now_ms < state.deadline_ms,
        ({
            let step = await_step(state, read, disk, shell, matched, pid_alive, now_ms)->Ok_0;
            now_ms + step->pause_ms <= state.deadline_ms && 0 < step->pause_ms <= AWAIT_PAUSE_MS
        }),
{
}

/// What a closed stream means for its call.
#[derive(Debug)]
pub enum StreamClosed {
    /// Nothing, or nothing yet.
    Nothing,
    /// The shell could not be followed to its end.
    Shell { entry: PendingExec, result: ShellResult },
    /// The call failed.
    Failed { entry: PendingExec, error: String },
}

#[verifier::ext_equal]
pub enum StreamClosedView {
    Nothing,
    Shell { entry: PendingExecView, result: ShellResultView },
    Failed { entry: PendingExecView, error: Seq<char> },
}

impl View for StreamClosed {
    type V = StreamClosedView;

    open spec fn view(&self) -> StreamClosedView {
        match self {
            StreamClosed::Nothing => StreamClosedView::Nothing,
            StreamClosed::Shell { entry, result } => StreamClosedView::Shell {
                entry: entry@,
                result: result@,
            },
            StreamClosed::Failed { entry, error } => StreamClosedView::Failed {
                entry: entry@,
                error: error@,
            },
        }
    }
}

/// The text of an argument, or an empty one.
pub open spec fn argument_text(arguments: JsonView, key: Seq<char>) -> Seq<char> {
    match arguments.text_at(key) {
        Some(value) => value,
        None => Seq::empty(),
    }
}

/// What it means for a call that its stream closed for good.
pub open spec fn closed_call(entry: PendingExecView) -> StreamClosedView {
    let error = "Cursor Exec stream closed before returning a terminal result"@;
    if context::calls(entry.call, "Shell"@) {
        StreamClosedView::Shell {
            entry,
            result: bare_result(
                ShellOutcomeView::SpawnError {
                    command: argument_text(entry.call.arguments, "command"@),
                    working_directory: argument_text(
                        entry.call.arguments,
                        "working_directory"@,
                    ),
                    error,
                },
            ),
        }
    } else {
        StreamClosedView::Failed { entry, error }
    }
}

/// What the close of a stream means, and what is known after it: a call that was interrupted is
/// forgotten, a task may still be answered another way, any other call has failed.
pub open spec fn on_stream_closed(runtime: RuntimeView, id: u32) -> (RuntimeView, StreamClosedView) {
    if runtime.interrupted.contains(id) {
        (RuntimeView { execs: runtime.execs.remove(id), ..runtime }, StreamClosedView::Nothing)
    } else {
        match runtime::lookup(runtime.execs, id) {
            None => (runtime, StreamClosedView::Nothing),
            Some(entry) => if context::calls(entry.call, "Task"@) {
                (
                    RuntimeView {
                        execs: runtime.execs.insert(
                            id,
                            PendingExecView { transport_closed: true, ..entry },
                        ),
                        ..runtime
                    },
                    StreamClosedView::Nothing,
                )
            } else {
                (runtime.without_exec(id), closed_call(entry))
            },
        }
    }
}

fn text_argument(entry: &PendingExec, key: &str) -> (r: String)
    ensures
        r@ == argument_text(entry@.call.arguments, key@),
{
    match entry.call.arguments.get_str(key) {
        Some(value) => value.to_owned(),
        None => String::new(),
    }
}

/// The close of the stream of a call, for good.
pub fn stream_closed_immediate(id: u32, runtime: &mut CursorToolRuntime) -> (r: StreamClosed)
    requires
        old(runtime).wf(),
    ensures
        final(runtime).wf(),
        final(runtime)@ == old(runtime)@.without_exec(id),
        r@ == (match runtime::lookup(old(runtime)@.execs, id) {
            Some(entry) => closed_call(entry),
            None => StreamClosedView::Nothing,
        }),
{
    let entry = match runtime.take_exec(id) {
        Some(entry) => entry,
        None => {
            return StreamClosed::Nothing;
        },
    };
    let error = "Cursor Exec stream closed before returning a terminal result";
    if text::eq_ignore_case(entry.call.name.as_str(), "Shell") {
        let command = text_argument(&entry, "command");
        let working_directory = text_argument(&entry, "working_directory");
        StreamClosed::Shell {
            entry,
            result: ShellResult {
                outcome: ShellOutcome::SpawnError {
                    command,
                    working_directory,
                    error: error.to_owned(),
                },
                is_background: None,
                terminals_folder: None,
                pid: None,
            },
        }
    } else {
        StreamClosed::Failed { entry, error: error.to_owned() }
    }
}

/// The close of the stream of a call.
pub fn stream_closed(id: u32, runtime: &mut CursorToolRuntime) -> (r: StreamClosed)
    requires
        old(runtime).wf(),
    ensures
        final(runtime).wf(),
        (final(runtime)@, r@) == on_stream_closed(old(runtime)@, id),
{
    if runtime.is_interrupted(id) {
        runtime.discard_exec(id);
        return StreamClosed::Nothing;
    }
    let is_task = match runtime.exec_call(id) {
        Some(call) => text::eq_ignore_case(call.name.as_str(), "Task"),
        None => false,
    };
    if is_task {
        let _ = runtime.mark_transport_closed(id);
        return StreamClosed::Nothing;
    }
    stream_closed_immediate(id, runtime)
}

/// A task whose stream closed and which was not answered another way has failed.
pub fn recover_transport_closed(id: u32, runtime: &mut CursorToolRuntime) -> (r: StreamClosed)
    requires
        old(runtime).wf(),
    ensures
        final(runtime).wf(),
        (final(runtime)@, r@) == (match runtime::lookup(old(runtime)@.execs, id) {
            Some(entry) if entry.transport_closed => (
                old(runtime)@.without_exec(id),
                StreamClosedView::Failed {
                    entry,
                    error: entry.call.name + " transport closed before terminal result arrived"@,
                },
            ),
            _ => (old(runtime)@, StreamClosedView::Nothing),
        }),
{
    match runtime.take_transport_closed(id) {
        Some(entry) => {
            let error = text::concat(
                entry.call.name.as_str(),
                " transport closed before terminal result arrived",
            );
            StreamClosed::Failed { entry, error }
        },
        None => StreamClosed::Nothing,
    }
}

/// A terminal file gives what the first line of a kind that can be read gives; lines before it that give
/// nothing make no difference.
pub proof fn law_first_line_counts(kind: LineKind, lines: Seq<Seq<char>>, at: int)
    requires
        0 <= at < lines.len(),
        forall|i: int| 0 <= i < at ==> line_value(kind, #[trigger] lines[i]) is None,
        line_value(kind, lines[at]) is Some,
    ensures
        first_value(kind, lines) == line_value(kind, lines[at]),
    decreases at,
{
    if at > 0 {
        assert(line_value(kind, lines[0]) is None);
        let rest = lines.drop_first();
        assert forall|i: int| 0 <= i < at - 1 implies line_value(kind, #[trigger] rest[i]) is None by {
            assert(rest[i] == lines[i + 1]);
        }
        law_first_line_counts(kind, rest, at - 1);
    }
}

/// A line that tells an exit code, a process or a status is read as what it tells.
pub proof fn law_terminal_lines_are_read(code: nat, pid: nat, status: Seq<char>)
    requires
        code <= i32::MAX,
        pid <= u32::MAX,
        text::trimmed(status) == status,
    ensures
        line_exit_code("exit_code:"@ + text::decimal(code)) == Some(code as int),
        line_pid("pid:"@ + text::decimal(pid)) == Some(pid as int),
        status == "succeeded"@ || status == "completed"@ ==> line_status("status:"@ + status)
            == Some(0int),
        status == "failed"@ || status == "error"@ ==> line_status("status:"@ + status) == Some(1int),
        status == "running"@ ==> line_status("status:"@ + status) is None,
{
    lemma_after_prefix("exit_code:"@, text::decimal(code));
    lemma_after_prefix("pid:"@, text::decimal(pid));
    lemma_after_prefix("status:"@, status);
    lemma_digits_stay(code);
    lemma_digits_stay(pid);
    reveal_strlit("succeeded");
    assert(text::lowercase("succeeded"@).len() == 9);
    reveal_strlit("completed");
    assert(text::lowercase("completed"@).len() == 9);
    reveal_strlit("failed");
    assert(text::lowercase("failed"@).len() == 6);
    reveal_strlit("error");
    assert(text::lowercase("error"@).len() == 5);
    reveal_strlit("running");
    assert(text::lowercase("running"@).len() == 7);
}

proof fn lemma_after_prefix(prefix: Seq<char>, value: Seq<char>)
    ensures
        text::after_prefix(prefix + value, prefix) == Some(value),
{
    assert((prefix + value).subrange(0, prefix.len() as int) =~= prefix);
    assert((prefix + value).take(prefix.len() as int) =~= prefix);
    assert((prefix + value).skip(prefix.len() as int) =~= value);
}

proof fn lemma_digits_stay(n: nat)
    ensures
        text::trimmed(text::decimal(n)) == text::decimal(n),
        text::decimal(n).len() > 0,
        text::is_digit(text::decimal(n)[0]),
        text::all_digits(text::decimal(n)),
        text::digits_value(text::decimal(n)) == n,
{
    text::lemma_decimal_reads_back(n);
    let digits = text::decimal(n);
    assert(text::is_digit(digits[0]));
    assert(text::is_digit(digits[digits.len() - 1]));
}

/// A shell that is not known to have ended is waited for until the text that is waited for appears, an
/// exit code is known, its process is gone or the time is up; what is then told is the size of the
/// output, the text that appeared, and the exit code: that of the terminal file, or none but zero where
/// only the process is gone.
pub proof fn law_wait_for_a_running_shell(
    state: AwaitStateView,
    read: ReadOutcome,
    disk: Option<Seq<char>>,
    shell: Option<BackgroundShellView>,
    matched: Option<Seq<char>>,
    pid_alive: bool,
    now_ms: u64,
)
    requires
        !(read is Error),
        shell matches Some(s) ==> !s.status.terminal(),
    ensures
        ({
            let content = await_content(read_content(read), disk);
            let code = exit_code_in(content);
            let gone = code is None && probed_pid(content, shell) is Some && !pid_alive;
            let step = await_step(
                state,
                read,
                disk,
                shell,
                Ok::<Option<Seq<char>>, Seq<char>>(matched),
                pid_alive,
                now_ms,
            )->Ok_0;
            &&& step is Done || step is Again
            &&& step is Again <==> matched is None && code is None && !gone && now_ms
                < state.deadline_ms
            &&& step matches AwaitStepView::Done(told) ==> {
                &&& told.output_bytes == text::utf8_len(content)
                &&& told.regex_match == matched
                &&& code is Some ==> told.exit_code == code
                &&& gone ==> told.exit_code == Some(0i32)
                &&& code is None && !gone ==> told.exit_code is None
                &&& told.completed <==> (code is Some || gone)
            }
        }),
{
}

/// A shell that is known to have ended is not waited for: where it completed, its exit code and the size
/// of what it wrote are told, otherwise the wait fails.
pub proof fn law_wait_for_an_ended_shell(
    state: AwaitStateView,
    read: ReadOutcome,
    disk: Option<Seq<char>>,
    shell: BackgroundShellView,
    matched: Option<Seq<char>>,
    pid_alive: bool,
    now_ms: u64,
)
    requires
        !(read is Error),
        shell.status.terminal(),
    ensures
        ({
            let content = await_content(read_content(read), disk);
            let step = await_step(
                state,
                read,
                disk,
                Some(shell),
                Ok::<Option<Seq<char>>, Seq<char>>(matched),
                pid_alive,
                now_ms,
            )->Ok_0;
            &&& step is Done <==> shell.status is Completed
            &&& step is Failed <==> !(shell.status is Completed)
            &&& step matches AwaitStepView::Done(told) ==> {
                &&& told.completed
                &&& told.regex_match == matched
                &&& shell.exit_code is Some ==> told.exit_code == shell.exit_code
                &&& content.len() > 0 ==> told.output_bytes == text::utf8_len(content)
                &&& content.len() == 0 ==> told.output_bytes == text::utf8_len(
                    shell.stdout + shell.stderr,
                )
            }
        }),
{
}

/// What is on disk counts before what the client read, unless it is missing or empty.
pub proof fn law_disk_counts_first(read: Seq<char>, disk: Seq<char>)
    ensures
        await_content(read, None) == read,
        disk.len() > 0 ==> await_content(read, Some(disk)) == disk,
        disk.len() == 0 ==> await_content(read, Some(disk)) == read,
{
}

/// When the stream of a call closes, an interrupted call is forgotten, a task is kept and marked, and
/// any other call is over; no other call is touched.
pub proof fn law_closed_stream_ends_its_call(runtime: RuntimeView, id: u32, other: u32)
    requires
        other != id,
    ensures
        ({
            let (after, meaning) = on_stream_closed(runtime, id);
            let known = runtime.execs.dom().contains(id);
            let task = known && context::calls(runtime.execs[id].call, "Task"@);
            &&& runtime.interrupted.contains(id) ==> meaning is Nothing
                && !after.execs.dom().contains(id)
            &&& !runtime.interrupted.contains(id) && !known ==> meaning is Nothing && after
                == runtime
            &&& !runtime.interrupted.contains(id) && task ==> meaning is Nothing
                && after.execs.dom().contains(id) && after.execs[id].transport_closed
                && after.execs[id].call == runtime.execs[id].call
            &&& !runtime.interrupted.contains(id) && known && !task ==> !(meaning is Nothing)
                && !after.execs.dom().contains(id) && (meaning is Shell <==> context::calls(
                runtime.execs[id].call,
                "Shell"@,
            ))
            &&& after.execs.dom().contains(other) <==> runtime.execs.dom().contains(other)
            &&& runtime.execs.dom().contains(other) ==> after.execs[other] == runtime.execs[other]
        }),
{
}

} // verus!
