//! Follows running tool calls.
use crate::collections::{IdMap, NameMap};
use crate::data;
use crate::data::Duplicate;
use crate::error::{Error, ErrorView};
use crate::model::tool::{ToolCall, ToolCallView};
use crate::cursor::tools::context;
use crate::cursor::tools::context::{DEFAULT_SHELL_BLOCK_UNTIL_MS, MAX_SHELL_BLOCK_UNTIL_MS};
use crate::text;
use vstd::prelude::*;

verus! {

/// How far a shell in the background has come.
#[derive(Clone, Copy, Debug, PartialEq, Eq, Structural)]
pub enum BackgroundShellStatus {
    Backgrounded,
    Running,
    Completed,
    Rejected,
    PermissionDenied,
    TransportClosed,
}

impl BackgroundShellStatus {
    /// Whether nothing more is expected of the shell.
    pub open spec fn terminal(self) -> bool {
        self == BackgroundShellStatus::Completed || self == BackgroundShellStatus::Rejected || self
            == BackgroundShellStatus::PermissionDenied || self
            == BackgroundShellStatus::TransportClosed
    }

    /// Whether nothing more is expected of the shell.
    pub fn is_terminal(&self) -> (r: bool)
        ensures
            r == self.terminal(),
    {
        match self {
            BackgroundShellStatus::Completed
            | BackgroundShellStatus::Rejected
            | BackgroundShellStatus::PermissionDenied
            | BackgroundShellStatus::TransportClosed => true,
            _ => false,
        }
    }
}

/// A shell in the background.
#[derive(Debug)]
pub struct BackgroundShellState {
    pub shell_id: String,
    pub pid: Option<u32>,
    pub status: BackgroundShellStatus,
    pub stdout: String,
    pub stderr: String,
    pub exit_code: Option<i32>,
}

#[verifier::ext_equal]
pub struct BackgroundShellView {
    pub shell_id: Seq<char>,
    pub pid: Option<u32>,
    pub status: BackgroundShellStatus,
    pub stdout: Seq<char>,
    pub stderr: Seq<char>,
    pub exit_code: Option<i32>,
}

impl View for BackgroundShellState {
    type V = BackgroundShellView;

    open spec fn view(&self) -> BackgroundShellView {
        BackgroundShellView {
            shell_id: self.shell_id@,
            pid: self.pid,
            status: self.status,
            stdout: self.stdout@,
            stderr: self.stderr@,
            exit_code: self.exit_code,
        }
    }
}

impl Duplicate for BackgroundShellState {
    fn duplicate(&self) -> (r: Self) {
        BackgroundShellState {
            shell_id: self.shell_id.clone(),
            pid: self.pid,
            status: self.status,
            stdout: self.stdout.clone(),
            stderr: self.stderr.clone(),
            exit_code: self.exit_code,
        }
    }
}

/// Whether a process is alive, going by what sending it no signal came to: it is when that worked,
/// or when it was refused for want of permission.
pub fn is_pid_alive(signal_result: i32, last_error: Option<i32>, permission_error: i32) -> (r: bool)
    ensures
        r == (signal_result == 0 || last_error == Some(permission_error)),
{
    if signal_result == 0 {
        true
    } else {
        match last_error {
            Some(error) => error == permission_error,
            None => false,
        }
    }
}

/// Shells in the background, and the messages that tell of them.
pub struct BackgroundShells {
    pub shells: NameMap<BackgroundShellState>,
    pub by_exec: NameMap<String>,
    pub by_message: IdMap<String>,
}

#[verifier::ext_equal]
pub struct BackgroundShellsView {
    pub shells: Map<Seq<char>, BackgroundShellView>,
    pub by_exec: Map<Seq<char>, Seq<char>>,
    pub by_message: Map<u32, Seq<char>>,
}

impl View for BackgroundShells {
    type V = BackgroundShellsView;

    open spec fn view(&self) -> BackgroundShellsView {
        BackgroundShellsView {
            shells: data::map_views(self.shells@),
            by_exec: data::map_views(self.by_exec@),
            by_message: data::map_views(self.by_message@),
        }
    }
}

/// The value of a key, if it has one.
pub open spec fn lookup<K, T>(m: Map<K, T>, key: K) -> Option<T> {
    if m.contains_key(key) {
        Some(m[key])
    } else {
        None
    }
}

/// A shell of which only the name is known.
pub open spec fn unknown_shell(shell_id: Seq<char>) -> BackgroundShellView {
    BackgroundShellView {
        shell_id,
        pid: None,
        status: BackgroundShellStatus::Running,
        stdout: Seq::empty(),
        stderr: Seq::empty(),
        exit_code: None,
    }
}

/// The status after output arrived: a shell that has ended stays so.
pub open spec fn status_on_output(status: BackgroundShellStatus) -> BackgroundShellStatus {
    if status.terminal() {
        status
    } else {
        BackgroundShellStatus::Running
    }
}

impl BackgroundShellView {
    pub open spec fn with_stdout(self, more: Seq<char>) -> BackgroundShellView {
        BackgroundShellView {
            stdout: self.stdout + more,
            status: status_on_output(self.status),
            ..self
        }
    }

    pub open spec fn with_stderr(self, more: Seq<char>) -> BackgroundShellView {
        BackgroundShellView {
            stderr: self.stderr + more,
            status: status_on_output(self.status),
            ..self
        }
    }

    pub open spec fn exited(self, exit_code: i32) -> BackgroundShellView {
        BackgroundShellView {
            exit_code: Some(exit_code),
            status: BackgroundShellStatus::Completed,
            ..self
        }
    }
}

impl BackgroundShellsView {
    /// What is known of a shell.
    pub open spec fn shell(self, shell_id: Seq<char>) -> BackgroundShellView {
        match lookup(self.shells, shell_id) {
            Some(shell) => shell,
            None => unknown_shell(shell_id),
        }
    }

    /// The shells with one of them set.
    pub open spec fn with_shell(self, shell_id: Seq<char>, shell: BackgroundShellView) -> Self {
        BackgroundShellsView { shells: self.shells.insert(shell_id, shell), ..self }
    }

    /// The shell that a message tells of: by the execution that it names, else by its own id.
    pub open spec fn for_event(self, message_id: u32, exec_id: Seq<char>) -> Option<Seq<char>> {
        match lookup(self.by_exec, exec_id) {
            Some(shell_id) => Some(shell_id),
            None => lookup(self.by_message, message_id),
        }
    }
}

impl BackgroundShells {
    pub open spec fn wf(self) -> bool {
        self.by_message.wf()
    }

    /// No shells.
    pub fn new() -> (r: Self)
        ensures
            r.wf(),
            r@ == (BackgroundShellsView {
                shells: Map::empty(),
                by_exec: Map::empty(),
                by_message: Map::empty(),
            }),
    {
        broadcast use crate::data::group_map_views;

        BackgroundShells { shells: NameMap::new(), by_exec: NameMap::new(), by_message: IdMap::new() }
    }

    /// What is known of a shell.
    pub fn background_shell(&self, shell_id: &str) -> (r: Option<BackgroundShellState>)
        ensures
            data::option_view(r) == lookup(self@.shells, shell_id@),
    {
        match self.shells.get(shell_id) {
            Some(shell) => Some(shell.duplicate()),
            None => None,
        }
    }

    /// The shell of an execution.
    pub fn background_shell_for_exec(&self, exec_id: &str) -> (r: Option<String>)
        ensures
            data::option_view(r) == lookup(self@.by_exec, exec_id@),
    {
        match self.by_exec.get(exec_id) {
            Some(shell_id) => Some(shell_id.clone()),
            None => None,
        }
    }

    /// The shell of a message.
    pub fn background_shell_for_message(&self, message_id: u32) -> (r: Option<String>)
        requires
            self.wf(),
        ensures
            data::option_view(r) == lookup(self@.by_message, message_id),
    {
        match self.by_message.get(message_id) {
            Some(shell_id) => Some(shell_id.clone()),
            None => None,
        }
    }

    /// The shell that a message tells of: by the execution that it names, else by its own id.
    pub fn background_shell_for_event(&self, message_id: u32, exec_id: &str) -> (r: Option<String>)
        requires
            self.wf(),
        ensures
            data::option_view(r) == self@.for_event(message_id, exec_id@),
    {
        match self.background_shell_for_exec(exec_id) {
            Some(shell_id) => Some(shell_id),
            None => self.background_shell_for_message(message_id),
        }
    }

    /// Takes what is known of a shell out, to be changed and put back.
    fn take_shell(&mut self, shell_id: &str) -> (r: BackgroundShellState)
        requires
            old(self).wf(),
        ensures
            final(self).wf(),
            r@ == old(self)@.shell(shell_id@),
            final(self)@ == (BackgroundShellsView {
                shells: old(self)@.shells.remove(shell_id@),
                ..old(self)@
            }),
    {
        broadcast use crate::data::group_map_views;

        match self.shells.remove(shell_id) {
            Some(shell) => shell,
            None => BackgroundShellState {
                shell_id: shell_id.to_owned(),
                pid: None,
                status: BackgroundShellStatus::Running,
                stdout: String::new(),
                stderr: String::new(),
                exit_code: None,
            },
        }
    }

    fn put_shell(&mut self, shell_id: &str, shell: BackgroundShellState)
        requires
            old(self).wf(),
        ensures
            final(self).wf(),
            final(self)@ == old(self)@.with_shell(shell_id@, shell@),
    {
        broadcast use crate::data::group_map_views;

        self.shells.insert(shell_id.to_owned(), shell);
    }

    /// Output of a shell. A shell that has ended stays so.
    pub fn background_shell_stdout(&mut self, shell_id: &str, data: &str)
        requires
            old(self).wf(),
        ensures
            final(self).wf(),
            final(self)@ == old(self)@.with_shell(
                shell_id@,
                old(self)@.shell(shell_id@).with_stdout(data@),
            ),
    {
        let mut shell = self.take_shell(shell_id);
        shell.stdout.append(data);
        if !shell.status.is_terminal() {
            shell.status = BackgroundShellStatus::Running;
        }
        self.put_shell(shell_id, shell);
        assert(self@.shells =~= old(self)@.with_shell(shell_id@, shell@).shells);
    }

    /// Error output of a shell. A shell that has ended stays so.
    pub fn background_shell_stderr(&mut self, shell_id: &str, data: &str)
        requires
            old(self).wf(),
        ensures
            final(self).wf(),
            final(self)@ == old(self)@.with_shell(
                shell_id@,
                old(self)@.shell(shell_id@).with_stderr(data@),
            ),
    {
        let mut shell = self.take_shell(shell_id);
        shell.stderr.append(data);
        if !shell.status.is_terminal() {
            shell.status = BackgroundShellStatus::Running;
        }
        self.put_shell(shell_id, shell);
        assert(self@.shells =~= old(self)@.with_shell(shell_id@, shell@).shells);
    }

    /// The end of a shell.
    pub fn background_shell_exit(&mut self, shell_id: &str, exit_code: i32)
        requires
            old(self).wf(),
        ensures
            final(self).wf(),
            final(self)@ == old(self)@.with_shell(
                shell_id@,
                old(self)@.shell(shell_id@).exited(exit_code),
            ),
    {
        let mut shell = self.take_shell(shell_id);
        shell.exit_code = Some(exit_code);
        shell.status = BackgroundShellStatus::Completed;
        self.put_shell(shell_id, shell);
        assert(self@.shells =~= old(self)@.with_shell(shell_id@, shell@).shells);
    }

    /// The end of a shell without an exit code.
    pub fn background_shell_terminal(&mut self, shell_id: &str, status: BackgroundShellStatus)
        requires
            old(self).wf(),
        ensures
            final(self).wf(),
            final(self)@ == old(self)@.with_shell(
                shell_id@,
                BackgroundShellView { status, ..old(self)@.shell(shell_id@) },
            ),
    {
        let mut shell = self.take_shell(shell_id);
        shell.status = status;
        self.put_shell(shell_id, shell);
        assert(self@.shells =~= old(self)@.with_shell(shell_id@, shell@).shells);
    }

    /// A shell that went to the background with this output. What is known of it by now stays.
    pub fn background_shell_backgrounded(
        &mut self,
        shell_id: u32,
        pid: Option<u32>,
        message_id: u32,
        exec_id: &str,
        stdout: String,
        stderr: String,
    )
        requires
            old(self).wf(),
        ensures
            final(self).wf(),
            ({
                let name = text::decimal(shell_id as nat);
                final(self)@ == BackgroundShellsView {
                    shells: if old(self)@.shells.contains_key(name) {
                        old(self)@.shells
                    } else {
                        old(self)@.shells.insert(
                            name,
                            BackgroundShellView {
                                shell_id: name,
                                pid,
                                status: BackgroundShellStatus::Backgrounded,
                                stdout: stdout@,
                                stderr: stderr@,
                                exit_code: None,
                            },
                        )
                    },
                    by_exec: old(self)@.by_exec.insert(exec_id@, name),
                    by_message: old(self)@.by_message.insert(message_id, name),
                }
            }),
    {
        broadcast use crate::data::group_map_views;

        let name = text::decimal_u64(shell_id as u64);
        self.by_exec.insert(exec_id.to_owned(), name.clone());
        self.by_message.insert(message_id, name.clone());
        let known = self.shells.get(name.as_str()).is_some();
        if !known {
            self.shells.insert(
                name.clone(),
                BackgroundShellState {
                    shell_id: name,
                    pid,
                    status: BackgroundShellStatus::Backgrounded,
                    stdout,
                    stderr,
                    exit_code: None,
                },
            );
        }
    }

    /// The transport of a message closed. The shell that the message started is lost if it was
    /// running; `true` says so.
    pub fn mark_background_shell_transport_closed(&mut self, message_id: u32) -> (r: bool)
        requires
            old(self).wf(),
        ensures
            final(self).wf(),
            ({
                let shell = match lookup(old(self)@.by_message, message_id) {
                    Some(shell_id) => lookup(old(self)@.shells, shell_id),
                    None => None,
                };
                &&& r == (shell matches Some(s) && s.status == BackgroundShellStatus::Running)
                &&& final(self)@ == (if r {
                    old(self)@.with_shell(
                        old(self)@.by_message[message_id],
                        BackgroundShellView {
                            status: BackgroundShellStatus::TransportClosed,
                            ..shell->0
                        },
                    )
                } else {
                    old(self)@
                })
            }),
    {
        let shell_id = match self.background_shell_for_message(message_id) {
            Some(shell_id) => shell_id,
            None => {
                return false;
            },
        };
        match self.shells.get(shell_id.as_str()) {
            Some(shell) => {
                if shell.status != BackgroundShellStatus::Running {
                    return false;
                }
            },
            None => {
                return false;
            },
        }
        self.background_shell_terminal(shell_id.as_str(), BackgroundShellStatus::TransportClosed);
        true
    }

    /// The notice that a task in the background has ended, where the task is a shell. `None` stands
    /// for a status that says nothing.
    pub fn observe_background_task_completion(
        &mut self,
        is_shell: bool,
        task_id: &str,
        status: Option<crate::run::actor::BackgroundTaskStatus>,
        detail: &str,
    )
        requires
            old(self).wf(),
        ensures
            final(self).wf(),
            final(self)@ == (match status {
                Some(status) if is_shell && task_id@.len() > 0 => {
                    let shell = old(self)@.shell(task_id@);
                    old(self)@.with_shell(
                        task_id@,
                        if status == crate::run::actor::BackgroundTaskStatus::Success {
                            BackgroundShellView {
                                stdout: shell.stdout + detail@,
                                status: BackgroundShellStatus::Completed,
                                ..shell
                            }
                        } else {
                            BackgroundShellView {
                                stderr: shell.stderr + detail@,
                                status: BackgroundShellStatus::TransportClosed,
                                ..shell
                            }
                        },
                    )
                },
                _ => old(self)@,
            }),
    {
        if !is_shell || task_id.is_empty() {
            return ;
        }
        match status {
            None => {},
            Some(status) => {
                let mut shell = self.take_shell(task_id);
                if status == crate::run::actor::BackgroundTaskStatus::Success {
                    shell.stdout.append(detail);
                    shell.status = BackgroundShellStatus::Completed;
                } else {
                    shell.stderr.append(detail);
                    shell.status = BackgroundShellStatus::TransportClosed;
                }
                self.put_shell(task_id, shell);
                assert(self@.shells =~= old(self)@.with_shell(task_id@, shell@).shells);
            },
        }
    }
}

/// Output never brings a shell back that has ended.
pub proof fn law_ended_shells_stay_ended(shell: BackgroundShellView, more: Seq<char>)
    requires
        shell.status.terminal(),
    ensures
        shell.with_stdout(more).status == shell.status,
        shell.with_stderr(more).status == shell.status,
{
}

/// Where message ids come from. All runtimes of one connection share one source.
pub struct IdSource {
    pub last: u32,
}

impl IdSource {
    pub fn new() -> (r: Self)
        ensures
            r.last == 0,
    {
        IdSource { last: 0 }
    }

    /// The next id. After the largest one there is none, once; then the ids begin again.
    pub fn next_id(&mut self) -> (r: Result<u32, Error>)
        ensures
            match r {
                Ok(id) => old(self).last < u32::MAX && id == old(self).last + 1 && final(self).last
                    == id,
                Err(error) => old(self).last == u32::MAX && final(self).last == 0 && error@
                    == ErrorView::Protocol("Cursor message id space exhausted"@),
            },
    {
        if self.last < u32::MAX {
            self.last = self.last + 1;
            Ok(self.last)
        } else {
            self.last = 0;
            Err(Error::Protocol("Cursor message id space exhausted".to_owned()))
        }
    }
}

/// What a call that waits for a shell needs.
#[derive(Debug)]
pub struct AwaitState {
    pub deadline_ms: u64,
    pub output_file_path: String,
    pub task_id: String,
    pub regex: Option<String>,
}

#[verifier::ext_equal]
pub struct AwaitStateView {
    pub deadline_ms: u64,
    pub output_file_path: Seq<char>,
    pub task_id: Seq<char>,
    pub regex: Option<Seq<char>>,
}

impl View for AwaitState {
    type V = AwaitStateView;

    open spec fn view(&self) -> AwaitStateView {
        AwaitStateView {
            deadline_ms: self.deadline_ms,
            output_file_path: self.output_file_path@,
            task_id: self.task_id@,
            regex: data::option_view(self.regex),
        }
    }
}

/// How far the execution of a call has come. A ticket names what the caller keeps for the call: the
/// definition of an MCP tool, or what an edit is going to write.
#[derive(Debug)]
pub enum ExecStage {
    Direct,
    DynamicMcp(u64),
    EditRead,
    EditWrite(u64),
    Await(AwaitState),
}

#[verifier::ext_equal]
pub enum ExecStageView {
    Direct,
    DynamicMcp(u64),
    EditRead,
    EditWrite(u64),
    Await(AwaitStateView),
}

impl View for ExecStage {
    type V = ExecStageView;

    open spec fn view(&self) -> ExecStageView {
        match self {
            ExecStage::Direct => ExecStageView::Direct,
            ExecStage::DynamicMcp(ticket) => ExecStageView::DynamicMcp(*ticket),
            ExecStage::EditRead => ExecStageView::EditRead,
            ExecStage::EditWrite(ticket) => ExecStageView::EditWrite(*ticket),
            ExecStage::Await(state) => ExecStageView::Await(state@),
        }
    }
}

/// A call that the client is executing.
#[derive(Debug)]
pub struct PendingExec {
    pub call: ToolCall,
    pub terminals_folder: String,
    pub started_at_ms: u64,
    pub stdout: String,
    pub stderr: String,
    pub stage: ExecStage,
    pub transport_closed: bool,
}

#[verifier::ext_equal]
pub struct PendingExecView {
    pub call: ToolCallView,
    pub terminals_folder: Seq<char>,
    pub started_at_ms: u64,
    pub stdout: Seq<char>,
    pub stderr: Seq<char>,
    pub stage: ExecStageView,
    pub transport_closed: bool,
}

impl View for PendingExec {
    type V = PendingExecView;

    open spec fn view(&self) -> PendingExecView {
        PendingExecView {
            call: self.call@,
            terminals_folder: self.terminals_folder@,
            started_at_ms: self.started_at_ms,
            stdout: self.stdout@,
            stderr: self.stderr@,
            stage: self.stage@,
            transport_closed: self.transport_closed,
        }
    }
}

/// A call that the user is being asked about.
#[derive(Debug)]
pub struct PendingInteraction {
    pub call: ToolCall,
    pub started_at_ms: u64,
}

#[verifier::ext_equal]
pub struct PendingInteractionView {
    pub call: ToolCallView,
    pub started_at_ms: u64,
}

impl View for PendingInteraction {
    type V = PendingInteractionView;

    open spec fn view(&self) -> PendingInteractionView {
        PendingInteractionView { call: self.call@, started_at_ms: self.started_at_ms }
    }
}

/// The calls of one run.
pub struct CursorToolRuntime {
    pub execs: IdMap<PendingExec>,
    pub interactions: IdMap<PendingInteraction>,
    pub completed: IdMap<String>,
    pub interrupted: IdMap<bool>,
}

#[verifier::ext_equal]
pub struct RuntimeView {
    pub execs: Map<u32, PendingExecView>,
    pub interactions: Map<u32, PendingInteractionView>,
    pub completed: Map<u32, Seq<char>>,
    pub interrupted: Set<u32>,
}

impl View for CursorToolRuntime {
    type V = RuntimeView;

    open spec fn view(&self) -> RuntimeView {
        RuntimeView {
            execs: data::map_views(self.execs@),
            interactions: data::map_views(self.interactions@),
            completed: data::map_views(self.completed@),
            interrupted: self.interrupted@.dom(),
        }
    }
}

impl RuntimeView {
    /// No calls.
    pub open spec fn empty() -> RuntimeView {
        RuntimeView {
            execs: Map::empty(),
            interactions: Map::empty(),
            completed: Map::empty(),
            interrupted: Set::empty(),
        }
    }

    /// The runtime once a call that the user was asked about was answered.
    pub open spec fn without_interaction(self, id: u32) -> RuntimeView {
        match lookup(self.interactions, id) {
            Some(entry) => RuntimeView {
                interactions: self.interactions.remove(id),
                completed: self.completed.insert(id, entry.call.call_id),
                ..self
            },
            None => self,
        }
    }

    /// The calls after one has been answered.
    pub open spec fn without_exec(self, id: u32) -> RuntimeView {
        match lookup(self.execs, id) {
            Some(entry) => RuntimeView {
                execs: self.execs.remove(id),
                completed: self.completed.insert(id, entry.call.call_id),
                ..self
            },
            None => self,
        }
    }
}

/// Whether ids stand in order and are exactly those of a set.
pub open spec fn lists(ids: Seq<u32>, set: Set<u32>) -> bool {
    &&& forall|i: int, j: int| 0 <= i < j < ids.len() ==> ids[i] < ids[j]
    &&& forall|id: u32| #[trigger] ids.contains(id) <==> set.contains(id)
}

/// The file that a shell in the background writes to.
pub open spec fn output_file(terminals_folder: Seq<char>, task_id: Seq<char>) -> Seq<char> {
    without_slashes(terminals_folder) + "/"@ + task_id + ".txt"@
}

/// A path without the slashes at its end.
pub open spec fn without_slashes(path: Seq<char>) -> Seq<char>
    decreases path.len(),
{
    if path.len() > 0 && path.last() == '/' {
        without_slashes(path.drop_last())
    } else {
        path
    }
}

fn trim_slashes(path: &str) -> (r: String)
    ensures
        r@ == without_slashes(path@),
{
    let chars = text::to_chars(path);
    let mut end: usize = chars.len();
    assert(chars@.take(end as int) =~= chars@);
    while end > 0 && chars[end - 1] == '/'
        invariant
            end <= chars@.len(),
            without_slashes(chars@) == without_slashes(chars@.take(end as int)),
        decreases end,
    {
        assert(chars@.take(end as int).drop_last() =~= chars@.take(end - 1));
        assert(chars@.take(end as int).last() == chars@[end - 1]);
        end -= 1;
    }
    assert(end > 0 ==> chars@.take(end as int).last() == chars@[end - 1]);
    let out = text::slice(&chars, 0, end);
    assert(out@ =~= chars@.take(end as int));
    out
}

/// What a call that waits for a shell needs, from its arguments and the time now.
pub open spec fn await_state_of(
    call: ToolCallView,
    terminals_folder: Seq<char>,
    now_ms: u64,
) -> Result<AwaitStateView, ErrorView> {
    match call.arguments.text_at("shell_id"@) {
        None => Err(ErrorView::Protocol("AwaitShell is missing shell_id"@)),
        Some(task_id) => {
            let block_ms = match call.arguments.at("block_until_ms"@) {
                Some(value) => match value.unsigned() {
                    Some(ms) => ms,
                    None => DEFAULT_SHELL_BLOCK_UNTIL_MS,
                },
                None => DEFAULT_SHELL_BLOCK_UNTIL_MS,
            };
            if block_ms > MAX_SHELL_BLOCK_UNTIL_MS {
                Err(ErrorView::Protocol("AwaitShell block_until_ms exceeds 60000"@))
            } else {
                Ok(
                    AwaitStateView {
                        deadline_ms: (now_ms + block_ms) as u64,
                        output_file_path: output_file(terminals_folder, task_id),
                        task_id,
                        regex: call.arguments.text_at("pattern"@),
                    },
                )
            }
        },
    }
}

/// What a call that waits for a shell needs, from its arguments and the time now.
pub fn await_state(call: &ToolCall, terminals_folder: &str, now_ms: u64) -> (r: Result<
    AwaitState,
    Error,
>)
    requires
        now_ms + MAX_SHELL_BLOCK_UNTIL_MS <= u64::MAX,
    ensures
        crate::error::result_view(r) == await_state_of(call@, terminals_folder@, now_ms),
{
    let task_id = match call.arguments.get_str("shell_id") {
        Some(task_id) => task_id,
        None => {
            return Err(Error::Protocol("AwaitShell is missing shell_id".to_owned()));
        },
    };
    let block_ms: u64 = match call.arguments.get("block_until_ms") {
        Some(value) => match value.as_u64() {
            Some(ms) => ms,
            None => DEFAULT_SHELL_BLOCK_UNTIL_MS,
        },
        None => DEFAULT_SHELL_BLOCK_UNTIL_MS,
    };
    if block_ms > MAX_SHELL_BLOCK_UNTIL_MS {
        return Err(Error::Protocol("AwaitShell block_until_ms exceeds 60000".to_owned()));
    }
    let mut output_file_path = trim_slashes(terminals_folder);
    output_file_path.append("/");
    output_file_path.append(task_id);
    output_file_path.append(".txt");
    let regex = match call.arguments.get_str("pattern") {
        Some(pattern) => Some(pattern.to_owned()),
        None => None,
    };
    Ok(
        AwaitState {
            deadline_ms: now_ms + block_ms,
            output_file_path,
            task_id: task_id.to_owned(),
            regex,
        },
    )
}

/// A call that has just been handed to the client.
pub open spec fn fresh_exec(
    call: ToolCallView,
    terminals_folder: Seq<char>,
    stage: ExecStageView,
    started_at_ms: u64,
) -> PendingExecView {
    PendingExecView {
        call,
        terminals_folder,
        started_at_ms,
        stdout: Seq::empty(),
        stderr: Seq::empty(),
        stage,
        transport_closed: false,
    }
}

/// The error of a source that has run out of ids.
pub open spec fn no_more_ids() -> ErrorView {
    ErrorView::Protocol("Cursor message id space exhausted"@)
}

/// How a runtime and the source of its ids end where `entry` was to be registered: under the next
/// id, or, where the ids have run out, not at all; the ids then begin again.
pub open spec fn reserved(
    before: RuntimeView,
    ids_before: IdSource,
    entry: PendingExecView,
    r: Result<u32, ErrorView>,
    after: RuntimeView,
    ids_after: IdSource,
) -> bool {
    if ids_before.last == u32::MAX {
        &&& r == Err::<u32, ErrorView>(no_more_ids())
        &&& after == before
        &&& ids_after.last == 0
    } else {
        let id = (ids_before.last + 1) as u32;
        &&& r == Ok::<u32, ErrorView>(id)
        &&& after == (RuntimeView { execs: before.execs.insert(id, entry), ..before })
        &&& ids_after.last == id
    }
}

impl CursorToolRuntime {
    pub open spec fn wf(self) -> bool {
        &&& self.execs.wf()
        &&& self.interactions.wf()
        &&& self.completed.wf()
        &&& self.interrupted.wf()
    }

    /// No calls.
    pub fn new() -> (r: Self)
        ensures
            r.wf(),
            r@ == RuntimeView::empty(),
    {
        broadcast use crate::data::group_map_views;

        let r = CursorToolRuntime {
            execs: IdMap::new(),
            interactions: IdMap::new(),
            completed: IdMap::new(),
            interrupted: IdMap::new(),
        };
        assert(r@.interrupted =~= Set::empty());
        r
    }

    /// The calls of the run that takes over: none but the memory of what was interrupted.
    pub fn next_run(self) -> (r: Self)
        requires
            self.wf(),
        ensures
            r.wf(),
            r@ == (RuntimeView { interrupted: self@.interrupted, ..RuntimeView::empty() }),
    {
        broadcast use crate::data::group_map_views;

        CursorToolRuntime {
            execs: IdMap::new(),
            interactions: IdMap::new(),
            completed: IdMap::new(),
            interrupted: self.interrupted,
        }
    }

    /// Registers a call that goes to the client, under a new id.
    pub fn reserve_exec_stage(
        &mut self,
        ids: &mut IdSource,
        call: &ToolCall,
        terminals_folder: &str,
        stage: ExecStage,
        started_at_ms: u64,
    ) -> (r: Result<u32, Error>)
        requires
            old(self).wf(),
        ensures
            final(self).wf(),
            reserved(
                old(self)@,
                *old(ids),
                fresh_exec(call@, terminals_folder@, stage@, started_at_ms),
                crate::error::result_view(r),
                final(self)@,
                *final(ids),
            ),
    {
        broadcast use crate::data::group_map_views;

        let id = match ids.next_id() {
            Ok(id) => id,
            Err(error) => {
                return Err(error);
            },
        };
        self.execs.insert(
            id,
            PendingExec {
                call: call.duplicate(),
                terminals_folder: terminals_folder.to_owned(),
                started_at_ms,
                stdout: String::new(),
                stderr: String::new(),
                stage,
                transport_closed: false,
            },
        );
        Ok(id)
    }

    /// Registers a call that the client carries out in one step.
    pub fn reserve_exec(
        &mut self,
        ids: &mut IdSource,
        call: &ToolCall,
        terminals_folder: &str,
        started_at_ms: u64,
    ) -> (r: Result<u32, Error>)
        requires
            old(self).wf(),
        ensures
            final(self).wf(),
            reserved(
                old(self)@,
                *old(ids),
                fresh_exec(call@, terminals_folder@, ExecStageView::Direct, started_at_ms),
                crate::error::result_view(r),
                final(self)@,
                *final(ids),
            ),
    {
        self.reserve_exec_stage(ids, call, terminals_folder, ExecStage::Direct, started_at_ms)
    }

    /// Registers a call that waits for a shell, from the time now on.
    pub fn reserve_await(
        &mut self,
        ids: &mut IdSource,
        call: &ToolCall,
        terminals_folder: &str,
        now_ms: u64,
    ) -> (r: Result<u32, Error>)
        requires
            old(self).wf(),
            now_ms + MAX_SHELL_BLOCK_UNTIL_MS <= u64::MAX,
        ensures
            final(self).wf(),
            match await_state_of(call@, terminals_folder@, now_ms) {
                Ok(state) => reserved(
                    old(self)@,
                    *old(ids),
                    fresh_exec(call@, terminals_folder@, ExecStageView::Await(state), now_ms),
                    crate::error::result_view(r),
                    final(self)@,
                    *final(ids),
                ),
                Err(error) => crate::error::result_view(r) == Err::<u32, ErrorView>(error)
                    && final(self)@ == old(self)@ && *final(ids) == *old(ids),
            },
    {
        let state = match await_state(call, terminals_folder, now_ms) {
            Ok(state) => state,
            Err(error) => {
                return Err(error);
            },
        };
        self.reserve_exec_stage(ids, call, terminals_folder, ExecStage::Await(state), now_ms)
    }

    /// Registers a call that the user is asked about, under a new id.
    pub fn reserve_interaction(&mut self, ids: &mut IdSource, call: &ToolCall, started_at_ms: u64) -> (r:
        Result<u32, Error>)
        requires
            old(self).wf(),
        ensures
            final(self).wf(),
            match r {
                Ok(id) => old(ids).last < u32::MAX && id == old(ids).last + 1 && final(ids).last
                    == id && final(self)@ == (RuntimeView {
                    interactions: old(self)@.interactions.insert(
                        id,
                        PendingInteractionView { call: call@, started_at_ms },
                    ),
                    ..old(self)@
                }),
                Err(error) => old(ids).last == u32::MAX && error@ == no_more_ids() && final(self)@
                    == old(self)@ && final(ids).last == 0,
            },
    {
        broadcast use crate::data::group_map_views;

        let id = match ids.next_id() {
            Ok(id) => id,
            Err(error) => {
                return Err(error);
            },
        };
        self.interactions.insert(
            id,
            PendingInteraction { call: call.duplicate(), started_at_ms },
        );
        Ok(id)
    }

    /// The call that the client is executing under this id.
    pub fn exec_call(&self, id: u32) -> (r: Option<ToolCall>)
        requires
            self.wf(),
        ensures
            data::option_view(r) == (match lookup(self@.execs, id) {
                Some(entry) => Some(entry.call),
                None => None,
            }),
    {
        match self.execs.get(id) {
            Some(entry) => Some(entry.call.duplicate()),
            None => None,
        }
    }

    /// Adds output to a running call. `false` says that there is no such call.
    pub fn append_stdout(&mut self, id: u32, data: &str) -> (r: bool)
        requires
            old(self).wf(),
        ensures
            final(self).wf(),
            r == old(self)@.execs.contains_key(id),
            final(self)@ == (match lookup(old(self)@.execs, id) {
                Some(entry) => RuntimeView {
                    execs: old(self)@.execs.insert(
                        id,
                        PendingExecView { stdout: entry.stdout + data@, ..entry },
                    ),
                    ..old(self)@
                },
                None => old(self)@,
            }),
    {
        broadcast use crate::data::group_map_views;

        match self.execs.remove(id) {
            Some(entry) => {
                let mut entry = entry;
                entry.stdout.append(data);
                self.execs.insert(id, entry);
                assert(self@.execs =~= old(self)@.execs.insert(id, entry@));
                true
            },
            None => {
                assert(self@.execs =~= old(self)@.execs);
                false
            },
        }
    }

    /// Adds error output to a running call. `false` says that there is no such call.
    pub fn append_stderr(&mut self, id: u32, data: &str) -> (r: bool)
        requires
            old(self).wf(),
        ensures
            final(self).wf(),
            r == old(self)@.execs.contains_key(id),
            final(self)@ == (match lookup(old(self)@.execs, id) {
                Some(entry) => RuntimeView {
                    execs: old(self)@.execs.insert(
                        id,
                        PendingExecView { stderr: entry.stderr + data@, ..entry },
                    ),
                    ..old(self)@
                },
                None => old(self)@,
            }),
    {
        broadcast use crate::data::group_map_views;

        match self.execs.remove(id) {
            Some(entry) => {
                let mut entry = entry;
                entry.stderr.append(data);
                self.execs.insert(id, entry);
                assert(self@.execs =~= old(self)@.execs.insert(id, entry@));
                true
            },
            None => {
                assert(self@.execs =~= old(self)@.execs);
                false
            },
        }
    }

    /// Notes that the transport of a call closed. `false` says that there is no such call or that
    /// this was known.
    pub fn mark_transport_closed(&mut self, id: u32) -> (r: bool)
        requires
            old(self).wf(),
        ensures
            final(self).wf(),
            r == (lookup(old(self)@.execs, id) matches Some(entry) && !entry.transport_closed),
            final(self)@ == (match lookup(old(self)@.execs, id) {
                Some(entry) => RuntimeView {
                    execs: old(self)@.execs.insert(
                        id,
                        PendingExecView { transport_closed: true, ..entry },
                    ),
                    ..old(self)@
                },
                None => old(self)@,
            }),
    {
        broadcast use crate::data::group_map_views;

        match self.execs.remove(id) {
            Some(entry) => {
                let mut entry = entry;
                let fresh = !entry.transport_closed;
                entry.transport_closed = true;
                self.execs.insert(id, entry);
                assert(self@.execs =~= old(self)@.execs.insert(id, entry@));
                fresh
            },
            None => {
                assert(self@.execs =~= old(self)@.execs);
                false
            },
        }
    }

    /// Takes a call that was answered out, and remembers that it was.
    pub fn take_exec(&mut self, id: u32) -> (r: Option<PendingExec>)
        requires
            old(self).wf(),
        ensures
            final(self).wf(),
            data::option_view(r) == lookup(old(self)@.execs, id),
            final(self)@ == old(self)@.without_exec(id),
    {
        broadcast use crate::data::group_map_views;

        match self.execs.remove(id) {
            Some(entry) => {
                self.completed.insert(id, entry.call.call_id.clone());
                Some(entry)
            },
            None => {
                assert(self@.execs =~= old(self)@.execs);
                None
            },
        }
    }

    /// Takes a call out whose transport closed, and remembers it as answered.
    pub fn take_transport_closed(&mut self, id: u32) -> (r: Option<PendingExec>)
        requires
            old(self).wf(),
        ensures
            final(self).wf(),
            data::option_view(r) == (match lookup(old(self)@.execs, id) {
                Some(entry) if entry.transport_closed => Some(entry),
                _ => None,
            }),
            final(self)@ == (if r is Some {
                old(self)@.without_exec(id)
            } else {
                old(self)@
            }),
    {
        let closed = match self.execs.get(id) {
            Some(entry) => entry.transport_closed,
            None => false,
        };
        if closed {
            self.take_exec(id)
        } else {
            None
        }
    }

    /// Takes a call out that the user answered, and remembers that it was answered.
    pub fn take_interaction(&mut self, id: u32) -> (r: Option<PendingInteraction>)
        requires
            old(self).wf(),
        ensures
            final(self).wf(),
            data::option_view(r) == lookup(old(self)@.interactions, id),
            final(self)@ == old(self)@.without_interaction(id),
    {
        broadcast use crate::data::group_map_views;

        match self.interactions.remove(id) {
            Some(entry) => {
                self.completed.insert(id, entry.call.call_id.clone());
                Some(entry)
            },
            None => {
                assert(self@.interactions =~= old(self)@.interactions);
                None
            },
        }
    }

    /// The answer of the user to a call: the call, or why there is none.
    pub fn interaction_response(&mut self, id: u32) -> (r: Result<PendingInteraction, Error>)
        requires
            old(self).wf(),
        ensures
            final(self).wf(),
            crate::error::result_view(r) == (match lookup(old(self)@.interactions, id) {
                Some(entry) => Ok(entry),
                None => if old(self)@.completed.contains_key(id) {
                    Err(
                        ErrorView::Protocol(
                            "duplicate terminal InteractionResponse id: "@ + text::decimal(
                                id as nat,
                            ),
                        ),
                    )
                } else {
                    Err(
                        ErrorView::Protocol(
                            "unknown InteractionResponse id: "@ + text::decimal(id as nat),
                        ),
                    )
                },
            }),
            final(self)@ == old(self)@.without_interaction(id),
    {
        if let Some(entry) = self.take_interaction(id) {
            return Ok(entry);
        }
        let number = text::decimal_u64(id as u64);
        if self.completed.contains(id) {
            Err(
                Error::Protocol(
                    text::concat("duplicate terminal InteractionResponse id: ", number.as_str()),
                ),
            )
        } else {
            Err(
                Error::Protocol(
                    text::concat("unknown InteractionResponse id: ", number.as_str()),
                ),
            )
        }
    }

    /// The call that was answered under this id.
    pub fn completed_call(&self, id: u32) -> (r: Option<String>)
        requires
            self.wf(),
        ensures
            data::option_view(r) == lookup(self@.completed, id),
    {
        match self.completed.get(id) {
            Some(call_id) => Some(call_id.clone()),
            None => None,
        }
    }

    /// Whether a call was interrupted.
    pub fn is_interrupted(&self, id: u32) -> (r: bool)
        requires
            self.wf(),
        ensures
            r == self@.interrupted.contains(id),
    {
        self.interrupted.contains(id)
    }

    /// Forgets which calls were answered.
    pub fn clear_completed(&mut self)
        requires
            old(self).wf(),
        ensures
            final(self).wf(),
            final(self)@ == (RuntimeView { completed: Map::empty(), ..old(self)@ }),
    {
        broadcast use crate::data::group_map_views;

        self.completed = IdMap::new();
    }

    /// Forgets a running call.
    pub fn discard_exec(&mut self, id: u32)
        requires
            old(self).wf(),
        ensures
            final(self).wf(),
            final(self)@ == (RuntimeView { execs: old(self)@.execs.remove(id), ..old(self)@ }),
    {
        broadcast use crate::data::group_map_views;

        let _ = self.execs.remove(id);
    }

    /// Forgets a call that the user is being asked about.
    pub fn discard_interaction(&mut self, id: u32)
        requires
            old(self).wf(),
        ensures
            final(self).wf(),
            final(self)@ == (RuntimeView {
                interactions: old(self)@.interactions.remove(id),
                ..old(self)@
            }),
    {
        broadcast use crate::data::group_map_views;

        let _ = self.interactions.remove(id);
    }

    /// The ids of the running calls.
    pub fn running_exec_ids(&self) -> (r: Vec<u32>)
        requires
            self.wf(),
        ensures
            lists(r@, self@.execs.dom()),
    {
        let r = self.execs.ids();
        assert(self@.execs.dom() =~= self.execs@.dom());
        r
    }

    /// Forgets everything, and names the calls that were running.
    pub fn drain_running(&mut self) -> (r: Vec<u32>)
        requires
            old(self).wf(),
        ensures
            final(self).wf(),
            lists(r@, old(self)@.execs.dom()),
            final(self)@ == RuntimeView::empty(),
    {
        let ids = self.running_exec_ids();
        *self = CursorToolRuntime::new();
        ids
    }

    /// Remembers that these calls were interrupted.
    fn interrupt_all(&mut self, ids: &Vec<u32>)
        requires
            old(self).wf(),
        ensures
            final(self).wf(),
            final(self)@ == (RuntimeView {
                interrupted: old(self)@.interrupted.union(ids@.to_set()),
                ..old(self)@
            }),
    {
        let mut i: usize = 0;
        assert(old(self)@.interrupted.union(ids@.take(0).to_set()) =~= old(self)@.interrupted);
        while i < ids.len()
            invariant
                i <= ids@.len(),
                self.wf(),
                self@ == (RuntimeView {
                    interrupted: old(self)@.interrupted.union(ids@.take(i as int).to_set()),
                    ..old(self)@
                }),
            decreases ids@.len() - i,
        {
            let ghost before = self@.interrupted;
            self.interrupted.insert(ids[i], true);
            proof {
                let now = ids@.take(i + 1);
                assert(now =~= ids@.take(i as int).push(ids@[i as int]));
                assert forall|id: u32| #[trigger] now.to_set().contains(id) <==> ids@.take(
                    i as int,
                ).to_set().contains(id) || id == ids@[i as int] by {
                    if id == ids@[i as int] {
                        assert(now[i as int] == id);
                    }
                    if ids@.take(i as int).contains(id) {
                        let k = choose|k: int| 0 <= k < i && ids@.take(i as int)[k] == id;
                        assert(now[k] == id);
                    }
                }
                assert(self@.interrupted =~= old(self)@.interrupted.union(now.to_set()));
            }
            i += 1;
        }
        assert(ids@.take(i as int) =~= ids@);
    }

    /// Interrupts every call because another run takes over, and names those that are to be aborted.
    pub fn interrupt_for_run_replacement(&mut self) -> (r: Vec<u32>)
        requires
            old(self).wf(),
        ensures
            final(self).wf(),
            lists(r@, old(self)@.execs.dom()),
            final(self)@ == (RuntimeView {
                interrupted: old(self)@.interrupted.union(old(self)@.execs.dom()).union(
                    old(self)@.interactions.dom(),
                ),
                ..RuntimeView::empty()
            }),
    {
        broadcast use crate::data::group_map_views;

        let abort_ids = self.running_exec_ids();
        let asked_ids = self.interactions.ids();
        self.interrupt_all(&abort_ids);
        self.interrupt_all(&asked_ids);
        self.execs = IdMap::new();
        self.interactions = IdMap::new();
        self.completed = IdMap::new();
        proof {
            assert(abort_ids@.to_set() =~= old(self)@.execs.dom());
            assert forall|id: u32| #[trigger] asked_ids@.to_set().contains(id) <==> old(self)@.interactions.dom().contains(id) by {
                assert(asked_ids@.contains(id) <==> old(self).interactions@.contains_key(id));
            }
            assert(asked_ids@.to_set() =~= old(self)@.interactions.dom());
        }
        abort_ids
    }

    /// Interrupts every call because of a message. Tasks go on running, but their results are no
    /// longer awaited; the other calls are forgotten and named: they are to be aborted.
    pub fn interrupt_for_message(&mut self) -> (r: Vec<u32>)
        requires
            old(self).wf(),
        ensures
            final(self).wf(),
            lists(
                r@,
                old(self)@.execs.dom().filter(
                    |id: u32| !context::calls(old(self)@.execs[id].call, "Task"@),
                ),
            ),
            final(self)@.execs == old(self)@.execs.restrict(
                old(self)@.execs.dom().filter(
                    |id: u32| context::calls(old(self)@.execs[id].call, "Task"@),
                ),
            ),
            final(self)@.interactions == Map::<u32, PendingInteractionView>::empty(),
            final(self)@.completed == old(self)@.completed,
            final(self)@.interrupted == old(self)@.interrupted.union(old(self)@.execs.dom()).union(
                old(self)@.interactions.dom(),
            ),
    {
        broadcast use crate::data::group_map_views;

        let running = self.running_exec_ids();
        let asked = self.interactions.ids();
        self.interrupt_all(&running);
        self.interrupt_all(&asked);
        proof {
            assert(running@.to_set() =~= old(self)@.execs.dom());
            assert forall|id: u32| #[trigger] asked@.to_set().contains(id) <==> old(self)@.interactions.dom().contains(id) by {
                assert(asked@.contains(id) <==> old(self).interactions@.contains_key(id));
            }
            assert(asked@.to_set() =~= old(self)@.interactions.dom());
        }
        self.interactions = IdMap::new();
        let ghost before = self@.execs;
        let mut abort_ids: Vec<u32> = Vec::new();
        let mut i: usize = 0;
        while i < running.len()
            invariant
                i <= running@.len(),
                self.wf(),
                lists(running@, before.dom()),
                self@.interactions == Map::<u32, PendingInteractionView>::empty(),
                self@.completed == old(self)@.completed,
                self@.interrupted == old(self)@.interrupted.union(old(self)@.execs.dom()).union(
                    old(self)@.interactions.dom(),
                ),
                forall|id: u32| #[trigger]
                    self@.execs.contains_key(id) <==> before.contains_key(id) && !abort_ids@.contains(
                        id,
                    ),
                forall|id: u32| #[trigger]
                    self@.execs.contains_key(id) ==> self@.execs[id] == before[id],
                forall|a: int, b: int|
                    0 <= a < b < abort_ids@.len() ==> abort_ids@[a] < abort_ids@[b],
                forall|a: int| 0 <= a < abort_ids@.len() && i < running@.len() ==> abort_ids@[a]
                    < running@[i as int],
                forall|id: u32| #[trigger]
                    abort_ids@.contains(id) <==> running@.take(i as int).contains(id)
                        && !context::calls(before[id].call, "Task"@),
            decreases running@.len() - i,
        {
            let id = running[i];
            let ghost aborted = abort_ids@;
            let ghost running_now = self@.execs;
            assert(running@.contains(id));
            assert(before.contains_key(id));
            assert(!abort_ids@.contains(id));
            let keep = match self.execs.get(id) {
                Some(entry) => text::eq_ignore_case(entry.call.name.as_str(), "Task"),
                None => true,
            };
            assert(self@.execs.contains_key(id));
            if !keep {
                let _ = self.execs.remove(id);
                abort_ids.push(id);
                assert(self@.execs =~= running_now.remove(id));
            }
            proof {
                let now = running@.take(i + 1);
                assert(now =~= running@.take(i as int).push(id));
                assert forall|k: u32| #[trigger] now.contains(k) <==> running@.take(
                    i as int,
                ).contains(k) || k == id by {
                    if k == id {
                        assert(now[i as int] == k);
                    }
                    if running@.take(i as int).contains(k) {
                        let j = choose|j: int| 0 <= j < i && running@.take(i as int)[j] == k;
                        assert(now[j] == k);
                    }
                }
                assert forall|k: u32| #[trigger] abort_ids@.contains(k) <==> aborted.contains(k) || (
                !keep && k == id) by {
                    if aborted.contains(k) {
                        let j = choose|j: int| 0 <= j < aborted.len() && aborted[j] == k;
                        assert(abort_ids@[j] == k);
                    }
                    if !keep && k == id {
                        assert(abort_ids@[abort_ids@.len() - 1] == k);
                    }
                }
            }
            i += 1;
        }
        proof {
            assert(running@.take(i as int) =~= running@);
            let tasks = before.dom().filter(
                |id: u32| context::calls(before[id].call, "Task"@),
            );
            assert(self@.execs =~= before.restrict(tasks));
        }
        abort_ids
    }

    /// The smallest id under which a task of this call is running.
    pub fn running_task_exec_id(&self, call_id: &str) -> (r: Option<u32>)
        requires
            self.wf(),
        ensures
            match r {
                Some(id) => runs_task(self@, id, call_id@) && (forall|other: u32|
                    other < id ==> !runs_task(self@, other, call_id@)),
                None => forall|id: u32| !runs_task(self@, id, call_id@),
            },
    {
        let ids = self.running_exec_ids();
        let mut i: usize = 0;
        while i < ids.len()
            invariant
                i <= ids@.len(),
                self.wf(),
                lists(ids@, self@.execs.dom()),
                forall|k: int| 0 <= k < i ==> !runs_task(self@, #[trigger] ids@[k], call_id@),
            decreases ids@.len() - i,
        {
            let id = ids[i];
            if let Some(entry) = self.execs.get(id) {
                if text::same(entry.call.call_id.as_str(), call_id) && text::eq_ignore_case(
                    entry.call.name.as_str(),
                    "Task",
                ) {
                    assert forall|other: u32| other < id implies !runs_task(
                        self@,
                        other,
                        call_id@,
                    ) by {
                        if self@.execs.contains_key(other) {
                            assert(ids@.contains(other));
                            let k = choose|k: int| 0 <= k < ids@.len() && ids@[k] == other;
                            assert(k < i);
                        }
                    }
                    return Some(id);
                }
            }
            i += 1;
        }
        assert forall|id: u32| !runs_task(self@, id, call_id@) by {
            if self@.execs.contains_key(id) {
                assert(ids@.contains(id));
                let k = choose|k: int| 0 <= k < ids@.len() && ids@[k] == id;
            }
        }
        None
    }
}

/// Whether a task of this call is running under this id.
pub open spec fn runs_task(runtime: RuntimeView, id: u32, call_id: Seq<char>) -> bool {
    runtime.execs.contains_key(id) && runtime.execs[id].call.call_id == call_id && context::calls(
        runtime.execs[id].call,
        "Task"@,
    )
}

/// A call is answered once: after it was taken, its id is that of no running call, and is known as
/// answered.
pub proof fn law_calls_are_answered_once(runtime: RuntimeView, id: u32)
    requires
        runtime.execs.contains_key(id),
    ensures
        !runtime.without_exec(id).execs.contains_key(id),
        runtime.without_exec(id).completed.contains_key(id),
        runtime.without_exec(id).without_exec(id) == runtime.without_exec(id),
{
}

/// Output joins the stream that it came from, and nothing else changes but that the shell runs, unless
/// it has ended.
pub proof fn law_background_output_joins_its_stream(shell: BackgroundShellView, more: Seq<char>)
    ensures
        shell.with_stdout(more).stdout == shell.stdout + more,
        shell.with_stdout(more).stderr == shell.stderr,
        shell.with_stderr(more).stderr == shell.stderr + more,
        shell.with_stderr(more).stdout == shell.stdout,
        shell.with_stdout(more).shell_id == shell.shell_id,
        shell.with_stdout(more).pid == shell.pid,
        shell.with_stdout(more).exit_code == shell.exit_code,
        shell.with_stderr(more).shell_id == shell.shell_id,
        shell.with_stderr(more).pid == shell.pid,
        shell.with_stderr(more).exit_code == shell.exit_code,
        !shell.status.terminal() ==> shell.with_stdout(more).status is Running
            && shell.with_stderr(more).status is Running,
{
}

/// A shell that exits has ended, with its exit code and with all that it wrote.
pub proof fn law_exited_shells_have_ended(shell: BackgroundShellView, exit_code: i32)
    ensures
        shell.exited(exit_code).status is Completed,
        shell.exited(exit_code).status.terminal(),
        shell.exited(exit_code).exit_code == Some(exit_code),
        shell.exited(exit_code).stdout == shell.stdout,
        shell.exited(exit_code).stderr == shell.stderr,
        shell.exited(exit_code).pid == shell.pid,
        shell.exited(exit_code).shell_id == shell.shell_id,
        !BackgroundShellStatus::Running.terminal(),
{
}

/// What is set of a shell is known of it, and nothing else is known otherwise; a shell that nothing is
/// known of runs and has written nothing.
pub proof fn law_shells_are_known_by_name(
    shells: BackgroundShellsView,
    shell_id: Seq<char>,
    shell: BackgroundShellView,
    other: Seq<char>,
)
    ensures
        shells.with_shell(shell_id, shell).shell(shell_id) == shell,
        other != shell_id ==> shells.with_shell(shell_id, shell).shell(other) == shells.shell(other),
        !shells.shells.contains_key(shell_id) ==> {
            let unknown = shells.shell(shell_id);
            &&& unknown.shell_id == shell_id
            &&& unknown.status is Running
            &&& unknown.stdout.len() == 0
            &&& unknown.stderr.len() == 0
            &&& unknown.pid is None
            &&& unknown.exit_code is None
        },
{
}

/// A message tells of the shell of the execution that it names, and of its own where that names none.
pub proof fn law_messages_find_their_shell(
    shells: BackgroundShellsView,
    message_id: u32,
    exec_id: Seq<char>,
)
    ensures
        shells.by_exec.contains_key(exec_id) ==> shells.for_event(message_id, exec_id) == Some(
            shells.by_exec[exec_id],
        ),
        !shells.by_exec.contains_key(exec_id) && shells.by_message.contains_key(message_id)
            ==> shells.for_event(message_id, exec_id) == Some(shells.by_message[message_id]),
        !shells.by_exec.contains_key(exec_id) && !shells.by_message.contains_key(message_id)
            ==> shells.for_event(message_id, exec_id) is None,
{
}

/// A call that was answered is gone and remembered under its id; every other call is left alone. A call
/// that nobody knows changes nothing.
pub proof fn law_answered_calls_are_remembered(runtime: RuntimeView, id: u32, other: u32)
    requires
        other != id,
    ensures
        ({
            let after = runtime.without_exec(id);
            let asked = runtime.without_interaction(id);
            &&& !after.execs.contains_key(id)
            &&& !asked.interactions.contains_key(id)
            &&& runtime.execs.contains_key(id) ==> after.completed.contains_key(id)
                && after.completed[id] == runtime.execs[id].call.call_id
            &&& runtime.interactions.contains_key(id) ==> asked.completed.contains_key(id)
                && asked.completed[id] == runtime.interactions[id].call.call_id
            &&& !runtime.execs.contains_key(id) ==> after == runtime
            &&& !runtime.interactions.contains_key(id) ==> asked == runtime
            &&& lookup(after.execs, other) == lookup(runtime.execs, other)
            &&& lookup(asked.interactions, other) == lookup(runtime.interactions, other)
            &&& lookup(after.completed, other) == lookup(runtime.completed, other)
            &&& lookup(asked.completed, other) == lookup(runtime.completed, other)
            &&& after.interactions == runtime.interactions
            &&& asked.execs == runtime.execs
            &&& after.interrupted == runtime.interrupted
            &&& asked.interrupted == runtime.interrupted
        }),
{
}

/// Two calls that are registered one after the other get different ids, and both are found.
pub proof fn law_calls_get_ids_of_their_own(
    before: RuntimeView,
    ids: IdSource,
    first: PendingExecView,
    second: PendingExecView,
    a: u32,
    between: RuntimeView,
    ids_between: IdSource,
    b: u32,
    after: RuntimeView,
    ids_after: IdSource,
)
    requires
        reserved(before, ids, first, Ok::<u32, ErrorView>(a), between, ids_between),
        reserved(between, ids_between, second, Ok::<u32, ErrorView>(b), after, ids_after),
    ensures
        a == ids.last + 1,
        b == a + 1,
        ids_after.last == b,
        lookup(after.execs, a) == Some(first),
        lookup(after.execs, b) == Some(second),
        after.interactions == before.interactions,
        after.completed == before.completed,
        after.interrupted == before.interrupted,
{
}

/// A call that has just been handed over has written nothing and keeps what it was made of.
pub proof fn law_fresh_calls_have_written_nothing(
    call: ToolCallView,
    terminals_folder: Seq<char>,
    stage: ExecStageView,
    started_at_ms: u64,
)
    ensures
        ({
            let entry = fresh_exec(call, terminals_folder, stage, started_at_ms);
            &&& entry.call == call
            &&& entry.terminals_folder == terminals_folder
            &&& entry.stage == stage
            &&& entry.started_at_ms == started_at_ms
            &&& entry.stdout.len() == 0
            &&& entry.stderr.len() == 0
            &&& !entry.transport_closed
        }),
{
}

/// A wait ends as long after now as the call asks, half a minute after where it does not ask; asking for
/// more than a minute is refused. It reads the file of its shell in the folder of the terminals.
pub proof fn law_wait_is_as_long_as_asked(
    call: ToolCallView,
    terminals_folder: Seq<char>,
    now_ms: u64,
    shell_id: Seq<char>,
)
    requires
        now_ms + 60_000 <= u64::MAX,
        call.arguments.text_at("shell_id"@) == Some(shell_id),
    ensures
        ({
            let state = await_state_of(call, terminals_folder, now_ms);
            let asked = call.arguments.at("block_until_ms"@);
            &&& asked is None ==> state is Ok && state->Ok_0.deadline_ms == now_ms + 30_000
            &&& asked matches Some(value) ==> (value.unsigned() matches Some(ms) ==> (ms <= 60_000
                ==> state is Ok && state->Ok_0.deadline_ms == now_ms + ms) && (ms > 60_000
                ==> state is Err))
            &&& state is Ok ==> {
                &&& state->Ok_0.task_id == shell_id
                &&& state->Ok_0.regex == call.arguments.text_at("pattern"@)
                &&& text::ends(state->Ok_0.output_file_path, "/"@ + shell_id + ".txt"@)
            }
        }),
{
    let path = output_file(terminals_folder, shell_id);
    let end = "/"@ + shell_id + ".txt"@;
    assert(path.subrange(path.len() - end.len(), path.len() as int) =~= end);
}

/// Slashes at the end of a folder make no difference to the files in it; there is one slash before the
/// name of the file.
pub proof fn law_slashes_at_the_end_do_not_count(folder: Seq<char>, task_id: Seq<char>)
    ensures
        output_file(folder.push('/'), task_id) == output_file(folder, task_id),
        folder.len() == 0 || folder.last() != '/' ==> output_file(folder, task_id) == folder + "/"@
            + task_id + ".txt"@,
{
    assert(folder.push('/').drop_last() =~= folder);
}

} // verus!
