//! The search servers that run, one for each repository.
use crate::data;
use crate::json;
use crate::json::{Json, JsonView};
use crate::text;
use vstd::prelude::*;

verus! {

/// How often a new server's record is looked for.
pub const DISCOVERY_ROUNDS: u32 = 3;

/// How far a search server is.
#[derive(Clone, Copy, Debug, PartialEq, Eq, Structural)]
pub enum ServerReadiness {
    /// It has been started and does not answer yet.
    Starting,
    /// It answers and is still building its index.
    Indexing,
    /// It answers and its index is complete.
    Ready,
    /// It cannot be reached, could not be started, or has ended.
    Unhealthy,
}

/// A search server that was started.
#[derive(Debug)]
pub struct TgrepServerHandle {
    pub repo_root: String,
    pub port: Option<u16>,
    pub pid: Option<u32>,
    pub readiness: ServerReadiness,
    pub last_used: u64,
}

#[verifier::ext_equal]
pub struct TgrepServerHandleView {
    pub repo_root: Seq<char>,
    pub port: Option<u16>,
    pub pid: Option<u32>,
    pub readiness: ServerReadiness,
    pub last_used: u64,
}

impl View for TgrepServerHandle {
    type V = TgrepServerHandleView;

    open spec fn view(&self) -> TgrepServerHandleView {
        TgrepServerHandleView {
            repo_root: self.repo_root@,
            port: self.port,
            pid: self.pid,
            readiness: self.readiness,
            last_used: self.last_used,
        }
    }
}

/// The servers that were started, and whether no more are.
#[derive(Debug)]
pub struct TgrepRegistry {
    pub handles: Vec<TgrepServerHandle>,
    pub shutting_down: bool,
}

#[verifier::ext_equal]
pub struct TgrepRegistryView {
    pub handles: Seq<TgrepServerHandleView>,
    pub shutting_down: bool,
}

impl View for TgrepRegistry {
    type V = TgrepRegistryView;

    open spec fn view(&self) -> TgrepRegistryView {
        TgrepRegistryView {
            handles: data::views(self.handles@),
            shutting_down: self.shutting_down,
        }
    }
}

/// Position of the server of a repository, or the number of servers.
pub open spec fn server_at(handles: Seq<TgrepServerHandleView>, root: Seq<char>) -> int
    decreases handles.len(),
{
    if handles.len() == 0 || handles[0].repo_root == root {
        0
    } else {
        1 + server_at(handles.drop_first(), root)
    }
}

proof fn lemma_server_at(handles: Seq<TgrepServerHandleView>, root: Seq<char>, at: int)
    requires
        0 <= at <= handles.len(),
        forall|k: int| 0 <= k < at ==> (#[trigger] handles[k]).repo_root != root,
        at < handles.len() ==> handles[at].repo_root == root,
    ensures
        server_at(handles, root) == at,
    decreases handles.len(),
{
    if at > 0 {
        assert(handles[0].repo_root != root);
        let rest = handles.drop_first();
        assert forall|k: int| 0 <= k < at - 1 implies (#[trigger] rest[k]).repo_root != root by {
            assert(rest[k] == handles[k + 1]);
        }
        if at < handles.len() {
            assert(rest[at - 1] == handles[at]);
        }
        lemma_server_at(rest, root, at - 1);
    }
}

proof fn lemma_server_at_is(handles: Seq<TgrepServerHandleView>, root: Seq<char>)
    ensures
        0 <= server_at(handles, root) <= handles.len(),
        server_at(handles, root) < handles.len() ==> handles[server_at(handles, root)].repo_root
            == root,
        forall|k: int|
            0 <= k < server_at(handles, root) ==> (#[trigger] handles[k]).repo_root != root,
    decreases handles.len(),
{
    if handles.len() > 0 && handles[0].repo_root != root {
        let rest = handles.drop_first();
        lemma_server_at_is(rest, root);
        assert forall|k: int| 0 <= k < server_at(handles, root) implies (
        #[trigger] handles[k]).repo_root != root by {
            if k > 0 {
                assert(rest[k - 1] == handles[k]);
            }
        }
    }
}

/// What is to be done for a repository that is searched.
#[derive(Debug)]
pub enum EnsureStep {
    /// No server is started any more.
    Refused,
    /// The server runs.
    Running { port: Option<u16>, pid: Option<u32>, readiness: ServerReadiness },
    /// A server is to be started. One that had ended was taken out, with its process.
    Start { ended: Option<TgrepServerHandle> },
}

#[verifier::ext_equal]
pub enum EnsureStepView {
    Refused,
    Running { port: Option<u16>, pid: Option<u32>, readiness: ServerReadiness },
    Start { ended: Option<TgrepServerHandleView> },
}

impl View for EnsureStep {
    type V = EnsureStepView;

    open spec fn view(&self) -> EnsureStepView {
        match self {
            EnsureStep::Refused => EnsureStepView::Refused,
            EnsureStep::Running { port, pid, readiness } => EnsureStepView::Running {
                port: *port,
                pid: *pid,
                readiness: *readiness,
            },
            EnsureStep::Start { ended } => EnsureStepView::Start {
                ended: data::option_view(*ended),
            },
        }
    }
}

impl TgrepRegistryView {
    /// No two servers are of one repository.
    pub open spec fn wf(self) -> bool {
        forall|i: int, j: int|
            0 <= i < j < self.handles.len() ==> (#[trigger] self.handles[i]).repo_root != (
            #[trigger] self.handles[j]).repo_root
    }

    /// The server of a repository.
    pub open spec fn server(self, root: Seq<char>) -> Option<TgrepServerHandleView> {
        let at = server_at(self.handles, root);
        if at < self.handles.len() {
            Some(self.handles[at])
        } else {
            None
        }
    }

    /// The servers once one is used, and what is to be done; `ended` tells whether its process has.
    pub open spec fn ensure(self, root: Seq<char>, now: u64, ended: bool) -> (Self, EnsureStepView) {
        let at = server_at(self.handles, root);
        if self.shutting_down {
            (self, EnsureStepView::Refused)
        } else if at >= self.handles.len() {
            (self, EnsureStepView::Start { ended: None })
        } else {
            let used = TgrepServerHandleView { last_used: now, ..self.handles[at] };
            if ended {
                (
                    TgrepRegistryView { handles: self.handles.remove(at), ..self },
                    EnsureStepView::Start { ended: Some(used) },
                )
            } else {
                (
                    TgrepRegistryView { handles: self.handles.update(at, used), ..self },
                    EnsureStepView::Running {
                        port: used.port,
                        pid: used.pid,
                        readiness: used.readiness,
                    },
                )
            }
        }
    }

    /// The servers with one that was just started.
    pub open spec fn started(self, root: Seq<char>, pid: Option<u32>, now: u64) -> Self {
        let handle = TgrepServerHandleView {
            repo_root: root,
            port: None,
            pid,
            readiness: ServerReadiness::Starting,
            last_used: now,
        };
        let at = server_at(self.handles, root);
        TgrepRegistryView {
            handles: if at < self.handles.len() {
                self.handles.update(at, handle)
            } else {
                self.handles.push(handle)
            },
            ..self
        }
    }

    /// The servers with what was learnt of one, and whether it was learnt of the process that is
    /// still there.
    pub open spec fn updated(
        self,
        root: Seq<char>,
        pid: Option<u32>,
        port: Option<u16>,
        readiness: ServerReadiness,
    ) -> (Self, bool) {
        let at = server_at(self.handles, root);
        if at < self.handles.len() && self.handles[at].pid == pid {
            let known = self.handles[at];
            let handle = TgrepServerHandleView {
                port: match port {
                    Some(port) => Some(port),
                    None => known.port,
                },
                readiness,
                ..known
            };
            (TgrepRegistryView { handles: self.handles.update(at, handle), ..self }, true)
        } else {
            (self, false)
        }
    }
}

/// How long a server was not used.
pub open spec fn idle_time(handle: TgrepServerHandleView, now: u64) -> int {
    if now >= handle.last_used {
        now - handle.last_used
    } else {
        0
    }
}

/// The servers that were not used for longer than some time, or the others.
pub open spec fn by_idleness(
    handles: Seq<TgrepServerHandleView>,
    now: u64,
    max_idle: u64,
    idle: bool,
) -> Seq<TgrepServerHandleView>
    decreases handles.len(),
{
    if handles.len() == 0 {
        Seq::empty()
    } else {
        let before = by_idleness(handles.drop_last(), now, max_idle, idle);
        if (idle_time(handles.last(), now) > max_idle) == idle {
            before.push(handles.last())
        } else {
            before
        }
    }
}

proof fn lemma_idleness_keeps_apart(
    handles: Seq<TgrepServerHandleView>,
    now: u64,
    max_idle: u64,
    idle: bool,
)
    requires
        (TgrepRegistryView { handles, shutting_down: false }).wf(),
    ensures
        (TgrepRegistryView {
            handles: by_idleness(handles, now, max_idle, idle),
            shutting_down: false,
        }).wf(),
        forall|k: int|
            0 <= k < by_idleness(handles, now, max_idle, idle).len() ==> handles.contains(
                #[trigger] by_idleness(handles, now, max_idle, idle)[k],
            ),
    decreases handles.len(),
{
    if handles.len() > 0 {
        let rest = handles.drop_last();
        let last = handles.last();
        assert forall|i: int, j: int| 0 <= i < j < rest.len() implies (
        #[trigger] rest[i]).repo_root != (#[trigger] rest[j]).repo_root by {
            assert(rest[i] == handles[i]);
            assert(rest[j] == handles[j]);
        }
        lemma_idleness_keeps_apart(rest, now, max_idle, idle);
        let before = by_idleness(rest, now, max_idle, idle);
        let out = by_idleness(handles, now, max_idle, idle);
        assert(handles[handles.len() - 1] == last);
        assert forall|k: int| 0 <= k < out.len() implies handles.contains(#[trigger] out[k]) by {
            if k < before.len() {
                assert(out[k] == before[k]);
                let j = choose|j: int| 0 <= j < rest.len() && rest[j] == before[k];
                assert(handles[j] == out[k]);
            }
        }
        assert forall|i: int, j: int| 0 <= i < j < out.len() implies (
        #[trigger] out[i]).repo_root != (#[trigger] out[j]).repo_root by {
            assert(out[i] == before[i]);
            if j < before.len() {
                assert(out[j] == before[j]);
            } else {
                let k = choose|k: int| 0 <= k < rest.len() && rest[k] == before[i];
                assert(handles[k] == out[i]);
            }
        }
    }
}

impl TgrepRegistry {
    /// A registry without servers.
    pub fn new() -> (r: Self)
        ensures
            r@ == (TgrepRegistryView { handles: Seq::empty(), shutting_down: false }),
            r@.wf(),
    {
        let r = TgrepRegistry { handles: Vec::new(), shutting_down: false };
        assert(data::views(r.handles@) =~= Seq::empty());
        r
    }

    fn position(&self, root: &str) -> (r: usize)
        ensures
            r == server_at(self@.handles, root@),
            r <= self.handles@.len(),
            r < self.handles@.len() ==> self.handles@[r as int]@.repo_root == root@,
            self@.handles.len() == self.handles@.len(),
    {
        let ghost all = self@.handles;
        assert(all.len() == self.handles@.len());
        let mut i: usize = 0;
        while i < self.handles.len() && !text::same(self.handles[i].repo_root.as_str(), root)
            invariant
                i <= self.handles@.len(),
                all == data::views(self.handles@),
                all.len() == self.handles@.len(),
                forall|k: int| 0 <= k < i ==> (#[trigger] all[k]).repo_root != root@,
            decreases self.handles@.len() - i,
        {
            assert(all[i as int] == self.handles@[i as int]@);
            i += 1;
        }
        proof {
            if i < all.len() {
                assert(all[i as int] == self.handles@[i as int]@);
            }
            lemma_server_at(all, root@, i as int);
        }
        i
    }

    /// What is to be done for a repository that is searched; `ended` tells whether the process of
    /// its server has ended.
    pub fn ensure_server(&mut self, root: &str, now: u64, ended: bool) -> (r: EnsureStep)
        requires
            old(self)@.wf(),
        ensures
            (final(self)@, r@) == old(self)@.ensure(root@, now, ended),
            final(self)@.wf(),
    {
        if self.shutting_down {
            return EnsureStep::Refused;
        }
        let ghost before = self@;
        let at = self.position(root);
        if at == self.handles.len() {
            return EnsureStep::Start { ended: None };
        }
        self.handles[at].last_used = now;
        let ghost used = self.handles@[at as int]@;
        assert(used == (TgrepServerHandleView { last_used: now, ..before.handles[at as int] }));
        assert(self@.handles =~= before.handles.update(at as int, used));
        if ended {
            let handle = self.handles.remove(at);
            assert(self@.handles =~= before.handles.remove(at as int));
            return EnsureStep::Start { ended: Some(handle) };
        }
        EnsureStep::Running {
            port: self.handles[at].port,
            pid: self.handles[at].pid,
            readiness: self.handles[at].readiness,
        }
    }

    /// Notes a server that was just started.
    pub fn on_started(&mut self, root: String, pid: Option<u32>, now: u64)
        requires
            old(self)@.wf(),
        ensures
            final(self)@ == old(self)@.started(root@, pid, now),
            final(self)@.wf(),
    {
        let ghost before = self@;
        let at = self.position(root.as_str());
        proof {
            lemma_server_at_is(before.handles, root@);
        }
        let handle = TgrepServerHandle {
            repo_root: root,
            port: None,
            pid,
            readiness: ServerReadiness::Starting,
            last_used: now,
        };
        let ghost shown = handle@;
        if at < self.handles.len() {
            self.handles[at] = handle;
            assert(self@.handles =~= before.handles.update(at as int, shown));
        } else {
            self.handles.push(handle);
            assert(self@.handles =~= before.handles.push(shown));
        }
    }

    /// Notes what was learnt of a server. What was learnt of a process that was replaced since then
    /// is not noted.
    pub fn update_readiness(
        &mut self,
        root: &str,
        pid: Option<u32>,
        port: Option<u16>,
        readiness: ServerReadiness,
    ) -> (r: bool)
        requires
            old(self)@.wf(),
        ensures
            (final(self)@, r) == old(self)@.updated(root@, pid, port, readiness),
            final(self)@.wf(),
    {
        let ghost before = self@;
        let at = self.position(root);
        if at < self.handles.len() && self.handles[at].pid == pid {
            if let Some(port) = port {
                self.handles[at].port = Some(port);
            }
            self.handles[at].readiness = readiness;
            let ghost shown = self.handles@[at as int]@;
            assert(self@.handles =~= before.handles.update(at as int, shown));
            return true;
        }
        false
    }

    /// The process and the port of the server of a repository, if it is there.
    pub fn lookup(&self, root: &str) -> (r: Option<(Option<u32>, Option<u16>)>)
        ensures
            r == (match self@.server(root@) {
                Some(handle) => Some((handle.pid, handle.port)),
                None => None,
            }),
    {
        let at = self.position(root);
        if at < self.handles.len() {
            assert(self@.handles[at as int] == self.handles@[at as int]@);
            Some((self.handles[at].pid, self.handles[at].port))
        } else {
            None
        }
    }

    /// Takes out the servers that were not used for longer than some time.
    pub fn reap_idle(&mut self, now: u64, max_idle: u64) -> (r: Vec<TgrepServerHandle>)
        requires
            old(self)@.wf(),
        ensures
            final(self)@.wf(),
            data::views(r@) == by_idleness(old(self)@.handles, now, max_idle, true),
            final(self)@ == (TgrepRegistryView {
                handles: by_idleness(old(self)@.handles, now, max_idle, false),
                ..old(self)@
            }),
    {
        let ghost all = self@.handles;
        let ghost given = self.handles@;
        let mut rest: Vec<TgrepServerHandle> = Vec::new();
        core::mem::swap(&mut rest, &mut self.handles);
        let mut backwards: Vec<TgrepServerHandle> = Vec::new();
        while rest.len() > 0
            invariant
                rest@ + backwards@.reverse() == given,
            decreases rest@.len(),
        {
            let ghost before = rest@;
            let ghost turned = backwards@;
            match rest.pop() {
                Some(handle) => {
                    backwards.push(handle);
                    assert(backwards@.reverse() =~= seq![handle] + turned.reverse());
                    assert(rest@ + backwards@.reverse() =~= before + turned.reverse());
                },
                None => {},
            }
        }
        assert(backwards@.reverse() =~= given);
        let mut kept: Vec<TgrepServerHandle> = Vec::new();
        let mut idle: Vec<TgrepServerHandle> = Vec::new();
        let ghost mut done: int = 0;
        assert(all.take(0) =~= Seq::empty());
        assert(data::views(kept@) =~= Seq::empty());
        assert(data::views(idle@) =~= Seq::empty());
        while backwards.len() > 0
            invariant
                all == data::views(given),
                0 <= done,
                done + backwards@.len() == given.len(),
                backwards@.reverse() == given.skip(done),
                data::views(kept@) == by_idleness(all.take(done), now, max_idle, false),
                data::views(idle@) == by_idleness(all.take(done), now, max_idle, true),
                self.shutting_down == old(self).shutting_down,
                old(self)@.wf(),
                all == old(self)@.handles,
            decreases backwards@.len(),
        {
            let ghost before = backwards@;
            let ghost before_kept = data::views(kept@);
            let ghost before_idle = data::views(idle@);
            match backwards.pop() {
                Some(handle) => {
                    proof {
                        assert(before.reverse()[0] == handle);
                        assert(given.skip(done)[0] == given[done]);
                        assert(backwards@.reverse() =~= before.reverse().drop_first());
                        assert(given.skip(done).drop_first() =~= given.skip(done + 1));
                        assert(all.take(done + 1).drop_last() =~= all.take(done));
                        assert(all.take(done + 1).last() == handle@);
                        done = done + 1;
                    }
                    let ghost shown = handle@;
                    if now.saturating_sub(handle.last_used) > max_idle {
                        idle.push(handle);
                        assert(data::views(idle@) =~= before_idle.push(shown));
                    } else {
                        kept.push(handle);
                        assert(data::views(kept@) =~= before_kept.push(shown));
                    }
                },
                None => {},
            }
        }
        assert(all.take(done) =~= all);
        self.handles = kept;
        proof {
            assert((TgrepRegistryView { handles: all, shutting_down: false }).wf());
            lemma_idleness_keeps_apart(all, now, max_idle, false);
            assert(self@.handles == by_idleness(all, now, max_idle, false));
        }
        idle
    }

    /// Takes out every server, and lets none be started any more.
    pub fn shutdown(&mut self) -> (r: Vec<TgrepServerHandle>)
        ensures
            data::views(r@) == old(self)@.handles,
            final(self)@ == (TgrepRegistryView { handles: Seq::empty(), shutting_down: true }),
            final(self)@.wf(),
    {
        self.shutting_down = true;
        let mut handles: Vec<TgrepServerHandle> = Vec::new();
        core::mem::swap(&mut handles, &mut self.handles);
        assert(data::views(self.handles@) =~= Seq::empty());
        handles
    }

    /// How many servers there are.
    pub fn active_count(&self) -> (r: usize)
        ensures
            r == self@.handles.len(),
    {
        self.handles.len()
    }
}

impl Default for TgrepRegistry {
    fn default() -> (r: Self)
        ensures
            r@ == (TgrepRegistryView { handles: Seq::empty(), shutting_down: false }),
    {
        TgrepRegistry::new()
    }
}

/// How the readiness of a server that runs is found out.
#[derive(Clone, Copy, Debug, PartialEq, Eq, Structural)]
pub enum Discovery {
    /// The server is asked at its port.
    Probe { pid: Option<u32>, port: u16 },
    /// The record that the server writes is looked for.
    LookFor { pid: Option<u32>, readiness: ServerReadiness, rounds: u32 },
    /// The readiness is known.
    Done(ServerReadiness),
}

impl Discovery {
    /// How the readiness of a server is found out: at its port if that is known, else by its record.
    pub fn new(port: Option<u16>, pid: Option<u32>, readiness: ServerReadiness) -> (r: Self)
        ensures
            r == (match port {
                Some(port) => Discovery::Probe { pid, port },
                None => Discovery::LookFor { pid, readiness, rounds: DISCOVERY_ROUNDS },
            }),
    {
        match port {
            Some(port) => Discovery::Probe { pid, port },
            None => Discovery::LookFor { pid, readiness, rounds: DISCOVERY_ROUNDS },
        }
    }

    /// What follows the record of a server, if there is one: only that of the same process counts.
    pub open spec fn after_record(self, record: Option<(u32, u16)>) -> Self {
        match self {
            Discovery::LookFor { pid, readiness, rounds } => match record {
                Some((published, port)) => if pid == Some(published) {
                    Discovery::Probe { pid, port }
                } else if rounds <= 1 {
                    Discovery::Done(readiness)
                } else {
                    Discovery::LookFor { pid, readiness, rounds: (rounds - 1) as u32 }
                },
                None => if rounds <= 1 {
                    Discovery::Done(readiness)
                } else {
                    Discovery::LookFor { pid, readiness, rounds: (rounds - 1) as u32 }
                },
            },
            other => other,
        }
    }

    /// What follows the record of a server, if there is one.
    pub fn on_record(self, record: Option<(u32, u16)>) -> (r: Self)
        ensures
            r == self.after_record(record),
    {
        match self {
            Discovery::LookFor { pid, readiness, rounds } => {
                if let Some((published, port)) = record {
                    if pid == Some(published) {
                        return Discovery::Probe { pid, port };
                    }
                }
                if rounds <= 1 {
                    Discovery::Done(readiness)
                } else {
                    Discovery::LookFor { pid, readiness, rounds: rounds - 1 }
                }
            },
            other => other,
        }
    }
}

/// The readiness that is told: what the server answered, if it is still the one that was asked.
pub fn told_readiness(noted: bool, probed: ServerReadiness) -> (r: ServerReadiness)
    ensures
        r == (if noted {
            probed
        } else {
            ServerReadiness::Unhealthy
        }),
{
    if noted {
        probed
    } else {
        ServerReadiness::Unhealthy
    }
}

/// What is known of a server that is not started where it is missing.
#[derive(Clone, Copy, Debug, PartialEq, Eq, Structural)]
pub enum ReadinessStep {
    Known(ServerReadiness),
    Probe { pid: Option<u32>, port: u16 },
}

/// How the readiness of a repository is told without starting a server.
pub fn get_readiness(found: Option<(Option<u32>, Option<u16>)>) -> (r: ReadinessStep)
    ensures
        r == (match found {
            None => ReadinessStep::Known(ServerReadiness::Unhealthy),
            Some((pid, port)) => match port {
                None => ReadinessStep::Known(ServerReadiness::Starting),
                Some(port) => ReadinessStep::Probe { pid, port },
            },
        }),
{
    match found {
        None => ReadinessStep::Known(ServerReadiness::Unhealthy),
        Some((pid, port)) => match port {
            None => ReadinessStep::Known(ServerReadiness::Starting),
            Some(port) => ReadinessStep::Probe { pid, port },
        },
    }
}

/// The process and port that a server's record tells.
pub open spec fn record_of(value: JsonView) -> Option<(u32, u16)> {
    match (value.at("pid"@), value.at("port"@)) {
        (Some(pid), Some(port)) => match (pid.unsigned(), port.unsigned()) {
            (Some(pid), Some(port)) => if pid <= u32::MAX && port <= u16::MAX {
                Some((pid as u32, port as u16))
            } else {
                None
            },
            _ => None,
        },
        _ => None,
    }
}

/// The process and port that a server's record tells.
pub fn serve_record(value: &Json) -> (r: Option<(u32, u16)>)
    ensures
        r == record_of(value@),
{
    let pid = match value.get("pid") {
        Some(pid) => match pid.as_u64() {
            Some(n) => n,
            None => {
                return None;
            },
        },
        None => {
            return None;
        },
    };
    let port = match value.get("port") {
        Some(port) => match port.as_u64() {
            Some(n) => n,
            None => {
                return None;
            },
        },
        None => {
            return None;
        },
    };
    if pid <= u32::MAX as u64 && port <= u16::MAX as u64 {
        Some((pid as u32, port as u16))
    } else {
        None
    }
}

/// The process and port that a server's record tells, from its text.
pub fn read_serve_json(content: &str) -> (r: Option<(u32, u16)>)
    ensures
        r == (match json::parsed(content@) {
            Some(value) => record_of(value),
            None => None,
        }),
{
    match json::parse(content) {
        Some(value) => serve_record(&value),
        None => None,
    }
}

/// Whether a server's record is removed with the server: it is if it tells the server's process.
pub fn removes_record(pid: Option<u32>, record: Option<(u32, u16)>) -> (r: bool)
    ensures
        r == (record matches Some((published, _)) && pid == Some(published)),
{
    match record {
        Some((published, _)) => pid == Some(published),
        None => false,
    }
}

/// The readiness that a server's answer tells.
pub open spec fn readiness_of(value: JsonView) -> ServerReadiness {
    let version = value.text_at("jsonrpc"@);
    let id = match value.at("id"@) {
        Some(id) => id.unsigned(),
        None => None,
    };
    if version != Some("2.0"@) || id != Some(1u64) {
        ServerReadiness::Unhealthy
    } else if value.at("error"@) matches Some(error) && !(error is Null) {
        ServerReadiness::Unhealthy
    } else {
        match value.at("result"@) {
            Some(result) => if result is Object {
                if result.at("indexing"@) matches Some(indexing) && indexing.boolean() == Some(
                    true,
                ) {
                    ServerReadiness::Indexing
                } else {
                    ServerReadiness::Ready
                }
            } else {
                ServerReadiness::Unhealthy
            },
            None => ServerReadiness::Unhealthy,
        }
    }
}

/// The readiness that a server's answer tells.
pub fn answered_readiness(value: &Json) -> (r: ServerReadiness)
    ensures
        r == readiness_of(value@),
{
    let version_fits = match value.get_str("jsonrpc") {
        Some(version) => text::same(version, "2.0"),
        None => false,
    };
    let id_fits = match value.get("id") {
        Some(id) => match id.as_u64() {
            Some(n) => n == 1,
            None => false,
        },
        None => false,
    };
    if !version_fits || !id_fits {
        return ServerReadiness::Unhealthy;
    }
    if let Some(error) = value.get("error") {
        let no_error = matches!(error, Json::Null);
        if !no_error {
            return ServerReadiness::Unhealthy;
        }
    }
    match value.get("result") {
        Some(result) => {
            let is_object = matches!(result, Json::Object(_));
            if !is_object {
                return ServerReadiness::Unhealthy;
            }
            if let Some(indexing) = result.get("indexing") {
                if let Some(building) = indexing.as_bool() {
                    if building {
                        return ServerReadiness::Indexing;
                    }
                }
            }
            ServerReadiness::Ready
        },
        None => ServerReadiness::Unhealthy,
    }
}

/// The readiness that the line a server answered tells, if it did answer one.
pub fn probe_readiness(line: Option<&str>) -> (r: ServerReadiness)
    ensures
        r == (match line {
            Some(line) => match json::parsed(line@) {
                Some(value) => readiness_of(value),
                None => ServerReadiness::Unhealthy,
            },
            None => ServerReadiness::Unhealthy,
        }),
{
    match line {
        Some(line) => match json::parse(line) {
            Some(value) => answered_readiness(&value),
            None => ServerReadiness::Unhealthy,
        },
        None => ServerReadiness::Unhealthy,
    }
}

/// Once the registry is shut down no repository gets a server again, and it holds none.
pub proof fn law_shutdown_is_final(registry: TgrepRegistryView, root: Seq<char>, now: u64, ended: bool)
    requires
        registry.shutting_down,
    ensures
        registry.ensure(root, now, ended) == (registry, EnsureStepView::Refused),
{
}

/// A repository with a server that runs gets no second one; one without gets exactly one.
pub proof fn law_one_server_for_each_repository(
    registry: TgrepRegistryView,
    root: Seq<char>,
    pid: Option<u32>,
    now: u64,
)
    requires
        registry.wf(),
        !registry.shutting_down,
    ensures
        registry.started(root, pid, now).wf(),
        registry.started(root, pid, now).server(root) matches Some(handle) && handle.pid == pid,
        registry.started(root, pid, now).ensure(root, now, false).1 is Running,
        registry.server(root) is None ==> registry.started(root, pid, now).handles.len()
            == registry.handles.len() + 1,
        registry.server(root) is Some ==> registry.started(root, pid, now).handles.len()
            == registry.handles.len(),
{
    let after = registry.started(root, pid, now);
    lemma_server_at_is(registry.handles, root);
    let at = server_at(registry.handles, root);
    lemma_server_at(after.handles, root, at);
}

/// What was learnt of a process that was replaced since then changes nothing.
pub proof fn law_late_news_is_dropped(
    registry: TgrepRegistryView,
    root: Seq<char>,
    pid: Option<u32>,
    port: Option<u16>,
    readiness: ServerReadiness,
)
    requires
        registry.server(root) matches Some(handle) ==> handle.pid != pid,
    ensures
        registry.updated(root, pid, port, readiness) == (registry, false),
{
}

/// Reaping divides the servers: each is either kept or taken out.
pub proof fn law_reaping_divides(handles: Seq<TgrepServerHandleView>, now: u64, max_idle: u64)
    ensures
        by_idleness(handles, now, max_idle, true).len() + by_idleness(
            handles,
            now,
            max_idle,
            false,
        ).len() == handles.len(),
    decreases handles.len(),
{
    if handles.len() > 0 {
        law_reaping_divides(handles.drop_last(), now, max_idle);
    }
}

/// Looking for a record ends after as many rounds as are made.
pub proof fn law_discovery_ends(
    pid: Option<u32>,
    readiness: ServerReadiness,
    rounds: u32,
    record: Option<(u32, u16)>,
)
    ensures
        match (Discovery::LookFor { pid, readiness, rounds }).after_record(record) {
            Discovery::LookFor { rounds: left, .. } => left < rounds,
            _ => true,
        },
{
}

proof fn lemma_first_server(handles: Seq<TgrepServerHandleView>, root: Seq<char>)
    ensures
        0 <= server_at(handles, root) <= handles.len(),
        server_at(handles, root) < handles.len() ==> handles[server_at(handles, root)].repo_root
            == root,
        forall|i: int| 0 <= i < server_at(handles, root) ==> (#[trigger] handles[i]).repo_root
            != root,
    decreases handles.len(),
{
    if handles.len() > 0 && handles[0].repo_root != root {
        let rest = handles.drop_first();
        lemma_first_server(rest, root);
        assert forall|i: int| 0 <= i < server_at(handles, root) implies (
        #[trigger] handles[i]).repo_root != root by {
            if i > 0 {
                assert(handles[i] == rest[i - 1]);
            }
        }
    }
}

/// A repository that is searched gets a server where it has none or its server has ended; a server that
/// runs is told of and was used now; and while the servers are shut down there is none.
pub proof fn law_searched_repository_gets_its_server(
    registry: TgrepRegistryView,
    at: int,
    root: Seq<char>,
    now: u64,
    ended: bool,
)
    requires
        registry.wf(),
    ensures
        registry.shutting_down ==> registry.ensure(root, now, ended) == (
            registry,
            EnsureStepView::Refused,
        ),
        !registry.shutting_down && (forall|i: int|
            0 <= i < registry.handles.len() ==> (#[trigger] registry.handles[i]).repo_root != root)
            ==> registry.ensure(root, now, ended) == (
            registry,
            EnsureStepView::Start { ended: None },
        ),
        !registry.shutting_down && 0 <= at < registry.handles.len()
            && registry.handles[at].repo_root == root ==> {
            let known = registry.handles[at];
            let (after, step) = registry.ensure(root, now, ended);
            &&& !ended ==> step == EnsureStepView::Running {
                port: known.port,
                pid: known.pid,
                readiness: known.readiness,
            }
            &&& !ended ==> after.handles.len() == registry.handles.len() && after.handles[at]
                == TgrepServerHandleView { last_used: now, ..known }
            &&& ended ==> step is Start && step->ended is Some && step->ended->0.pid == known.pid
                && after.handles == registry.handles.take(at) + registry.handles.skip(at + 1)
        },
{
    lemma_first_server(registry.handles, root);
    let found = server_at(registry.handles, root);
    if 0 <= at < registry.handles.len() && registry.handles[at].repo_root == root {
        if found < at {
            assert(registry.handles[found].repo_root != registry.handles[at].repo_root);
        }
        if at < found {
            assert(registry.handles[at].repo_root != root);
        }
        assert(found == at);
        assert(registry.handles.remove(at) =~= registry.handles.take(at) + registry.handles.skip(
            at + 1,
        ));
    }
    if found < registry.handles.len() {
        assert(registry.handles[found].repo_root == root);
    }
}

/// A server that was just started is the one of its repository: it does not answer yet and has no port.
/// Servers of other repositories are left alone.
pub proof fn law_started_server_is_the_one(
    registry: TgrepRegistryView,
    root: Seq<char>,
    pid: Option<u32>,
    now: u64,
)
    ensures
        ({
            let after = registry.started(root, pid, now);
            let handle = after.server(root)->0;
            &&& after.server(root) is Some
            &&& handle.repo_root == root
            &&& handle.pid == pid
            &&& handle.port is None
            &&& handle.readiness is Starting
            &&& handle.last_used == now
            &&& forall|i: int|
                0 <= i < registry.handles.len() && (#[trigger] registry.handles[i]).repo_root != root
                    ==> after.handles[i] == registry.handles[i]
            &&& after.shutting_down == registry.shutting_down
        }),
{
    lemma_first_server(registry.handles, root);
    let after = registry.started(root, pid, now);
    lemma_first_server(after.handles, root);
    let at = server_at(registry.handles, root);
    let found = server_at(after.handles, root);
    assert(after.handles[at].repo_root == root);
    if found < at {
        assert(after.handles[found] == registry.handles[found]);
    }
    assert(found == at);
}

/// What is learnt of a server counts where it is of the process that is there; a port that is known is
/// not forgotten.
pub proof fn law_news_are_of_the_process_that_runs(
    registry: TgrepRegistryView,
    root: Seq<char>,
    pid: Option<u32>,
    port: Option<u16>,
    readiness: ServerReadiness,
)
    ensures
        ({
            let (after, noted) = registry.updated(root, pid, port, readiness);
            let known = registry.server(root);
            &&& noted <==> known is Some && known->0.pid == pid
            &&& !noted ==> after == registry
            &&& noted ==> {
                let handle = after.handles[server_at(registry.handles, root)];
                &&& after.handles.len() == registry.handles.len()
                &&& handle.readiness == readiness
                &&& port is Some ==> handle.port == port
                &&& port is None ==> handle.port == known->0.port
                &&& handle.pid == pid
                &&& handle.last_used == known->0.last_used
                &&& handle.repo_root == root
            }
        }),
{
    lemma_first_server(registry.handles, root);
}

/// A server is taken out as idle if and only if it was not used for longer than the time allowed, and
/// stays otherwise.
pub proof fn law_idle_servers_are_taken_out(
    handles: Seq<TgrepServerHandleView>,
    now: u64,
    max_idle: u64,
    handle: TgrepServerHandleView,
)
    requires
        handles.contains(handle),
    ensures
        handle.last_used + max_idle < now ==> by_idleness(handles, now, max_idle, true).contains(
            handle,
        ) && !by_idleness(handles, now, max_idle, false).contains(handle),
        handle.last_used + max_idle >= now ==> by_idleness(handles, now, max_idle, false).contains(
            handle,
        ) && !by_idleness(handles, now, max_idle, true).contains(handle),
    decreases handles.len(),
{
    lemma_only_such(handles, now, max_idle, true, handle);
    lemma_only_such(handles, now, max_idle, false, handle);
    lemma_all_such(handles, now, max_idle, idle_time(handle, now) > max_idle, handle);
}

proof fn lemma_only_such(
    handles: Seq<TgrepServerHandleView>,
    now: u64,
    max_idle: u64,
    idle: bool,
    handle: TgrepServerHandleView,
)
    ensures
        by_idleness(handles, now, max_idle, idle).contains(handle) ==> (idle_time(handle, now)
            > max_idle) == idle,
    decreases handles.len(),
{
    if handles.len() > 0 {
        lemma_only_such(handles.drop_last(), now, max_idle, idle, handle);
        let before = by_idleness(handles.drop_last(), now, max_idle, idle);
        let all = by_idleness(handles, now, max_idle, idle);
        if all.contains(handle) {
            let k = choose|k: int| 0 <= k < all.len() && all[k] == handle;
            if k < before.len() {
                assert(before[k] == handle);
            }
        }
    }
}

proof fn lemma_all_such(
    handles: Seq<TgrepServerHandleView>,
    now: u64,
    max_idle: u64,
    idle: bool,
    handle: TgrepServerHandleView,
)
    requires
        handles.contains(handle),
        (idle_time(handle, now) > max_idle) == idle,
    ensures
        by_idleness(handles, now, max_idle, idle).contains(handle),
    decreases handles.len(),
{
    let k = choose|k: int| 0 <= k < handles.len() && handles[k] == handle;
    let rest = handles.drop_last();
    let before = by_idleness(rest, now, max_idle, idle);
    let all = by_idleness(handles, now, max_idle, idle);
    if k < rest.len() {
        assert(rest[k] == handle);
        lemma_all_such(rest, now, max_idle, idle, handle);
        let j = choose|j: int| 0 <= j < before.len() && before[j] == handle;
        assert(all[j] == handle);
    } else {
        assert(all[all.len() - 1] == handle);
    }
}

/// An answer to the question under its number that holds a result and no error tells a server that is
/// ready, or still indexing where it says so; any other answer tells one that cannot be used.
pub proof fn law_answer_tells_the_readiness(value: JsonView, result: JsonView)
    requires
        value.text_at("jsonrpc"@) == Some("2.0"@),
        value.at("id"@) == Some(JsonView::Number(json::Number::PosInt(1))),
        value.at("result"@) == Some(result),
        result is Object,
    ensures
        value.at("error"@) is None && result.at("indexing"@) == Some(JsonView::Bool(true))
            ==> readiness_of(value) is Indexing,
        value.at("error"@) is None && result.at("indexing"@) is None ==> readiness_of(
            value,
        ) is Ready,
        value.at("error"@) is None && result.at("indexing"@) == Some(JsonView::Bool(false))
            ==> readiness_of(value) is Ready,
        value.at("error"@) matches Some(error) && !(error is Null) ==> readiness_of(
            value,
        ) is Unhealthy,
{
}

/// An answer of another protocol or to another question, and one without a result, tells a server that
/// cannot be used.
pub proof fn law_other_answers_do_not_count(value: JsonView)
    ensures
        value.text_at("jsonrpc"@) is None ==> readiness_of(value) is Unhealthy,
        value.at("id"@) is None ==> readiness_of(value) is Unhealthy,
        value.at("result"@) is None ==> readiness_of(value) is Unhealthy,
{
}

} // verus!
