//! Which requests of the editor the server answers itself.
use crate::data;
use crate::store::settings::TabMode;
use crate::text;
use vstd::prelude::*;

verus! {

/// A host without the dots at its end, in lower case.
pub open spec fn host_name(host: Seq<char>) -> Seq<char> {
    text::lowercase(text::without_trailing(host, '.'))
}

/// Whether a host is one that the editor talks to.
pub open spec fn cursor_host(host: Seq<char>) -> bool {
    let host = host_name(host);
    host == "api2.cursor.sh"@ || host == "api3.cursor.sh"@ || text::ends(host, ".cursor.sh"@)
}

/// Whether a host is one that the editor talks to.
pub fn is_cursor_host(host: &str) -> (r: bool)
    ensures
        r == cursor_host(host@),
{
    let host = text::to_lowercase(text::strip_trailing(host, '.').as_str());
    text::same(host.as_str(), "api2.cursor.sh") || text::same(host.as_str(), "api3.cursor.sh")
        || text::ends_with(host.as_str(), ".cursor.sh")
}

/// Dots behind a host do not change whether the editor talks to it.
pub proof fn law_trailing_dot_is_ignored(host: Seq<char>)
    ensures
        cursor_host(host.push('.')) == cursor_host(host),
{
    assert(host.push('.').drop_last() =~= host);
}

/// The paths that the server always answers itself.
pub open spec fn local_path(path: Seq<char>) -> bool {
    ||| path == "/agent.v1.AgentService/RunSSE"@
    ||| path == "/aiserver.v1.BidiService/BidiAppend"@
    ||| path == "/aiserver.v1.AiService/AvailableModels"@
    ||| path == "/agent.v1.AgentService/GetUsableModels"@
    ||| path == "/aiserver.v1.AiService/GetUsableModels"@
    ||| path == "/aiserver.v1.AuthService/GetEmail"@
    ||| path == "/aiserver.v1.DashboardService/GetMe"@
    ||| path == "/aiserver.v1.DashboardService/GetTeams"@
    ||| path == "/aiserver.v1.DashboardService/GetUserProfile"@
    ||| path == "/aiserver.v1.DashboardService/GetCurrentPeriodUsage"@
    ||| path == "/aiserver.v1.DashboardService/GetUsageLimitStatusAndActiveGrants"@
    ||| path == "/aiserver.v1.AiService/KnowledgeBaseAdd"@
    ||| path == "/aiserver.v1.AiService/KnowledgeBaseList"@
    ||| path == "/aiserver.v1.AiService/KnowledgeBaseUpdate"@
    ||| path == "/aiserver.v1.AiService/KnowledgeBaseRemove"@
    ||| path == "/aiserver.v1.AnalyticsService/BootstrapStatsig"@
    ||| path == "/auth/full_stripe_profile"@
}

/// Whether the server always answers a path itself.
pub fn is_local_path(path: &str) -> (r: bool)
    ensures
        r == local_path(path@),
{
    text::same(path, "/agent.v1.AgentService/RunSSE") || text::same(
        path,
        "/aiserver.v1.BidiService/BidiAppend",
    ) || text::same(path, "/aiserver.v1.AiService/AvailableModels") || text::same(
        path,
        "/agent.v1.AgentService/GetUsableModels",
    ) || text::same(path, "/aiserver.v1.AiService/GetUsableModels") || text::same(
        path,
        "/aiserver.v1.AuthService/GetEmail",
    ) || text::same(path, "/aiserver.v1.DashboardService/GetMe") || text::same(
        path,
        "/aiserver.v1.DashboardService/GetTeams",
    ) || text::same(path, "/aiserver.v1.DashboardService/GetUserProfile") || text::same(
        path,
        "/aiserver.v1.DashboardService/GetCurrentPeriodUsage",
    ) || text::same(path, "/aiserver.v1.DashboardService/GetUsageLimitStatusAndActiveGrants")
        || text::same(path, "/aiserver.v1.AiService/KnowledgeBaseAdd") || text::same(
        path,
        "/aiserver.v1.AiService/KnowledgeBaseList",
    ) || text::same(path, "/aiserver.v1.AiService/KnowledgeBaseUpdate") || text::same(
        path,
        "/aiserver.v1.AiService/KnowledgeBaseRemove",
    ) || text::same(path, "/aiserver.v1.AnalyticsService/BootstrapStatsig") || text::same(
        path,
        "/auth/full_stripe_profile",
    )
}

/// Whether a path asks for tab completions.
pub fn is_tab_path(path: &str) -> (r: bool)
    ensures
        r == (path@ == "/aiserver.v1.AiService/StreamCpp"@),
{
    text::same(path, "/aiserver.v1.AiService/StreamCpp")
}

/// Whether the server answers a path itself: always for the local paths, and for tab completions
/// unless the editor asks its own service for them.
pub open spec fn routed_locally(path: Seq<char>, tab_mode: TabMode) -> bool {
    local_path(path) || (path == "/aiserver.v1.AiService/StreamCpp"@ && tab_mode
        != TabMode::Direct)
}

/// Whether the server answers a path itself.
pub fn should_route_locally(path: &str, tab_mode: TabMode) -> (r: bool)
    ensures
        r == routed_locally(path@, tab_mode),
{
    is_local_path(path) || (is_tab_path(path) && tab_mode != TabMode::Direct)
}

/// Where a request that came in is sent on to.
#[derive(Debug)]
pub enum Relay {
    /// To where the editor sent it.
    Untouched,
    /// To the server itself, with the address that the editor meant in a header.
    Local { upstream: String, target: String },
}

#[verifier::ext_equal]
pub enum RelayView {
    Untouched,
    Local { upstream: Seq<char>, target: Seq<char> },
}

impl View for Relay {
    type V = RelayView;

    open spec fn view(&self) -> RelayView {
        match self {
            Relay::Untouched => RelayView::Untouched,
            Relay::Local { upstream, target } => RelayView::Local {
                upstream: upstream@,
                target: target@,
            },
        }
    }
}

/// A request's address, as the proxy reads it.
#[derive(Debug)]
pub struct RequestTarget {
    pub whole: String,
    pub host: Option<String>,
    pub path: String,
    /// The path with the query behind it, where the address has one.
    pub path_and_query: Option<String>,
}

#[verifier::ext_equal]
pub struct RequestTargetView {
    pub whole: Seq<char>,
    pub host: Option<Seq<char>>,
    pub path: Seq<char>,
    pub path_and_query: Option<Seq<char>>,
}

impl View for RequestTarget {
    type V = RequestTargetView;

    open spec fn view(&self) -> RequestTargetView {
        RequestTargetView {
            whole: self.whole@,
            host: data::option_view(self.host),
            path: self.path@,
            path_and_query: data::option_view(self.path_and_query),
        }
    }
}

/// Where a request is sent on to.
pub open spec fn relayed(
    target: RequestTargetView,
    backend: Seq<char>,
    tab_mode: TabMode,
) -> RelayView {
    let known = match target.host {
        Some(host) => cursor_host(host),
        None => false,
    };
    if known && routed_locally(target.path, tab_mode) {
        RelayView::Local {
            upstream: target.whole,
            target: "http://"@ + backend + match target.path_and_query {
                Some(rest) => rest,
                None => "/"@,
            },
        }
    } else {
        RelayView::Untouched
    }
}

/// Where a request is sent on to, with the server at `backend`.
pub fn relay(target: &RequestTarget, backend: &str, tab_mode: TabMode) -> (r: Relay)
    ensures
        r@ == relayed(target@, backend@, tab_mode),
{
    let known = match &target.host {
        Some(host) => is_cursor_host(host.as_str()),
        None => false,
    };
    if known && should_route_locally(target.path.as_str(), tab_mode) {
        let rest = match &target.path_and_query {
            Some(rest) => rest.as_str(),
            None => "/",
        };
        Relay::Local {
            upstream: target.whole.clone(),
            target: text::concat3("http://", backend, rest),
        }
    } else {
        Relay::Untouched
    }
}

/// A request that names no host of the editor is left alone.
pub proof fn law_other_hosts_are_left_alone(
    target: RequestTargetView,
    backend: Seq<char>,
    tab_mode: TabMode,
)
    requires
        target.host is None || !cursor_host(target.host->0),
    ensures
        relayed(target, backend, tab_mode) == RelayView::Untouched,
{
}

/// Whether another port is tried after the one that was asked for could not be had: any, where one
/// was asked for.
pub fn retries_other_port(requested: u16) -> (r: bool)
    ensures
        r == (requested != 0),
{
    requested != 0
}

/// Whether the proxy runs, under which address and port, and with which task.
#[derive(Debug)]
pub struct ProxyRuntime {
    url: Option<String>,
    port: Option<u16>,
    /// The task that serves, and whether it has come to its end.
    task: Option<(u64, bool)>,
}

#[verifier::ext_equal]
pub struct ProxyRuntimeView {
    pub url: Option<Seq<char>>,
    pub port: Option<u16>,
    pub task: Option<(u64, bool)>,
}

impl View for ProxyRuntime {
    type V = ProxyRuntimeView;

    closed spec fn view(&self) -> ProxyRuntimeView {
        ProxyRuntimeView { url: data::option_view(self.url), port: self.port, task: self.task }
    }
}

impl ProxyRuntimeView {
    /// Whether a task serves.
    pub open spec fn serves(self) -> bool {
        self.task matches Some((_, finished)) && !finished
    }

    /// The address that is served, while a task serves.
    pub open spec fn address(self) -> Option<Seq<char>> {
        if self.serves() {
            self.url
        } else {
            None
        }
    }
}

impl Default for ProxyRuntime {
    fn default() -> (r: Self)
        ensures
            r@ == (ProxyRuntimeView { url: None, port: None, task: None }),
    {
        ProxyRuntime { url: None, port: None, task: None }
    }
}

impl ProxyRuntime {
    /// Whether a task serves.
    pub fn running(&self) -> (r: bool)
        ensures
            r == self@.serves(),
    {
        match self.task {
            Some((_, finished)) => !finished,
            None => false,
        }
    }

    /// The address that is served, while a task serves.
    pub fn url(&self) -> (r: Option<String>)
        ensures
            data::option_view(r) == self@.address(),
    {
        if self.running() {
            match &self.url {
                Some(url) => Some(url.clone()),
                None => None,
            }
        } else {
            None
        }
    }

    /// What a start answers while the proxy already runs; none where it has to be started.
    pub fn started(&self) -> (r: Option<(String, u16)>)
        ensures
            match r {
                Some((url, port)) => self@.address() == Some(url@) && port == (match self@.port {
                    Some(port) => port,
                    None => 0,
                }),
                None => self@.address() is None,
            },
    {
        match self.url() {
            Some(url) => Some(
                (
                    url,
                    match self.port {
                        Some(port) => port,
                        None => 0,
                    },
                ),
            ),
            None => None,
        }
    }

    /// The proxy listens on `address` with `port`, and `task` serves it. The answer to the start.
    pub fn on_started(&mut self, address: &str, port: u16, task: u64) -> (r: (String, u16))
        ensures
            final(self)@ == (ProxyRuntimeView {
                url: Some("http://"@ + address@),
                port: Some(port),
                task: Some((task, false)),
            }),
            (r.0@, r.1) == ("http://"@ + address@, port),
    {
        let url = text::concat("http://", address);
        self.url = Some(url.clone());
        self.port = Some(port);
        self.task = Some((task, false));
        (url, port)
    }

    /// A task has come to its end; one that does not serve any more is forgotten.
    pub fn on_finished(&mut self, task: u64)
        ensures
            final(self)@ == (ProxyRuntimeView {
                task: match old(self)@.task {
                    Some((current, finished)) => Some((current, finished || current == task)),
                    None => None,
                },
                ..old(self)@
            }),
    {
        self.task =
        match self.task {
            Some((current, finished)) => Some((current, finished || current == task)),
            None => None,
        };
    }

    /// Forgets what was served, and gives the task that has to be waited for.
    pub fn stop(&mut self) -> (r: Option<u64>)
        ensures
            r == (match old(self)@.task {
                Some((task, _)) => Some(task),
                None => None,
            }),
            final(self)@ == (ProxyRuntimeView { url: None, port: None, task: None }),
    {
        let task = match self.task {
            Some((task, _)) => Some(task),
            None => None,
        };
        self.url = None;
        self.port = None;
        self.task = None;
        task
    }
}

/// A request to a host of the editor for a path that the server answers goes to the server with its path
/// and query, and the address that was meant is kept; every other request is left alone.
pub proof fn law_local_requests_reach_the_server(
    target: RequestTargetView,
    host: Seq<char>,
    backend: Seq<char>,
    tab_mode: TabMode,
)
    requires
        target.host == Some(host),
        cursor_host(host),
    ensures
        ({
            let sent = relayed(target, backend, tab_mode);
            &&& sent is Local <==> routed_locally(target.path, tab_mode)
            &&& sent matches RelayView::Local { upstream, target: to } ==> {
                &&& upstream == target.whole
                &&& text::starts(to, "http://"@ + backend)
                &&& target.path_and_query matches Some(rest) ==> text::ends(to, rest)
                &&& target.path_and_query is None ==> text::ends(to, "/"@)
            }
        }),
{
    let start = "http://"@ + backend;
    let rest = match target.path_and_query {
        Some(rest) => rest,
        None => "/"@,
    };
    let to = start + rest;
    assert(to.subrange(0, start.len() as int) =~= start);
    assert(to.subrange(to.len() - rest.len(), to.len() as int) =~= rest);
}

/// Tab completions are answered by the server unless the editor asks its own service; the paths of the
/// agent are answered by the server in any case.
pub proof fn law_completions_go_where_the_user_says(tab_mode: TabMode)
    ensures
        tab_mode != TabMode::Direct ==> routed_locally(
            "/aiserver.v1.AiService/StreamCpp"@,
            tab_mode,
        ),
        routed_locally("/agent.v1.AgentService/RunSSE"@, tab_mode),
        routed_locally("/aiserver.v1.BidiService/BidiAppend"@, tab_mode),
        routed_locally("/aiserver.v1.AiService/AvailableModels"@, tab_mode),
        routed_locally("/agent.v1.AgentService/GetUsableModels"@, tab_mode),
        routed_locally("/aiserver.v1.DashboardService/GetMe"@, tab_mode),
{
}

/// Every host below that of the editor is one that the editor talks to, however its name is written.
pub proof fn law_hosts_below_are_the_editors(name: Seq<char>, host: Seq<char>)
    requires
        host_name(host) == name + ".cursor.sh"@,
    ensures
        cursor_host(host),
{
    let h = name + ".cursor.sh"@;
    assert(h.subrange(h.len() - ".cursor.sh"@.len(), h.len() as int) =~= ".cursor.sh"@);
}

/// An address is told only while a task serves.
pub proof fn law_address_is_told_while_served(runtime: ProxyRuntimeView)
    ensures
        runtime.task is None ==> runtime.address() is None,
        runtime.task matches Some((_, finished)) ==> (finished ==> runtime.address() is None) && (
        !finished ==> runtime.address() == runtime.url),
{
}

} // verus!
