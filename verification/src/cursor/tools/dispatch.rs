//! Where a tool call goes.
use crate::cursor::tools::compat::ToolResult;
use crate::cursor::tools::context::{ExecContext, McpRouteEntry};
use crate::cursor::tools::runtime;
use crate::cursor::tools::runtime::{CursorToolRuntime, ExecStage, IdSource, RuntimeView};
use crate::cursor::tools::schedule;
use crate::cursor::tools::schedule::{
    DispatchedTool, DispatchedToolView, EditLaneView, EditSchedule,
};
use crate::data;
use crate::data::Duplicate;
use crate::error::{Error, ErrorView};
use crate::json;
use crate::json::{Json, JsonView, Number};
use crate::model::message::{
    CanonicalMessage, CanonicalMessageView, MessageContent, MessageContentView, Role,
};
use crate::model::tool::{ToolCall, ToolCallView};
use crate::text;
use vstd::arithmetic::power2::*;
use vstd::prelude::*;

verus! {

/// The integer that the bits of a 64-bit float denote, if they denote one.
pub open spec fn float_integer(bits: u64) -> Option<int> {
    let exponent = (bits as int / 0x10_0000_0000_0000) % 2048;
    let fraction = bits as int % 0x10_0000_0000_0000;
    let significand = if exponent == 0 {
        fraction
    } else {
        fraction + 0x10_0000_0000_0000
    };
    let scale = (if exponent == 0 {
        1
    } else {
        exponent
    }) - 1075;
    let magnitude = if exponent == 2047 {
        None
    } else if significand == 0 {
        Some(0int)
    } else if scale >= 0 {
        Some(significand * pow2(scale as nat))
    } else if significand % (pow2((-scale) as nat) as int) == 0 {
        Some(significand / (pow2((-scale) as nat) as int))
    } else {
        None
    };
    match magnitude {
        Some(m) => Some(
            if bits >= 0x8000_0000_0000_0000 {
                -m
            } else {
                m
            },
        ),
        None => None,
    }
}

/// What a number is when it is read as a time in milliseconds.
#[derive(Clone, Copy, Debug, PartialEq, Eq, Structural)]
pub enum Milliseconds {
    Whole(u64),
    Fractional,
    OutOfRange,
}

/// What a number is when it is read as a time in milliseconds. A number beyond the signed 64-bit
/// integers is read as the nearest float first, so that one that is nearest to their end still
/// counts as that end.
pub open spec fn milliseconds(n: Number) -> Milliseconds {
    match n {
        Number::PosInt(v) => if v <= i64::MAX {
            Milliseconds::Whole(v)
        } else if v <= 0x8000_0000_0000_0400 {
            Milliseconds::Whole(i64::MAX as u64)
        } else {
            Milliseconds::OutOfRange
        },
        Number::NegInt(v) => if v < 0 {
            Milliseconds::OutOfRange
        } else {
            Milliseconds::Whole(v as u64)
        },
        Number::Float(bits) => match float_integer(bits) {
            None => Milliseconds::Fractional,
            Some(v) => if v < 0 || v > 0x8000_0000_0000_0000 {
                Milliseconds::OutOfRange
            } else if v == 0x8000_0000_0000_0000 {
                Milliseconds::Whole(i64::MAX as u64)
            } else {
                Milliseconds::Whole(v as u64)
            },
        },
    }
}

fn power_of_two(k: u32) -> (r: u64)
    requires
        k <= 63,
    ensures
        r == pow2(k as nat),
{
    let mut out: u64 = 1;
    let mut i: u32 = 0;
    proof {
        lemma2_to64();
    }
    while i < k
        invariant
            i <= k <= 63,
            out == pow2(i as nat),
        decreases k - i,
    {
        proof {
            lemma_pow2_unfold((i + 1) as nat);
            lemma2_to64();
            lemma2_to64_rest();
            if i + 1 < 63 {
                lemma_pow2_strictly_increases((i + 1) as nat, 63);
            }
        }
        out = out * 2;
        i += 1;
    }
    out
}

/// The magnitude of a float that is an integer no larger than the first beyond the signed ones.
enum Magnitude {
    Whole(u64),
    Fractional,
    TooLarge,
}

fn float_magnitude(exponent: u64, fraction: u64) -> (r: Magnitude)
    requires
        exponent < 2047,
        fraction < 0x10_0000_0000_0000,
    ensures
        ({
            let significand = if exponent == 0 {
                fraction as int
            } else {
                fraction + 0x10_0000_0000_0000
            };
            let scale = (if exponent == 0 {
                1
            } else {
                exponent as int
            }) - 1075;
            match r {
                Magnitude::Whole(v) => if significand == 0 {
                    v == 0
                } else if scale >= 0 {
                    v == significand * pow2(scale as nat)
                } else {
                    significand % (pow2((-scale) as nat) as int) == 0 && v == significand / (pow2(
                        (-scale) as nat,
                    ) as int)
                },
                Magnitude::Fractional => significand != 0 && scale < 0 && significand % (pow2(
                    (-scale) as nat,
                ) as int) != 0,
                Magnitude::TooLarge => significand != 0 && scale >= 0 && significand * pow2(
                    scale as nat,
                ) > 0x8000_0000_0000_0000,
            }
        }),
{
    let significand: u64 = if exponent == 0 {
        fraction
    } else {
        fraction + 0x10_0000_0000_0000
    };
    if significand == 0 {
        return Magnitude::Whole(0);
    }
    let raised: u64 = if exponent == 0 {
        1
    } else {
        exponent
    };
    proof {
        lemma2_to64();
        lemma2_to64_rest();
    }
    if raised >= 1075 {
        let scale: u64 = raised - 1075;
        if scale >= 12 {
            proof {
                let p = pow2(scale as nat) as int;
                if scale > 12 {
                    lemma_pow2_strictly_increases(12, scale as nat);
                }
                assert(p >= 4096);
                assert(significand * p > 0x8000_0000_0000_0000) by (nonlinear_arith)
                    requires
                        significand >= 0x10_0000_0000_0000,
                        p >= 4096,
                ;
            }
            return Magnitude::TooLarge;
        }
        let power: u64 = power_of_two(scale as u32);
        proof {
            if scale < 11 {
                lemma_pow2_strictly_increases(scale as nat, 11);
            }
            assert(power <= 2048);
            assert(significand * power <= 0x20_0000_0000_0000 * 2048) by (nonlinear_arith)
                requires
                    significand < 0x20_0000_0000_0000,
                    power <= 2048,
            ;
            assert(0 <= significand * power) by (nonlinear_arith);
        }
        assert(significand * power < 0x1_0000_0000_0000_0000) by (nonlinear_arith)
            requires
                significand < 0x20_0000_0000_0000,
                power <= 2048,
        ;
        let value: u64 = significand * power;
        if value > 0x8000_0000_0000_0000 {
            Magnitude::TooLarge
        } else {
            Magnitude::Whole(value)
        }
    } else {
        let shift: u64 = 1075 - raised;
        if shift >= 53 {
            proof {
                let p = pow2(shift as nat) as int;
                if shift > 53 {
                    lemma_pow2_strictly_increases(53, shift as nat);
                }
                assert(p >= 0x20_0000_0000_0000);
                assert(significand as int % p == significand) by {
                    vstd::arithmetic::div_mod::lemma_small_mod(significand as nat, p as nat);
                }
            }
            return Magnitude::Fractional;
        }
        let power: u64 = power_of_two(shift as u32);
        proof {
            lemma_pow2_pos(shift as nat);
        }
        if significand % power == 0 {
            Magnitude::Whole(significand / power)
        } else {
            Magnitude::Fractional
        }
    }
}

/// What a number is when it is read as a time in milliseconds.
pub fn read_milliseconds(n: Number) -> (r: Milliseconds)
    ensures
        r == milliseconds(n),
{
    match n {
        Number::PosInt(v) => if v <= i64::MAX as u64 {
            Milliseconds::Whole(v)
        } else if v <= 0x8000_0000_0000_0400 {
            Milliseconds::Whole(i64::MAX as u64)
        } else {
            Milliseconds::OutOfRange
        },
        Number::NegInt(v) => if v < 0 {
            Milliseconds::OutOfRange
        } else {
            Milliseconds::Whole(v as u64)
        },
        Number::Float(bits) => {
            let exponent: u64 = (bits / 0x10_0000_0000_0000) % 2048;
            let fraction: u64 = bits % 0x10_0000_0000_0000;
            if exponent == 2047 {
                return Milliseconds::Fractional;
            }
            match float_magnitude(exponent, fraction) {
                Magnitude::Fractional => Milliseconds::Fractional,
                Magnitude::TooLarge => {
                    assert(float_integer(bits) is Some);
                    Milliseconds::OutOfRange
                },
                Magnitude::Whole(v) => {
                    if bits >= 0x8000_0000_0000_0000 && v > 0 {
                        Milliseconds::OutOfRange
                    } else if v > 0x8000_0000_0000_0000 {
                        Milliseconds::OutOfRange
                    } else if v == 0x8000_0000_0000_0000 {
                        Milliseconds::Whole(i64::MAX as u64)
                    } else {
                        Milliseconds::Whole(v)
                    }
                },
            }
        },
    }
}

/// Whether a name is that of a tool that runs a shell.
pub open spec fn names_shell(name: Seq<char>) -> bool {
    text::plain_name(name) == "shell"@ || text::plain_name(name) == "bash"@
}

fn is_shell_tool(name: &str) -> (r: bool)
    ensures
        r == names_shell(name@),
{
    let plain = text::normalized(name);
    text::same(plain.as_str(), "shell") || text::same(plain.as_str(), "bash")
}

/// A shell call with its time to block as an integer: `None` where nothing has to change.
pub open spec fn integral_block(call: ToolCallView) -> Result<Option<ToolCallView>, ErrorView> {
    match call.arguments {
        JsonView::Object(members) if names_shell(call.name) => match json::member(
            members,
            "block_until_ms"@,
        ) {
            None => Ok(None),
            Some(JsonView::Number(n)) => match milliseconds(n) {
                Milliseconds::Fractional => Err(
                    ErrorView::Protocol(call.name + " block_until_ms must be an integer"@),
                ),
                Milliseconds::OutOfRange => Err(
                    ErrorView::Protocol(call.name + " block_until_ms is out of range"@),
                ),
                Milliseconds::Whole(ms) => if JsonView::Number(n).signed() is Some {
                    Ok(None)
                } else {
                    Ok(
                        Some(
                            ToolCallView {
                                arguments: JsonView::Object(
                                    json::with_member(
                                        members,
                                        "block_until_ms"@,
                                        JsonView::Number(Number::PosInt(ms)),
                                    ),
                                ),
                                ..call
                            },
                        ),
                    )
                },
            },
            Some(_) => Err(
                ErrorView::Protocol(call.name + " block_until_ms must be an integer"@),
            ),
        },
        _ => Ok(None),
    }
}

/// A shell call with its time to block as an integer: `None` where nothing has to change. A time
/// that is no integer, or negative, or too large is refused.
pub fn normalize_block_until_ms(call: &ToolCall) -> (r: Result<Option<ToolCall>, Error>)
    ensures
        match r {
            Ok(changed) => integral_block(call@) == Ok::<Option<ToolCallView>, ErrorView>(
                data::option_view(changed),
            ),
            Err(error) => integral_block(call@) == Err::<Option<ToolCallView>, ErrorView>(error@),
        },
{
    broadcast use json::lemma_view;

    if !is_shell_tool(call.name.as_str()) {
        return Ok(None);
    }
    let value = match call.arguments.get("block_until_ms") {
        Some(value) => value,
        None => {
            return Ok(None);
        },
    };
    let signed = value.as_i64().is_some();
    let number = match value {
        Json::Number(n) => *n,
        _ => {
            return Err(
                Error::Protocol(
                    text::concat(call.name.as_str(), " block_until_ms must be an integer"),
                ),
            );
        },
    };
    match read_milliseconds(number) {
        Milliseconds::Fractional => Err(
            Error::Protocol(
                text::concat(call.name.as_str(), " block_until_ms must be an integer"),
            ),
        ),
        Milliseconds::OutOfRange => Err(
            Error::Protocol(text::concat(call.name.as_str(), " block_until_ms is out of range")),
        ),
        Milliseconds::Whole(ms) => if signed {
            Ok(None)
        } else {
            let mut changed = call.duplicate();
            changed.arguments.set("block_until_ms", Json::Number(Number::PosInt(ms)));
            Ok(Some(changed))
        },
    }
}

/// Whether a call asks to authorize an MCP server.
pub open spec fn authorizes_mcp(call: ToolCallView) -> bool {
    text::plain_name(call.name) == "callmcptool"@ && (match call.arguments.text_at("toolName"@) {
        Some(tool) => text::plain_name(tool) == "mcpauth"@,
        None => false,
    })
}

fn is_mcp_auth(call: &ToolCall) -> (r: bool)
    ensures
        r == authorizes_mcp(call@),
{
    let plain = text::normalized(call.name.as_str());
    if !text::same(plain.as_str(), "callmcptool") {
        return false;
    }
    match call.arguments.get_str("toolName") {
        Some(tool) => {
            let tool = text::normalized(tool);
            text::same(tool.as_str(), "mcpauth")
        },
        None => false,
    }
}

/// Who takes a call.
#[derive(Clone, Copy, Debug, PartialEq, Eq, Structural)]
pub enum Route {
    /// A tool of an MCP server, defined for this run.
    DynamicMcp,
    /// The user is asked.
    Interaction,
    /// Subagents are switched off.
    SubagentsDisabled,
    /// The client executes it.
    Exec,
    /// The client reads and writes a file.
    Edit,
    /// It is answered here at once.
    Local,
    /// It waits for a shell in the background.
    AwaitShell,
    /// The index is searched.
    Search,
    /// Changes of the workspace are shown.
    InspectChanges,
    /// Nobody.
    Unavailable,
}

/// Who takes a call of this tool.
pub open spec fn route_for(tool: Seq<char>) -> Route {
    if tool == "shell"@ || tool == "bash"@ || tool == "read"@ || tool == "delete"@ || tool
        == "grep"@ || tool == "glob"@ || tool == "ls"@ || tool == "readlints"@ || tool == "task"@
        || tool == "callmcptool"@ || tool == "fetchmcpresource"@ || tool == "getmcptools"@ {
        Route::Exec
    } else if tool == "write"@ || tool == "strreplace"@ || tool == "editnotebook"@ {
        Route::Edit
    } else if tool == "askquestion"@ || tool == "websearch"@ || tool == "webfetch"@ || tool
        == "switchmode"@ || tool == "createplan"@ || tool == "generateimage"@ {
        Route::Interaction
    } else if tool == "todowrite"@ || tool == "updatecurrentstep"@ {
        Route::Local
    } else if tool == "awaitshell"@ {
        Route::AwaitShell
    } else if tool == "semblesearch"@ || tool == "semblefindrelated"@ {
        Route::Search
    } else if tool == "inspectchanges"@ {
        Route::InspectChanges
    } else {
        Route::Unavailable
    }
}

fn one_of(tool: &str, a: &str, b: &str, c: &str) -> (r: bool)
    ensures
        r == (tool@ == a@ || tool@ == b@ || tool@ == c@),
{
    text::same(tool, a) || text::same(tool, b) || text::same(tool, c)
}

fn route_of_tool(tool: &str) -> (r: Route)
    ensures
        r == route_for(tool@),
{
    if one_of(tool, "shell", "bash", "read") || one_of(tool, "delete", "grep", "glob") || one_of(
        tool,
        "ls",
        "readlints",
        "task",
    ) || one_of(tool, "callmcptool", "fetchmcpresource", "getmcptools") {
        Route::Exec
    } else if one_of(tool, "write", "strreplace", "editnotebook") {
        Route::Edit
    } else if one_of(tool, "askquestion", "websearch", "webfetch") || one_of(
        tool,
        "switchmode",
        "createplan",
        "generateimage",
    ) {
        Route::Interaction
    } else if text::same(tool, "todowrite") || text::same(tool, "updatecurrentstep") {
        Route::Local
    } else if text::same(tool, "awaitshell") {
        Route::AwaitShell
    } else if text::same(tool, "semblesearch") || text::same(tool, "semblefindrelated") {
        Route::Search
    } else if text::same(tool, "inspectchanges") {
        Route::InspectChanges
    } else {
        Route::Unavailable
    }
}

/// Who takes a call, and the call as it is taken.
#[derive(Debug)]
pub struct Dispatch {
    pub route: Route,
    pub call: ToolCall,
}

/// Who takes a call: in this order, the MCP tool of that name, the user for an authorization, nobody
/// for a task that may not run, and the one who takes the tool. `dynamic` says whether an MCP tool of
/// that name is defined.
pub open spec fn dispatch_of(
    call: ToolCallView,
    dynamic: bool,
    context: ExecContext,
) -> Result<(Route, ToolCallView), ErrorView> {
    if dynamic {
        Ok((Route::DynamicMcp, call))
    } else if authorizes_mcp(call) {
        Ok((Route::Interaction, call))
    } else if context.disables(call) {
        Ok((Route::SubagentsDisabled, call))
    } else {
        match integral_block(call) {
            Err(error) => Err(error),
            Ok(changed) => Ok(
                (
                    route_for(text::plain_name(call.name)),
                    match changed {
                        Some(changed) => changed,
                        None => call,
                    },
                ),
            ),
        }
    }
}

/// Who takes a call, and the call as it is taken.
pub fn dispatch(call: &ToolCall, dynamic: bool, context: &ExecContext) -> (r: Result<
    Dispatch,
    Error,
>)
    ensures
        match r {
            Ok(taken) => dispatch_of(call@, dynamic, *context) == Ok::<
                (Route, ToolCallView),
                ErrorView,
            >((taken.route, taken.call@)),
            Err(error) => dispatch_of(call@, dynamic, *context) == Err::<
                (Route, ToolCallView),
                ErrorView,
            >(error@),
        },
{
    if dynamic {
        return Ok(Dispatch { route: Route::DynamicMcp, call: call.duplicate() });
    }
    if is_mcp_auth(call) {
        return Ok(Dispatch { route: Route::Interaction, call: call.duplicate() });
    }
    if context.task_disabled(call) {
        return Ok(Dispatch { route: Route::SubagentsDisabled, call: call.duplicate() });
    }
    let taken = match normalize_block_until_ms(call) {
        Ok(Some(changed)) => changed,
        Ok(None) => call.duplicate(),
        Err(error) => {
            return Err(error);
        },
    };
    let plain = text::normalized(call.name.as_str());
    Ok(Dispatch { route: route_of_tool(plain.as_str()), call: taken })
}

/// The server that a call of an MCP tool names.
pub open spec fn requested_server(arguments: JsonView) -> Seq<char> {
    let named = match arguments.at("server"@) {
        Some(value) => Some(value),
        None => arguments.at("providerIdentifier"@),
    };
    match named {
        Some(value) => match value.text() {
            Some(server) => server,
            None => Seq::empty(),
        },
        None => Seq::empty(),
    }
}

/// The tool that a full name of a tool of a server stands for.
pub open spec fn tool_in_name(name: Seq<char>, server: Seq<char>) -> Seq<char> {
    let prefix = server + "-"@;
    if server.len() > 0 && text::starts(name, prefix) {
        text::without_prefixes(name, prefix)
    } else if text::starts(name, "user-"@) {
        name.skip(5)
    } else {
        name
    }
}

/// The tool that a call of an MCP tool names.
pub open spec fn requested_tool(arguments: JsonView, server: Seq<char>) -> Seq<char> {
    match arguments.text_at("toolName"@) {
        Some(tool) if tool.len() > 0 => tool,
        _ => match arguments.text_at("name"@) {
            Some(name) => tool_in_name(name, server),
            None => Seq::empty(),
        },
    }
}

/// The server under its other name: with or without the mark of the user's own servers.
pub open spec fn other_server_name(server: Seq<char>) -> Seq<char> {
    match text::after_prefix(server, "user-"@) {
        Some(rest) => rest,
        None => "user-"@ + server,
    }
}

/// Position of the first route with this server and tool, or the number of routes.
pub open spec fn route_position(
    routes: Seq<McpRouteEntry>,
    server: Option<Seq<char>>,
    tool: Seq<char>,
) -> int
    decreases routes.len(),
{
    if routes.len() == 0 || ((server matches Some(s) ==> routes[0].server@ == s) && routes[0].tool@
        == tool) {
        0
    } else {
        1 + route_position(routes.drop_first(), server, tool)
    }
}

/// The position of the route of an MCP tool: under the server's name, under its other name, or, as a
/// last resort, that of a tool of this name on any server.
pub open spec fn resolved_route(
    routes: Seq<McpRouteEntry>,
    server: Seq<char>,
    tool: Seq<char>,
) -> Option<int> {
    let exact = route_position(routes, Some(server), tool);
    let other = route_position(routes, Some(other_server_name(server)), tool);
    let any = route_position(routes, None, tool);
    if exact < routes.len() {
        Some(exact)
    } else if other < routes.len() {
        Some(other)
    } else if any < routes.len() {
        Some(any)
    } else {
        None
    }
}

fn find_route(routes: &Vec<McpRouteEntry>, server: Option<&str>, tool: &str) -> (r: usize)
    ensures
        r <= routes@.len(),
        r == route_position(
            routes@,
            match server {
                Some(s) => Some(s@),
                None => None,
            },
            tool@,
        ),
{
    let ghost wanted = match server {
        Some(s) => Some(s@),
        None => None,
    };
    let mut i: usize = 0;
    assert(routes@.skip(0) =~= routes@);
    while i < routes.len()
        invariant
            i <= routes@.len(),
            wanted == (match server {
                Some(s) => Some(s@),
                None => None,
            }),
            route_position(routes@, wanted, tool@) == i + route_position(
                routes@.skip(i as int),
                wanted,
                tool@,
            ),
        decreases routes@.len() - i,
    {
        assert(routes@.skip(i as int)[0] == routes@[i as int]);
        assert(routes@.skip(i as int).drop_first() =~= routes@.skip(i + 1));
        let same_server = match server {
            Some(s) => text::same(routes[i].server.as_str(), s),
            None => true,
        };
        if same_server && text::same(routes[i].tool.as_str(), tool) {
            return i;
        }
        i += 1;
    }
    i
}

/// An MCP tool as a call names it, and the position of its route.
#[derive(Debug)]
pub struct McpTarget {
    pub server: String,
    pub tool: String,
    pub route: Option<usize>,
}

fn server_of(arguments: &Json) -> (r: String)
    ensures
        r@ == requested_server(arguments@),
{
    let named = match arguments.get("server") {
        Some(value) => Some(value),
        None => arguments.get("providerIdentifier"),
    };
    match named {
        Some(value) => match value.as_str() {
            Some(server) => server.to_owned(),
            None => String::new(),
        },
        None => String::new(),
    }
}

fn tool_of(arguments: &Json, server: &str) -> (r: String)
    ensures
        r@ == requested_tool(arguments@, server@),
{
    if let Some(tool) = arguments.get_str("toolName") {
        if !tool.is_empty() {
            return tool.to_owned();
        }
    }
    let name = match arguments.get_str("name") {
        Some(name) => name,
        None => {
            return String::new();
        },
    };
    let prefix = text::concat(server, "-");
    if !server.is_empty() && text::starts_with(name, prefix.as_str()) {
        return text::strip_prefixes(name, prefix.as_str());
    }
    proof {
        reveal_strlit("user-");
    }
    match text::strip_prefix(name, "user-") {
        Some(rest) => rest,
        None => name.to_owned(),
    }
}

/// The MCP tool that a call names, and where it is found.
pub fn resolve_mcp(call: &ToolCall, context: &ExecContext) -> (r: McpTarget)
    ensures
        r.server@ == requested_server(call@.arguments),
        r.tool@ == requested_tool(call@.arguments, r.server@),
        match r.route {
            Some(at) => at < context.mcp_routes@.len() && resolved_route(
                context.mcp_routes@,
                r.server@,
                r.tool@,
            ) == Some(at as int),
            None => resolved_route(context.mcp_routes@, r.server@, r.tool@) is None,
        },
{
    let server = server_of(&call.arguments);
    let tool = tool_of(&call.arguments, server.as_str());
    let exact = find_route(&context.mcp_routes, Some(server.as_str()), tool.as_str());
    if exact < context.mcp_routes.len() {
        return McpTarget { server, tool, route: Some(exact) };
    }
    let other_name = match text::strip_prefix(server.as_str(), "user-") {
        Some(rest) => rest,
        None => text::concat("user-", server.as_str()),
    };
    let other = find_route(&context.mcp_routes, Some(other_name.as_str()), tool.as_str());
    if other < context.mcp_routes.len() {
        return McpTarget { server, tool, route: Some(other) };
    }
    let any = find_route(&context.mcp_routes, None, tool.as_str());
    if any < context.mcp_routes.len() {
        McpTarget { server, tool, route: Some(any) }
    } else {
        McpTarget { server, tool, route: None }
    }
}

/// The error of a call of an MCP tool that is not found.
pub fn mcp_not_found(target: &McpTarget) -> (r: String)
    ensures
        r@ == "MCP descriptor not found for "@ + target.server@ + "/"@ + target.tool@,
{
    let mut out = "MCP descriptor not found for ".to_owned();
    out.append(target.server.as_str());
    out.append("/");
    out.append(target.tool.as_str());
    out
}

/// A resolved route is one of the tool that was asked for.
pub proof fn law_resolved_routes_fit(routes: Seq<McpRouteEntry>, server: Seq<char>, tool: Seq<char>)
    ensures
        resolved_route(routes, server, tool) matches Some(at) ==> 0 <= at < routes.len()
            && routes[at].tool@ == tool,
{
    lemma_route_fits(routes, Some(server), tool);
    lemma_route_fits(routes, Some(other_server_name(server)), tool);
    lemma_route_fits(routes, None, tool);
}

proof fn lemma_route_fits(routes: Seq<McpRouteEntry>, server: Option<Seq<char>>, tool: Seq<char>)
    ensures
        0 <= route_position(routes, server, tool) <= routes.len(),
        route_position(routes, server, tool) < routes.len() ==> routes[route_position(
            routes,
            server,
            tool,
        )].tool@ == tool,
    decreases routes.len(),
{
    if routes.len() > 0 {
        lemma_route_fits(routes.drop_first(), server, tool);
        let at = route_position(routes.drop_first(), server, tool);
        if at < routes.len() - 1 {
            assert(routes.drop_first()[at] == routes[at + 1]);
        }
    }
}

/// How many steps a message shows: its thinking, its text and its tool calls.
pub open spec fn steps_of(message: CanonicalMessageView) -> nat {
    match message.content {
        MessageContentView::Assistant { text, thinking, tool_calls, .. } => (if thinking.len() > 0 {
            1nat
        } else {
            0
        }) + (if text.len() > 0 {
            1nat
        } else {
            0
        }) + tool_calls.len(),
        _ => 0,
    }
}

/// How many steps the messages since the last one of the user show.
pub open spec fn turn_steps(messages: Seq<CanonicalMessageView>) -> nat
    decreases messages.len(),
{
    if messages.len() == 0 || messages.last().role == Role::User {
        0
    } else {
        turn_steps(messages.drop_last()) + steps_of(messages.last())
    }
}

/// How many steps the messages since the last one of the user show.
pub fn current_turn_step_count(messages: &[CanonicalMessage]) -> (r: usize)
    requires
        turn_steps(data::views(messages@)) <= usize::MAX,
    ensures
        r == turn_steps(data::views(messages@)),
{
    let ghost all = data::views(messages@);
    let mut total: usize = 0;
    let mut end: usize = messages.len();
    assert(all.take(end as int) =~= all);
    while end > 0 && messages[end - 1].role != Role::User
        invariant
            end <= messages@.len(),
            all == data::views(messages@),
            turn_steps(all) == total + turn_steps(all.take(end as int)),
            turn_steps(all) <= usize::MAX,
        decreases end,
    {
        assert(all.take(end as int).last() == messages@[end - 1]@);
        assert(all.take(end as int).drop_last() =~= all.take(end - 1));
        let ghost here = steps_of(all[end - 1]);
        assert(total + here <= usize::MAX);
        match &messages[end - 1].content {
            MessageContent::Assistant { text, thinking, tool_calls, .. } => {
                total = total + tool_calls.len();
                if !thinking.as_str().is_empty() {
                    total = total + 1;
                }
                if !text.as_str().is_empty() {
                    total = total + 1;
                }
            },
            _ => {},
        }
        end -= 1;
    }
    assert(end > 0 ==> all.take(end as int).last() == messages@[end - 1]@);
    total
}

/// What is known of a batch of calls before it is started.
#[derive(Debug)]
pub struct ToolBatchState {
    pub completed: Vec<String>,
    pub started: Vec<String>,
    pub response_text: String,
    pub response_thinking: String,
}

/// The step that the first call of a batch is shown as.
pub open spec fn first_tool_index(
    messages: Seq<CanonicalMessageView>,
    response_text: Seq<char>,
    response_thinking: Seq<char>,
) -> int {
    turn_steps(messages) + (if response_thinking.len() > 0 {
        1int
    } else {
        0int
    }) + (if response_text.len() > 0 {
        1int
    } else {
        0int
    }) + 1
}

/// The calls of a batch that are to be started, and the edits that run and wait afterwards: those
/// that were not completed are started, each shown as the step that its position gives, but an edit
/// waits while another one of its path runs.
pub open spec fn batch_plan(
    lanes: Seq<EditLaneView>,
    calls: Seq<ToolCallView>,
    paths: Seq<Option<Seq<char>>>,
    completed: Seq<Seq<char>>,
    started: Seq<Seq<char>>,
    first: int,
) -> (Seq<DispatchedToolView>, Seq<EditLaneView>)
    decreases calls.len(),
{
    if calls.len() == 0 {
        (Seq::empty(), lanes)
    } else {
        let (before, lanes) = batch_plan(lanes, calls.drop_last(), paths, completed, started, first);
        let call = calls.last();
        let tool = DispatchedToolView {
            call,
            message_index: first + calls.len() - 1,
            publish_started: !started.contains(call.call_id),
        };
        if completed.contains(call.call_id) {
            (before, lanes)
        } else {
            match paths[calls.len() - 1] {
                None => (before.push(tool), lanes),
                Some(path) => {
                    let (next, lanes) = schedule::start_or_defer(lanes, path, tool);
                    (
                        match next {
                            Some(next) => before.push(next),
                            None => before,
                        },
                        lanes,
                    )
                },
            }
        }
    }
}

/// The views of the paths of edits.
pub open spec fn path_views(paths: Seq<Option<String>>) -> Seq<Option<Seq<char>>> {
    paths.map_values(|p: Option<String>| data::option_view(p))
}

/// The calls of a batch that are to be started. `paths` holds the path that each call edits, where it
/// is an edit.
pub fn start_batch(
    schedule: &mut EditSchedule,
    calls: &Vec<ToolCall>,
    paths: &Vec<Option<String>>,
    state: &ToolBatchState,
    messages: &[CanonicalMessage],
) -> (r: Vec<DispatchedTool>)
    requires
        old(schedule).wf(),
        paths@.len() == calls@.len(),
        first_tool_index(
            data::views(messages@),
            state.response_text@,
            state.response_thinking@,
        ) + calls@.len() <= usize::MAX,
    ensures
        final(schedule).wf(),
        (data::views(r@), final(schedule)@) == batch_plan(
            old(schedule)@,
            data::views(calls@),
            path_views(paths@),
            data::views(state.completed@),
            data::views(state.started@),
            first_tool_index(
                data::views(messages@),
                state.response_text@,
                state.response_thinking@,
            ),
        ),
{
    let ghost all = data::views(calls@);
    let mut first: usize = current_turn_step_count(messages) + 1;
    if !state.response_thinking.as_str().is_empty() {
        first = first + 1;
    }
    if !state.response_text.as_str().is_empty() {
        first = first + 1;
    }
    let mut out: Vec<DispatchedTool> = Vec::new();
    let mut i: usize = 0;
    assert(all.take(0) =~= Seq::empty());
    assert(data::views(out@) =~= Seq::empty());
    while i < calls.len()
        invariant
            i <= calls@.len() == paths@.len(),
            all == data::views(calls@),
            first + calls@.len() <= usize::MAX,
            schedule.wf(),
            (data::views(out@), schedule@) == batch_plan(
                old(schedule)@,
                all.take(i as int),
                path_views(paths@),
                data::views(state.completed@),
                data::views(state.started@),
                first as int,
            ),
        decreases calls@.len() - i,
    {
        let ghost before = data::views(out@);
        assert(path_views(paths@)[i as int] == data::option_view(paths@[i as int]));
        if !data::lists(&state.completed, calls[i].call_id.as_str()) {
            let tool = DispatchedTool {
                call: calls[i].duplicate(),
                message_index: first + i,
                publish_started: !data::lists(&state.started, calls[i].call_id.as_str()),
            };
            let next = match &paths[i] {
                Some(path) => schedule.start_or_defer(path.as_str(), tool),
                None => Some(tool),
            };
            if let Some(next) = next {
                out.push(next);
                assert(data::views(out@) =~= before.push(next@));
            }
        }
        i += 1;
        assert(all.take(i as int).drop_last() =~= all.take(i - 1));
        assert(all.take(i as int).last() == calls@[i - 1]@);
    }
    assert(all.take(i as int) =~= all);
    out
}

/// No call that was completed is started again.
pub proof fn law_completed_calls_are_not_started(
    lanes: Seq<EditLaneView>,
    calls: Seq<ToolCallView>,
    paths: Seq<Option<Seq<char>>>,
    completed: Seq<Seq<char>>,
    started: Seq<Seq<char>>,
    first: int,
)
    ensures
        forall|i: int|
            0 <= i < batch_plan(lanes, calls, paths, completed, started, first).0.len()
                ==> !completed.contains(
                (#[trigger] batch_plan(lanes, calls, paths, completed, started, first).0[i]).call.call_id,
            ),
    decreases calls.len(),
{
    if calls.len() > 0 {
        law_completed_calls_are_not_started(
            lanes,
            calls.drop_last(),
            paths,
            completed,
            started,
            first,
        );
    }
}

/// How a call that needs an answer from outside begins.
#[derive(Debug)]
pub enum ExecStart {
    /// The client or the user is asked under this id.
    Asked { id: u32 },
    /// Nothing is sent. The call is over, and this is its result.
    Failed(ToolResult),
}

/// Whether this is the result of a call that failed with this error.
pub open spec fn fails_with(result: ToolResult, call: ToolCallView, error: ErrorView) -> bool {
    &&& result.call_id@ == call.call_id
    &&& result.content@ == error.told()
    &&& result.is_error
}

/// The result of a call that no id could be reserved for.
pub fn reservation_failure(call: &ToolCall, error: &Error) -> (r: ToolResult)
    ensures
        fails_with(r, call@, error@),
{
    ToolResult { call_id: call.call_id.clone(), content: error.message(), is_error: true }
}

/// How a call begins, from what came of reserving an id for it: one that gets none ends with one
/// error and is not tried again.
pub fn start_reserved(call: &ToolCall, reserved: Result<u32, Error>) -> (r: ExecStart)
    ensures
        match (reserved, r) {
            (Ok(id), ExecStart::Asked { id: asked }) => asked == id,
            (Err(error), ExecStart::Failed(result)) => fails_with(result, call@, error@),
            _ => false,
        },
{
    match reserved {
        Ok(id) => ExecStart::Asked { id },
        Err(error) => ExecStart::Failed(reservation_failure(call, &error)),
    }
}

/// Begins a call that goes to the client: it is registered under the next id, or, where the ids have
/// run out, it ends with one error.
pub fn start_exec(
    runtime: &mut CursorToolRuntime,
    ids: &mut IdSource,
    call: &ToolCall,
    terminals_folder: &str,
    stage: ExecStage,
    started_at_ms: u64,
) -> (r: ExecStart)
    requires
        old(runtime).wf(),
    ensures
        final(runtime).wf(),
        match r {
            ExecStart::Asked { id } => old(ids).last < u32::MAX && id == old(ids).last + 1
                && final(ids).last == id && final(runtime)@ == (RuntimeView {
                execs: old(runtime)@.execs.insert(
                    id,
                    runtime::fresh_exec(call@, terminals_folder@, stage@, started_at_ms),
                ),
                ..old(runtime)@
            }),
            ExecStart::Failed(result) => old(ids).last == u32::MAX && fails_with(
                result,
                call@,
                runtime::no_more_ids(),
            ) && final(runtime)@ == old(runtime)@ && final(ids).last == 0,
        },
{
    let reserved = runtime.reserve_exec_stage(ids, call, terminals_folder, stage, started_at_ms);
    start_reserved(call, reserved)
}

/// Each tool has its taker: the client runs commands and reads, edits go through a file, questions go to
/// the user, and the rest is done here.
pub proof fn law_each_tool_has_its_taker()
    ensures
        route_for("shell"@) is Exec,
        route_for("bash"@) is Exec,
        route_for("read"@) is Exec,
        route_for("delete"@) is Exec,
        route_for("grep"@) is Exec,
        route_for("glob"@) is Exec,
        route_for("ls"@) is Exec,
        route_for("readlints"@) is Exec,
        route_for("task"@) is Exec,
        route_for("callmcptool"@) is Exec,
        route_for("fetchmcpresource"@) is Exec,
        route_for("getmcptools"@) is Exec,
        route_for("write"@) is Edit,
        route_for("strreplace"@) is Edit,
        route_for("editnotebook"@) is Edit,
        route_for("askquestion"@) is Interaction,
        route_for("websearch"@) is Interaction,
        route_for("webfetch"@) is Interaction,
        route_for("switchmode"@) is Interaction,
        route_for("createplan"@) is Interaction,
        route_for("generateimage"@) is Interaction,
        route_for("todowrite"@) is Local,
        route_for("updatecurrentstep"@) is Local,
        route_for("awaitshell"@) is AwaitShell,
        route_for("semblesearch"@) is Search,
        route_for("semblefindrelated"@) is Search,
        route_for("inspectchanges"@) is InspectChanges,
{
    reveal_strlit("shell");
    assert("shell"@.len() == 5);
    reveal_strlit("bash");
    assert("bash"@.len() == 4);
    reveal_strlit("read");
    assert("read"@.len() == 4);
    reveal_strlit("delete");
    assert("delete"@.len() == 6);
    reveal_strlit("grep");
    assert("grep"@.len() == 4);
    reveal_strlit("glob");
    assert("glob"@.len() == 4);
    reveal_strlit("ls");
    assert("ls"@.len() == 2);
    reveal_strlit("readlints");
    assert("readlints"@.len() == 9);
    reveal_strlit("task");
    assert("task"@.len() == 4);
    reveal_strlit("callmcptool");
    assert("callmcptool"@.len() == 11);
    reveal_strlit("fetchmcpresource");
    assert("fetchmcpresource"@.len() == 16);
    reveal_strlit("getmcptools");
    assert("getmcptools"@.len() == 11);
    reveal_strlit("write");
    assert("write"@.len() == 5);
    reveal_strlit("strreplace");
    assert("strreplace"@.len() == 10);
    reveal_strlit("editnotebook");
    assert("editnotebook"@.len() == 12);
    reveal_strlit("askquestion");
    assert("askquestion"@.len() == 11);
    reveal_strlit("websearch");
    assert("websearch"@.len() == 9);
    reveal_strlit("webfetch");
    assert("webfetch"@.len() == 8);
    reveal_strlit("switchmode");
    assert("switchmode"@.len() == 10);
    reveal_strlit("createplan");
    assert("createplan"@.len() == 10);
    reveal_strlit("generateimage");
    assert("generateimage"@.len() == 13);
    reveal_strlit("todowrite");
    assert("todowrite"@.len() == 9);
    reveal_strlit("updatecurrentstep");
    assert("updatecurrentstep"@.len() == 17);
    reveal_strlit("awaitshell");
    assert("awaitshell"@.len() == 10);
    reveal_strlit("semblesearch");
    assert("semblesearch"@.len() == 12);
    reveal_strlit("semblefindrelated");
    assert("semblefindrelated"@.len() == 17);
    reveal_strlit("inspectchanges");
    assert("inspectchanges"@.len() == 14);
    assert("write"@[0] != "shell"@[0]);
    assert("askquestion"@[0] != "callmcptool"@[0]);
    assert("askquestion"@[0] != "getmcptools"@[0]);
    assert("websearch"@[0] != "readlints"@[0]);
    assert("switchmode"@[1] != "strreplace"@[1]);
    assert("createplan"@[0] != "strreplace"@[0]);
    assert("todowrite"@[0] != "readlints"@[0]);
    assert("todowrite"@[0] != "websearch"@[0]);
    assert("awaitshell"@[0] != "strreplace"@[0]);
    assert("awaitshell"@[0] != "switchmode"@[0]);
    assert("awaitshell"@[0] != "createplan"@[0]);
    assert("semblesearch"@[0] != "editnotebook"@[0]);
    assert("semblefindrelated"@[0] != "updatecurrentstep"@[0]);
    assert(route_for("shell"@) is Exec);
    assert(route_for("bash"@) is Exec);
    assert(route_for("read"@) is Exec);
    assert(route_for("delete"@) is Exec);
    assert(route_for("grep"@) is Exec);
    assert(route_for("glob"@) is Exec);
    assert(route_for("ls"@) is Exec);
    assert(route_for("readlints"@) is Exec);
    assert(route_for("task"@) is Exec);
    assert(route_for("callmcptool"@) is Exec);
    assert(route_for("fetchmcpresource"@) is Exec);
    assert(route_for("getmcptools"@) is Exec);
    assert(route_for("write"@) is Edit);
    assert(route_for("strreplace"@) is Edit);
    assert(route_for("editnotebook"@) is Edit);
    assert(route_for("askquestion"@) is Interaction);
    assert(route_for("websearch"@) is Interaction);
    assert(route_for("webfetch"@) is Interaction);
    assert(route_for("switchmode"@) is Interaction);
    assert(route_for("createplan"@) is Interaction);
    assert(route_for("generateimage"@) is Interaction);
    assert(route_for("todowrite"@) is Local);
    assert(route_for("updatecurrentstep"@) is Local);
    assert(route_for("awaitshell"@) is AwaitShell);
    assert(route_for("semblesearch"@) is Search);
    assert(route_for("semblefindrelated"@) is Search);
    assert(route_for("inspectchanges"@) is InspectChanges);
}

/// A tool that is none of those that are known is taken by nobody, and whoever takes one takes a known
/// one.
pub proof fn law_unknown_tools_are_taken_by_nobody(tool: Seq<char>)
    ensures
        route_for(tool) is Edit ==> tool == "write"@ || tool == "strreplace"@ || tool
            == "editnotebook"@,
        route_for(tool) is Local ==> tool == "todowrite"@ || tool == "updatecurrentstep"@,
        route_for(tool) is AwaitShell ==> tool == "awaitshell"@,
        route_for(tool) is Search ==> tool == "semblesearch"@ || tool == "semblefindrelated"@,
        route_for(tool) is InspectChanges ==> tool == "inspectchanges"@,
        !(route_for(tool) is DynamicMcp) && !(route_for(tool) is SubagentsDisabled),
{
}

/// A time that is a whole number of milliseconds in reach stays what it is, in whatever form it is
/// written; a negative one is out of range.
pub proof fn law_whole_times_stay(v: u64, w: i64, bits: u64)
    ensures
        v <= i64::MAX ==> milliseconds(Number::PosInt(v)) == Milliseconds::Whole(v),
        w >= 0 ==> milliseconds(Number::NegInt(w)) == Milliseconds::Whole(w as u64),
        w < 0 ==> milliseconds(Number::NegInt(w)) is OutOfRange,
        milliseconds(Number::Float(bits)) is Fractional <==> float_integer(bits) is None,
        float_integer(bits) matches Some(n) ==> (0 <= n <= i64::MAX ==> milliseconds(
            Number::Float(bits),
        ) == Milliseconds::Whole(n as u64)) && (n < 0 ==> milliseconds(
            Number::Float(bits),
        ) is OutOfRange),
{
}

/// A call keeps its id, its name and all its other arguments when it is taken; only a shell's time to
/// block is written as an integer.
pub proof fn law_calls_are_taken_as_they_are(
    call: ToolCallView,
    dynamic: bool,
    context: ExecContext,
    key: Seq<char>,
)
    requires
        dispatch_of(call, dynamic, context) is Ok,
        key != "block_until_ms"@,
    ensures
        ({
            let taken = dispatch_of(call, dynamic, context)->Ok_0.1;
            &&& taken.call_id == call.call_id
            &&& taken.name == call.name
            &&& taken.arguments.at(key) == call.arguments.at(key)
            &&& !names_shell(call.name) ==> taken == call
        }),
{
    match call.arguments {
        JsonView::Object(members) => {
            if !dynamic && !authorizes_mcp(call) && !context.disables(call) && integral_block(
                call,
            )->Ok_0 is Some {
                let n = json::member(members, "block_until_ms"@)->0->Number_0;
                let ms = milliseconds(n)->Whole_0;
                json::law_set_then_get(
                    members,
                    "block_until_ms"@,
                    JsonView::Number(Number::PosInt(ms)),
                    key,
                );
            }
        },
        _ => {},
    }
}

/// A tool that is defined for the run is taken as such, before anything else is looked at; then come
/// the authorization of a server and tasks that may not run.
pub proof fn law_takers_come_in_order(call: ToolCallView, context: ExecContext)
    ensures
        dispatch_of(call, true, context) == Ok::<(Route, ToolCallView), ErrorView>(
            (Route::DynamicMcp, call),
        ),
        authorizes_mcp(call) ==> dispatch_of(call, false, context) == Ok::<
            (Route, ToolCallView),
            ErrorView,
        >((Route::Interaction, call)),
        !authorizes_mcp(call) && context.disables(call) ==> dispatch_of(call, false, context)
            == Ok::<(Route, ToolCallView), ErrorView>((Route::SubagentsDisabled, call)),
        !authorizes_mcp(call) && !context.disables(call) && dispatch_of(call, false, context) is Ok
            ==> dispatch_of(call, false, context)->Ok_0.0 == route_for(
            text::plain_name(call.name),
        ),
{
}

/// Calls none of which was completed and none of which is an edit are all started, in their order, each
/// shown as the step after that of the call before it, and announced where it was not yet.
pub proof fn law_each_call_is_started_once(
    lanes: Seq<EditLaneView>,
    calls: Seq<ToolCallView>,
    paths: Seq<Option<Seq<char>>>,
    completed: Seq<Seq<char>>,
    started: Seq<Seq<char>>,
    first: int,
)
    requires
        paths.len() >= calls.len(),
        forall|i: int| 0 <= i < calls.len() ==> (#[trigger] paths[i]) is None,
        forall|i: int|
            0 <= i < calls.len() ==> !completed.contains((#[trigger] calls[i]).call_id),
    ensures
        ({
            let (begun, after) = batch_plan(lanes, calls, paths, completed, started, first);
            &&& after == lanes
            &&& begun.len() == calls.len()
            &&& forall|i: int|
                0 <= i < calls.len() ==> {
                    &&& (#[trigger] begun[i]).call == calls[i]
                    &&& begun[i].message_index == first + i
                    &&& begun[i].publish_started <==> !started.contains(calls[i].call_id)
                }
        }),
    decreases calls.len(),
{
    if calls.len() > 0 {
        let rest = calls.drop_last();
        assert forall|i: int| 0 <= i < rest.len() implies !completed.contains(
            (#[trigger] rest[i]).call_id,
        ) by {
            assert(rest[i] == calls[i]);
        }
        law_each_call_is_started_once(lanes, rest, paths, completed, started, first);
        assert(paths[calls.len() - 1] is None);
        assert(!completed.contains(calls[calls.len() - 1].call_id));
        let (before, _) = batch_plan(lanes, rest, paths, completed, started, first);
        let (begun, _) = batch_plan(lanes, calls, paths, completed, started, first);
        assert forall|i: int| 0 <= i < calls.len() implies {
            &&& (#[trigger] begun[i]).call == calls[i]
            &&& begun[i].message_index == first + i
            &&& begun[i].publish_started <==> !started.contains(calls[i].call_id)
        } by {
            if i < rest.len() {
                assert(begun[i] == before[i]);
                assert(rest[i] == calls[i]);
            }
        }
    }
}

/// The steps of the messages since the last one of the user are counted, one for what was thought, one
/// for what was said and one for each call; a message of the user begins anew.
pub proof fn law_steps_of_a_turn_are_counted(
    messages: Seq<CanonicalMessageView>,
    message: CanonicalMessageView,
)
    ensures
        message.role is User ==> turn_steps(messages.push(message)) == 0,
        !(message.role is User) && !(message.content is Assistant) ==> turn_steps(
            messages.push(message),
        ) == turn_steps(messages),
        !(message.role is User) && message.content is Assistant ==> turn_steps(
            messages.push(message),
        ) == turn_steps(messages) + message.content->tool_calls.len() + (if
        message.content->Assistant_text.len() > 0 {
            1int
        } else {
            0
        }) + (if message.content->Assistant_thinking.len() > 0 {
            1int
        } else {
            0
        }),
{
    assert(messages.push(message).drop_last() =~= messages);
}

/// The first call of a batch is shown behind all that the turn has shown, counted from one.
pub proof fn law_first_call_follows_the_answer(
    messages: Seq<CanonicalMessageView>,
    said: Seq<char>,
    thought: Seq<char>,
)
    ensures
        said.len() == 0 && thought.len() == 0 ==> first_tool_index(messages, said, thought)
            == turn_steps(messages) + 1,
        said.len() > 0 && thought.len() == 0 ==> first_tool_index(messages, said, thought)
            == turn_steps(messages) + 2,
        said.len() == 0 && thought.len() > 0 ==> first_tool_index(messages, said, thought)
            == turn_steps(messages) + 2,
        said.len() > 0 && thought.len() > 0 ==> first_tool_index(messages, said, thought)
            == turn_steps(messages) + 3,
{
}

/// A tool is looked for on the server of the call first, then on the server under its other name, then
/// on any; it is found wherever there is one of its name.
pub proof fn law_routes_are_tried_in_order(
    routes: Seq<McpRouteEntry>,
    server: Seq<char>,
    tool: Seq<char>,
    at: int,
)
    requires
        0 <= at < routes.len(),
        routes[at].tool@ == tool,
    ensures
        ({
            let found = resolved_route(routes, server, tool);
            &&& found is Some
            &&& 0 <= found->0 < routes.len()
            &&& routes[found->0].tool@ == tool
            &&& routes[at].server@ == server ==> routes[found->0].server@ == server && found->0
                <= at
            &&& routes[at].server@ == other_server_name(server) ==> routes[found->0].server@
                == server || routes[found->0].server@ == other_server_name(server)
        }),
{
    lemma_first_route(routes, Some(server), tool);
    lemma_first_route(routes, Some(other_server_name(server)), tool);
    lemma_first_route(routes, None, tool);
}

proof fn lemma_first_route(
    routes: Seq<McpRouteEntry>,
    server: Option<Seq<char>>,
    tool: Seq<char>,
)
    ensures
        0 <= route_position(routes, server, tool) <= routes.len(),
        route_position(routes, server, tool) < routes.len() ==> routes[route_position(
            routes,
            server,
            tool,
        )].tool@ == tool && (server matches Some(s) ==> routes[route_position(
            routes,
            server,
            tool,
        )].server@ == s),
        forall|i: int|
            0 <= i < route_position(routes, server, tool) ==> !((#[trigger] routes[i]).tool@ == tool
                && (server matches Some(s) ==> routes[i].server@ == s)),
    decreases routes.len(),
{
    if routes.len() > 0 && !((server matches Some(s) ==> routes[0].server@ == s)
        && routes[0].tool@ == tool) {
        let rest = routes.drop_first();
        lemma_first_route(rest, server, tool);
        assert forall|i: int| 0 <= i < route_position(routes, server, tool) implies !((
        #[trigger] routes[i]).tool@ == tool && (server matches Some(s) ==> routes[i].server@ == s)) by {
            if i > 0 {
                assert(routes[i] == rest[i - 1]);
            }
        }
    }
}

/// The other name of a server adds the mark of the user's own servers, or takes it off.
pub proof fn law_other_name_and_back(server: Seq<char>)
    ensures
        other_server_name("user-"@ + server) == server,
        !text::starts(server, "user-"@) ==> other_server_name(server) == "user-"@ + server,
{
    assert(("user-"@ + server).subrange(0, "user-"@.len() as int) =~= "user-"@);
    assert(("user-"@ + server).skip("user-"@.len() as int) =~= server);
}

} // verus!
