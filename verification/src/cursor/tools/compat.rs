//! Answers to calls of tools that do not exist (any more).
use crate::data;
use crate::data::Duplicate;
use crate::json::{Json, JsonView};
use crate::model::tool::ToolCall;
use crate::text;
use vstd::prelude::*;

verus! {

/// The provider that such calls are shown under. They never reach an MCP server.
pub open spec fn compat_provider() -> Seq<char> {
    "cursor-byok-compat"@
}

/// The result of a call as the model sees it.
#[derive(Debug)]
pub struct ToolResult {
    pub call_id: String,
    pub content: String,
    pub is_error: bool,
}

/// How a call of an MCP tool is shown.
#[derive(Debug)]
pub struct McpCard {
    pub name: String,
    pub tool_call_id: String,
    pub provider_identifier: String,
    pub tool_name: String,
    pub server_identifier: String,
    pub arguments: Option<Json>,
    pub error: Option<String>,
    pub description: String,
}

#[verifier::ext_equal]
pub struct McpCardView {
    pub name: Seq<char>,
    pub tool_call_id: Seq<char>,
    pub provider_identifier: Seq<char>,
    pub tool_name: Seq<char>,
    pub server_identifier: Seq<char>,
    pub arguments: Option<JsonView>,
    pub error: Option<Seq<char>>,
    pub description: Seq<char>,
}

impl View for McpCard {
    type V = McpCardView;

    open spec fn view(&self) -> McpCardView {
        McpCardView {
            name: self.name@,
            tool_call_id: self.tool_call_id@,
            provider_identifier: self.provider_identifier@,
            tool_name: self.tool_name@,
            server_identifier: self.server_identifier@,
            arguments: data::option_view(self.arguments),
            error: data::option_view(self.error),
            description: self.description@,
        }
    }
}

/// The card of a tool that is not available.
pub open spec fn placeholder_card(name: Seq<char>, call_id: Seq<char>) -> McpCardView {
    McpCardView {
        name,
        tool_call_id: call_id,
        provider_identifier: compat_provider(),
        tool_name: name,
        server_identifier: compat_provider(),
        arguments: None,
        error: None,
        description: "Unavailable legacy or unsupported tool"@,
    }
}

/// The card of a tool that is not available.
pub fn placeholder(name: &str, call_id: &str) -> (r: McpCard)
    ensures
        r@ == placeholder_card(name@, call_id@),
{
    McpCard {
        name: name.to_owned(),
        tool_call_id: call_id.to_owned(),
        provider_identifier: "cursor-byok-compat".to_owned(),
        tool_name: name.to_owned(),
        server_identifier: "cursor-byok-compat".to_owned(),
        arguments: None,
        error: None,
        description: "Unavailable legacy or unsupported tool".to_owned(),
    }
}

/// The arguments of a call that are shown: those that form an object.
pub open spec fn shown_arguments(arguments: JsonView) -> Option<JsonView> {
    match arguments {
        JsonView::Object(_) => Some(arguments),
        _ => None,
    }
}

/// The card of a call of a tool that is not available.
pub fn render(call: &ToolCall) -> (r: McpCard)
    ensures
        r@ == (McpCardView {
            arguments: shown_arguments(call@.arguments),
            ..placeholder_card(call@.name, call@.call_id)
        }),
{
    broadcast use crate::json::lemma_view;

    let mut card = placeholder(call.name.as_str(), call.call_id.as_str());
    card.arguments = match &call.arguments {
        Json::Object(_) => Some(call.arguments.duplicate()),
        _ => None,
    };
    card
}

/// What the model is told of a tool that is not available.
pub open spec fn unavailable_message(name: Seq<char>) -> Seq<char> {
    if text::plain_name(name) == "awaitshell"@ {
        "Tool \"AwaitShell\" belongs to an older version and is no longer available in this Cursor BYOK version. The model emitted a tool name that is not part of the current advertised tool set. Treat the tool call as failed and continue using only tools advertised in the current prompt; for background shell work, use the current Shell/background completion flow."@
    } else {
        "Tool \""@ + name
            + "\" is not available in this Cursor BYOK version. The model emitted a tool name that is not part of the current advertised tool set. Treat the tool call as failed and continue using a tool advertised in the current prompt."@
    }
}

fn failure_message(name: &str) -> (r: String)
    ensures
        r@ == unavailable_message(name@),
{
    let plain = text::normalized(name);
    if text::same(plain.as_str(), "awaitshell") {
        return "Tool \"AwaitShell\" belongs to an older version and is no longer available in this Cursor BYOK version. The model emitted a tool name that is not part of the current advertised tool set. Treat the tool call as failed and continue using only tools advertised in the current prompt; for background shell work, use the current Shell/background completion flow.".to_owned();
    }
    text::concat3(
        "Tool \"",
        name,
        "\" is not available in this Cursor BYOK version. The model emitted a tool name that is not part of the current advertised tool set. Treat the tool call as failed and continue using a tool advertised in the current prompt.",
    )
}

/// A call that failed because its tool is not available.
#[derive(Debug)]
pub struct CompatFailure {
    pub result: ToolResult,
    pub card: McpCard,
}

/// The answer to a call of a tool that is not available: an error that the model sees, and a card.
pub fn failure(call: &ToolCall) -> (r: CompatFailure)
    ensures
        r.result.call_id@ == call@.call_id,
        r.result.content@ == unavailable_message(call@.name),
        r.result.is_error,
        r.card@ == (McpCardView {
            arguments: shown_arguments(call@.arguments),
            error: Some(unavailable_message(call@.name)),
            ..placeholder_card(call@.name, call@.call_id)
        }),
{
    let error = failure_message(call.name.as_str());
    let mut card = render(call);
    card.error = Some(error.clone());
    CompatFailure {
        result: ToolResult { call_id: call.call_id.clone(), content: error, is_error: true },
        card,
    }
}

/// The card of a tool that is not available names the tool and the call, and stands under the provider
/// that no server has.
pub proof fn law_card_names_the_missing_tool(name: Seq<char>, call_id: Seq<char>)
    ensures
        ({
            let card = placeholder_card(name, call_id);
            &&& card.name == name
            &&& card.tool_name == name
            &&& card.tool_call_id == call_id
            &&& card.provider_identifier == "cursor-byok-compat"@
            &&& card.server_identifier == "cursor-byok-compat"@
            &&& card.arguments is None
            &&& card.error is None
        }),
{
}

/// The model is told the name of a tool that is not available, and the arguments that are shown are those
/// of the call where they form an object.
pub proof fn law_missing_tool_is_named(name: Seq<char>, arguments: JsonView)
    ensures
        text::plain_name(name) != "awaitshell"@ ==> text::starts(
            unavailable_message(name),
            "Tool \""@ + name,
        ),
        arguments is Object ==> shown_arguments(arguments) == Some(arguments),
        !(arguments is Object) ==> shown_arguments(arguments) is None,
{
    let told = unavailable_message(name);
    let start = "Tool \""@ + name;
    if text::plain_name(name) != "awaitshell"@ {
        assert(told.subrange(0, start.len() as int) =~= start);
    }
}

} // verus!
