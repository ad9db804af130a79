//! What a tool call is executed in, and how it is prepared for that.
use crate::collections::NameMap;
use crate::data;
use crate::data::Duplicate;
use crate::error::{Error, ErrorView};
use crate::json;
use crate::json::{Json, JsonView, Number};
use crate::model::tool::{ToolCall, ToolCallView};
use crate::text;
use vstd::prelude::*;

verus! {

/// How long a shell call blocks where it does not say.
pub const DEFAULT_SHELL_BLOCK_UNTIL_MS: u64 = 30_000;

/// Longest time that a shell call may block.
pub const MAX_SHELL_BLOCK_UNTIL_MS: u64 = 60_000;

/// Which model subagents run on.
#[derive(Debug)]
pub enum SubagentModel {
    Model(String),
    Disabled,
}

/// A kind of subagent that the user defined.
#[derive(Debug)]
pub struct CustomSubagent {
    pub name: String,
    pub model: String,
    pub force_default_model: bool,
}

/// Where a tool of an MCP server is found.
#[derive(Debug)]
pub struct McpRoute {
    pub name: String,
    pub provider_identifier: String,
    pub server_identifier: String,
    pub tool_name: String,
    pub description: String,
}

/// A tool of an MCP server under the names that a call uses.
#[derive(Debug)]
pub struct McpRouteEntry {
    pub server: String,
    pub tool: String,
    pub route: McpRoute,
}

/// What a tool call is executed in.
#[derive(Debug)]
pub struct ExecContext {
    pub workspace_paths: Vec<String>,
    pub conversation_id: String,
    pub root_conversation_id: String,
    pub default_subagent_model: String,
    pub subagent_model: Option<SubagentModel>,
    pub subagent_models: NameMap<SubagentModel>,
    pub custom_subagents: Vec<CustomSubagent>,
    pub allow_subagents: bool,
    pub subagents_disabled: bool,
    pub terminals_folder: String,
    pub admin_command_denylist: Vec<String>,
    pub mcp_routes: Vec<McpRouteEntry>,
}

impl Default for ExecContext {
    fn default() -> (r: Self)
        ensures
            r.workspace_paths@.len() == 0,
            r.conversation_id@.len() == 0,
            r.root_conversation_id@.len() == 0,
            r.default_subagent_model@.len() == 0,
            r.subagent_model is None,
            forall|name: Seq<char>| r.subagent_models.at(name) is None,
            r.custom_subagents@.len() == 0,
            !r.allow_subagents,
            !r.subagents_disabled,
            r.terminals_folder@.len() == 0,
            r.admin_command_denylist@.len() == 0,
            r.mcp_routes@.len() == 0,
    {
        ExecContext {
            workspace_paths: Vec::new(),
            conversation_id: String::new(),
            root_conversation_id: String::new(),
            default_subagent_model: String::new(),
            subagent_model: None,
            subagent_models: NameMap::new(),
            custom_subagents: Vec::new(),
            allow_subagents: false,
            subagents_disabled: false,
            terminals_folder: String::new(),
            admin_command_denylist: Vec::new(),
            mcp_routes: Vec::new(),
        }
    }
}

/// Whether a call is of this tool, whatever the case of its name.
pub open spec fn calls(call: ToolCallView, tool: Seq<char>) -> bool {
    text::same_ignoring_case(call.name, tool)
}

/// The kind of subagent that a task asks for.
pub open spec fn subagent_type(arguments: JsonView) -> Seq<char> {
    match arguments.text_at("subagent_type"@) {
        Some(kind) => kind,
        None => "generalPurpose"@,
    }
}

/// The first custom subagent of this name.
pub open spec fn custom_subagent(
    subagents: Seq<CustomSubagent>,
    name: Seq<char>,
) -> Option<CustomSubagent>
    decreases subagents.len(),
{
    if subagents.len() == 0 {
        None
    } else if subagents[0].name@ == name {
        Some(subagents[0])
    } else {
        custom_subagent(subagents.drop_first(), name)
    }
}

/// Whether a custom subagent names a model of its own.
pub open spec fn names_model(model: Seq<char>) -> bool {
    !text::blank(model) && model != "inherit"@
}

/// The arguments with the time that a shell call blocks brought below its limit.
pub open spec fn clamped_arguments(tool: Seq<char>, arguments: JsonView) -> Result<
    JsonView,
    ErrorView,
> {
    match arguments {
        JsonView::Object(members) => match json::member(members, "block_until_ms"@) {
            None => Ok(arguments),
            Some(value) => match value.unsigned() {
                None => Err(
                    ErrorView::Protocol(
                        tool + " block_until_ms must be a non-negative integer"@,
                    ),
                ),
                Some(ms) => if ms > MAX_SHELL_BLOCK_UNTIL_MS {
                    Ok(
                        JsonView::Object(
                            json::with_member(
                                members,
                                "block_until_ms"@,
                                JsonView::Number(Number::PosInt(MAX_SHELL_BLOCK_UNTIL_MS)),
                            ),
                        ),
                    )
                } else {
                    Ok(arguments)
                },
            },
        },
        _ => Err(ErrorView::Protocol(tool + " arguments must be a JSON object"@)),
    }
}

impl ExecContext {
    /// Whether a call is of a task that may not run.
    pub open spec fn disables(self, call: ToolCallView) -> bool {
        calls(call, "Task"@) && (self.subagents_disabled || (self.subagent_model matches Some(
            SubagentModel::Disabled,
        )) || (self.subagent_models.at(subagent_type(call.arguments)) matches Some(
            SubagentModel::Disabled,
        )))
    }

    /// The model of the custom subagent of this kind, where it has one of its own.
    pub open spec fn custom_model(self, kind: Seq<char>) -> Option<Seq<char>> {
        match custom_subagent(self.custom_subagents@, kind) {
            Some(agent) => if !agent.force_default_model && names_model(agent.model@) {
                Some(agent.model@)
            } else {
                None
            },
            None => None,
        }
    }

    /// The model that a task runs on: in this order, what is set for its kind, what is set for
    /// exploring, what its custom subagent names, what is set for all subagents, what the call
    /// names, and the model of the parent.
    pub open spec fn task_model(self, arguments: JsonView) -> Seq<char> {
        let kind = subagent_type(arguments);
        match self.subagent_models.at(kind) {
            Some(SubagentModel::Model(model)) => model@,
            _ => match self.subagent_models.at("explore"@) {
                Some(SubagentModel::Model(model)) => model@,
                _ => match self.custom_model(kind) {
                    Some(model) => model,
                    None => match self.subagent_model {
                        Some(SubagentModel::Model(model)) => model@,
                        _ => match arguments.text_at("model"@) {
                            Some(model) if model != "inherit"@ => model,
                            _ => self.default_subagent_model@,
                        },
                    },
                },
            },
        }
    }

    /// A task with the model that it runs on.
    pub open spec fn prepared_task(self, call: ToolCallView) -> Result<ToolCallView, ErrorView> {
        match call.arguments {
            JsonView::Object(members) => if self.disables(call) {
                Ok(call)
            } else {
                let model = self.task_model(call.arguments);
                if model.len() == 0 {
                    Err(
                        ErrorView::Protocol(
                            "Task subagent type "@ + subagent_type(call.arguments)
                                + " has no model"@,
                        ),
                    )
                } else {
                    Ok(
                        ToolCallView {
                            arguments: JsonView::Object(
                                json::with_member(members, "model"@, JsonView::String(model)),
                            ),
                            ..call
                        },
                    )
                }
            },
            _ => Err(ErrorView::Protocol("Task arguments must be a JSON object"@)),
        }
    }

    /// A call as it is executed.
    pub open spec fn prepared(self, call: ToolCallView) -> Result<ToolCallView, ErrorView> {
        let clamped = if calls(call, "Shell"@) || calls(call, "AwaitShell"@) {
            match clamped_arguments(call.name, call.arguments) {
                Ok(arguments) => Ok(ToolCallView { arguments, ..call }),
                Err(error) => Err(error),
            }
        } else {
            Ok(call)
        };
        match clamped {
            Err(error) => Err(error),
            Ok(call) => if calls(call, "Task"@) {
                self.prepared_task(call)
            } else {
                Ok(call)
            },
        }
    }
}

fn kind_of_subagent(arguments: &Json) -> (r: String)
    ensures
        r@ == subagent_type(arguments@),
{
    match arguments.get_str("subagent_type") {
        Some(kind) => kind.to_owned(),
        None => "generalPurpose".to_owned(),
    }
}

fn valid_custom_model(value: &str) -> (r: bool)
    ensures
        r == names_model(value@),
{
    !text::is_blank(value) && !text::same(value, "inherit")
}

fn normalize_shell_block_until_ms(call: &mut ToolCall) -> (r: Result<(), Error>)
    ensures
        match r {
            Ok(_) => clamped_arguments(old(call)@.name, old(call)@.arguments) == Ok::<
                JsonView,
                ErrorView,
            >(final(call)@.arguments) && final(call)@ == (ToolCallView {
                arguments: final(call)@.arguments,
                ..old(call)@
            }),
            Err(error) => clamped_arguments(old(call)@.name, old(call)@.arguments) == Err::<
                JsonView,
                ErrorView,
            >(error@),
        },
{
    broadcast use json::lemma_view;

    match &call.arguments {
        Json::Object(_) => {},
        _ => {
            return Err(
                Error::Protocol(
                    text::concat(call.name.as_str(), " arguments must be a JSON object"),
                ),
            );
        },
    }
    let ms: u64 = match call.arguments.get("block_until_ms") {
        None => {
            return Ok(());
        },
        Some(value) => match value.as_u64() {
            None => {
                return Err(
                    Error::Protocol(
                        text::concat(
                            call.name.as_str(),
                            " block_until_ms must be a non-negative integer",
                        ),
                    ),
                );
            },
            Some(ms) => ms,
        },
    };
    if ms > MAX_SHELL_BLOCK_UNTIL_MS {
        call.arguments.set(
            "block_until_ms",
            Json::Number(Number::PosInt(MAX_SHELL_BLOCK_UNTIL_MS)),
        );
    }
    Ok(())
}

impl ExecContext {
    fn find_custom(&self, name: &str) -> (r: Option<&CustomSubagent>)
        ensures
            match r {
                Some(agent) => custom_subagent(self.custom_subagents@, name@) == Some(*agent),
                None => custom_subagent(self.custom_subagents@, name@) is None,
            },
    {
        let ghost all = self.custom_subagents@;
        let mut i: usize = 0;
        assert(all.skip(0) =~= all);
        while i < self.custom_subagents.len()
            invariant
                i <= self.custom_subagents@.len(),
                all == self.custom_subagents@,
                custom_subagent(all, name@) == custom_subagent(all.skip(i as int), name@),
            decreases self.custom_subagents@.len() - i,
        {
            assert(all.skip(i as int)[0] == all[i as int]);
            assert(all.skip(i as int).drop_first() =~= all.skip(i + 1));
            if text::same(self.custom_subagents[i].name.as_str(), name) {
                return Some(&self.custom_subagents[i]);
            }
            i += 1;
        }
        None
    }

    /// Whether a call is of a task that may not run.
    pub fn task_disabled(&self, call: &ToolCall) -> (r: bool)
        ensures
            r == self.disables(call@),
    {
        if !text::eq_ignore_case(call.name.as_str(), "Task") {
            return false;
        }
        if self.subagents_disabled {
            return true;
        }
        if let Some(SubagentModel::Disabled) = &self.subagent_model {
            return true;
        }
        let kind = kind_of_subagent(&call.arguments);
        match self.subagent_models.get(kind.as_str()) {
            Some(SubagentModel::Disabled) => true,
            _ => false,
        }
    }

    fn choose_model(&self, arguments: &Json) -> (r: String)
        ensures
            r@ == self.task_model(arguments@),
    {
        let kind = kind_of_subagent(arguments);
        if let Some(SubagentModel::Model(model)) = self.subagent_models.get(kind.as_str()) {
            return model.clone();
        }
        if let Some(SubagentModel::Model(model)) = self.subagent_models.get("explore") {
            return model.clone();
        }
        if let Some(agent) = self.find_custom(kind.as_str()) {
            if !agent.force_default_model && valid_custom_model(agent.model.as_str()) {
                return agent.model.clone();
            }
        }
        if let Some(SubagentModel::Model(model)) = &self.subagent_model {
            return model.clone();
        }
        match arguments.get_str("model") {
            Some(model) => if text::same(model, "inherit") {
                self.default_subagent_model.clone()
            } else {
                model.to_owned()
            },
            None => self.default_subagent_model.clone(),
        }
    }

    /// A call as it is executed: the time that a shell call blocks is brought below its limit, and a
    /// task gets the model that it runs on.
    pub fn prepare_call(&self, call: &ToolCall) -> (r: Result<ToolCall, Error>)
        ensures
            crate::error::result_view(r) == self.prepared(call@),
    {
        broadcast use json::lemma_view;

        let mut prepared = call.duplicate();
        if text::eq_ignore_case(prepared.name.as_str(), "Shell") || text::eq_ignore_case(
            prepared.name.as_str(),
            "AwaitShell",
        ) {
            if let Err(error) = normalize_shell_block_until_ms(&mut prepared) {
                return Err(error);
            }
        }
        if !text::eq_ignore_case(prepared.name.as_str(), "Task") {
            return Ok(prepared);
        }
        match &prepared.arguments {
            Json::Object(_) => {},
            _ => {
                return Err(Error::Protocol("Task arguments must be a JSON object".to_owned()));
            },
        }
        if self.task_disabled(&prepared) {
            return Ok(prepared);
        }
        let model = self.choose_model(&prepared.arguments);
        if model.as_str().is_empty() {
            let kind = kind_of_subagent(&prepared.arguments);
            return Err(
                Error::Protocol(
                    text::concat3("Task subagent type ", kind.as_str(), " has no model"),
                ),
            );
        }
        prepared.arguments.set("model", Json::String(model));
        Ok(prepared)
    }
}

/// No call asks for a task and for a shell.
pub proof fn lemma_tasks_are_no_shells(call: ToolCallView)
    ensures
        calls(call, "Task"@) ==> !calls(call, "Shell"@) && !calls(call, "AwaitShell"@),
{
    reveal_strlit("Task");
    reveal_strlit("Shell");
    reveal_strlit("AwaitShell");
    assert(text::lowercase("Task"@).len() == 4);
    assert(text::lowercase("Shell"@).len() == 5);
    assert(text::lowercase("AwaitShell"@).len() == 10);
}

/// Preparing a prepared call again changes nothing.
pub proof fn law_prepared_calls_stay_prepared(context: ExecContext, call: ToolCallView)
    requires
        context.prepared(call) is Ok,
    ensures
        context.prepared(context.prepared(call)->Ok_0) == context.prepared(call),
{
    lemma_tasks_are_no_shells(call);
    if let JsonView::Object(members) = call.arguments {
        json::law_set_then_get(
            members,
            "block_until_ms"@,
            JsonView::Number(Number::PosInt(MAX_SHELL_BLOCK_UNTIL_MS)),
            "block_until_ms"@,
        );
        let model = JsonView::String(context.task_model(call.arguments));
        assert("model"@ != "subagent_type"@) by {
            reveal_strlit("model");
            reveal_strlit("subagent_type");
            assert("model"@.len() == 5 && "subagent_type"@.len() == 13);
        }
        json::law_set_then_get(members, "model"@, model, "subagent_type"@);
        json::law_set_twice(members, "model"@, model);
    }
}

/// A prepared shell call never blocks longer than the limit.
pub proof fn law_shell_calls_never_block_too_long(context: ExecContext, call: ToolCallView)
    requires
        calls(call, "Shell"@) || calls(call, "AwaitShell"@),
        context.prepared(call) is Ok,
    ensures
        match context.prepared(call)->Ok_0.arguments.at("block_until_ms"@) {
            Some(value) => value.unsigned() matches Some(ms) && ms <= MAX_SHELL_BLOCK_UNTIL_MS,
            None => true,
        },
{
    lemma_tasks_are_no_shells(call);
    if let JsonView::Object(members) = call.arguments {
        json::law_set_then_get(
            members,
            "block_until_ms"@,
            JsonView::Number(Number::PosInt(MAX_SHELL_BLOCK_UNTIL_MS)),
            "block_until_ms"@,
        );
    }
}

/// A task that may run gets a model, and keeps every other argument.
pub proof fn law_prepared_tasks_have_a_model(
    context: ExecContext,
    call: ToolCallView,
    key: Seq<char>,
)
    requires
        calls(call, "Task"@),
        !context.disables(call),
        context.prepared(call) is Ok,
    ensures
        context.prepared(call)->Ok_0.arguments.text_at("model"@) == Some(
            context.task_model(call.arguments),
        ),
        context.task_model(call.arguments).len() > 0,
        key != "model"@ ==> context.prepared(call)->Ok_0.arguments.at(key) == call.arguments.at(
            key,
        ),
{
    lemma_tasks_are_no_shells(call);
    if let JsonView::Object(members) = call.arguments {
        json::law_set_then_get(
            members,
            "model"@,
            JsonView::String(context.task_model(call.arguments)),
            key,
        );
    }
}

/// A time to block beyond a minute becomes a minute; a shorter one stays, and so does every other
/// argument.
pub proof fn law_long_blocks_become_a_minute(
    tool: Seq<char>,
    arguments: JsonView,
    ms: u64,
    key: Seq<char>,
)
    requires
        arguments is Object,
        arguments.at("block_until_ms"@) matches Some(value) && value.unsigned() == Some(ms),
        key != "block_until_ms"@,
    ensures
        ({
            let kept = clamped_arguments(tool, arguments)->Ok_0;
            &&& clamped_arguments(tool, arguments) is Ok
            &&& ms <= 60_000 ==> kept == arguments
            &&& ms > 60_000 ==> kept.at("block_until_ms"@) == Some(
                JsonView::Number(Number::PosInt(60_000)),
            )
            &&& kept.at(key) == arguments.at(key)
        }),
{
    match arguments {
        JsonView::Object(members) => {
            json::law_set_then_get(
                members,
                "block_until_ms"@,
                JsonView::Number(Number::PosInt(60_000)),
                key,
            );
        },
        _ => {},
    }
}

/// The model that is set for the kind of a task counts before all others.
pub proof fn law_model_of_the_kind_counts_first(
    context: ExecContext,
    arguments: JsonView,
    model: String,
)
    ensures
        context.subagent_models.at(subagent_type(arguments)) == Some(SubagentModel::Model(model))
            ==> context.task_model(arguments) == model@,
{
}

/// Where nothing is set for a kind, for exploring or for all subagents, and the user defined no subagent
/// of that kind, a task runs on the model that it names, and on that of the parent where it names none
/// or asks for that.
pub proof fn law_tasks_inherit_their_model(context: ExecContext, arguments: JsonView)
    requires
        context.subagent_models.at(subagent_type(arguments)) is None,
        context.subagent_models.at("explore"@) is None,
        context.subagent_model is None,
        context.custom_subagents@.len() == 0,
    ensures
        arguments.text_at("model"@) is None ==> context.task_model(arguments)
            == context.default_subagent_model@,
        arguments.text_at("model"@) == Some("inherit"@) ==> context.task_model(arguments)
            == context.default_subagent_model@,
        arguments.text_at("model"@) matches Some(model) ==> (model != "inherit"@
            ==> context.task_model(arguments) == model),
{
}

/// Where nothing is set for a kind or for exploring, a subagent that the user defined runs on the model
/// that it names, unless it is to run on the default one; what is set for all subagents comes after it.
pub proof fn law_custom_subagents_name_their_model(
    context: ExecContext,
    arguments: JsonView,
    at: int,
)
    requires
        context.subagent_models.at(subagent_type(arguments)) is None,
        context.subagent_models.at("explore"@) is None,
        0 <= at < context.custom_subagents@.len(),
        context.custom_subagents@[at].name@ == subagent_type(arguments),
        forall|i: int|
            0 <= i < at ==> (#[trigger] context.custom_subagents@[i]).name@ != subagent_type(
                arguments,
            ),
    ensures
        ({
            let agent = context.custom_subagents@[at];
            let own = !agent.force_default_model && !text::blank(agent.model@) && agent.model@
                != "inherit"@;
            &&& own ==> context.task_model(arguments) == agent.model@
            &&& !own ==> (context.subagent_model matches Some(SubagentModel::Model(model))
                ==> context.task_model(arguments) == model@)
        }),
{
    lemma_first_custom(context.custom_subagents@, subagent_type(arguments), at);
}

proof fn lemma_first_custom(subagents: Seq<CustomSubagent>, name: Seq<char>, at: int)
    requires
        0 <= at < subagents.len(),
        subagents[at].name@ == name,
        forall|i: int| 0 <= i < at ==> (#[trigger] subagents[i]).name@ != name,
    ensures
        custom_subagent(subagents, name) == Some(subagents[at]),
    decreases at,
{
    if at > 0 {
        assert(subagents[0].name@ != name);
        let rest = subagents.drop_first();
        assert forall|i: int| 0 <= i < at - 1 implies (#[trigger] rest[i]).name@ != name by {
            assert(rest[i] == subagents[i + 1]);
        }
        lemma_first_custom(rest, name, at - 1);
    }
}

/// Tasks, and nothing else, may be switched off: all of them, or those of a kind.
pub proof fn law_only_tasks_are_switched_off(context: ExecContext, call: ToolCallView)
    ensures
        !text::same_ignoring_case(call.name, "Task"@) ==> !context.disables(call),
        text::same_ignoring_case(call.name, "Task"@) && context.subagents_disabled
            ==> context.disables(call),
        text::same_ignoring_case(call.name, "Task"@) && context.subagent_models.at(
            subagent_type(call.arguments),
        ) == Some(SubagentModel::Disabled) ==> context.disables(call),
        !context.subagents_disabled && context.subagent_model is None && context.subagent_models.at(
            subagent_type(call.arguments),
        ) is None ==> !context.disables(call),
{
}

/// Calls of other tools are executed as they are.
pub proof fn law_other_calls_stay(context: ExecContext, call: ToolCallView)
    requires
        !calls(call, "Shell"@),
        !calls(call, "AwaitShell"@),
        !calls(call, "Task"@),
    ensures
        context.prepared(call) == Ok::<ToolCallView, ErrorView>(call),
{
}

} // verus!
