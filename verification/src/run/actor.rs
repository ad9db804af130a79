//! What a subagent's end means for its parent.
use crate::data;
use crate::json;
use crate::json::{Json, JsonView};
use crate::model::message::{
    CanonicalMessage, CanonicalMessageView, MessageContent, MessageContentView, Role,
    ToolCallContent, ToolCallContentView,
};
use crate::model::run::{
    PreparedRun, PreparedRunView, RunKind, RunKindView, SubagentKind, SubagentKindView,
};
use crate::run::event::{RunOutcome, RunOutcomeView};
use crate::text;
use vstd::prelude::*;

verus! {

/// How a background task ended.
#[derive(Clone, Copy, Debug, PartialEq, Eq, Structural)]
pub enum BackgroundTaskStatus {
    Success,
    Aborted,
    Error,
}

/// The notice that a subagent has ended.
#[derive(Debug)]
pub struct SubagentCompletion {
    pub subagent_id: String,
    pub status: BackgroundTaskStatus,
    pub title: String,
    pub detail: Option<String>,
    pub tool_call_id: String,
}

#[verifier::ext_equal]
pub struct SubagentCompletionView {
    pub subagent_id: Seq<char>,
    pub status: BackgroundTaskStatus,
    pub title: Seq<char>,
    pub detail: Option<Seq<char>>,
    pub tool_call_id: Seq<char>,
}

impl View for SubagentCompletion {
    type V = SubagentCompletionView;

    open spec fn view(&self) -> SubagentCompletionView {
        SubagentCompletionView {
            subagent_id: self.subagent_id@,
            status: self.status,
            title: self.title@,
            detail: data::option_view(self.detail),
            tool_call_id: self.tool_call_id@,
        }
    }
}

/// The status for an outcome.
pub open spec fn status_of(outcome: RunOutcomeView) -> BackgroundTaskStatus {
    match outcome {
        RunOutcomeView::Completed => BackgroundTaskStatus::Success,
        RunOutcomeView::Cancelled => BackgroundTaskStatus::Aborted,
        RunOutcomeView::Failed(_) => BackgroundTaskStatus::Error,
    }
}

/// The name of a kind of subagent.
pub open spec fn kind_name(kind: SubagentKindView) -> Seq<char> {
    match kind {
        SubagentKindView::GeneralPurpose => "generalPurpose"@,
        SubagentKindView::Named(name) => name,
    }
}

/// The text of the last assistant message, where that message has text.
pub open spec fn last_answer(messages: Seq<CanonicalMessageView>) -> Option<Seq<char>>
    decreases messages.len(),
{
    if messages.len() == 0 {
        None
    } else if messages.last().role == Role::Assistant {
        messages.last().shown_text()
    } else {
        last_answer(messages.drop_last())
    }
}

/// The notice for a run that has ended, given the messages of its conversation: none for a run that
/// is no subagent.
pub open spec fn completion_of(
    prepared: PreparedRunView,
    outcome: RunOutcomeView,
    messages: Seq<CanonicalMessageView>,
) -> Option<SubagentCompletionView> {
    match prepared.kind {
        RunKindView::Root => None,
        RunKindView::Subagent { parent_tool_call_id, kind, .. } => Some(
            SubagentCompletionView {
                subagent_id: match prepared.cursor_request_id {
                    Some(id) => id,
                    None => prepared.conversation_id,
                },
                status: status_of(outcome),
                title: "Subagent "@ + kind_name(kind),
                detail: last_answer(messages),
                tool_call_id: parent_tool_call_id,
            },
        ),
    }
}

fn find_last_answer(messages: &[CanonicalMessage]) -> (r: Option<String>)
    ensures
        data::option_view(r) == last_answer(data::views(messages@)),
{
    let ghost all = data::views(messages@);
    let mut end: usize = messages.len();
    assert(all.take(end as int) =~= all);
    while end > 0
        invariant
            end <= messages@.len(),
            all == data::views(messages@),
            last_answer(all) == last_answer(all.take(end as int)),
        decreases end,
    {
        assert(all.take(end as int).last() == messages@[end - 1]@);
        assert(all.take(end as int).drop_last() =~= all.take(end - 1));
        if messages[end - 1].role == Role::Assistant {
            return messages[end - 1].extract_text();
        }
        end -= 1;
    }
    None
}

/// The notice for a run that has ended, given the messages of its conversation.
pub fn subagent_completion(
    prepared: &PreparedRun,
    outcome: &RunOutcome,
    messages: &[CanonicalMessage],
) -> (r: Option<SubagentCompletion>)
    ensures
        data::option_view(r) == completion_of(prepared@, outcome@, data::views(messages@)),
{
    match &prepared.kind {
        RunKind::Root => None,
        RunKind::Subagent { parent_tool_call_id, kind, .. } => {
            let status = match outcome {
                RunOutcome::Completed => BackgroundTaskStatus::Success,
                RunOutcome::Cancelled => BackgroundTaskStatus::Aborted,
                RunOutcome::Failed(_) => BackgroundTaskStatus::Error,
            };
            let subagent_id = match &prepared.cursor_request_id {
                Some(id) => id.clone(),
                None => prepared.conversation_id.0.clone(),
            };
            let mut title = "Subagent ".to_owned();
            match kind {
                SubagentKind::GeneralPurpose => {
                    title.append("generalPurpose");
                },
                SubagentKind::Named(name) => {
                    title.append(name.as_str());
                },
            }
            Some(
                SubagentCompletion {
                    subagent_id,
                    status,
                    title,
                    detail: find_last_answer(messages),
                    tool_call_id: parent_tool_call_id.clone(),
                },
            )
        },
    }
}

/// Whether the member `key` of a value is `true`.
pub open spec fn flag(value: JsonView, key: Seq<char>) -> bool {
    match value.at(key) {
        Some(member) => member.boolean() == Some(true),
        None => false,
    }
}

/// Whether the member `key` of a value is `true`.
fn has_flag(value: &Json, key: &str) -> (r: bool)
    ensures
        r == flag(value@, key@),
{
    match value.get(key) {
        Some(member) => match member.as_bool() {
            Some(b) => b,
            None => false,
        },
        None => false,
    }
}

/// The first call with this id.
pub open spec fn first_call(
    calls: Seq<ToolCallContentView>,
    call_id: Seq<char>,
) -> Option<ToolCallContentView>
    decreases calls.len(),
{
    if calls.len() == 0 {
        None
    } else if calls[0].call_id == call_id {
        Some(calls[0])
    } else {
        first_call(calls.drop_first(), call_id)
    }
}

/// Whether a tool result, read as JSON, says that its task runs in the background.
pub open spec fn says_background(parsed: Option<JsonView>) -> bool {
    match parsed {
        Some(value) => flag(value, "is_background"@),
        None => false,
    }
}

/// Whether a tool result, read as JSON, says that its task runs in the background.
pub fn result_says_background(parsed: Option<Json>) -> (r: bool)
    ensures
        r == says_background(data::option_view(parsed)),
{
    match parsed {
        Some(value) => has_flag(&value, "is_background"),
        None => false,
    }
}

/// What one message says of a call: `Some` where it decides whether the call runs in the background.
/// The call itself always decides; a result decides only when it says so.
pub open spec fn background_verdict(
    message: CanonicalMessageView,
    call_id: Seq<char>,
) -> Option<bool> {
    match message.content {
        MessageContentView::Assistant { tool_calls, .. } => match first_call(tool_calls, call_id) {
            Some(call) => Some(flag(call.arguments, "run_in_background"@)),
            None => None,
        },
        MessageContentView::ToolResult(result) => if result.call_id == call_id && says_background(
            json::parsed(result.content),
        ) {
            Some(true)
        } else {
            None
        },
        MessageContentView::Parts { .. } => None,
    }
}

/// Whether the first message that decides says that the call runs in the background.
pub open spec fn runs_in_background(
    messages: Seq<CanonicalMessageView>,
    call_id: Seq<char>,
) -> bool
    decreases messages.len(),
{
    if messages.len() == 0 {
        false
    } else {
        match background_verdict(messages[0], call_id) {
            Some(verdict) => verdict,
            None => runs_in_background(messages.drop_first(), call_id),
        }
    }
}

fn find_call<'a>(calls: &'a Vec<ToolCallContent>, call_id: &str) -> (r: Option<&'a ToolCallContent>)
    ensures
        match r {
            Some(call) => first_call(data::views(calls@), call_id@) == Some(call@),
            None => first_call(data::views(calls@), call_id@) is None,
        },
{
    let ghost all = data::views(calls@);
    let mut i: usize = 0;
    assert(all.skip(0) =~= all);
    while i < calls.len()
        invariant
            i <= calls@.len(),
            all == data::views(calls@),
            first_call(all, call_id@) == first_call(all.skip(i as int), call_id@),
        decreases calls@.len() - i,
    {
        assert(all.skip(i as int)[0] == calls@[i as int]@);
        assert(all.skip(i as int).drop_first() =~= all.skip(i + 1));
        if text::same(calls[i].call_id.as_str(), call_id) {
            return Some(&calls[i]);
        }
        i += 1;
    }
    None
}

fn verdict(message: &CanonicalMessage, call_id: &str) -> (r: Option<bool>)
    ensures
        r == background_verdict(message@, call_id@),
{
    match &message.content {
        MessageContent::Assistant { tool_calls, .. } => match find_call(tool_calls, call_id) {
            Some(call) => Some(has_flag(&call.arguments, "run_in_background")),
            None => None,
        },
        MessageContent::ToolResult(result) => {
            if text::same(result.call_id.as_str(), call_id) && result_says_background(
                json::parse(result.content.as_str()),
            ) {
                Some(true)
            } else {
                None
            }
        },
        MessageContent::Parts { .. } => None,
    }
}

/// Whether a subagent that this call started runs in the background, going by the messages of the
/// parent's conversation.
pub fn is_background_subagent(messages: &[CanonicalMessage], parent_tool_call_id: &str) -> (r: bool)
    ensures
        r == runs_in_background(data::views(messages@), parent_tool_call_id@),
{
    let ghost all = data::views(messages@);
    let mut i: usize = 0;
    assert(all.skip(0) =~= all);
    while i < messages.len()
        invariant
            i <= messages@.len(),
            all == data::views(messages@),
            runs_in_background(all, parent_tool_call_id@) == runs_in_background(
                all.skip(i as int),
                parent_tool_call_id@,
            ),
        decreases messages@.len() - i,
    {
        assert(all.skip(i as int)[0] == messages@[i as int]@);
        assert(all.skip(i as int).drop_first() =~= all.skip(i + 1));
        if let Some(decided) = verdict(&messages[i], parent_tool_call_id) {
            return decided;
        }
        i += 1;
    }
    false
}

/// Whether the end of a run is to be told to its parent: only that of a subagent that runs in the
/// background, by its own account or by the parent's conversation. A subagent in the foreground
/// hands its result over as the result of the call that started it.
pub open spec fn wakes_parent(
    prepared: PreparedRunView,
    parent_messages: Seq<CanonicalMessageView>,
) -> bool {
    match prepared.kind {
        RunKindView::Root => false,
        RunKindView::Subagent { parent_tool_call_id, background, .. } => background
            || runs_in_background(parent_messages, parent_tool_call_id),
    }
}

/// Whether the end of a run is to be told to its parent.
pub fn should_notify_parent(prepared: &PreparedRun, parent_messages: &[CanonicalMessage]) -> (r:
    bool)
    ensures
        r == wakes_parent(prepared@, data::views(parent_messages@)),
{
    match &prepared.kind {
        RunKind::Root => false,
        RunKind::Subagent { parent_tool_call_id, background, .. } => *background
            || is_background_subagent(parent_messages, parent_tool_call_id.as_str()),
    }
}

/// A run that no other run started wakes nobody.
pub proof fn law_root_runs_wake_nobody(
    prepared: PreparedRunView,
    outcome: RunOutcomeView,
    parent_messages: Seq<CanonicalMessageView>,
    messages: Seq<CanonicalMessageView>,
)
    requires
        prepared.kind is Root,
    ensures
        !wakes_parent(prepared, parent_messages),
        completion_of(prepared, outcome, messages) is None,
{
}

/// The notice of a subagent tells how its run ended, what it said last, and the call that started it.
pub proof fn law_notice_tells_of_the_subagent(
    prepared: PreparedRunView,
    outcome: RunOutcomeView,
    messages: Seq<CanonicalMessageView>,
)
    requires
        prepared.kind is Subagent,
    ensures
        ({
            let notice = completion_of(prepared, outcome, messages)->0;
            &&& completion_of(prepared, outcome, messages) is Some
            &&& outcome is Completed <==> notice.status is Success
            &&& outcome is Cancelled <==> notice.status is Aborted
            &&& outcome is Failed <==> notice.status is Error
            &&& notice.tool_call_id == prepared.kind->parent_tool_call_id
            &&& prepared.cursor_request_id matches Some(id) ==> notice.subagent_id == id
            &&& prepared.cursor_request_id is None ==> notice.subagent_id
                == prepared.conversation_id
            &&& notice.detail == last_answer(messages)
            &&& prepared.kind->kind matches SubagentKindView::Named(name) ==> text::ends(
                notice.title,
                name,
            )
        }),
{
    match prepared.kind->kind {
        SubagentKindView::Named(name) => {
            let title = "Subagent "@ + name;
            assert(title.subrange(title.len() - name.len(), title.len() as int) =~= name);
        },
        _ => {},
    }
}

/// What a subagent said last is the text of its last message as an assistant; messages of others that
/// follow do not change it.
pub proof fn law_last_answer_is_the_assistants(
    messages: Seq<CanonicalMessageView>,
    message: CanonicalMessageView,
)
    ensures
        message.role is Assistant ==> last_answer(messages.push(message)) == message.shown_text(),
        !(message.role is Assistant) ==> last_answer(messages.push(message)) == last_answer(
            messages,
        ),
        last_answer(Seq::empty()) is None,
{
    assert(messages.push(message).drop_last() =~= messages);
}

/// The first message that decides whether a call runs in the background is the one that counts.
pub proof fn law_first_word_on_the_background_counts(
    messages: Seq<CanonicalMessageView>,
    call_id: Seq<char>,
    at: int,
)
    requires
        0 <= at < messages.len(),
        forall|i: int|
            0 <= i < at ==> background_verdict(#[trigger] messages[i], call_id) is None,
        background_verdict(messages[at], call_id) is Some,
    ensures
        runs_in_background(messages, call_id) == background_verdict(messages[at], call_id)->0,
    decreases at,
{
    if at > 0 {
        assert(background_verdict(messages[0], call_id) is None);
        let rest = messages.drop_first();
        assert forall|i: int| 0 <= i < at - 1 implies background_verdict(
            #[trigger] rest[i],
            call_id,
        ) is None by {
            assert(rest[i] == messages[i + 1]);
        }
        law_first_word_on_the_background_counts(rest, call_id, at - 1);
    }
}

/// A call that says whether it is to run in the background decides; a result decides only where it says
/// that its call does; other messages do not.
pub proof fn law_call_decides_on_the_background(
    message: CanonicalMessageView,
    call: ToolCallContentView,
)
    requires
        message.content is Assistant,
        message.content->tool_calls.len() > 0,
        message.content->tool_calls[0] == call,
    ensures
        call.arguments.at("run_in_background"@) == Some(JsonView::Bool(true))
            ==> background_verdict(message, call.call_id) == Some(true),
        call.arguments.at("run_in_background"@) == Some(JsonView::Bool(false))
            ==> background_verdict(message, call.call_id) == Some(false),
        call.arguments.at("run_in_background"@) is None ==> background_verdict(
            message,
            call.call_id,
        ) == Some(false),
{
}

/// A subagent wakes its parent where it runs in the background, by its own account or the parent's.
pub proof fn law_background_subagents_wake_their_parent(
    prepared: PreparedRunView,
    parent_messages: Seq<CanonicalMessageView>,
)
    requires
        prepared.kind is Subagent,
    ensures
        prepared.kind->background ==> wakes_parent(prepared, parent_messages),
        !prepared.kind->background ==> (wakes_parent(prepared, parent_messages)
            <==> runs_in_background(parent_messages, prepared.kind->parent_tool_call_id)),
{
}

} // verus!
