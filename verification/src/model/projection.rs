//! Projects canonical messages into what a provider is shown.
use crate::data;
use crate::data::Duplicate;
use crate::error::{Error, ErrorView};
use crate::json::JsonView;
use crate::model::message;
use crate::model::message::{
    CanonicalMessage, CanonicalMessageView, ContentPart, ContentPartView, MessageContent,
    MessageContentView, ProviderReplayState, Role, ToolCallContent, ToolCallContentView,
    ToolResultContent, ToolResultContentView,
};
use crate::text;
use vstd::prelude::*;

verus! {

#[derive(Debug)]
pub enum ProjectedContent {
    Parts(Vec<ContentPart>),
    Assistant {
        text: String,
        thinking: String,
        replay_state: Option<ProviderReplayState>,
        calls: Vec<ToolCallContent>,
    },
    ToolResult(ToolResultContent),
}

#[verifier::ext_equal]
pub enum ProjectedContentView {
    Parts(Seq<ContentPartView>),
    Assistant {
        text: Seq<char>,
        thinking: Seq<char>,
        replay_state: Option<JsonView>,
        calls: Seq<ToolCallContentView>,
    },
    ToolResult(ToolResultContentView),
}

impl View for ProjectedContent {
    type V = ProjectedContentView;

    open spec fn view(&self) -> ProjectedContentView {
        match self {
            ProjectedContent::Parts(parts) => ProjectedContentView::Parts(data::views(parts@)),
            ProjectedContent::Assistant {
                text,
                thinking,
                replay_state,
                calls,
            } => ProjectedContentView::Assistant {
                text: text@,
                thinking: thinking@,
                replay_state: data::option_view(*replay_state),
                calls: data::views(calls@),
            },
            ProjectedContent::ToolResult(result) => ProjectedContentView::ToolResult(result@),
        }
    }
}

impl Duplicate for ProjectedContent {
    fn duplicate(&self) -> (r: Self) {
        match self {
            ProjectedContent::Parts(parts) => ProjectedContent::Parts(data::duplicate_all(parts)),
            ProjectedContent::Assistant {
                text,
                thinking,
                replay_state,
                calls,
            } => ProjectedContent::Assistant {
                text: text.clone(),
                thinking: thinking.clone(),
                replay_state: data::duplicate_option(replay_state),
                calls: data::duplicate_all(calls),
            },
            ProjectedContent::ToolResult(result) => ProjectedContent::ToolResult(
                result.duplicate(),
            ),
        }
    }
}

/// A message as a provider is shown it.
#[derive(Debug)]
pub struct ProjectedMessage {
    pub message_id: String,
    pub role: Role,
    pub content: ProjectedContent,
}

#[verifier::ext_equal]
pub struct ProjectedMessageView {
    pub message_id: Seq<char>,
    pub role: Role,
    pub content: ProjectedContentView,
}

impl View for ProjectedMessage {
    type V = ProjectedMessageView;

    open spec fn view(&self) -> ProjectedMessageView {
        ProjectedMessageView {
            message_id: self.message_id@,
            role: self.role,
            content: self.content@,
        }
    }
}

impl Duplicate for ProjectedMessage {
    fn duplicate(&self) -> (r: Self) {
        ProjectedMessage {
            message_id: self.message_id.clone(),
            role: self.role,
            content: self.content.duplicate(),
        }
    }
}

/// A message on its own, as a provider is shown it.
pub open spec fn alone(message: CanonicalMessageView) -> ProjectedMessageView {
    ProjectedMessageView {
        message_id: message.message_id,
        role: message.role,
        content: match message.content {
            MessageContentView::Parts { parts } => ProjectedContentView::Parts(parts),
            MessageContentView::Assistant {
                text,
                thinking,
                replay_state,
                tool_calls,
                ..
            } => ProjectedContentView::Assistant {
                text,
                thinking,
                replay_state,
                calls: tool_calls,
            },
            MessageContentView::ToolResult(result) => ProjectedContentView::ToolResult(result),
        },
    }
}

/// The calls with `call` put behind every call whose index is not larger.
pub open spec fn insert_by_index(
    calls: Seq<ToolCallContentView>,
    call: ToolCallContentView,
) -> Seq<ToolCallContentView>
    decreases calls.len(),
{
    if calls.len() == 0 || calls.last().index <= call.index {
        calls.push(call)
    } else {
        insert_by_index(calls.drop_last(), call).push(calls.last())
    }
}

/// The calls in the order of their indices; calls with equal indices keep their order.
pub open spec fn by_index(calls: Seq<ToolCallContentView>) -> Seq<ToolCallContentView>
    decreases calls.len(),
{
    if calls.len() == 0 {
        calls
    } else {
        insert_by_index(by_index(calls.drop_last()), calls.last())
    }
}

/// What has been collected of a tool round: where the next message stands, what the assistant said,
/// and the results with the ids of the messages that hold them.
#[verifier::ext_equal]
pub struct RoundView {
    pub cursor: int,
    pub text: Seq<char>,
    pub thinking: Seq<char>,
    pub replay_state: Option<JsonView>,
    pub calls: Seq<ToolCallContentView>,
    pub results: Seq<(Seq<char>, ToolResultContentView)>,
}

/// Whether one of the calls has this id.
pub open spec fn calls_have(calls: Seq<ToolCallContentView>, call_id: Seq<char>) -> bool {
    exists|i: int| 0 <= i < calls.len() && #[trigger] calls[i].call_id == call_id
}

/// Whether one of the results answers this call.
pub open spec fn results_have(
    results: Seq<(Seq<char>, ToolResultContentView)>,
    call_id: Seq<char>,
) -> bool {
    exists|i: int| 0 <= i < results.len() && #[trigger] results[i].1.call_id == call_id
}

/// The assistant message at `index` belongs to the tool round `group`.
pub open spec fn in_round(messages: Seq<CanonicalMessageView>, index: int, group: Seq<char>) -> bool {
    0 <= index < messages.len() && (messages[index].content matches MessageContentView::Assistant {
        tool_round_id,
        tool_calls,
        ..
    } && tool_round_id == Some(group) && tool_calls.len() > 0)
}

/// The error on a second result for one call.
pub open spec fn duplicate_result(call_id: Seq<char>) -> ErrorView {
    ErrorView::Protocol("duplicate tool result call_id: "@ + call_id)
}

/// The error on a call that no result answers.
pub open spec fn missing_result(call_id: Seq<char>) -> ErrorView {
    ErrorView::Protocol("assistant tool call has no result call_id: "@ + call_id)
}

/// Collects the results that follow, as long as they answer a call of the round.
pub open spec fn collect_results(messages: Seq<CanonicalMessageView>, round: RoundView) -> Result<
    RoundView,
    ErrorView,
>
    decreases messages.len() - round.cursor,
{
    if 0 <= round.cursor < messages.len() {
        match messages[round.cursor].content {
            MessageContentView::ToolResult(result) => if !calls_have(round.calls, result.call_id) {
                Ok(round)
            } else if results_have(round.results, result.call_id) {
                Err(duplicate_result(result.call_id))
            } else {
                collect_results(
                    messages,
                    RoundView {
                        cursor: round.cursor + 1,
                        results: round.results.push(
                            (messages[round.cursor].message_id, result),
                        ),
                        ..round
                    },
                )
            },
            _ => Ok(round),
        }
    } else {
        Ok(round)
    }
}

/// The round with the assistant message at its cursor added.
pub open spec fn with_assistant(round: RoundView, message: CanonicalMessageView) -> RoundView {
    match message.content {
        MessageContentView::Assistant {
            text,
            thinking,
            replay_state,
            tool_calls,
            ..
        } => RoundView {
            cursor: round.cursor + 1,
            text: round.text + text,
            thinking: round.thinking + thinking,
            replay_state: if round.replay_state is None {
                replay_state
            } else {
                round.replay_state
            },
            calls: round.calls + tool_calls,
            results: round.results,
        },
        _ => round,
    }
}

/// Whether the message carries provider state although the round already has some.
pub open spec fn repeats_replay(round: RoundView, message: CanonicalMessageView) -> bool {
    message.content matches MessageContentView::Assistant { replay_state, .. } && replay_state is Some
        && round.replay_state is Some
}

/// Collects assistant messages of the round `group`, each with the results that follow it.
pub open spec fn collect_round(
    messages: Seq<CanonicalMessageView>,
    group: Seq<char>,
    round: RoundView,
) -> Result<RoundView, ErrorView>
    decreases messages.len() - round.cursor,
{
    if in_round(messages, round.cursor, group) {
        let message = messages[round.cursor];
        if repeats_replay(round, message) {
            Err(ErrorView::Protocol("tool round repeats provider replay state"@))
        } else {
            match collect_results(messages, with_assistant(round, message)) {
                Err(error) => Err(error),
                Ok(next) => if !(round.cursor < next.cursor <= messages.len()) {
                    Ok(next)
                } else {
                    collect_round(messages, group, next)
                },
            }
        }
    } else {
        Ok(round)
    }
}

/// The first call, in the order of the indices, that no result answers.
pub open spec fn first_unanswered(
    calls: Seq<ToolCallContentView>,
    results: Seq<(Seq<char>, ToolResultContentView)>,
) -> Option<Seq<char>>
    decreases calls.len(),
{
    if calls.len() == 0 {
        None
    } else if !results_have(results, calls[0].call_id) {
        Some(calls[0].call_id)
    } else {
        first_unanswered(calls.drop_first(), results)
    }
}

/// A result as a provider is shown it.
pub open spec fn shown_result(entry: (Seq<char>, ToolResultContentView)) -> ProjectedMessageView {
    ProjectedMessageView {
        message_id: entry.0,
        role: Role::Tool,
        content: ProjectedContentView::ToolResult(entry.1),
    }
}

/// A collected round as a provider is shown it: one assistant message and its results.
pub open spec fn shown_round(message_id: Seq<char>, round: RoundView) -> Seq<ProjectedMessageView> {
    seq![
        ProjectedMessageView {
            message_id,
            role: Role::Assistant,
            content: ProjectedContentView::Assistant {
                text: round.text,
                thinking: round.thinking,
                replay_state: round.replay_state,
                calls: by_index(round.calls),
            },
        },
    ] + round.results.map_values(|entry: (Seq<char>, ToolResultContentView)| shown_result(entry))
}

/// A round of which nothing has been collected, at the message `start`.
pub open spec fn empty_round(start: int) -> RoundView {
    RoundView {
        cursor: start,
        text: Seq::empty(),
        thinking: Seq::empty(),
        replay_state: None,
        calls: Seq::empty(),
        results: Seq::empty(),
    }
}

/// The tool round of the message at `start`, where it is one that calls tools.
pub open spec fn round_of(message: CanonicalMessageView) -> Option<Seq<char>> {
    match message.content {
        MessageContentView::Assistant { tool_round_id, tool_calls, .. } => if tool_calls.len() > 0 {
            tool_round_id
        } else {
            None
        },
        _ => None,
    }
}

/// The tool round that begins at `start`, if one does, with the position behind it.
pub open spec fn tool_round_at(messages: Seq<CanonicalMessageView>, start: int) -> Result<
    Option<(Seq<ProjectedMessageView>, int)>,
    ErrorView,
> {
    match round_of(messages[start]) {
        None => Ok(None),
        Some(group) => match collect_round(messages, group, empty_round(start)) {
            Err(error) => Err(error),
            Ok(round) => match first_unanswered(by_index(round.calls), round.results) {
                Some(call_id) => Err(missing_result(call_id)),
                None => Ok(Some((shown_round(messages[start].message_id, round), round.cursor))),
            },
        },
    }
}

/// The messages from `index` on, as a provider is shown them.
pub open spec fn projection_from(messages: Seq<CanonicalMessageView>, index: int) -> Result<
    Seq<ProjectedMessageView>,
    ErrorView,
>
    decreases messages.len() - index,
{
    if 0 <= index < messages.len() {
        match tool_round_at(messages, index) {
            Err(error) => Err(error),
            Ok(Some((group, next))) => if !(index < next <= messages.len()) {
                Ok(group)
            } else {
                match projection_from(messages, next) {
                    Err(error) => Err(error),
                    Ok(rest) => Ok(group + rest),
                }
            },
            Ok(None) => match projection_from(messages, index + 1) {
                Err(error) => Err(error),
                Ok(rest) => Ok(seq![alone(messages[index])] + rest),
            },
        }
    } else {
        Ok(Seq::empty())
    }
}

/// A conversation as a provider is shown it.
pub open spec fn projection(messages: Seq<CanonicalMessageView>) -> Result<
    Seq<ProjectedMessageView>,
    ErrorView,
> {
    projection_from(messages, 0)
}

/// The results that are collected come from later messages.
proof fn lemma_collect_results_moves(messages: Seq<CanonicalMessageView>, round: RoundView)
    requires
        0 <= round.cursor <= messages.len(),
    ensures
        collect_results(messages, round) matches Ok(next) ==> round.cursor <= next.cursor
            <= messages.len(),
    decreases messages.len() - round.cursor,
{
    if round.cursor < messages.len() {
        if let MessageContentView::ToolResult(result) = messages[round.cursor].content {
            lemma_collect_results_moves(
                messages,
                RoundView {
                    cursor: round.cursor + 1,
                    results: round.results.push((messages[round.cursor].message_id, result)),
                    ..round
                },
            );
        }
    }
}

/// A round that begins at a message ends behind it.
proof fn lemma_collect_round_moves(
    messages: Seq<CanonicalMessageView>,
    group: Seq<char>,
    round: RoundView,
)
    requires
        0 <= round.cursor <= messages.len(),
    ensures
        collect_round(messages, group, round) matches Ok(next) ==> round.cursor <= next.cursor
            <= messages.len(),
        in_round(messages, round.cursor, group) ==> (collect_round(
            messages,
            group,
            round,
        ) matches Ok(next) ==> round.cursor < next.cursor),
    decreases messages.len() - round.cursor,
{
    if in_round(messages, round.cursor, group) {
        let message = messages[round.cursor];
        if !repeats_replay(round, message) {
            let extended = with_assistant(round, message);
            lemma_collect_results_moves(messages, extended);
            if let Ok(next) = collect_results(messages, extended) {
                lemma_collect_round_moves(messages, group, next);
            }
        }
    }
}

/// A round whose messages stand further on by `n`.
spec fn moved(round: RoundView, n: int) -> RoundView {
    RoundView { cursor: round.cursor + n, ..round }
}

spec fn moved_result(round: Result<RoundView, ErrorView>, n: int) -> Result<RoundView, ErrorView> {
    match round {
        Ok(round) => Ok(moved(round, n)),
        Err(error) => Err(error),
    }
}

/// Whether nothing of a conversation can belong to a tool round before it.
pub open spec fn starts_afresh(messages: Seq<CanonicalMessageView>) -> bool {
    messages.len() == 0 || messages[0].content is Parts
}

proof fn lemma_results_before(
    a: Seq<CanonicalMessageView>,
    b: Seq<CanonicalMessageView>,
    round: RoundView,
)
    requires
        starts_afresh(b),
        0 <= round.cursor <= a.len(),
    ensures
        collect_results(a + b, round) == collect_results(a, round),
    decreases a.len() - round.cursor,
{
    let all = a + b;
    if round.cursor < a.len() {
        assert(all[round.cursor] == a[round.cursor]);
        if let MessageContentView::ToolResult(result) = a[round.cursor].content {
            lemma_results_before(
                a,
                b,
                RoundView {
                    cursor: round.cursor + 1,
                    results: round.results.push((a[round.cursor].message_id, result)),
                    ..round
                },
            );
        }
    } else if b.len() > 0 {
        assert(all[round.cursor] == b[0]);
    }
}

proof fn lemma_round_before(
    a: Seq<CanonicalMessageView>,
    b: Seq<CanonicalMessageView>,
    group: Seq<char>,
    round: RoundView,
)
    requires
        starts_afresh(b),
        0 <= round.cursor <= a.len(),
    ensures
        collect_round(a + b, group, round) == collect_round(a, group, round),
    decreases a.len() - round.cursor,
{
    let all = a + b;
    if round.cursor < a.len() {
        assert(all[round.cursor] == a[round.cursor]);
        assert(in_round(all, round.cursor, group) == in_round(a, round.cursor, group));
        if in_round(a, round.cursor, group) && !repeats_replay(round, a[round.cursor]) {
            let extended = with_assistant(round, a[round.cursor]);
            lemma_results_before(a, b, extended);
            lemma_collect_results_moves(a, extended);
            if let Ok(next) = collect_results(a, extended) {
                lemma_round_before(a, b, group, next);
            }
        }
    } else if b.len() > 0 {
        assert(all[round.cursor] == b[0]);
    }
}

proof fn lemma_results_behind(
    a: Seq<CanonicalMessageView>,
    b: Seq<CanonicalMessageView>,
    round: RoundView,
)
    requires
        0 <= round.cursor <= b.len(),
    ensures
        collect_results(a + b, moved(round, a.len() as int)) == moved_result(
            collect_results(b, round),
            a.len() as int,
        ),
    decreases b.len() - round.cursor,
{
    let all = a + b;
    let n = a.len() as int;
    if round.cursor < b.len() {
        assert(all[round.cursor + n] == b[round.cursor]);
        if let MessageContentView::ToolResult(result) = b[round.cursor].content {
            let more = RoundView {
                cursor: round.cursor + 1,
                results: round.results.push((b[round.cursor].message_id, result)),
                ..round
            };
            lemma_results_behind(a, b, more);
            assert(moved(more, n) == (RoundView {
                cursor: round.cursor + n + 1,
                results: more.results,
                ..moved(round, n)
            }));
        }
    }
}

proof fn lemma_round_behind(
    a: Seq<CanonicalMessageView>,
    b: Seq<CanonicalMessageView>,
    group: Seq<char>,
    round: RoundView,
)
    requires
        0 <= round.cursor <= b.len(),
    ensures
        collect_round(a + b, group, moved(round, a.len() as int)) == moved_result(
            collect_round(b, group, round),
            a.len() as int,
        ),
    decreases b.len() - round.cursor,
{
    let all = a + b;
    let n = a.len() as int;
    if round.cursor < b.len() {
        assert(all[round.cursor + n] == b[round.cursor]);
        assert(in_round(all, round.cursor + n, group) == in_round(b, round.cursor, group));
        if in_round(b, round.cursor, group) && !repeats_replay(round, b[round.cursor]) {
            let extended = with_assistant(round, b[round.cursor]);
            assert(with_assistant(moved(round, n), b[round.cursor]) == moved(extended, n));
            lemma_results_behind(a, b, extended);
            lemma_collect_results_moves(b, extended);
            if let Ok(next) = collect_results(b, extended) {
                lemma_round_behind(a, b, group, next);
            }
        }
    }
}

proof fn lemma_projection_behind(
    a: Seq<CanonicalMessageView>,
    b: Seq<CanonicalMessageView>,
    index: int,
)
    requires
        0 <= index <= b.len(),
    ensures
        projection_from(a + b, a.len() + index) == projection_from(b, index),
    decreases b.len() - index,
{
    let all = a + b;
    let n = a.len() as int;
    if index < b.len() {
        assert(all[n + index] == b[index]);
        match round_of(b[index]) {
            Some(group) => {
                assert(empty_round(n + index) == moved(empty_round(index), n));
                lemma_round_behind(a, b, group, empty_round(index));
                lemma_collect_round_moves(b, group, empty_round(index));
                if let Ok(Some((_, next))) = tool_round_at(b, index) {
                    lemma_projection_behind(a, b, next);
                }
            },
            None => {
                lemma_projection_behind(a, b, index + 1);
            },
        }
    }
}

/// Two projections, one behind the other.
pub open spec fn both(
    first: Result<Seq<ProjectedMessageView>, ErrorView>,
    second: Result<Seq<ProjectedMessageView>, ErrorView>,
) -> Result<Seq<ProjectedMessageView>, ErrorView> {
    match (first, second) {
        (Err(error), _) => Err(error),
        (Ok(_), Err(error)) => Err(error),
        (Ok(first), Ok(second)) => Ok(first + second),
    }
}

proof fn lemma_projection_before(
    a: Seq<CanonicalMessageView>,
    b: Seq<CanonicalMessageView>,
    index: int,
)
    requires
        starts_afresh(b),
        0 <= index <= a.len(),
    ensures
        projection_from(a + b, index) == both(projection_from(a, index), projection(b)),
    decreases a.len() - index,
{
    let all = a + b;
    if index < a.len() {
        assert(all[index] == a[index]);
        match round_of(a[index]) {
            Some(group) => {
                lemma_round_before(a, b, group, empty_round(index));
                lemma_collect_round_moves(a, group, empty_round(index));
                if let Ok(Some((shown, next))) = tool_round_at(a, index) {
                    lemma_projection_before(a, b, next);
                    if let (Ok(rest), Ok(second)) = (projection_from(a, next), projection(b)) {
                        assert(shown + (rest + second) =~= (shown + rest) + second);
                    }
                }
            },
            None => {
                lemma_projection_before(a, b, index + 1);
                let shown = seq![alone(a[index])];
                if let (Ok(rest), Ok(second)) = (projection_from(a, index + 1), projection(b)) {
                    assert(shown + (rest + second) =~= (shown + rest) + second);
                }
            },
        }
    } else {
        lemma_projection_behind(a, b, 0);
        if let Ok(second) = projection(b) {
            assert(Seq::<ProjectedMessageView>::empty() + second =~= second);
        }
    }
}

/// A conversation that goes on with a message made of parts is shown as what came before and what
/// follows, one behind the other; it cannot be shown where one of the two cannot.
pub proof fn law_conversations_are_shown_in_parts(
    a: Seq<CanonicalMessageView>,
    b: Seq<CanonicalMessageView>,
)
    requires
        starts_afresh(b),
    ensures
        projection(a + b) == both(projection(a), projection(b)),
{
    lemma_projection_before(a, b, 0);
}

/// A sequence of calls is in the order of the indices.
pub open spec fn ordered(calls: Seq<ToolCallContentView>) -> bool {
    forall|i: int, j: int|
        0 <= i <= j < calls.len() ==> (#[trigger] calls[i]).index <= (#[trigger] calls[j]).index
}

/// Inserting into an ordered sequence keeps the order and adds one call.
proof fn lemma_insert_by_index(calls: Seq<ToolCallContentView>, call: ToolCallContentView)
    requires
        ordered(calls),
    ensures
        ordered(insert_by_index(calls, call)),
        insert_by_index(calls, call).to_multiset() == calls.to_multiset().insert(call),
        insert_by_index(calls, call).len() == calls.len() + 1,
    decreases calls.len(),
{
    broadcast use vstd::seq_lib::group_to_multiset_ensures;

    if calls.len() == 0 || calls.last().index <= call.index {
        calls.to_multiset_ensures();
    } else {
        let rest = calls.drop_last();
        assert(ordered(rest)) by {
            assert forall|i: int, j: int| 0 <= i <= j < rest.len() implies (
            #[trigger] rest[i]).index <= (#[trigger] rest[j]).index by {
                assert(rest[i] == calls[i] && rest[j] == calls[j]);
            }
        }
        lemma_insert_by_index(rest, call);
        let inner = insert_by_index(rest, call);
        let out = inner.push(calls.last());
        assert(calls =~= rest.push(calls.last()));
        inner.to_multiset_ensures();
        rest.to_multiset_ensures();
        assert(out.to_multiset() =~= calls.to_multiset().insert(call));
        assert forall|i: int| 0 <= i < inner.len() implies (#[trigger] inner[i]).index
            <= calls.last().index by {
            inner.to_multiset_ensures();
            assert(inner.to_multiset().count(inner[i]) > 0) by {
                assert(inner.contains(inner[i]));
            }
            if inner[i] != call {
                assert(rest.to_multiset().count(inner[i]) > 0);
                assert(rest.contains(inner[i]));
                let k = choose|k: int| 0 <= k < rest.len() && rest[k] == inner[i];
                assert(calls[k] == rest[k]);
            }
        }
        assert forall|i: int, j: int| 0 <= i <= j < out.len() implies (#[trigger] out[i]).index
            <= (#[trigger] out[j]).index by {
            if j == out.len() - 1 {
                if i < inner.len() {
                    assert(out[i] == inner[i]);
                }
            } else {
                assert(out[i] == inner[i] && out[j] == inner[j]);
            }
        }
    }
}

/// Putting the calls of a round in order neither loses nor adds a call.
pub proof fn law_calls_are_reordered_only(calls: Seq<ToolCallContentView>)
    ensures
        ordered(by_index(calls)),
        by_index(calls).to_multiset() == calls.to_multiset(),
        by_index(calls).len() == calls.len(),
    decreases calls.len(),
{
    broadcast use vstd::seq_lib::group_to_multiset_ensures;

    if calls.len() > 0 {
        law_calls_are_reordered_only(calls.drop_last());
        lemma_insert_by_index(by_index(calls.drop_last()), calls.last());
        assert(calls =~= calls.drop_last().push(calls.last()));
        calls.drop_last().to_multiset_ensures();
    }
}

/// Puts a call behind every call whose index is not larger.
fn insert_call(calls: &mut Vec<ToolCallContent>, call: ToolCallContent)
    ensures
        data::views(final(calls)@) == insert_by_index(data::views(old(calls)@), call@),
{
    let ghost before = data::views(calls@);
    let mut at: usize = calls.len();
    let ghost mut tail: Seq<ToolCallContentView> = Seq::empty();
    assert(before.take(at as int) =~= before);
    assert(insert_by_index(before, call@) + tail =~= insert_by_index(before, call@));
    while at > 0 && calls[at - 1].index > call.index
        invariant
            at <= calls@.len(),
            before == data::views(calls@),
            tail == before.skip(at as int),
            insert_by_index(before, call@) == insert_by_index(before.take(at as int), call@) + tail,
        decreases at,
    {
        proof {
            let head = before.take(at as int);
            assert(head.last() == calls@[at - 1]@);
            assert(head.drop_last() =~= before.take(at - 1));
            assert(insert_by_index(head.drop_last(), call@).push(head.last()) + tail
                =~= insert_by_index(head.drop_last(), call@) + before.skip(at - 1));
            tail = before.skip(at - 1);
        }
        at -= 1;
    }
    proof {
        let head = before.take(at as int);
        if at > 0 {
            assert(head.last() == calls@[at - 1]@);
        }
        assert(insert_by_index(head, call@) == head.push(call@));
        assert(head.push(call@) + tail =~= before.insert(at as int, call@));
    }
    calls.insert(at, call);
    assert(data::views(calls@) =~= before.insert(at as int, call@));
}

/// The calls in the order of their indices.
fn sort_calls(calls: &Vec<ToolCallContent>) -> (r: Vec<ToolCallContent>)
    ensures
        data::views(r@) == by_index(data::views(calls@)),
{
    let ghost all = data::views(calls@);
    let mut out: Vec<ToolCallContent> = Vec::new();
    let mut i: usize = 0;
    assert(data::views(out@) =~= by_index(all.take(0)));
    while i < calls.len()
        invariant
            i <= calls@.len(),
            all == data::views(calls@),
            data::views(out@) == by_index(all.take(i as int)),
        decreases calls@.len() - i,
    {
        let call = calls[i].duplicate();
        insert_call(&mut out, call);
        i += 1;
        assert(all.take(i as int).drop_last() =~= all.take(i - 1));
        assert(all.take(i as int).last() == calls@[i - 1]@);
    }
    assert(all.take(i as int) =~= all);
    out
}

/// What has been collected of a tool round.
struct Round {
    cursor: usize,
    text: String,
    thinking: String,
    replay_state: Option<ProviderReplayState>,
    calls: Vec<ToolCallContent>,
    results: Vec<(String, ToolResultContent)>,
}

/// The collected results by their views.
spec fn result_views(results: Seq<(String, ToolResultContent)>) -> Seq<
    (Seq<char>, ToolResultContentView),
> {
    results.map_values(|entry: (String, ToolResultContent)| (entry.0@, entry.1@))
}

impl View for Round {
    type V = RoundView;

    closed spec fn view(&self) -> RoundView {
        RoundView {
            cursor: self.cursor as int,
            text: self.text@,
            thinking: self.thinking@,
            replay_state: data::option_view(self.replay_state),
            calls: data::views(self.calls@),
            results: result_views(self.results@),
        }
    }
}

impl Round {
    fn calls_tool(&self, call_id: &str) -> (r: bool)
        ensures
            r == calls_have(self@.calls, call_id@),
    {
        let ghost calls = self@.calls;
        let mut i: usize = 0;
        while i < self.calls.len()
            invariant
                i <= self.calls@.len(),
                calls == data::views(self.calls@),
                forall|k: int| 0 <= k < i ==> (#[trigger] calls[k]).call_id != call_id@,
            decreases self.calls@.len() - i,
        {
            assert(calls[i as int].call_id == self.calls@[i as int].call_id@);
            if text::same(self.calls[i].call_id.as_str(), call_id) {
                return true;
            }
            i += 1;
        }
        false
    }

    fn answers(&self, call_id: &str) -> (r: bool)
        ensures
            r == results_have(self@.results, call_id@),
    {
        let ghost results = self@.results;
        let mut i: usize = 0;
        while i < self.results.len()
            invariant
                i <= self.results@.len(),
                results == result_views(self.results@),
                forall|k: int| 0 <= k < i ==> (#[trigger] results[k]).1.call_id != call_id@,
            decreases self.results@.len() - i,
        {
            assert(results[i as int].1.call_id == self.results@[i as int].1.call_id@);
            if text::same(self.results[i].1.call_id.as_str(), call_id) {
                return true;
            }
            i += 1;
        }
        false
    }

    /// Collects the results that follow.
    fn take_results(self, messages: &[CanonicalMessage]) -> (r: Result<Round, Error>)
        requires
            self.cursor <= messages@.len(),
        ensures
            crate::error::result_view(r) == collect_results(data::views(messages@), self@),
            r matches Ok(next) ==> self.cursor <= next.cursor <= messages@.len(),
    {
        let ghost all = data::views(messages@);
        let mut round = self;
        while round.cursor < messages.len()
            invariant
                self.cursor <= round.cursor <= messages@.len(),
                all == data::views(messages@),
                collect_results(all, round@) == collect_results(all, self@),
            decreases messages@.len() - round.cursor,
        {
            assert(all[round.cursor as int] == messages@[round.cursor as int]@);
            match &messages[round.cursor].content {
                MessageContent::ToolResult(result) => {
                    if !round.calls_tool(result.call_id.as_str()) {
                        return Ok(round);
                    }
                    if round.answers(result.call_id.as_str()) {
                        let mut message = "duplicate tool result call_id: ".to_owned();
                        message.append(result.call_id.as_str());
                        return Err(Error::Protocol(message));
                    }
                    let ghost before = round@;
                    let entry = (
                        messages[round.cursor].message_id.clone(),
                        result.duplicate(),
                    );
                    round.results.push(entry);
                    round.cursor = round.cursor + 1;
                    assert(result_views(round.results@) =~= before.results.push(
                        (entry.0@, entry.1@),
                    ));
                },
                _ => {
                    return Ok(round);
                },
            }
        }
        Ok(round)
    }
}

/// The tool round that begins at `start`, if one does, with the position behind it.
fn project_tool_round(messages: &[CanonicalMessage], start: usize) -> (r: Result<
    Option<(Vec<ProjectedMessage>, usize)>,
    Error,
>)
    requires
        start < messages@.len(),
    ensures
        match r {
            Ok(None) => tool_round_at(data::views(messages@), start as int) == Ok::<
                Option<(Seq<ProjectedMessageView>, int)>,
                ErrorView,
            >(None),
            Ok(Some((group, next))) => tool_round_at(data::views(messages@), start as int) == Ok::<
                Option<(Seq<ProjectedMessageView>, int)>,
                ErrorView,
            >(Some((data::views(group@), next as int))) && start < next <= messages@.len(),
            Err(error) => tool_round_at(data::views(messages@), start as int) == Err::<
                Option<(Seq<ProjectedMessageView>, int)>,
                ErrorView,
            >(error@),
        },
{
    let ghost all = data::views(messages@);
    assert(all[start as int] == messages@[start as int]@);
    let group = match &messages[start].content {
        MessageContent::Assistant { tool_round_id: Some(group), tool_calls, .. } => {
            if tool_calls.len() == 0 {
                return Ok(None);
            }
            group
        },
        _ => {
            return Ok(None);
        },
    };
    proof {
        lemma_collect_round_moves(all, group@, empty_round(start as int));
    }
    let mut round = Round {
        cursor: start,
        text: String::new(),
        thinking: String::new(),
        replay_state: None,
        calls: Vec::new(),
        results: Vec::new(),
    };
    assert(round@ =~= empty_round(start as int));
    loop
        invariant
            start <= round.cursor <= messages@.len(),
            all == data::views(messages@),
            collect_round(all, group@, round@) == collect_round(
                all,
                group@,
                empty_round(start as int),
            ),
            in_round(all, start as int, group@),
            round_of(all[start as int]) == Some(group@),
        ensures
            start <= round.cursor <= messages@.len(),
            collect_round(all, group@, empty_round(start as int)) == Ok::<RoundView, ErrorView>(
                round@,
            ),
        decreases messages@.len() - round.cursor,
    {
        if round.cursor >= messages.len() {
            break;
        }
        assert(all[round.cursor as int] == messages@[round.cursor as int]@);
        match &messages[round.cursor].content {
            MessageContent::Assistant {
                text: part_text,
                thinking: part_thinking,
                tool_round_id: Some(candidate),
                replay_state: part_replay,
                tool_calls: part_calls,
            } => {
                if !text::same(candidate.as_str(), group.as_str()) || part_calls.len() == 0 {
                    break;
                }
                let ghost before = round@;
                let ghost message = all[round.cursor as int];
                if round.replay_state.is_some() {
                    if part_replay.is_some() {
                        return Err(
                            Error::Protocol("tool round repeats provider replay state".to_owned()),
                        );
                    }
                } else {
                    round.replay_state = data::duplicate_option(part_replay);
                }
                round.text.append(part_text.as_str());
                round.thinking.append(part_thinking.as_str());
                let mut more = data::duplicate_all(part_calls);
                let ghost added = data::views(more@);
                round.calls.append(&mut more);
                round.cursor = round.cursor + 1;
                assert(data::views(round.calls@) =~= before.calls + added);
                assert(round@ =~= with_assistant(before, message));
                match round.take_results(messages) {
                    Ok(next) => {
                        round = next;
                    },
                    Err(error) => {
                        return Err(error);
                    },
                }
            },
            _ => {
                break;
            },
        }
    }
    let calls = sort_calls(&round.calls);
    let ghost sorted = by_index(round@.calls);
    let mut i: usize = 0;
    assert(sorted.skip(0) =~= sorted);
    while i < calls.len()
        invariant
            i <= calls@.len(),
            sorted == data::views(calls@),
            first_unanswered(sorted.skip(i as int), round@.results) == first_unanswered(
                sorted,
                round@.results,
            ),
            all == data::views(messages@),
            start < messages@.len(),
            round_of(all[start as int]) == Some(group@),
            sorted == by_index(round@.calls),
            collect_round(all, group@, empty_round(start as int)) == Ok::<RoundView, ErrorView>(
                round@,
            ),
        decreases calls@.len() - i,
    {
        assert(sorted.skip(i as int)[0] == calls@[i as int]@);
        assert(sorted.skip(i as int).drop_first() =~= sorted.skip(i + 1));
        if !round.answers(calls[i].call_id.as_str()) {
            let mut message = "assistant tool call has no result call_id: ".to_owned();
            message.append(calls[i].call_id.as_str());
            return Err(Error::Protocol(message));
        }
        i += 1;
    }
    let ghost seen = round@;
    let Round { cursor, text, thinking, replay_state, calls: _, results } = round;
    let mut output: Vec<ProjectedMessage> = Vec::new();
    output.push(
        ProjectedMessage {
            message_id: messages[start].message_id.clone(),
            role: Role::Assistant,
            content: ProjectedContent::Assistant { text, thinking, replay_state, calls },
        },
    );
    let ghost shown = shown_round(all[start as int].message_id, seen);
    let ghost tail = seen.results.map_values(
        |entry: (Seq<char>, ToolResultContentView)| shown_result(entry),
    );
    let mut k: usize = 0;
    assert(data::views(output@) =~= shown.take(1));
    while k < results.len()
        invariant
            k <= results@.len(),
            seen.results == result_views(results@),
            tail == seen.results.map_values(
                |entry: (Seq<char>, ToolResultContentView)| shown_result(entry),
            ),
            shown.len() == 1 + tail.len(),
            forall|j: int| 0 <= j < tail.len() ==> shown[j + 1] == #[trigger] tail[j],
            data::views(output@) == shown.take(k + 1),
        decreases results@.len() - k,
    {
        let ghost before = data::views(output@);
        let message = ProjectedMessage {
            message_id: results[k].0.clone(),
            role: Role::Tool,
            content: ProjectedContent::ToolResult(results[k].1.duplicate()),
        };
        assert(message@ == tail[k as int]);
        output.push(message);
        k += 1;
        assert(data::views(output@) =~= before.push(tail[k - 1]));
        assert(shown.take(k + 1) =~= shown.take(k as int).push(shown[k as int]));
    }
    assert(shown.take(k + 1) =~= shown);
    Ok(Some((output, cursor)))
}

/// A message on its own, as a provider is shown it.
fn project_message(message: &CanonicalMessage) -> (r: ProjectedMessage)
    ensures
        r@ == alone(message@),
{
    let content = match &message.content {
        MessageContent::Parts { parts } => ProjectedContent::Parts(data::duplicate_all(parts)),
        MessageContent::Assistant {
            text,
            thinking,
            replay_state,
            tool_calls,
            ..
        } => ProjectedContent::Assistant {
            text: text.clone(),
            thinking: thinking.clone(),
            replay_state: data::duplicate_option(replay_state),
            calls: data::duplicate_all(tool_calls),
        },
        MessageContent::ToolResult(result) => ProjectedContent::ToolResult(result.duplicate()),
    };
    ProjectedMessage { message_id: message.message_id.clone(), role: message.role, content }
}

/// A conversation as a provider is shown it: the messages of a tool round are merged into one
/// assistant message, whose calls stand in the order of their indices, and its results. Fails where
/// a round repeats provider state, answers a call twice or leaves one unanswered.
pub fn project_messages(messages: &[CanonicalMessage]) -> (r: Result<Vec<ProjectedMessage>, Error>)
    ensures
        match r {
            Ok(out) => projection(data::views(messages@)) == Ok::<
                Seq<ProjectedMessageView>,
                ErrorView,
            >(data::views(out@)),
            Err(error) => projection(data::views(messages@)) == Err::<
                Seq<ProjectedMessageView>,
                ErrorView,
            >(error@),
        },
{
    broadcast use crate::data::group_views;

    let ghost all = data::views(messages@);
    let mut projected: Vec<ProjectedMessage> = Vec::new();
    let mut index: usize = 0;
    proof {
        if let Ok(rest) = projection(all) {
            assert(data::views(projected@) + rest =~= rest);
        }
    }
    while index < messages.len()
        invariant
            index <= messages@.len(),
            all == data::views(messages@),
            match projection_from(all, index as int) {
                Ok(rest) => projection(all) == Ok::<Seq<ProjectedMessageView>, ErrorView>(
                    data::views(projected@) + rest,
                ),
                Err(error) => projection(all) == Err::<Seq<ProjectedMessageView>, ErrorView>(error),
            },
        decreases messages@.len() - index,
    {
        let ghost before = data::views(projected@);
        match project_tool_round(messages, index) {
            Err(error) => {
                return Err(error);
            },
            Ok(Some((group, next))) => {
                let mut more = group;
                let ghost added = data::views(more@);
                projected.append(&mut more);
                assert(data::views(projected@) =~= before + added);
                proof {
                    if let Ok(rest) = projection_from(all, next as int) {
                        assert(before + (added + rest) =~= (before + added) + rest);
                    }
                }
                index = next;
            },
            Ok(None) => {
                projected.push(project_message(&messages[index]));
                let ghost one = alone(all[index as int]);
                assert(data::views(projected@) =~= before.push(one));
                proof {
                    if let Ok(rest) = projection_from(all, index + 1) {
                        assert(before + (seq![one] + rest) =~= before.push(one) + rest);
                    }
                }
                index += 1;
            },
        }
    }
    proof {
        assert(data::views(projected@) + Seq::<ProjectedMessageView>::empty() =~= data::views(
            projected@,
        ));
    }
    Ok(projected)
}

/// The word for a role in a history to compact.
pub open spec fn role_word(role: Role) -> Seq<char> {
    match role {
        Role::User => "user"@,
        Role::Assistant => "assistant"@,
        Role::System => "system"@,
        Role::Tool => "tool"@,
    }
}

/// The piece of a history line for a labelled text: nothing where the text is blank.
pub open spec fn labelled(label: Seq<char>, content: Seq<char>) -> Seq<Seq<char>> {
    if text::blank(content) {
        Seq::empty()
    } else {
        seq![label + text::trimmed(content)]
    }
}

/// The pieces of a history line for an assistant message.
pub open spec fn assistant_pieces(
    content: Seq<char>,
    thinking: Seq<char>,
    calls: Seq<ToolCallContentView>,
) -> Seq<Seq<char>> {
    labelled("assistant="@, content) + labelled("thinking="@, thinking) + calls.map_values(
        |call: ToolCallContentView| "tool_call="@ + call.name,
    )
}

/// Most bytes of a tool result that a history to compact shows.
pub const RESULT_SUMMARY_BYTES: usize = 300;

/// A tool result in a history to compact: cut behind the last character that fits.
pub open spec fn result_summary(content: Seq<char>) -> Seq<char> {
    let shown = text::trimmed(content);
    if text::utf8_len(shown) > RESULT_SUMMARY_BYTES {
        text::prefix_within(shown, RESULT_SUMMARY_BYTES as nat) + "..."@
    } else if shown.len() == 0 {
        "completed"@
    } else {
        shown
    }
}

/// What a history to compact says of a message, if anything.
pub open spec fn history_entry(message: CanonicalMessageView) -> Option<Seq<char>> {
    match message.content {
        MessageContentView::Parts { parts } => if text::blank(message::parts_text(parts)) {
            None
        } else {
            Some(role_word(message.role) + "="@ + text::trimmed(message::parts_text(parts)))
        },
        MessageContentView::Assistant { text, thinking, tool_calls, .. } => {
            let pieces = assistant_pieces(text, thinking, tool_calls);
            if pieces.len() == 0 {
                None
            } else {
                Some(text::joined(pieces, " | "@))
            }
        },
        MessageContentView::ToolResult(result) => Some(
            (if result.name.len() == 0 {
                "tool_result"@
            } else {
                result.name
            }) + "="@ + result_summary(result.content),
        ),
    }
}

/// The numbered lines of a history to compact. Messages that it says nothing of get no number.
pub open spec fn history_lines(messages: Seq<CanonicalMessageView>) -> Seq<Seq<char>>
    decreases messages.len(),
{
    if messages.len() == 0 {
        Seq::empty()
    } else {
        let before = history_lines(messages.drop_last());
        match history_entry(messages.last()) {
            Some(entry) => before.push(text::decimal(before.len() + 1) + ". "@ + entry),
            None => before,
        }
    }
}

/// The text that asks a model to compact these messages.
pub open spec fn compaction_text(messages: Seq<CanonicalMessageView>) -> Seq<char> {
    let lines = history_lines(messages);
    if messages.len() == 0 {
        "History to compact:\n(empty conversation)\n\nReturn only the replacement summary text."@
    } else if lines.len() == 0 {
        "Return only the replacement summary text."@
    } else {
        "History to compact:\n"@ + text::joined(lines, "\n"@) + "\n\n"@
            + "Return only the replacement summary text."@
    }
}

/// The one message that asks a model to compact these messages.
pub open spec fn compaction_input(messages: Seq<CanonicalMessageView>) -> ProjectedMessageView {
    ProjectedMessageView {
        message_id: "compaction:input"@,
        role: Role::User,
        content: ProjectedContentView::Parts(
            seq![ContentPartView::Text { text: compaction_text(messages) }],
        ),
    }
}

fn push_labelled(pieces: &mut Vec<String>, label: &str, content: &str)
    ensures
        data::views(final(pieces)@) == data::views(old(pieces)@) + labelled(label@, content@),
{
    let ghost before = data::views(pieces@);
    if !text::is_blank(content) {
        let mut piece = label.to_owned();
        let shown = text::trim(content);
        piece.append(shown.as_str());
        pieces.push(piece);
        assert(data::views(pieces@) =~= before + labelled(label@, content@));
    } else {
        assert(data::views(pieces@) =~= before + labelled(label@, content@));
    }
}

fn describe_assistant(content: &str, thinking: &str, calls: &Vec<ToolCallContent>) -> (r: Vec<
    String,
>)
    ensures
        data::views(r@) == assistant_pieces(content@, thinking@, data::views(calls@)),
{
    let ghost all = data::views(calls@).map_values(
        |call: ToolCallContentView| "tool_call="@ + call.name,
    );
    let mut pieces: Vec<String> = Vec::new();
    push_labelled(&mut pieces, "assistant=", content);
    push_labelled(&mut pieces, "thinking=", thinking);
    let ghost head = labelled("assistant="@, content@) + labelled("thinking="@, thinking@);
    assert(data::views(pieces@) =~= head);
    let mut i: usize = 0;
    assert(head + all.take(0) =~= head);
    while i < calls.len()
        invariant
            i <= calls@.len(),
            all == data::views(calls@).map_values(
                |call: ToolCallContentView| "tool_call="@ + call.name,
            ),
            data::views(pieces@) == head + all.take(i as int),
        decreases calls@.len() - i,
    {
        let ghost before = data::views(pieces@);
        let mut piece = "tool_call=".to_owned();
        piece.append(calls[i].name.as_str());
        pieces.push(piece);
        assert(piece@ == all[i as int]);
        assert(data::views(pieces@) =~= before.push(piece@));
        i += 1;
        assert(head + all.take(i as int) =~= before.push(all[i - 1]));
    }
    assert(all.take(i as int) =~= all);
    pieces
}

fn summarize_result(content: &str) -> (r: String)
    ensures
        r@ == result_summary(content@),
{
    let shown = text::trim(content);
    if text::byte_len(shown.as_str()) > RESULT_SUMMARY_BYTES {
        let chars = text::to_chars(shown.as_str());
        let end: usize = text::prefix_end(&chars, RESULT_SUMMARY_BYTES);
        let mut out = text::slice(&chars, 0, end);
        assert(chars@.subrange(0, end as int) =~= chars@.take(end as int));
        out.append("...");
        out
    } else if shown.as_str().is_empty() {
        "completed".to_owned()
    } else {
        shown
    }
}

fn describe_message(message: &CanonicalMessage) -> (r: Option<String>)
    ensures
        data::option_view(r) == history_entry(message@),
{
    match &message.content {
        MessageContent::Parts { parts } => {
            let content = message::concat_parts(parts);
            if text::is_blank(content.as_str()) {
                return None;
            }
            let word = match message.role {
                Role::User => "user",
                Role::Assistant => "assistant",
                Role::System => "system",
                Role::Tool => "tool",
            };
            let mut out = word.to_owned();
            out.append("=");
            let shown = text::trim(content.as_str());
            out.append(shown.as_str());
            Some(out)
        },
        MessageContent::Assistant { text, thinking, tool_calls, .. } => {
            let pieces = describe_assistant(text.as_str(), thinking.as_str(), tool_calls);
            if pieces.len() == 0 {
                None
            } else {
                Some(text::join(&pieces, " | "))
            }
        },
        MessageContent::ToolResult(result) => {
            let mut out = if result.name.as_str().is_empty() {
                "tool_result".to_owned()
            } else {
                result.name.clone()
            };
            out.append("=");
            let shown = summarize_result(result.content.as_str());
            out.append(shown.as_str());
            Some(out)
        },
    }
}

fn describe_history(messages: &[CanonicalMessage]) -> (r: Vec<String>)
    ensures
        data::views(r@) == history_lines(data::views(messages@)),
{
    let ghost all = data::views(messages@);
    let mut lines: Vec<String> = Vec::new();
    let mut i: usize = 0;
    assert(all.take(0) =~= Seq::empty());
    assert(data::views(lines@) =~= Seq::empty());
    while i < messages.len()
        invariant
            i <= messages@.len(),
            all == data::views(messages@),
            data::views(lines@) == history_lines(all.take(i as int)),
            lines@.len() <= i,
        decreases messages@.len() - i,
    {
        let ghost before = data::views(lines@);
        if let Some(entry) = describe_message(&messages[i]) {
            let mut line = text::decimal_u64(lines.len() as u64 + 1);
            line.append(". ");
            line.append(entry.as_str());
            lines.push(line);
            assert(data::views(lines@) =~= before.push(line@));
        }
        i += 1;
        assert(all.take(i as int).drop_last() =~= all.take(i - 1));
        assert(all.take(i as int).last() == messages@[i - 1]@);
    }
    assert(all.take(i as int) =~= all);
    lines
}

/// The one message that asks a model to compact these messages: a numbered history and the request
/// for a summary. It never fails.
pub fn project_compaction_messages(messages: &[CanonicalMessage]) -> (r: Result<
    Vec<ProjectedMessage>,
    Error,
>)
    ensures
        r is Ok,
        data::views(r->Ok_0@) == seq![compaction_input(data::views(messages@))],
{
    let content = if messages.len() == 0 {
        "History to compact:\n(empty conversation)\n\nReturn only the replacement summary text.".to_owned()
    } else {
        let lines = describe_history(messages);
        if lines.len() > 0 {
            let mut out = "History to compact:\n".to_owned();
            let body = text::join(&lines, "\n");
            out.append(body.as_str());
            out.append("\n\n");
            out.append("Return only the replacement summary text.");
            out
        } else {
            "Return only the replacement summary text.".to_owned()
        }
    };
    assert(content@ =~= compaction_text(data::views(messages@)));
    let mut parts: Vec<ContentPart> = Vec::new();
    parts.push(ContentPart::Text { text: content });
    assert(data::views(parts@) =~= seq![ContentPartView::Text { text: content@ }]);
    let mut out: Vec<ProjectedMessage> = Vec::new();
    out.push(
        ProjectedMessage {
            message_id: "compaction:input".to_owned(),
            role: Role::User,
            content: ProjectedContent::Parts(parts),
        },
    );
    assert(data::views(out@) =~= seq![compaction_input(data::views(messages@))]);
    Ok(out)
}

/// A conversation without tool rounds is shown message by message.
pub proof fn law_plain_messages_are_shown_alone(messages: Seq<CanonicalMessageView>, index: int)
    requires
        0 <= index <= messages.len(),
        forall|i: int| index <= i < messages.len() ==> round_of(#[trigger] messages[i]) is None,
    ensures
        projection_from(messages, index) == Ok::<Seq<ProjectedMessageView>, ErrorView>(
            messages.skip(index).map_values(|m: CanonicalMessageView| alone(m)),
        ),
    decreases messages.len() - index,
{
    let shown = messages.skip(index).map_values(|m: CanonicalMessageView| alone(m));
    if index < messages.len() {
        law_plain_messages_are_shown_alone(messages, index + 1);
        let rest = messages.skip(index + 1).map_values(|m: CanonicalMessageView| alone(m));
        assert(seq![alone(messages[index])] + rest =~= shown);
        assert(round_of(messages[index]) is None);
    } else {
        assert(shown =~= Seq::empty());
    }
}

/// A message that begins no tool round is shown as one message, with its id, its role and what it
/// holds.
pub proof fn law_message_is_shown_as_it_is(message: CanonicalMessageView)
    requires
        round_of(message) is None,
    ensures
        projection(seq![message]) == Ok::<Seq<ProjectedMessageView>, ErrorView>(
            seq![alone(message)],
        ),
        alone(message).message_id == message.message_id,
        alone(message).role == message.role,
{
    law_plain_messages_are_shown_alone(seq![message], 0);
    assert(seq![message].skip(0).map_values(|m: CanonicalMessageView| alone(m)) =~= seq![
        alone(message),
    ]);
}

/// No two results answer the same call.
pub open spec fn answers_once(results: Seq<(Seq<char>, ToolResultContentView)>) -> bool {
    forall|i: int, j: int|
        0 <= i < j < results.len() ==> (#[trigger] results[i]).1.call_id != (
        #[trigger] results[j]).1.call_id
}

proof fn lemma_collect_results_answers_once(messages: Seq<CanonicalMessageView>, round: RoundView)
    requires
        answers_once(round.results),
    ensures
        collect_results(messages, round) matches Ok(next) ==> answers_once(next.results),
    decreases messages.len() - round.cursor,
{
    if 0 <= round.cursor < messages.len() {
        if let MessageContentView::ToolResult(result) = messages[round.cursor].content {
            if calls_have(round.calls, result.call_id) && !results_have(
                round.results,
                result.call_id,
            ) {
                let next = RoundView {
                    cursor: round.cursor + 1,
                    results: round.results.push((messages[round.cursor].message_id, result)),
                    ..round
                };
                assert forall|i: int, j: int| 0 <= i < j < next.results.len() implies (
                #[trigger] next.results[i]).1.call_id != (#[trigger] next.results[j]).1.call_id by {
                    assert(next.results[i] == round.results[i]);
                    if j < round.results.len() {
                        assert(next.results[j] == round.results[j]);
                    }
                }
                lemma_collect_results_answers_once(messages, next);
            }
        }
    }
}

proof fn lemma_collect_round_answers_once(
    messages: Seq<CanonicalMessageView>,
    group: Seq<char>,
    round: RoundView,
)
    requires
        answers_once(round.results),
    ensures
        collect_round(messages, group, round) matches Ok(next) ==> answers_once(next.results),
    decreases messages.len() - round.cursor,
{
    if in_round(messages, round.cursor, group) {
        let message = messages[round.cursor];
        let extended = with_assistant(round, message);
        if !repeats_replay(round, message) {
            lemma_collect_results_answers_once(messages, extended);
            if let Ok(next) = collect_results(messages, extended) {
                if round.cursor < next.cursor <= messages.len() {
                    lemma_collect_round_answers_once(messages, group, next);
                }
            }
        }
    }
}

proof fn lemma_none_unanswered(
    calls: Seq<ToolCallContentView>,
    results: Seq<(Seq<char>, ToolResultContentView)>,
    i: int,
)
    requires
        first_unanswered(calls, results) is None,
        0 <= i < calls.len(),
    ensures
        results_have(results, calls[i].call_id),
    decreases calls.len(),
{
    if i > 0 {
        lemma_none_unanswered(calls.drop_first(), results, i - 1);
        assert(calls.drop_first()[i - 1] == calls[i]);
    }
}

/// A tool round is shown as an assistant message that calls tools in the order of their indices,
/// followed by results only; each call is answered by one of them, and no call by two.
pub proof fn law_every_call_is_answered_once(messages: Seq<CanonicalMessageView>, start: int)
    requires
        0 <= start < messages.len(),
        tool_round_at(messages, start) is Ok,
        tool_round_at(messages, start)->Ok_0 is Some,
    ensures
        ({
            let found = tool_round_at(messages, start)->Ok_0->0;
            let shown = found.0;
            &&& shown.len() > 0
            &&& shown[0].content matches ProjectedContentView::Assistant { calls, .. } && ordered(
                calls,
            ) && (forall|i: int|
                0 <= i < calls.len() ==> exists|j: int|
                    1 <= j < shown.len() && ((#[trigger] shown[j]).content
                        matches ProjectedContentView::ToolResult(result) && result.call_id == (
                    #[trigger] calls[i]).call_id))
            &&& forall|j: int|
                1 <= j < shown.len() ==> (#[trigger] shown[j]).content is ToolResult
            &&& forall|i: int, j: int|
                1 <= i < j < shown.len() ==> (
                #[trigger] shown[i]).content->ToolResult_0.call_id != (
                #[trigger] shown[j]).content->ToolResult_0.call_id
        }),
{
    let group = round_of(messages[start])->0;
    let round = collect_round(messages, group, empty_round(start))->Ok_0;
    lemma_collect_round_answers_once(messages, group, empty_round(start));
    law_calls_are_reordered_only(round.calls);
    let calls = by_index(round.calls);
    let shown = shown_round(messages[start].message_id, round);
    assert forall|j: int| 1 <= j < shown.len() implies #[trigger] shown[j] == shown_result(
        round.results[j - 1],
    ) by {}
    assert forall|i: int| 0 <= i < calls.len() implies exists|j: int|
        1 <= j < shown.len() && ((#[trigger] shown[j]).content
            matches ProjectedContentView::ToolResult(result) && result.call_id == (
        #[trigger] calls[i]).call_id) by {
        lemma_none_unanswered(calls, round.results, i);
        let k = choose|k: int|
            0 <= k < round.results.len() && #[trigger] round.results[k].1.call_id
                == calls[i].call_id;
        assert(shown[k + 1].content is ToolResult);
    }
    assert forall|i: int, j: int| 1 <= i < j < shown.len() implies (
    #[trigger] shown[i]).content->ToolResult_0.call_id != (
    #[trigger] shown[j]).content->ToolResult_0.call_id by {
        assert(shown[i] == shown_result(round.results[i - 1]));
        assert(shown[j] == shown_result(round.results[j - 1]));
    }
}

/// Whether a message stands by itself: it calls no tools as part of a tool round.
pub open spec fn stands_alone(message: CanonicalMessageView) -> bool {
    message.content is Assistant ==> message.content->tool_round_id is None
        || message.content->tool_calls.len() == 0
}

/// A conversation without tool rounds is shown whole and in its order: each message with its id, its
/// role and everything that it says.
pub proof fn law_plain_conversation_is_shown_whole(messages: Seq<CanonicalMessageView>)
    requires
        forall|i: int| 0 <= i < messages.len() ==> stands_alone(#[trigger] messages[i]),
    ensures
        projection(messages) is Ok,
        projection(messages)->Ok_0.len() == messages.len(),
        forall|i: int|
            0 <= i < messages.len() ==> {
                let shown = #[trigger] projection(messages)->Ok_0[i];
                &&& shown.message_id == messages[i].message_id
                &&& shown.role == messages[i].role
                &&& match messages[i].content {
                    MessageContentView::Parts { parts } => shown.content
                        == ProjectedContentView::Parts(parts),
                    MessageContentView::Assistant {
                        text,
                        thinking,
                        replay_state,
                        tool_calls,
                        ..
                    } => {
                        &&& shown.content is Assistant
                        &&& shown.content->text == text
                        &&& shown.content->thinking == thinking
                        &&& shown.content->replay_state == replay_state
                        &&& shown.content->calls == tool_calls
                    },
                    MessageContentView::ToolResult(result) => shown.content
                        == ProjectedContentView::ToolResult(result),
                }
            },
{
    assert forall|i: int| 0 <= i < messages.len() implies round_of(
        #[trigger] messages[i],
    ) is None by {
        assert(stands_alone(messages[i]));
    }
    law_plain_messages_are_shown_alone(messages, 0);
    assert(messages.skip(0) =~= messages);
}

/// What an assistant said in a message; nothing where the message is no assistant's.
pub open spec fn said_in(message: CanonicalMessageView) -> Seq<char> {
    if message.content is Assistant {
        message.content->Assistant_text
    } else {
        Seq::empty()
    }
}

/// What an assistant thought in a message; nothing where the message is no assistant's.
pub open spec fn thought_in(message: CanonicalMessageView) -> Seq<char> {
    if message.content is Assistant {
        message.content->thinking
    } else {
        Seq::empty()
    }
}

/// The tools that an assistant called in a message; none where the message is no assistant's.
pub open spec fn called_in(message: CanonicalMessageView) -> Seq<ToolCallContentView> {
    if message.content is Assistant {
        message.content->tool_calls
    } else {
        Seq::empty()
    }
}

/// The messages that hold results.
pub open spec fn results_among(messages: Seq<CanonicalMessageView>) -> Seq<CanonicalMessageView> {
    messages.filter(|m: CanonicalMessageView| m.content is ToolResult)
}

/// What has been collected is what the messages from `start` on hold.
spec fn holds_all(messages: Seq<CanonicalMessageView>, start: int, round: RoundView) -> bool {
    let part = messages.subrange(start, round.cursor);
    let results = results_among(part);
    &&& 0 <= start <= round.cursor <= messages.len()
    &&& round.text == part.map_values(|m: CanonicalMessageView| said_in(m)).flatten()
    &&& round.thinking == part.map_values(|m: CanonicalMessageView| thought_in(m)).flatten()
    &&& round.calls == part.map_values(|m: CanonicalMessageView| called_in(m)).flatten()
    &&& round.results.len() == results.len()
    &&& forall|i: int|
        0 <= i < results.len() ==> (#[trigger] results[i]).message_id == round.results[i].0
            && results[i].content == MessageContentView::ToolResult(round.results[i].1)
    &&& forall|i: int|
        0 <= i < part.len() && (#[trigger] part[i]).content is Assistant
            && part[i].content->replay_state is Some ==> round.replay_state
            == part[i].content->replay_state
    &&& round.replay_state is Some ==> exists|i: int|
        0 <= i < part.len() && (#[trigger] part[i]).content is Assistant
            && part[i].content->replay_state == round.replay_state
    &&& forall|i: int|
        0 <= i < part.len() ==> (#[trigger] part[i]).content is Assistant
            || part[i].content is ToolResult
}

proof fn lemma_part_grows(messages: Seq<CanonicalMessageView>, start: int, cursor: int)
    requires
        0 <= start <= cursor < messages.len(),
    ensures
        ({
            let part = messages.subrange(start, cursor);
            let more = messages.subrange(start, cursor + 1);
            let next = messages[cursor];
            &&& more == part.push(next)
            &&& more.map_values(|m: CanonicalMessageView| said_in(m)).flatten()
                == part.map_values(|m: CanonicalMessageView| said_in(m)).flatten() + said_in(next)
            &&& more.map_values(|m: CanonicalMessageView| thought_in(m)).flatten()
                == part.map_values(|m: CanonicalMessageView| thought_in(m)).flatten() + thought_in(
                next,
            )
            &&& more.map_values(|m: CanonicalMessageView| called_in(m)).flatten()
                == part.map_values(|m: CanonicalMessageView| called_in(m)).flatten() + called_in(
                next,
            )
            &&& results_among(more) == (if next.content is ToolResult {
                results_among(part).push(next)
            } else {
                results_among(part)
            })
        }),
{
    let part = messages.subrange(start, cursor);
    let more = messages.subrange(start, cursor + 1);
    let next = messages[cursor];
    assert(more =~= part.push(next));
    assert(more.map_values(|m: CanonicalMessageView| said_in(m)) =~= part.map_values(
        |m: CanonicalMessageView| said_in(m),
    ).push(said_in(next)));
    part.map_values(|m: CanonicalMessageView| said_in(m)).lemma_flatten_push(said_in(next));
    assert(more.map_values(|m: CanonicalMessageView| thought_in(m)) =~= part.map_values(
        |m: CanonicalMessageView| thought_in(m),
    ).push(thought_in(next)));
    part.map_values(|m: CanonicalMessageView| thought_in(m)).lemma_flatten_push(thought_in(next));
    assert(more.map_values(|m: CanonicalMessageView| called_in(m)) =~= part.map_values(
        |m: CanonicalMessageView| called_in(m),
    ).push(called_in(next)));
    part.map_values(|m: CanonicalMessageView| called_in(m)).lemma_flatten_push(called_in(next));
    reveal(Seq::filter);
    assert(more.drop_last() =~= part);
    assert(more.last() == next);
}

proof fn lemma_results_hold_all(messages: Seq<CanonicalMessageView>, start: int, round: RoundView)
    requires
        holds_all(messages, start, round),
    ensures
        collect_results(messages, round) matches Ok(next) ==> holds_all(messages, start, next)
            && round.cursor <= next.cursor && next.calls == round.calls && !(next.cursor
            < messages.len() && messages[next.cursor].content is ToolResult && calls_have(
            next.calls,
            messages[next.cursor].content->ToolResult_0.call_id,
        )),
    decreases messages.len() - round.cursor,
{
    if round.cursor < messages.len() {
        if let MessageContentView::ToolResult(result) = messages[round.cursor].content {
            if calls_have(round.calls, result.call_id) && !results_have(
                round.results,
                result.call_id,
            ) {
                let next = RoundView {
                    cursor: round.cursor + 1,
                    results: round.results.push((messages[round.cursor].message_id, result)),
                    ..round
                };
                lemma_part_grows(messages, start, round.cursor);
                let part = messages.subrange(start, round.cursor);
                let more = messages.subrange(start, round.cursor + 1);
                assert(round.text + Seq::<char>::empty() =~= round.text);
                assert(round.thinking + Seq::<char>::empty() =~= round.thinking);
                assert(round.calls + Seq::<ToolCallContentView>::empty() =~= round.calls);
                assert forall|i: int| 0 <= i < results_among(more).len() implies (
                #[trigger] results_among(more)[i]).message_id == next.results[i].0
                    && results_among(more)[i].content == MessageContentView::ToolResult(
                    next.results[i].1,
                ) by {
                    if i < results_among(part).len() {
                        assert(results_among(more)[i] == results_among(part)[i]);
                    }
                }
                assert forall|i: int|
                    0 <= i < more.len() && (#[trigger] more[i]).content is Assistant
                        && more[i].content->replay_state is Some implies next.replay_state
                    == more[i].content->replay_state by {
                    assert(more[i] == part[i]);
                }
                if next.replay_state is Some {
                    let i = choose|i: int|
                        0 <= i < part.len() && (#[trigger] part[i]).content is Assistant
                            && part[i].content->replay_state == round.replay_state;
                    assert(more[i].content is Assistant);
                }
                assert forall|i: int| 0 <= i < more.len() implies (
                #[trigger] more[i]).content is Assistant || more[i].content is ToolResult by {
                    if i < part.len() {
                        assert(more[i] == part[i]);
                    }
                }
                lemma_results_hold_all(messages, start, next);
            }
        }
    }
}

proof fn lemma_round_holds_all(
    messages: Seq<CanonicalMessageView>,
    start: int,
    group: Seq<char>,
    round: RoundView,
)
    requires
        holds_all(messages, start, round),
        !(round.cursor < messages.len() && messages[round.cursor].content is ToolResult
            && calls_have(round.calls, messages[round.cursor].content->ToolResult_0.call_id)),
    ensures
        collect_round(messages, group, round) matches Ok(next) ==> holds_all(messages, start, next)
            && !in_round(messages, next.cursor, group) && !(next.cursor < messages.len()
            && messages[next.cursor].content is ToolResult && calls_have(
            next.calls,
            messages[next.cursor].content->ToolResult_0.call_id,
        )),
    decreases messages.len() - round.cursor,
{
    if in_round(messages, round.cursor, group) {
        let message = messages[round.cursor];
        if !repeats_replay(round, message) {
            let extended = with_assistant(round, message);
            lemma_part_grows(messages, start, round.cursor);
            let part = messages.subrange(start, round.cursor);
            let more = messages.subrange(start, round.cursor + 1);
            assert forall|i: int| 0 <= i < results_among(more).len() implies (
            #[trigger] results_among(more)[i]).message_id == extended.results[i].0
                && results_among(more)[i].content == MessageContentView::ToolResult(
                extended.results[i].1,
            ) by {
                assert(results_among(more)[i] == results_among(part)[i]);
            }
            assert forall|i: int|
                0 <= i < more.len() && (#[trigger] more[i]).content is Assistant
                    && more[i].content->replay_state is Some implies extended.replay_state
                == more[i].content->replay_state by {
                if i < part.len() {
                    assert(more[i] == part[i]);
                    assert(part[i].content is Assistant);
                }
            }
            if extended.replay_state is Some {
                if round.replay_state is Some {
                    let i = choose|i: int|
                        0 <= i < part.len() && (#[trigger] part[i]).content is Assistant
                            && part[i].content->replay_state == round.replay_state;
                    assert(more[i].content is Assistant);
                } else {
                    assert(more[part.len() as int].content is Assistant);
                }
            }
            assert forall|i: int| 0 <= i < more.len() implies (#[trigger] more[i]).content is Assistant
                || more[i].content is ToolResult by {
                if i < part.len() {
                    assert(more[i] == part[i]);
                }
            }
            lemma_results_hold_all(messages, start, extended);
            if let Ok(next) = collect_results(messages, extended) {
                lemma_round_holds_all(messages, start, group, next);
            }
        }
    }
}

/// A tool round is shown as what its messages hold, taken together: the assistant's words are those of
/// the assistant messages of the round, one after the other, and so are the thoughts; all their calls
/// are shown, in the order of their indices; the results follow as they are stored, in their order. The
/// round ends where neither another message of it nor another of its results follows.
pub proof fn law_tool_round_holds_its_messages(messages: Seq<CanonicalMessageView>, start: int)
    requires
        0 <= start < messages.len(),
        tool_round_at(messages, start) is Ok,
        tool_round_at(messages, start)->Ok_0 is Some,
    ensures
        ({
            let (shown, next) = tool_round_at(messages, start)->Ok_0->0;
            let part = messages.subrange(start, next);
            let results = results_among(part);
            let calls = part.map_values(|m: CanonicalMessageView| called_in(m)).flatten();
            let first = shown[0].content;
            &&& start < next <= messages.len()
            &&& shown.len() == 1 + results.len()
            &&& shown[0].message_id == messages[start].message_id
            &&& shown[0].role == Role::Assistant
            &&& first is Assistant
            &&& first->text == part.map_values(|m: CanonicalMessageView| said_in(m)).flatten()
            &&& first->thinking == part.map_values(
                |m: CanonicalMessageView| thought_in(m),
            ).flatten()
            &&& first->calls.to_multiset() == calls.to_multiset()
            &&& forall|i: int, j: int|
                0 <= i <= j < first->calls.len() ==> (#[trigger] first->calls[i]).index <= (
                #[trigger] first->calls[j]).index
            &&& forall|i: int|
                0 <= i < part.len() && (#[trigger] part[i]).content is Assistant
                    && part[i].content->replay_state is Some ==> first->replay_state
                    == part[i].content->replay_state
            &&& first->replay_state is Some ==> exists|i: int|
                0 <= i < part.len() && (#[trigger] part[i]).content is Assistant
                    && part[i].content->replay_state == first->replay_state
            &&& forall|i: int|
                0 <= i < results.len() ==> {
                    &&& (#[trigger] shown[i + 1]).message_id == results[i].message_id
                    &&& shown[i + 1].role == Role::Tool
                    &&& shown[i + 1].content is ToolResult
                    &&& results[i].content == MessageContentView::ToolResult(
                        shown[i + 1].content->ToolResult_0,
                    )
                }
            &&& forall|i: int|
                0 <= i < part.len() ==> (#[trigger] part[i]).content is Assistant
                    || part[i].content is ToolResult
            &&& next < messages.len() && messages[next].content is Assistant
                && messages[next].content->tool_calls.len() > 0
                ==> messages[next].content->tool_round_id
                != messages[start].content->tool_round_id
            &&& next < messages.len() && messages[next].content is ToolResult ==> !calls_have(
                calls,
                messages[next].content->ToolResult_0.call_id,
            )
        }),
{
    let group = round_of(messages[start])->0;
    let empty = empty_round(start);
    let part = messages.subrange(start, start);
    assert(part =~= Seq::empty());
    assert(part.map_values(|m: CanonicalMessageView| said_in(m)) =~= Seq::empty());
    assert(part.map_values(|m: CanonicalMessageView| thought_in(m)) =~= Seq::empty());
    assert(part.map_values(|m: CanonicalMessageView| called_in(m)) =~= Seq::empty());
    reveal(Seq::filter);
    assert(results_among(part) =~= Seq::empty());
    assert(holds_all(messages, start, empty));
    lemma_round_holds_all(messages, start, group, empty);
    lemma_collect_round_moves(messages, group, empty);
    let round = collect_round(messages, group, empty)->Ok_0;
    law_calls_are_reordered_only(round.calls);
    let shown = shown_round(messages[start].message_id, round);
    let results = results_among(messages.subrange(start, round.cursor));
    assert forall|i: int| 0 <= i < results.len() implies {
        &&& (#[trigger] shown[i + 1]).message_id == results[i].message_id
        &&& shown[i + 1].role == Role::Tool
        &&& shown[i + 1].content is ToolResult
        &&& results[i].content == MessageContentView::ToolResult(
            shown[i + 1].content->ToolResult_0,
        )
    } by {
        assert(shown[i + 1] == shown_result(round.results[i]));
    }
}

/// A round of one assistant message and the results right behind it, one for each of its calls, can
/// be shown: what the assistant said, thought and called is that of the message, and the results
/// are those that are stored.
pub proof fn law_simple_round_is_shown(messages: Seq<CanonicalMessageView>, start: int, count: int)
    requires
        0 <= start,
        1 <= count,
        start + 1 + count <= messages.len(),
        messages[start].content is Assistant,
        messages[start].content->tool_round_id is Some,
        messages[start].content->tool_calls.len() > 0,
        forall|i: int|
            start < i <= start + count ==> (#[trigger] messages[i]).content is ToolResult
                && calls_have(
                messages[start].content->tool_calls,
                messages[i].content->ToolResult_0.call_id,
            ),
        forall|i: int, j: int|
            start < i < j <= start + count ==> (
            #[trigger] messages[i]).content->ToolResult_0.call_id != (
            #[trigger] messages[j]).content->ToolResult_0.call_id,
        forall|k: int|
            0 <= k < messages[start].content->tool_calls.len() ==> exists|i: int|
                start < i <= start + count && (
                #[trigger] messages[i]).content->ToolResult_0.call_id == (
                #[trigger] messages[start].content->tool_calls[k]).call_id,
        start + 1 + count < messages.len() ==> messages[start + 1 + count].content is Parts,
    ensures
        ({
            let found = tool_round_at(messages, start);
            let (shown, next) = found->Ok_0->0;
            let said = messages[start].content;
            &&& found is Ok
            &&& found->Ok_0 is Some
            &&& next == start + 1 + count
            &&& shown.len() == 1 + count
            &&& shown[0].message_id == messages[start].message_id
            &&& shown[0].content is Assistant
            &&& shown[0].content->text == said->Assistant_text
            &&& shown[0].content->thinking == said->thinking
            &&& shown[0].content->replay_state == said->replay_state
            &&& shown[0].content->calls.to_multiset() == said->tool_calls.to_multiset()
            &&& forall|i: int|
                1 <= i <= count ==> {
                    &&& (#[trigger] shown[i]).message_id == messages[start + i].message_id
                    &&& shown[i].content == ProjectedContentView::ToolResult(
                        messages[start + i].content->ToolResult_0,
                    )
                }
        }),
{
    let group = messages[start].content->tool_round_id->0;
    let empty = empty_round(start);
    let one = with_assistant(empty, messages[start]);
    assert(one.text =~= messages[start].content->Assistant_text);
    assert(one.thinking =~= messages[start].content->thinking);
    assert(one.calls =~= messages[start].content->tool_calls);
    lemma_simple_results(messages, start, count, one);
    let done = collect_results(messages, one)->Ok_0;
    assert(!in_round(messages, done.cursor, group));
    assert(collect_round(messages, group, done) == Ok::<RoundView, ErrorView>(done));
    assert(collect_round(messages, group, empty) == Ok::<RoundView, ErrorView>(done));
    law_calls_are_reordered_only(done.calls);
    let calls = by_index(done.calls);
    assert forall|k: int| 0 <= k < calls.len() implies results_have(
        done.results,
        (#[trigger] calls[k]).call_id,
    ) by {
        done.calls.to_multiset_ensures();
        calls.to_multiset_ensures();
        assert(calls.contains(calls[k]));
        assert(done.calls.to_multiset().count(calls[k]) > 0);
        assert(done.calls.contains(calls[k]));
        let n = choose|n: int| 0 <= n < done.calls.len() && done.calls[n] == calls[k];
        assert(messages[start].content->tool_calls[n] == calls[k]);
        let i = choose|i: int|
            start < i <= start + count && (#[trigger] messages[i]).content->ToolResult_0.call_id
                == messages[start].content->tool_calls[n].call_id;
        assert(done.results[i - start - 1].1.call_id == calls[k].call_id);
    }
    lemma_all_answered(calls, done.results);
    let shown = shown_round(messages[start].message_id, done);
    assert forall|i: int| 1 <= i <= count implies {
        &&& (#[trigger] shown[i]).message_id == messages[start + i].message_id
        &&& shown[i].content == ProjectedContentView::ToolResult(
            messages[start + i].content->ToolResult_0,
        )
    } by {
        assert(shown[i] == shown_result(done.results[i - 1]));
    }
}

proof fn lemma_all_answered(
    calls: Seq<ToolCallContentView>,
    results: Seq<(Seq<char>, ToolResultContentView)>,
)
    requires
        forall|k: int|
            0 <= k < calls.len() ==> results_have(results, (#[trigger] calls[k]).call_id),
    ensures
        first_unanswered(calls, results) is None,
    decreases calls.len(),
{
    if calls.len() > 0 {
        let rest = calls.drop_first();
        assert forall|k: int| 0 <= k < rest.len() implies results_have(
            results,
            (#[trigger] rest[k]).call_id,
        ) by {
            assert(rest[k] == calls[k + 1]);
        }
        lemma_all_answered(rest, results);
        assert(results_have(results, calls[0].call_id));
    }
}

proof fn lemma_simple_results(
    messages: Seq<CanonicalMessageView>,
    start: int,
    count: int,
    round: RoundView,
)
    requires
        0 <= start,
        start + 1 + count <= messages.len(),
        start + 1 <= round.cursor <= start + 1 + count,
        forall|i: int|
            start < i <= start + count ==> (#[trigger] messages[i]).content is ToolResult
                && calls_have(round.calls, messages[i].content->ToolResult_0.call_id),
        forall|i: int, j: int|
            start < i < j <= start + count ==> (
            #[trigger] messages[i]).content->ToolResult_0.call_id != (
            #[trigger] messages[j]).content->ToolResult_0.call_id,
        start + 1 + count < messages.len() ==> messages[start + 1 + count].content is Parts,
        round.results.len() == round.cursor - start - 1,
        forall|i: int|
            0 <= i < round.results.len() ==> #[trigger] round.results[i] == (
                messages[start + 1 + i].message_id,
                messages[start + 1 + i].content->ToolResult_0,
            ),
    ensures
        ({
            let done = collect_results(messages, round);
            &&& done is Ok
            &&& done->Ok_0.cursor == start + 1 + count
            &&& done->Ok_0.results.len() == count
            &&& done->Ok_0.text == round.text
            &&& done->Ok_0.thinking == round.thinking
            &&& done->Ok_0.replay_state == round.replay_state
            &&& done->Ok_0.calls == round.calls
            &&& forall|i: int|
                0 <= i < count ==> #[trigger] done->Ok_0.results[i] == (
                    messages[start + 1 + i].message_id,
                    messages[start + 1 + i].content->ToolResult_0,
                )
        }),
    decreases start + 1 + count - round.cursor,
{
    if round.cursor < start + 1 + count {
        let here = messages[round.cursor];
        let result = here.content->ToolResult_0;
        assert(here.content is ToolResult);
        assert forall|i: int| 0 <= i < round.results.len() implies (
        #[trigger] round.results[i]).1.call_id != result.call_id by {
            assert(messages[start + 1 + i].content->ToolResult_0.call_id
                != messages[round.cursor].content->ToolResult_0.call_id);
        }
        let next = RoundView {
            cursor: round.cursor + 1,
            results: round.results.push((here.message_id, result)),
            ..round
        };
        lemma_simple_results(messages, start, count, next);
    }
}

/// The request to compact a conversation ends by asking for the summary alone.
pub proof fn law_compaction_asks_for_a_summary(messages: Seq<CanonicalMessageView>)
    ensures
        text::ends(compaction_text(messages), "Return only the replacement summary text."@),
{
    let request = "Return only the replacement summary text."@;
    let s = compaction_text(messages);
    reveal_strlit(
        "History to compact:\n(empty conversation)\n\nReturn only the replacement summary text.",
    );
    reveal_strlit("Return only the replacement summary text.");
    let at = s.len() - request.len();
    assert(s.subrange(at, at + request.len()) =~= request);
}

proof fn lemma_history_line(messages: Seq<CanonicalMessageView>, i: int, part: Seq<char>)
    requires
        0 <= i < messages.len(),
        history_entry(messages[i]) is Some,
        text::contains_text(history_entry(messages[i])->0, part),
    ensures
        exists|k: int|
            0 <= k < history_lines(messages).len() && text::contains_text(
                #[trigger] history_lines(messages)[k],
                part,
            ),
    decreases messages.len(),
{
    let before = history_lines(messages.drop_last());
    let lines = history_lines(messages);
    if i < messages.len() - 1 {
        assert(messages.drop_last()[i] == messages[i]);
        lemma_history_line(messages.drop_last(), i, part);
        let k = choose|k: int|
            0 <= k < before.len() && text::contains_text(#[trigger] before[k], part);
        assert(lines[k] == before[k]);
    } else {
        let entry = history_entry(messages[i])->0;
        let number = text::decimal(before.len() + 1) + ". "@;
        text::lemma_contains_within(number, entry, Seq::empty(), part);
        assert(number + entry + Seq::empty() =~= lines.last());
        assert(lines[lines.len() - 1] == lines.last());
    }
}

/// The history to compact tells what every message says: the text of a message, what an assistant
/// said and thought and the names of the tools it called, and the text of a result that is not
/// too long.
pub proof fn law_history_to_compact_tells_everything(messages: Seq<CanonicalMessageView>, i: int)
    requires
        0 <= i < messages.len(),
    ensures
        match messages[i].content {
            MessageContentView::Parts { parts } => text::contains_text(
                compaction_text(messages),
                text::trimmed(message::parts_text(parts)),
            ),
            MessageContentView::Assistant { text, thinking, tool_calls, .. } => {
                &&& text::contains_text(compaction_text(messages), text::trimmed(text))
                &&& text::contains_text(compaction_text(messages), text::trimmed(thinking))
                &&& forall|k: int|
                    0 <= k < tool_calls.len() ==> text::contains_text(
                        compaction_text(messages),
                        (#[trigger] tool_calls[k]).name,
                    )
            },
            MessageContentView::ToolResult(result) => {
                &&& text::contains_text(compaction_text(messages), result.name)
                &&& text::utf8_len(text::trimmed(result.content)) <= 300 ==> text::contains_text(
                    compaction_text(messages),
                    text::trimmed(result.content),
                )
            },
        },
{
    match messages[i].content {
        MessageContentView::Parts { .. } => lemma_parts_are_told(messages, i),
        MessageContentView::Assistant { .. } => {
            lemma_words_are_told(messages, i);
            lemma_thoughts_are_told(messages, i);
            lemma_calls_are_told(messages, i);
        },
        MessageContentView::ToolResult(_) => lemma_result_is_told(messages, i),
    }
}

proof fn lemma_parts_are_told(messages: Seq<CanonicalMessageView>, i: int)
    requires
        0 <= i < messages.len(),
        messages[i].content is Parts,
    ensures
        text::contains_text(
            compaction_text(messages),
            text::trimmed(message::parts_text(messages[i].content->parts)),
        ),
{
    let said = text::trimmed(message::parts_text(messages[i].content->parts));
    if said.len() > 0 {
        let head = role_word(messages[i].role) + "="@;
        lemma_contains_itself(said);
        text::lemma_contains_within(head, said, Seq::empty(), said);
        assert(head + said + Seq::empty() =~= history_entry(messages[i])->0);
        lemma_compaction_tells(messages, i, said);
    } else {
        lemma_contains_nothing(compaction_text(messages), said);
    }
}

proof fn lemma_words_are_told(messages: Seq<CanonicalMessageView>, i: int)
    requires
        0 <= i < messages.len(),
        messages[i].content is Assistant,
    ensures
        text::contains_text(
            compaction_text(messages),
            text::trimmed(messages[i].content->Assistant_text),
        ),
{
    let said = text::trimmed(messages[i].content->Assistant_text);
    if said.len() > 0 {
        lemma_compaction_tells_piece(messages, i, 0, "assistant="@, said);
    } else {
        lemma_contains_nothing(compaction_text(messages), said);
    }
}

proof fn lemma_thoughts_are_told(messages: Seq<CanonicalMessageView>, i: int)
    requires
        0 <= i < messages.len(),
        messages[i].content is Assistant,
    ensures
        text::contains_text(
            compaction_text(messages),
            text::trimmed(messages[i].content->thinking),
        ),
{
    let thought = text::trimmed(messages[i].content->thinking);
    if thought.len() > 0 {
        let first = labelled("assistant="@, messages[i].content->Assistant_text);
        lemma_compaction_tells_piece(messages, i, first.len() as int, "thinking="@, thought);
    } else {
        lemma_contains_nothing(compaction_text(messages), thought);
    }
}

proof fn lemma_calls_are_told(messages: Seq<CanonicalMessageView>, i: int)
    requires
        0 <= i < messages.len(),
        messages[i].content is Assistant,
    ensures
        forall|k: int|
            0 <= k < messages[i].content->tool_calls.len() ==> text::contains_text(
                compaction_text(messages),
                (#[trigger] messages[i].content->tool_calls[k]).name,
            ),
{
    let calls = messages[i].content->tool_calls;
    let first = labelled("assistant="@, messages[i].content->Assistant_text);
    let second = labelled("thinking="@, messages[i].content->thinking);
    assert forall|k: int| 0 <= k < calls.len() implies text::contains_text(
        compaction_text(messages),
        (#[trigger] calls[k]).name,
    ) by {
        lemma_compaction_tells_piece(
            messages,
            i,
            first.len() + second.len() + k,
            "tool_call="@,
            calls[k].name,
        );
    }
}

proof fn lemma_result_is_told(messages: Seq<CanonicalMessageView>, i: int)
    requires
        0 <= i < messages.len(),
        messages[i].content is ToolResult,
    ensures
        text::contains_text(compaction_text(messages), messages[i].content->ToolResult_0.name),
        text::utf8_len(text::trimmed(messages[i].content->ToolResult_0.content)) <= 300
            ==> text::contains_text(
            compaction_text(messages),
            text::trimmed(messages[i].content->ToolResult_0.content),
        ),
{
    let result = messages[i].content->ToolResult_0;
    let shown = text::trimmed(result.content);
    let summary = result_summary(result.content);
    let word = if result.name.len() == 0 {
        "tool_result"@
    } else {
        result.name
    };
    assert(history_entry(messages[i]) == Some(word + "="@ + summary));
    if text::utf8_len(shown) <= 300 && shown.len() > 0 {
        assert(summary == shown);
        lemma_value_is_told(messages, i, word, shown);
    } else if shown.len() == 0 {
        lemma_contains_nothing(compaction_text(messages), shown);
    }
    if result.name.len() > 0 {
        lemma_word_is_told(messages, i, word, summary);
    } else {
        lemma_contains_nothing(compaction_text(messages), result.name);
    }
}

proof fn lemma_value_is_told(
    messages: Seq<CanonicalMessageView>,
    i: int,
    word: Seq<char>,
    value: Seq<char>,
)
    requires
        0 <= i < messages.len(),
        history_entry(messages[i]) == Some(word + "="@ + value),
    ensures
        text::contains_text(compaction_text(messages), value),
{
    let head = word + "="@;
    lemma_contains_itself(value);
    text::lemma_contains_within(head, value, Seq::empty(), value);
    assert(head + value + Seq::empty() =~= head + value);
    lemma_compaction_tells(messages, i, value);
}

proof fn lemma_word_is_told(
    messages: Seq<CanonicalMessageView>,
    i: int,
    word: Seq<char>,
    value: Seq<char>,
)
    requires
        0 <= i < messages.len(),
        history_entry(messages[i]) == Some(word + "="@ + value),
    ensures
        text::contains_text(compaction_text(messages), word),
{
    lemma_contains_itself(word);
    text::lemma_contains_within(Seq::empty(), word, "="@ + value, word);
    assert(Seq::empty() + word + ("="@ + value) =~= word + "="@ + value);
    lemma_compaction_tells(messages, i, word);
}

proof fn lemma_contains_itself(s: Seq<char>)
    ensures
        text::contains_text(s, s),
{
    assert(s.subrange(0, s.len() as int) =~= s);
    assert(text::occurs_at(s, s, 0));
}

proof fn lemma_contains_nothing(s: Seq<char>, part: Seq<char>)
    requires
        part.len() == 0,
    ensures
        text::contains_text(s, part),
{
    assert(s.subrange(0, 0) =~= part);
    assert(text::occurs_at(s, part, 0));
}

proof fn lemma_compaction_tells(messages: Seq<CanonicalMessageView>, i: int, part: Seq<char>)
    requires
        0 <= i < messages.len(),
        history_entry(messages[i]) is Some,
        text::contains_text(history_entry(messages[i])->0, part),
    ensures
        text::contains_text(compaction_text(messages), part),
{
    let lines = history_lines(messages);
    lemma_history_line(messages, i, part);
    let k = choose|k: int| 0 <= k < lines.len() && text::contains_text(#[trigger] lines[k], part);
    text::law_each_piece_is_in_the_text(lines, "\n"@, k);
    let body = text::joined(lines, "\n"@);
    lemma_contains_through(body, lines[k], part);
    let head = "History to compact:\n"@;
    let tail = "\n\n"@ + "Return only the replacement summary text."@;
    text::lemma_contains_within(head, body, tail, part);
    assert(head + body + tail =~= compaction_text(messages));
}

proof fn lemma_contains_through(s: Seq<char>, middle: Seq<char>, part: Seq<char>)
    requires
        text::contains_text(s, middle),
        text::contains_text(middle, part),
    ensures
        text::contains_text(s, part),
{
    let i = choose|i: int| #[trigger] text::occurs_at(s, middle, i);
    let before = s.take(i);
    let after = s.skip(i + middle.len());
    assert(before + middle + after =~= s) by {
        assert(s.subrange(i, i + middle.len()) == middle);
    }
    text::lemma_contains_within(before, middle, after, part);
}

proof fn lemma_compaction_tells_piece(
    messages: Seq<CanonicalMessageView>,
    i: int,
    at: int,
    label: Seq<char>,
    part: Seq<char>,
)
    requires
        0 <= i < messages.len(),
        messages[i].content is Assistant,
        ({
            let pieces = assistant_pieces(
                messages[i].content->Assistant_text,
                messages[i].content->thinking,
                messages[i].content->tool_calls,
            );
            0 <= at < pieces.len() && pieces[at] == label + part
        }),
    ensures
        text::contains_text(compaction_text(messages), part),
{
    let pieces = assistant_pieces(
        messages[i].content->Assistant_text,
        messages[i].content->thinking,
        messages[i].content->tool_calls,
    );
    let entry = history_entry(messages[i])->0;
    text::law_each_piece_is_in_the_text(pieces, " | "@, at);
    lemma_contains_itself(part);
    text::lemma_contains_within(label, part, Seq::empty(), part);
    assert(label + part + Seq::empty() =~= pieces[at]);
    lemma_contains_through(entry, pieces[at], part);
    lemma_compaction_tells(messages, i, part);
}

} // verus!
