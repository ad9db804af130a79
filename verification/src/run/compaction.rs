//! Decides when to compact a conversation, and builds a stable fallback summary.
use crate::data;
use crate::data::Duplicate;
use crate::model::inference::PromptSpecView;
use crate::model::llm_call::LlmCallUsageAnchor;
use crate::model::message::{CanonicalMessage, CanonicalMessageView};
use crate::model::projection::ProjectedMessage;
use crate::model::run::{PreparedRun, PreparedRunView, RunAction};
use crate::model::usage;
use crate::text;
use vstd::prelude::*;

verus! {

/// Most characters of a conversation that the fallback summary keeps.
pub const FALLBACK_CHARS: usize = 12_000;

/// Tokens of the context window that are kept free.
pub const COMPACTION_RESERVE_TOKENS: u64 = 10_000;

/// Most tokens that a summary may take.
pub const OUTPUT_TOKENS: u64 = 4_096;

/// Token usage that a provider reported for a known part of the conversation.
#[derive(Clone, Copy, Debug, PartialEq, Eq, Structural)]
pub struct ContextUsageAnchor {
    pub input_tokens: u64,
    pub message_count: usize,
    pub tool_count: usize,
}

/// What an anchor says, where the provider reported prompt tokens.
pub open spec fn anchor_of(call: LlmCallUsageAnchor) -> Option<ContextUsageAnchor> {
    match usage::prompt_tokens(call.usage) {
        Some(input_tokens) => Some(
            ContextUsageAnchor {
                input_tokens,
                message_count: call.message_count,
                tool_count: call.tool_count,
            },
        ),
        None => None,
    }
}

impl ContextUsageAnchor {
    /// What an anchor says, where the provider reported prompt tokens.
    pub fn from_llm_call(anchor: LlmCallUsageAnchor) -> (r: Option<Self>)
        ensures
            r == anchor_of(anchor),
    {
        match anchor.usage.context_tokens() {
            Some(input_tokens) => Some(
                ContextUsageAnchor {
                    input_tokens,
                    message_count: anchor.message_count,
                    tool_count: anchor.tool_count,
                },
            ),
            None => None,
        }
    }
}

/// What the size of the context is estimated from: known tokens, and the part of the conversation
/// whose serialized text is to be counted on top of them.
#[derive(Clone, Copy, Debug, PartialEq, Eq, Structural)]
pub enum EstimateSource {
    /// The projected messages from a position on.
    ProjectedFrom { known_tokens: u64, from: usize },
    /// The messages that the run brings.
    InitialMessages { known_tokens: u64 },
    /// The prompt and all messages.
    Everything,
}

impl EstimateSource {
    /// The tokens that need no counting.
    pub open spec fn known(self) -> u64 {
        match self {
            EstimateSource::ProjectedFrom { known_tokens, .. } => known_tokens,
            EstimateSource::InitialMessages { known_tokens } => known_tokens,
            EstimateSource::Everything => 0,
        }
    }

    fn known_tokens(self) -> (r: u64)
        ensures
            r == self.known(),
    {
        match self {
            EstimateSource::ProjectedFrom { known_tokens, .. } => known_tokens,
            EstimateSource::InitialMessages { known_tokens } => known_tokens,
            EstimateSource::Everything => 0,
        }
    }
}

/// Whether an anchor still describes a part of the conversation and the same tools.
pub open spec fn anchor_holds(
    anchor: ContextUsageAnchor,
    prompt: PromptSpecView,
    projected_count: int,
) -> bool {
    anchor.message_count <= projected_count && anchor.tool_count == prompt.tools.len()
}

/// What the size of the context is to be estimated from, where the run may compact at all: it starts
/// a turn, its model has a context window, and there is more to compact than what the run brings.
pub open spec fn estimate_source_of(
    prepared: PreparedRunView,
    message_count: int,
    projected_count: int,
    anchor: Option<ContextUsageAnchor>,
    checkpoint_context_tokens: Option<u64>,
) -> Option<EstimateSource> {
    if !(prepared.action is Start) || prepared.model.context_window_tokens is None
        || prepared.model.context_window_tokens == Some(0u64) || message_count
        <= prepared.initial_messages.len() {
        None
    } else {
        Some(
            match anchor {
                Some(anchor) if anchor_holds(
                    anchor,
                    prepared.prompt,
                    projected_count,
                ) => EstimateSource::ProjectedFrom {
                    known_tokens: anchor.input_tokens,
                    from: anchor.message_count,
                },
                _ => match checkpoint_context_tokens {
                    Some(known_tokens) => EstimateSource::InitialMessages { known_tokens },
                    None => EstimateSource::Everything,
                },
            },
        )
    }
}

/// What the size of the context is to be estimated from.
pub fn estimate_source(
    prepared: &PreparedRun,
    messages: &[CanonicalMessage],
    projected_messages: &[ProjectedMessage],
    anchor: Option<ContextUsageAnchor>,
    checkpoint_context_tokens: Option<u64>,
) -> (r: Option<EstimateSource>)
    ensures
        r == estimate_source_of(
            prepared@,
            messages@.len() as int,
            projected_messages@.len() as int,
            anchor,
            checkpoint_context_tokens,
        ),
{
    match &prepared.action {
        RunAction::Start => {},
        _ => {
            return None;
        },
    }
    match prepared.model.context_window_tokens {
        None => {
            return None;
        },
        Some(window) => {
            if window == 0 || messages.len() <= prepared.initial_messages.len() {
                return None;
            }
        },
    }
    if let Some(anchor) = anchor {
        if anchor.message_count <= projected_messages.len() && anchor.tool_count
            == prepared.prompt.tools.len() {
            return Some(
                EstimateSource::ProjectedFrom {
                    known_tokens: anchor.input_tokens,
                    from: anchor.message_count,
                },
            );
        }
    }
    match checkpoint_context_tokens {
        Some(known_tokens) => Some(EstimateSource::InitialMessages { known_tokens }),
        None => Some(EstimateSource::Everything),
    }
}

/// What a character counts in thousandths of a token.
pub open spec fn char_units(c: char) -> nat {
    if (c as u32) < 128 {
        273
    } else {
        550
    }
}

/// What a text counts in thousandths of a token.
pub open spec fn text_units(s: Seq<char>) -> nat
    decreases s.len(),
{
    if s.len() == 0 {
        0
    } else {
        text_units(s.drop_last()) + char_units(s.last())
    }
}

/// The number as far as it fits into 64 bits.
pub open spec fn capped(n: int) -> int {
    if n > u64::MAX {
        u64::MAX as int
    } else {
        n
    }
}

/// The estimated tokens of a text: whole tokens, rounded up.
pub open spec fn estimated_tokens(s: Seq<char>) -> int {
    (capped(text_units(s) as int) + 999) / 1000
}

/// The estimated tokens of a text.
pub fn estimate_serialized_tokens(serialized: &str) -> (r: u64)
    ensures
        r == estimated_tokens(serialized@),
{
    let chars = text::to_chars(serialized);
    let mut units: u64 = 0;
    let mut i: usize = 0;
    assert(chars@.take(0) =~= Seq::empty());
    while i < chars.len()
        invariant
            i <= chars@.len(),
            units == capped(text_units(chars@.take(i as int)) as int),
        decreases chars@.len() - i,
    {
        let more: u64 = if (chars[i] as u32) < 128 {
            273
        } else {
            550
        };
        units = units.saturating_add(more);
        i += 1;
        assert(chars@.take(i as int).drop_last() =~= chars@.take(i - 1));
    }
    assert(chars@.take(i as int) =~= chars@);
    if units % 1000 == 0 {
        units / 1000
    } else {
        units / 1000 + 1
    }
}

/// Whether the estimated context reaches what the context window leaves after the reserve.
pub open spec fn over_budget(prepared: PreparedRunView, known: u64, counted: int) -> bool {
    let window = prepared.model.context_window_tokens.unwrap_or(0) as int;
    let budget = if window >= COMPACTION_RESERVE_TOKENS {
        window - COMPACTION_RESERVE_TOKENS
    } else {
        0
    };
    capped(known + counted) >= budget
}

/// Whether the estimated context reaches what the context window leaves after the reserve, where
/// `serialized` is the text of the part that the source names.
pub fn exceeds_budget(prepared: &PreparedRun, source: EstimateSource, serialized: &str) -> (r: bool)
    ensures
        r == over_budget(prepared@, source.known(), estimated_tokens(serialized@)),
{
    let window: u64 = prepared.model.context_window_tokens.unwrap_or(0);
    let budget: u64 = window.saturating_sub(COMPACTION_RESERVE_TOKENS);
    source.known_tokens().saturating_add(estimate_serialized_tokens(serialized)) >= budget
}

/// Whether the conversation is to be compacted before the next model call. `serialized` is the text
/// of the part that [`estimate_source`] names.
pub fn should_compact(
    prepared: &PreparedRun,
    messages: &[CanonicalMessage],
    projected_messages: &[ProjectedMessage],
    anchor: Option<ContextUsageAnchor>,
    checkpoint_context_tokens: Option<u64>,
    serialized: &str,
) -> (r: bool)
    ensures
        r == (match estimate_source_of(
            prepared@,
            messages@.len() as int,
            projected_messages@.len() as int,
            anchor,
            checkpoint_context_tokens,
        ) {
            Some(source) => over_budget(prepared@, source.known(), estimated_tokens(serialized@)),
            None => false,
        }),
{
    match estimate_source(
        prepared,
        messages,
        projected_messages,
        anchor,
        checkpoint_context_tokens,
    ) {
        None => false,
        Some(source) => exceeds_budget(prepared, source, serialized),
    }
}

/// A context that grows stays over the budget.
pub proof fn law_compaction_is_monotone(
    prepared: PreparedRunView,
    known: u64,
    counted: int,
    more: int,
)
    requires
        0 <= counted <= more,
        over_budget(prepared, known, counted),
    ensures
        over_budget(prepared, known, more),
{
}

/// Whether a message holds the context of a request.
pub open spec fn is_request_context(message: CanonicalMessageView) -> bool {
    text::starts(message.message_id, "request-context:"@)
}

/// Position behind the last message that holds the context of a request, or zero.
pub open spec fn request_context_end(messages: Seq<CanonicalMessageView>) -> nat
    decreases messages.len(),
{
    if messages.len() == 0 {
        0
    } else if is_request_context(messages.last()) {
        messages.len()
    } else {
        request_context_end(messages.drop_last())
    }
}

/// The messages that a summary replaces: all but the last request context (the one before
/// `context_end`) and those with a current id.
pub open spec fn compactable_of(
    messages: Seq<CanonicalMessageView>,
    context_end: nat,
    current_ids: Seq<Seq<char>>,
) -> Seq<CanonicalMessageView>
    decreases messages.len(),
{
    if messages.len() == 0 {
        Seq::empty()
    } else {
        let before = compactable_of(messages.drop_last(), context_end, current_ids);
        if messages.len() == context_end || current_ids.contains(messages.last().message_id) {
            before
        } else {
            before.push(messages.last())
        }
    }
}

/// The last request context, unless the run brings it itself.
pub open spec fn retained_of(
    messages: Seq<CanonicalMessageView>,
    current_ids: Seq<Seq<char>>,
) -> Option<CanonicalMessageView> {
    let end = request_context_end(messages);
    if end == 0 || current_ids.contains(messages[end - 1].message_id) {
        None
    } else {
        Some(messages[end - 1])
    }
}

fn is_current(current_ids: &Vec<String>, id: &str) -> (r: bool)
    ensures
        r == data::views(current_ids@).contains(id@),
{
    let ghost ids = data::views(current_ids@);
    let mut i: usize = 0;
    while i < current_ids.len()
        invariant
            i <= current_ids@.len(),
            ids == data::views(current_ids@),
            forall|k: int| 0 <= k < i ==> ids[k] != id@,
        decreases current_ids@.len() - i,
    {
        assert(ids[i as int] == current_ids@[i as int]@);
        if text::same(current_ids[i].as_str(), id) {
            return true;
        }
        i += 1;
    }
    false
}

/// Splits a conversation into what a summary replaces and the request context that is kept.
pub fn partition(messages: &[CanonicalMessage], current_ids: &Vec<String>) -> (r: (
    Vec<CanonicalMessage>,
    Option<CanonicalMessage>,
))
    ensures
        data::views(r.0@) == compactable_of(
            data::views(messages@),
            request_context_end(data::views(messages@)),
            data::views(current_ids@),
        ),
        data::option_view(r.1) == retained_of(data::views(messages@), data::views(current_ids@)),
{
    let ghost all = data::views(messages@);
    let ghost ids = data::views(current_ids@);
    let mut end: usize = messages.len();
    assert(all.take(end as int) =~= all);
    while end > 0 && !text::starts_with(messages[end - 1].message_id.as_str(), "request-context:")
        invariant
            end <= messages@.len(),
            all == data::views(messages@),
            request_context_end(all) == request_context_end(all.take(end as int)),
        decreases end,
    {
        assert(all.take(end as int).last() == messages@[end - 1]@);
        assert(all.take(end as int).drop_last() =~= all.take(end - 1));
        end -= 1;
    }
    assert(end > 0 ==> all.take(end as int).last() == messages@[end - 1]@);
    let mut compactable: Vec<CanonicalMessage> = Vec::new();
    let mut i: usize = 0;
    assert(all.take(0) =~= Seq::empty());
    assert(data::views(compactable@) =~= Seq::empty());
    while i < messages.len()
        invariant
            i <= messages@.len(),
            all == data::views(messages@),
            ids == data::views(current_ids@),
            data::views(compactable@) == compactable_of(all.take(i as int), end as nat, ids),
        decreases messages@.len() - i,
    {
        let ghost before = data::views(compactable@);
        if i + 1 != end && !is_current(current_ids, messages[i].message_id.as_str()) {
            compactable.push(messages[i].duplicate());
            assert(data::views(compactable@) =~= before.push(messages@[i as int]@));
        }
        i += 1;
        assert(all.take(i as int).last() == messages@[i - 1]@);
        assert(all.take(i as int).drop_last() =~= all.take(i - 1));
    }
    assert(all.take(i as int) =~= all);
    let retained = if end > 0 && !is_current(
        current_ids,
        messages[end - 1].message_id.as_str(),
    ) {
        Some(messages[end - 1].duplicate())
    } else {
        None
    };
    (compactable, retained)
}

/// Nothing that the run brings itself is compacted.
pub proof fn law_current_messages_stay(
    messages: Seq<CanonicalMessageView>,
    context_end: nat,
    current_ids: Seq<Seq<char>>,
)
    ensures
        forall|i: int|
            0 <= i < compactable_of(messages, context_end, current_ids).len()
                ==> !current_ids.contains(
                (#[trigger] compactable_of(messages, context_end, current_ids)[i]).message_id,
            ),
    decreases messages.len(),
{
    if messages.len() > 0 {
        law_current_messages_stay(messages.drop_last(), context_end, current_ids);
    }
}

/// Every message is compacted, retained, brought by the run, or the request context that the run
/// brings itself.
pub proof fn law_partition_loses_nothing(
    messages: Seq<CanonicalMessageView>,
    context_end: nat,
    current_ids: Seq<Seq<char>>,
    i: int,
)
    requires
        0 <= i < messages.len(),
    ensures
        compactable_of(messages, context_end, current_ids).contains(messages[i]) || i + 1
            == context_end || current_ids.contains(messages[i].message_id),
    decreases messages.len(),
{
    let before = compactable_of(messages.drop_last(), context_end, current_ids);
    let now = compactable_of(messages, context_end, current_ids);
    if i < messages.len() - 1 {
        law_partition_loses_nothing(messages.drop_last(), context_end, current_ids, i);
        assert(messages.drop_last()[i] == messages[i]);
        if before.contains(messages[i]) {
            let k = choose|k: int| 0 <= k < before.len() && before[k] == messages[i];
            assert(now[k] == before[k]);
        }
    } else if i + 1 != context_end && !current_ids.contains(messages[i].message_id) {
        assert(now[now.len() - 1] == messages[i]);
    }
}

/// The end of a serialized conversation that the fallback summary keeps.
pub open spec fn recent_part(serialized: Seq<char>) -> Seq<char> {
    if serialized.len() > FALLBACK_CHARS {
        serialized.skip(serialized.len() - FALLBACK_CHARS)
    } else {
        serialized
    }
}

/// A summary without a model: the end of the serialized conversation.
pub fn fallback_summary(serialized: &str) -> (r: String)
    ensures
        r@ == "Durable recent conversation state:\n"@ + recent_part(serialized@),
{
    let chars = text::to_chars(serialized);
    let start: usize = if chars.len() > FALLBACK_CHARS {
        chars.len() - FALLBACK_CHARS
    } else {
        0
    };
    let recent = text::slice(&chars, start, chars.len());
    assert(recent@ =~= recent_part(serialized@));
    let mut out = "Durable recent conversation state:\n".to_owned();
    out.append(recent.as_str());
    out
}

proof fn lemma_units_add(a: Seq<char>, b: Seq<char>)
    ensures
        text_units(a + b) == text_units(a) + text_units(b),
    decreases b.len(),
{
    if b.len() == 0 {
        assert(a + b =~= a);
    } else {
        lemma_units_add(a, b.drop_last());
        assert((a + b).drop_last() =~= a + b.drop_last());
        assert((a + b).last() == b.last());
    }
}

/// A text of plain characters is estimated at 273 tokens for each thousand of them, rounded up, and one
/// of other characters at 550; what a text counts is what its parts count.
pub proof fn law_tokens_are_estimated_by_the_character(s: Seq<char>, more: Seq<char>)
    ensures
        text_units(s + more) == text_units(s) + text_units(more),
        (forall|i: int| 0 <= i < s.len() ==> (#[trigger] s[i]) as u32 <= 127) && s.len() * 273
            <= u64::MAX ==> estimated_tokens(s) == (s.len() * 273 + 999) / 1000,
        (forall|i: int| 0 <= i < s.len() ==> (#[trigger] s[i]) as u32 > 127) && s.len() * 550
            <= u64::MAX ==> estimated_tokens(s) == (s.len() * 550 + 999) / 1000,
{
    lemma_units_add(s, more);
    if forall|i: int| 0 <= i < s.len() ==> (#[trigger] s[i]) as u32 <= 127 {
        lemma_uniform_units(s, 273);
    }
    if forall|i: int| 0 <= i < s.len() ==> (#[trigger] s[i]) as u32 > 127 {
        lemma_uniform_units(s, 550);
    }
}

proof fn lemma_uniform_units(s: Seq<char>, unit: nat)
    requires
        forall|i: int| 0 <= i < s.len() ==> char_units(#[trigger] s[i]) == unit,
    ensures
        text_units(s) == s.len() * unit,
    decreases s.len(),
{
    if s.len() > 0 {
        let rest = s.drop_last();
        assert forall|i: int| 0 <= i < rest.len() implies char_units(#[trigger] rest[i]) == unit by {
            assert(rest[i] == s[i]);
        }
        lemma_uniform_units(rest, unit);
        assert(char_units(s[s.len() - 1]) == unit);
        assert(rest.len() * unit + unit == (rest.len() + 1) * unit) by (nonlinear_arith);
    }
}

/// A conversation is compacted when what is known of its size and what was counted on top come within
/// ten thousand tokens of the context window, and not before.
pub proof fn law_compacts_close_to_the_window(
    prepared: PreparedRunView,
    window: u64,
    known: u64,
    counted: int,
)
    requires
        prepared.model.context_window_tokens == Some(window),
        0 <= counted,
        known + counted <= u64::MAX,
    ensures
        window >= 10_000 ==> (over_budget(prepared, known, counted) <==> known + counted + 10_000
            >= window),
        window < 10_000 ==> over_budget(prepared, known, counted),
{
}

/// Only a run that starts a turn, with a model whose window is known, and with more in the conversation
/// than what the run brings, has the size of its context estimated. What a provider reported serves
/// as long as it tells of a part of this conversation and of the same tools; next what the client
/// reported; and where there is neither, everything is counted.
pub proof fn law_size_is_estimated_from_what_is_known(
    prepared: PreparedRunView,
    messages: int,
    projected: int,
    anchor: Option<ContextUsageAnchor>,
    tokens: Option<u64>,
)
    ensures
        ({
            let source = estimate_source_of(prepared, messages, projected, anchor, tokens);
            let window = prepared.model.context_window_tokens;
            &&& source is Some <==> prepared.action is Start && window is Some && window->0 > 0
                && messages > prepared.initial_messages.len()
            &&& source is Some ==> {
                let serves = anchor is Some && anchor->0.message_count <= projected
                    && anchor->0.tool_count == prepared.prompt.tools.len();
                &&& serves ==> source->0 is ProjectedFrom && source->0->from
                    == anchor->0.message_count && source->0.known() == anchor->0.input_tokens
                &&& !serves && tokens is Some ==> source->0 is InitialMessages
                    && source->0.known() == tokens->0
                &&& !serves && tokens is None ==> source->0 is Everything && source->0.known() == 0
            }
        }),
{
}

/// The request context that is kept is the last one of the conversation; it is not kept where the run
/// brings it itself, or where there is none.
pub proof fn law_last_request_context_is_kept(
    messages: Seq<CanonicalMessageView>,
    current_ids: Seq<Seq<char>>,
    at: int,
)
    requires
        0 <= at < messages.len(),
        text::starts(messages[at].message_id, "request-context:"@),
        forall|i: int|
            at < i < messages.len() ==> !text::starts(
                (#[trigger] messages[i]).message_id,
                "request-context:"@,
            ),
    ensures
        !current_ids.contains(messages[at].message_id) ==> retained_of(messages, current_ids)
            == Some(messages[at]),
        current_ids.contains(messages[at].message_id) ==> retained_of(messages, current_ids) is None,
        request_context_end(messages) == at + 1,
    decreases messages.len(),
{
    if at < messages.len() - 1 {
        let before = messages.drop_last();
        assert(before[at] == messages[at]);
        assert forall|i: int| at < i < before.len() implies !text::starts(
            (#[trigger] before[i]).message_id,
            "request-context:"@,
        ) by {
            assert(before[i] == messages[i]);
        }
        law_last_request_context_is_kept(before, current_ids, at);
        assert(!text::starts(messages[messages.len() - 1].message_id, "request-context:"@));
    }
}

/// Without a request context nothing of the kind is kept.
pub proof fn law_no_request_context_is_made_up(
    messages: Seq<CanonicalMessageView>,
    current_ids: Seq<Seq<char>>,
)
    requires
        forall|i: int|
            0 <= i < messages.len() ==> !text::starts(
                (#[trigger] messages[i]).message_id,
                "request-context:"@,
            ),
    ensures
        retained_of(messages, current_ids) is None,
        request_context_end(messages) == 0,
    decreases messages.len(),
{
    if messages.len() > 0 {
        let before = messages.drop_last();
        assert forall|i: int| 0 <= i < before.len() implies !text::starts(
            (#[trigger] before[i]).message_id,
            "request-context:"@,
        ) by {
            assert(before[i] == messages[i]);
        }
        law_no_request_context_is_made_up(before, current_ids);
        assert(!text::starts(messages[messages.len() - 1].message_id, "request-context:"@));
    }
}

/// What a summary replaces stands in the order of the conversation, and holds nothing else.
pub proof fn law_compacted_messages_keep_their_order(
    messages: Seq<CanonicalMessageView>,
    context_end: nat,
    current_ids: Seq<Seq<char>>,
) -> (places: Seq<int>)
    ensures
        places.len() == compactable_of(messages, context_end, current_ids).len(),
        forall|i: int|
            0 <= i < places.len() ==> 0 <= (#[trigger] places[i]) < messages.len() && messages[places[i]]
                == compactable_of(messages, context_end, current_ids)[i] && places[i] + 1
                != context_end,
        forall|i: int, j: int| 0 <= i < j < places.len() ==> places[i] < places[j],
    decreases messages.len(),
{
    if messages.len() == 0 {
        Seq::empty()
    } else {
        let before = law_compacted_messages_keep_their_order(
            messages.drop_last(),
            context_end,
            current_ids,
        );
        if messages.len() == context_end || current_ids.contains(messages.last().message_id) {
            before
        } else {
            before.push(messages.len() - 1)
        }
    }
}

/// A summary without a model keeps the end of the conversation, as much of it as there is up to twelve
/// thousand characters.
pub proof fn law_fallback_keeps_the_end(serialized: Seq<char>)
    ensures
        recent_part(serialized).is_suffix_of(serialized),
        recent_part(serialized).len() == (if serialized.len() > 12_000 {
            12_000
        } else {
            serialized.len()
        }),
{
}

} // verus!
