//! Records of provider calls as rows hold them.
use crate::model::llm_call::{LlmCallResponseChunk, LlmCallUsageAnchor, ProviderType};
use crate::model::usage::Usage;
use crate::text;
use vstd::prelude::*;

verus! {

/// A count of tokens as a column holds it: the largest that it can hold in place of a larger one.
pub open spec fn column(value: Option<u64>) -> Option<int> {
    match value {
        Some(n) => Some(
            if n > i64::MAX {
                i64::MAX as int
            } else {
                n as int
            },
        ),
        None => None,
    }
}

/// A count of tokens as a column holds it.
pub fn as_i64(value: Option<u64>) -> (r: Option<i64>)
    ensures
        (match r {
            Some(n) => Some(n as int),
            None => None,
        }) == column(value),
{
    match value {
        Some(n) => if n > i64::MAX as u64 {
            Some(i64::MAX)
        } else {
            Some(n as i64)
        },
        None => None,
    }
}

/// The counts of a usage as columns hold them.
#[derive(Clone, Copy, Debug)]
pub struct UsageColumns {
    pub input_tokens: Option<i64>,
    pub output_tokens: Option<i64>,
    pub total_tokens: Option<i64>,
    pub cache_read_tokens: Option<i64>,
    pub cache_write_tokens: Option<i64>,
    pub reasoning_tokens: Option<i64>,
}

/// What a column holds, as a number.
pub open spec fn held(value: Option<i64>) -> Option<int> {
    match value {
        Some(n) => Some(n as int),
        None => None,
    }
}

/// The counts of a usage as columns hold them.
pub fn usage_columns(usage: Usage) -> (r: UsageColumns)
    ensures
        held(r.input_tokens) == column(usage.input_tokens),
        held(r.output_tokens) == column(usage.output_tokens),
        held(r.total_tokens) == column(usage.total_tokens),
        held(r.cache_read_tokens) == column(usage.cache_read_tokens),
        held(r.cache_write_tokens) == column(usage.cache_write_tokens),
        held(r.reasoning_tokens) == column(usage.reasoning_tokens),
{
    UsageColumns {
        input_tokens: as_i64(usage.input_tokens),
        output_tokens: as_i64(usage.output_tokens),
        total_tokens: as_i64(usage.total_tokens),
        cache_read_tokens: as_i64(usage.cache_read_tokens),
        cache_write_tokens: as_i64(usage.cache_write_tokens),
        reasoning_tokens: as_i64(usage.reasoning_tokens),
    }
}

/// How many calls are listed when some number is asked for.
pub fn call_limit(limit: i64) -> (r: i64)
    ensures
        r == (if limit < 1 {
            1
        } else if limit > 500 {
            500
        } else {
            limit as int
        }),
{
    if limit < 1 {
        1
    } else if limit > 500 {
        500
    } else {
        limit
    }
}

/// A count that a column holds, as a size: the largest one where it is none.
pub open spec fn size_of_count(value: int) -> int {
    if 0 <= value <= usize::MAX {
        value
    } else {
        usize::MAX as int
    }
}

/// A count that a column holds, as a size.
pub fn stored_count(value: i64) -> (r: usize)
    ensures
        r == size_of_count(value as int),
{
    if value < 0 {
        usize::MAX
    } else if value as u64 > usize::MAX as u64 {
        usize::MAX
    } else {
        value as usize
    }
}

/// The usage that the latest call of a conversation reported; none where its protocol is unknown.
pub fn usage_anchor(request_type: &str, usage: Usage, message_count: i64, tool_count: i64) -> (r:
    Option<LlmCallUsageAnchor>)
    ensures
        match r {
            Some(anchor) => {
                &&& anchor.request_type.name() == request_type@
                &&& anchor.usage == usage
                &&& anchor.message_count == size_of_count(message_count as int)
                &&& anchor.tool_count == size_of_count(tool_count as int)
            },
            None => forall|kind: ProviderType| #[trigger] kind.name() != request_type@,
        },
{
    match ProviderType::from_name(request_type) {
        Some(request_type) => Some(
            LlmCallUsageAnchor {
                request_type,
                usage,
                message_count: stored_count(message_count),
                tool_count: stored_count(tool_count),
            },
        ),
        None => None,
    }
}

/// A piece of a response as it is shown: its bytes as text.
pub fn shown_chunk(seq: i64, received_offset_ms: i64, data: &[u8], byte_count: i64) -> (r:
    LlmCallResponseChunk)
    ensures
        r.seq == seq,
        r.received_offset_ms == received_offset_ms,
        r.data@ == text::lenient(data@),
        r.byte_count == byte_count,
{
    LlmCallResponseChunk { seq, received_offset_ms, data: text::lossy_text(data), byte_count }
}

/// A count that fits is held as it is and read back; a larger one is held as the largest that fits.
pub proof fn law_counts_are_held(n: u64)
    ensures
        column(None) is None,
        n <= i64::MAX ==> column(Some(n)) == Some(n as int),
        n > i64::MAX ==> column(Some(n)) == Some(i64::MAX as int),
        n <= usize::MAX ==> size_of_count(n as int) == n,
        size_of_count(-1) == usize::MAX,
{
}

} // verus!
