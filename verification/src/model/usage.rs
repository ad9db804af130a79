//! Token usage as providers report it.
use vstd::prelude::*;

verus! {

/// Tokens of one provider call, as far as the provider reported them.
#[derive(Clone, Copy, Debug, PartialEq, Eq, Structural)]
pub struct Usage {
    pub input_tokens: Option<u64>,
    pub output_tokens: Option<u64>,
    pub total_tokens: Option<u64>,
    pub cache_read_tokens: Option<u64>,
    pub cache_write_tokens: Option<u64>,
    pub reasoning_tokens: Option<u64>,
}

/// The number in an option, or zero.
pub open spec fn count(tokens: Option<u64>) -> int {
    match tokens {
        Some(n) => n as int,
        None => 0,
    }
}

/// The sum of two reported counts: known only where both are known and the sum fits.
pub open spec fn sum_of(left: Option<u64>, right: Option<u64>) -> Option<u64> {
    match (left, right) {
        (Some(a), Some(b)) => if a + b <= u64::MAX {
            Some((a + b) as u64)
        } else {
            None
        },
        _ => None,
    }
}

/// The usage of two calls together.
pub open spec fn usage_sum(left: Usage, right: Usage) -> Usage {
    Usage {
        input_tokens: sum_of(left.input_tokens, right.input_tokens),
        output_tokens: sum_of(left.output_tokens, right.output_tokens),
        total_tokens: sum_of(left.total_tokens, right.total_tokens),
        cache_read_tokens: sum_of(left.cache_read_tokens, right.cache_read_tokens),
        cache_write_tokens: sum_of(left.cache_write_tokens, right.cache_write_tokens),
        reasoning_tokens: sum_of(left.reasoning_tokens, right.reasoning_tokens),
    }
}

/// The prompt tokens of a call: fresh input with cache reads and writes.
pub open spec fn prompt_tokens(usage: Usage) -> Option<u64> {
    let total = count(usage.input_tokens) + count(usage.cache_read_tokens) + count(
        usage.cache_write_tokens,
    );
    if usage.input_tokens is None && usage.cache_read_tokens is None
        && usage.cache_write_tokens is None {
        None
    } else if total > u64::MAX {
        None
    } else {
        Some(total as u64)
    }
}

fn sum(left: Option<u64>, right: Option<u64>) -> (r: Option<u64>)
    ensures
        r == sum_of(left, right),
{
    match (left, right) {
        (Some(a), Some(b)) => a.checked_add(b),
        _ => None,
    }
}

impl Default for Usage {
    fn default() -> (r: Self)
        ensures
            r == (Usage {
                input_tokens: None,
                output_tokens: None,
                total_tokens: None,
                cache_read_tokens: None,
                cache_write_tokens: None,
                reasoning_tokens: None,
            }),
    {
        Usage {
            input_tokens: None,
            output_tokens: None,
            total_tokens: None,
            cache_read_tokens: None,
            cache_write_tokens: None,
            reasoning_tokens: None,
        }
    }
}

impl Usage {
    /// Provider-reported prompt tokens, cache reads and writes among them. `None` where the
    /// provider reported none of them, or where their sum does not fit.
    pub fn context_tokens(self) -> (r: Option<u64>)
        ensures
            r == prompt_tokens(self),
    {
        if self.input_tokens.is_none() && self.cache_read_tokens.is_none()
            && self.cache_write_tokens.is_none() {
            return None;
        }
        let input: u64 = self.input_tokens.unwrap_or(0);
        let read: u64 = self.cache_read_tokens.unwrap_or(0);
        let write: u64 = self.cache_write_tokens.unwrap_or(0);
        match input.checked_add(read) {
            Some(part) => part.checked_add(write),
            None => None,
        }
    }

    /// Adds the usage of another call.
    pub fn accumulate(&mut self, rhs: Self)
        ensures
            *final(self) == usage_sum(*old(self), rhs),
    {
        self.input_tokens = sum(self.input_tokens, rhs.input_tokens);
        self.output_tokens = sum(self.output_tokens, rhs.output_tokens);
        self.total_tokens = sum(self.total_tokens, rhs.total_tokens);
        self.cache_read_tokens = sum(self.cache_read_tokens, rhs.cache_read_tokens);
        self.cache_write_tokens = sum(self.cache_write_tokens, rhs.cache_write_tokens);
        self.reasoning_tokens = sum(self.reasoning_tokens, rhs.reasoning_tokens);
    }
}

impl core::ops::AddAssign for Usage {
    fn add_assign(&mut self, rhs: Self)
        ensures
            *final(self) == usage_sum(*old(self), rhs),
    {
        self.accumulate(rhs);
    }
}

/// Usage adds up in any order of two calls.
pub proof fn law_sum_is_commutative(left: Usage, right: Usage)
    ensures
        usage_sum(left, right) == usage_sum(right, left),
{
}

/// Usage adds up in any grouping of three calls.
pub proof fn law_sum_is_associative(a: Usage, b: Usage, c: Usage)
    ensures
        usage_sum(usage_sum(a, b), c) == usage_sum(a, usage_sum(b, c)),
{
}

/// A field of a total is known only where every call that went into it reported that field.
pub proof fn law_total_knows_only_common_fields(left: Usage, right: Usage)
    ensures
        usage_sum(left, right).input_tokens is Some ==> left.input_tokens is Some
            && right.input_tokens is Some,
        usage_sum(left, right).output_tokens is Some ==> left.output_tokens is Some
            && right.output_tokens is Some,
        usage_sum(left, right).total_tokens is Some ==> left.total_tokens is Some
            && right.total_tokens is Some,
        usage_sum(left, right).cache_read_tokens is Some ==> left.cache_read_tokens is Some
            && right.cache_read_tokens is Some,
        usage_sum(left, right).cache_write_tokens is Some ==> left.cache_write_tokens is Some
            && right.cache_write_tokens is Some,
        usage_sum(left, right).reasoning_tokens is Some ==> left.reasoning_tokens is Some
            && right.reasoning_tokens is Some,
{
}

/// Where both calls reported a count and the counts can be added, the total is their sum.
pub proof fn law_counts_are_added(left: Usage, right: Usage)
    ensures
        (left.input_tokens is Some && right.input_tokens is Some && left.input_tokens->0
            + right.input_tokens->0 <= u64::MAX) ==> usage_sum(left, right).input_tokens == Some(
            (left.input_tokens->0 + right.input_tokens->0) as u64,
        ),
        (left.output_tokens is Some && right.output_tokens is Some && left.output_tokens->0
            + right.output_tokens->0 <= u64::MAX) ==> usage_sum(left, right).output_tokens == Some(
            (left.output_tokens->0 + right.output_tokens->0) as u64,
        ),
        (left.total_tokens is Some && right.total_tokens is Some && left.total_tokens->0
            + right.total_tokens->0 <= u64::MAX) ==> usage_sum(left, right).total_tokens == Some(
            (left.total_tokens->0 + right.total_tokens->0) as u64,
        ),
        (left.cache_read_tokens is Some && right.cache_read_tokens is Some
            && left.cache_read_tokens->0 + right.cache_read_tokens->0 <= u64::MAX) ==> usage_sum(
            left,
            right,
        ).cache_read_tokens == Some(
            (left.cache_read_tokens->0 + right.cache_read_tokens->0) as u64,
        ),
        (left.cache_write_tokens is Some && right.cache_write_tokens is Some
            && left.cache_write_tokens->0 + right.cache_write_tokens->0 <= u64::MAX) ==> usage_sum(
            left,
            right,
        ).cache_write_tokens == Some(
            (left.cache_write_tokens->0 + right.cache_write_tokens->0) as u64,
        ),
        (left.reasoning_tokens is Some && right.reasoning_tokens is Some
            && left.reasoning_tokens->0 + right.reasoning_tokens->0 <= u64::MAX) ==> usage_sum(
            left,
            right,
        ).reasoning_tokens == Some((left.reasoning_tokens->0 + right.reasoning_tokens->0) as u64),
{
}

/// The tokens of a prompt are those that were sent anew, read from the cache and written to it, taken
/// together; a count that was not reported adds nothing to those that were.
pub proof fn law_prompt_is_all_that_was_sent(usage: Usage, input: u64, read: u64, write: u64)
    requires
        input + read + write <= u64::MAX,
        usage.input_tokens == Some(input) || (usage.input_tokens is None && input == 0),
        usage.cache_read_tokens == Some(read) || (usage.cache_read_tokens is None && read == 0),
        usage.cache_write_tokens == Some(write) || (usage.cache_write_tokens is None && write == 0),
    ensures
        (usage.input_tokens is Some || usage.cache_read_tokens is Some || usage.cache_write_tokens
            is Some) ==> prompt_tokens(usage) == Some((input + read + write) as u64),
        (usage.input_tokens is None && usage.cache_read_tokens is None && usage.cache_write_tokens
            is None) ==> prompt_tokens(usage) is None,
{
}

} // verus!
