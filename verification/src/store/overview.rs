//! What the overview shows: counts of calls and tokens, and a series of buckets over time.
use vstd::arithmetic::div_mod::{lemma_fundamental_div_mod, lemma_fundamental_div_mod_converse};
use vstd::prelude::*;

verus! {

/// How many days the overview covers where no range is asked for.
pub const OVERVIEW_DAYS: i64 = 365;

/// How many buckets a range is shown in at most.
pub const MAX_RANGE_BUCKETS: i64 = 60;

pub const MINUTE_MS: i64 = 60_000;

pub const HOUR_MS: i64 = 3_600_000;

pub const DAY_MS: i64 = 86_400_000;

/// How much time a bucket covers.
#[derive(Clone, Copy, Debug, PartialEq, Eq, Structural)]
pub enum TokenUsageGranularity {
    Minute,
    Hour,
    Day,
}

/// The tokens that were used in the time from a start on.
#[derive(Clone, Copy, Debug, PartialEq, Eq, Structural)]
pub struct TokenUsageBucket {
    pub bucket_start_ms: i64,
    pub input_tokens: i64,
    pub cache_read_tokens: i64,
    pub cache_write_tokens: i64,
    pub output_tokens: i64,
}

/// Counts of calls and tokens.
#[derive(Clone, Copy, Debug, PartialEq, Eq, Structural)]
pub struct OverviewMetrics {
    pub llm_calls: i64,
    pub successful_calls: i64,
    pub failed_calls: i64,
    pub token_usage: i64,
    pub prompt_tokens: i64,
    pub input_tokens: i64,
    pub cache_read_tokens: i64,
    pub cache_write_tokens: i64,
    pub output_tokens: i64,
}

/// The number in the 64-bit range that is nearest to `v`.
pub open spec fn saturated(v: int) -> int {
    if v < i64::MIN {
        i64::MIN as int
    } else if v > i64::MAX {
        i64::MAX as int
    } else {
        v
    }
}

/// The number in the 64-bit range that is nearest to `v`.
fn saturate(v: i128) -> (r: i64)
    ensures
        r == saturated(v as int),
{
    if v < i64::MIN as i128 {
        i64::MIN
    } else if v > i64::MAX as i128 {
        i64::MAX
    } else {
        v as i64
    }
}

/// Adds within the 64-bit range.
pub fn saturating_add(a: i64, b: i64) -> (r: i64)
    ensures
        r == saturated(a + b),
{
    saturate(a as i128 + b as i128)
}

/// Subtracts within the 64-bit range.
pub fn saturating_sub(a: i64, b: i64) -> (r: i64)
    ensures
        r == saturated(a - b),
{
    saturate(a as i128 - b as i128)
}

/// A number, or zero in place of a negative one.
pub open spec fn at_least_zero(v: int) -> int {
    if v < 0 {
        0
    } else {
        v
    }
}

/// A number, or zero in place of a negative one.
pub fn non_negative(value: i64) -> (r: i64)
    ensures
        r == at_least_zero(value as int),
{
    if value < 0 {
        0
    } else {
        value
    }
}

/// The sum of numbers, kept within the 64-bit range after each of them.
pub open spec fn sum_within(values: Seq<i64>) -> int
    decreases values.len(),
{
    if values.len() == 0 {
        0
    } else {
        saturated(sum_within(values.drop_last()) + values.last())
    }
}

/// The sum of numbers, kept within the 64-bit range after each of them.
pub fn saturating_sum(values: &[i64]) -> (r: i64)
    ensures
        r == sum_within(values@),
{
    let mut total: i64 = 0;
    let mut i: usize = 0;
    assert(values@.take(0) =~= Seq::empty());
    while i < values.len()
        invariant
            i <= values@.len(),
            total == sum_within(values@.take(i as int)),
        decreases values@.len() - i,
    {
        assert(values@.take(i + 1).drop_last() =~= values@.take(i as int));
        assert(values@.take(i + 1).last() == values@[i as int]);
        total = saturating_add(total, values[i]);
        i += 1;
    }
    assert(values@.take(i as int) =~= values@);
    total
}

/// The sum of three numbers, kept within the 64-bit range after each of them.
pub open spec fn sum3(a: int, b: int, c: int) -> int {
    saturated(saturated(saturated(a) + b) + c)
}

/// Numbers that are summed one after the other.
proof fn lemma_sum3(a: i64, b: i64, c: i64)
    ensures
        sum_within(seq![a, b, c]) == sum3(a as int, b as int, c as int),
{
    reveal_with_fuel(sum_within, 4);
    assert(seq![a, b, c].drop_last() =~= seq![a, b]);
    assert(seq![a, b].drop_last() =~= seq![a]);
    assert(seq![a].drop_last() =~= Seq::empty());
}

/// What the overview says of the calls and tokens that the store counted.
pub open spec fn counted(
    calls: int,
    successful: int,
    failed: int,
    input: int,
    cache_read: int,
    cache_write: int,
    output: int,
) -> OverviewMetrics {
    let input = at_least_zero(input);
    let cache_read = at_least_zero(cache_read);
    let cache_write = at_least_zero(cache_write);
    let output = at_least_zero(output);
    let prompt = sum3(input, cache_read, cache_write);
    OverviewMetrics {
        llm_calls: calls as i64,
        successful_calls: successful as i64,
        failed_calls: failed as i64,
        token_usage: saturated(prompt + output) as i64,
        prompt_tokens: prompt as i64,
        input_tokens: input as i64,
        cache_read_tokens: cache_read as i64,
        cache_write_tokens: cache_write as i64,
        output_tokens: output as i64,
    }
}

/// What the overview says of the calls and tokens that the store counted.
pub fn overview_metrics(
    llm_calls: i64,
    successful_calls: i64,
    failed_calls: i64,
    input: i64,
    cache_read: i64,
    cache_write: i64,
    output: i64,
) -> (r: OverviewMetrics)
    ensures
        r == counted(
            llm_calls as int,
            successful_calls as int,
            failed_calls as int,
            input as int,
            cache_read as int,
            cache_write as int,
            output as int,
        ),
{
    let input_tokens = non_negative(input);
    let cache_read_tokens = non_negative(cache_read);
    let cache_write_tokens = non_negative(cache_write);
    let output_tokens = non_negative(output);
    let parts: [i64; 3] = [input_tokens, cache_read_tokens, cache_write_tokens];
    let prompt_tokens = saturating_sum(&parts);
    proof {
        assert(parts@ =~= seq![input_tokens, cache_read_tokens, cache_write_tokens]);
        lemma_sum3(input_tokens, cache_read_tokens, cache_write_tokens);
    }
    OverviewMetrics {
        llm_calls,
        successful_calls,
        failed_calls,
        token_usage: saturating_add(prompt_tokens, output_tokens),
        prompt_tokens,
        input_tokens,
        cache_read_tokens,
        cache_write_tokens,
        output_tokens,
    }
}

/// No count of tokens is negative, and the whole is at least each of its parts.
pub proof fn law_usage_covers_its_parts(
    calls: i64,
    successful: i64,
    failed: i64,
    input: i64,
    cache_read: i64,
    cache_write: i64,
    output: i64,
)
    ensures
        ({
            let m = counted(
                calls as int,
                successful as int,
                failed as int,
                input as int,
                cache_read as int,
                cache_write as int,
                output as int,
            );
            &&& 0 <= m.input_tokens <= m.prompt_tokens <= m.token_usage
            &&& 0 <= m.cache_read_tokens <= m.prompt_tokens
            &&& 0 <= m.cache_write_tokens <= m.prompt_tokens
            &&& 0 <= m.output_tokens <= m.token_usage
        }),
{
}

impl TokenUsageBucket {
    /// All tokens of a bucket.
    pub fn total_tokens(&self) -> (r: i64)
        ensures
            r == saturated(
                sum3(
                    self.input_tokens as int,
                    self.cache_read_tokens as int,
                    self.cache_write_tokens as int,
                ) + self.output_tokens,
            ),
    {
        let prompt = saturating_add(
            saturating_add(self.input_tokens, self.cache_read_tokens),
            self.cache_write_tokens,
        );
        saturating_add(prompt, self.output_tokens)
    }
}

/// A bucket with the tokens that the store counted for it.
pub fn recorded_bucket(
    bucket_start_ms: i64,
    input: i64,
    cache_read: i64,
    cache_write: i64,
    output: i64,
) -> (r: TokenUsageBucket)
    ensures
        r == (TokenUsageBucket {
            bucket_start_ms,
            input_tokens: at_least_zero(input as int) as i64,
            cache_read_tokens: at_least_zero(cache_read as int) as i64,
            cache_write_tokens: at_least_zero(cache_write as int) as i64,
            output_tokens: at_least_zero(output as int) as i64,
        }),
{
    TokenUsageBucket {
        bucket_start_ms,
        input_tokens: non_negative(input),
        cache_read_tokens: non_negative(cache_read),
        cache_write_tokens: non_negative(cache_write),
        output_tokens: non_negative(output),
    }
}

/// The multiple of `b` at or before `v`.
pub open spec fn floor_to(v: int, b: int) -> int {
    (v / b) * b
}

/// Divides towards negative infinity.
fn floor_div(v: i64, b: i64) -> (r: i64)
    requires
        b > 0,
    ensures
        r == v as int / b as int,
{
    if v >= 0 {
        ((v as u64) / (b as u64)) as i64
    } else {
        let up: u64 = (-(v + 1)) as u64;
        let q: u64 = up / (b as u64);
        proof {
            let d = b as int;
            let u = up as int;
            lemma_fundamental_div_mod(u, d);
            let rest = u % d;
            assert(u == d * (u / d) + rest);
            assert(v == d * (-(u / d) - 1) + (d - 1 - rest)) by (nonlinear_arith)
                requires
                    v == -u - 1,
                    u == d * (u / d) + rest,
            ;
            lemma_fundamental_div_mod_converse(v as int, d, -(u / d) - 1, d - 1 - rest);
            assert(u / d <= u) by (nonlinear_arith)
                requires
                    u == d * (u / d) + rest,
                    0 <= rest < d,
                    d > 0,
                    u >= 0,
            ;
        }
        -(q as i64) - 1
    }
}

/// How long the buckets of a range are.
pub open spec fn granularity(duration: int) -> (TokenUsageGranularity, int) {
    if duration <= HOUR_MS {
        (TokenUsageGranularity::Minute, MINUTE_MS as int)
    } else if duration <= MAX_RANGE_BUCKETS * HOUR_MS {
        (TokenUsageGranularity::Hour, HOUR_MS as int)
    } else {
        (TokenUsageGranularity::Day, DAY_MS as int)
    }
}

/// How long a range is, at least one millisecond.
pub open spec fn duration(start: int, end: int) -> int {
    let d = saturated(end - start);
    if d < 1 {
        1
    } else {
        d
    }
}

/// The bucket that the last millisecond before the end of a range falls into.
pub open spec fn last_bucket(start: int, end: int) -> int {
    floor_to(saturated(end - 1), granularity(duration(start, end)).1)
}

/// The bucket that the start of a range falls into.
pub open spec fn first_bucket(start: int, end: int) -> int {
    floor_to(start, granularity(duration(start, end)).1)
}

/// Whether the buckets of a range can be told apart by 64-bit times.
pub open spec fn range_fits(start: int, end: int) -> bool {
    &&& first_bucket(start, end) >= i64::MIN
    &&& last_bucket(start, end) >= i64::MIN
    &&& i64::MIN <= last_bucket(start, end) - first_bucket(start, end) <= i64::MAX
}

/// How many buckets a range is shown in.
pub open spec fn bucket_count(start: int, end: int) -> int {
    let b = granularity(duration(start, end)).1;
    let count = (last_bucket(start, end) - first_bucket(start, end)) / b + 1;
    if count < 1 {
        1
    } else if count > MAX_RANGE_BUCKETS {
        MAX_RANGE_BUCKETS as int
    } else {
        count
    }
}

/// The buckets that a range is shown in: how long they are, where the first starts, and how many
/// there are. The last one is the one that the range ends in.
pub open spec fn range_buckets(start: int, end: int) -> (TokenUsageGranularity, int, int, int) {
    let (g, b) = granularity(duration(start, end));
    let count = bucket_count(start, end);
    (g, b, saturated(last_bucket(start, end) - (count - 1) * b), count)
}

/// The buckets that are shown where no range is asked for: days, up to today.
pub open spec fn default_buckets(today: int) -> (TokenUsageGranularity, int, int, int) {
    (
        TokenUsageGranularity::Day,
        DAY_MS as int,
        saturated(today - (OVERVIEW_DAYS - 1) * DAY_MS),
        OVERVIEW_DAYS as int,
    )
}

/// A time as 64 bits, rounded down to a multiple of `b`; none where it does not fit.
fn floor_time(v: i64, b: i64) -> (r: Option<i64>)
    requires
        0 < b <= DAY_MS,
    ensures
        match r {
            Some(t) => t == floor_to(v as int, b as int),
            None => floor_to(v as int, b as int) < i64::MIN,
        },
{
    let q = floor_div(v, b);
    assert(-0x8000_0000_0000_0000 * 86_400_000 <= q * b <= 0x8000_0000_0000_0000 * 86_400_000)
        by (nonlinear_arith)
        requires
            -0x8000_0000_0000_0000 <= q <= 0x8000_0000_0000_0000,
            0 < b <= 86_400_000,
    ;
    let product: i128 = (q as i128) * (b as i128);
    proof {
        let d = b as int;
        lemma_fundamental_div_mod(v as int, d);
        assert((v as int / d) * d <= v) by (nonlinear_arith)
            requires
                v as int == d * (v as int / d) + v as int % d,
                0 <= v as int % d,
        ;
    }
    if product < i64::MIN as i128 {
        None
    } else {
        Some(product as i64)
    }
}

/// Whether the buckets of a range can be told apart by 64-bit times. They can for every range but
/// those that reach to the very ends of what 64 bits hold.
pub fn range_is_shown(start_ms: i64, end_ms: i64) -> (r: bool)
    ensures
        r == range_fits(start_ms as int, end_ms as int),
{
    let length = saturating_sub(end_ms, start_ms);
    let length: i64 = if length < 1 {
        1
    } else {
        length
    };
    let (_, bucket_ms) = granularity_of(length);
    match (floor_time(start_ms, bucket_ms), floor_time(saturating_sub(end_ms, 1), bucket_ms)) {
        (Some(first), Some(last)) => {
            let span: i128 = last as i128 - first as i128;
            i64::MIN as i128 <= span && span <= i64::MAX as i128
        },
        _ => false,
    }
}

/// How long the buckets of a range are.
fn granularity_of(duration: i64) -> (r: (TokenUsageGranularity, i64))
    ensures
        (r.0, r.1 as int) == granularity(duration as int),
        0 < r.1 <= DAY_MS,
{
    if duration <= HOUR_MS {
        (TokenUsageGranularity::Minute, MINUTE_MS)
    } else if duration <= MAX_RANGE_BUCKETS * HOUR_MS {
        (TokenUsageGranularity::Hour, HOUR_MS)
    } else {
        (TokenUsageGranularity::Day, DAY_MS)
    }
}

/// The buckets that a range is shown in.
pub fn range_usage_buckets(start_ms: i64, end_ms: i64) -> (r: (
    TokenUsageGranularity,
    i64,
    i64,
    i64,
))
    requires
        range_fits(start_ms as int, end_ms as int),
    ensures
        (r.0, r.1 as int, r.2 as int, r.3 as int) == range_buckets(start_ms as int, end_ms as int),
{
    let length = saturating_sub(end_ms, start_ms);
    let length: i64 = if length < 1 {
        1
    } else {
        length
    };
    let (unit, bucket_ms) = granularity_of(length);
    let first_bucket_ms = floor_div(start_ms, bucket_ms);
    let last_bucket_ms = floor_div(saturating_sub(end_ms, 1), bucket_ms);
    proof {
        let d = bucket_ms as int;
        let last = saturated(end_ms - 1);
        lemma_fundamental_div_mod(start_ms as int, d);
        lemma_fundamental_div_mod(last, d);
        assert(floor_to(start_ms as int, d) <= start_ms && floor_to(last, d) <= last)
            by (nonlinear_arith)
            requires
                floor_to(start_ms as int, d) == (start_ms as int / d) * d,
                floor_to(last, d) == (last / d) * d,
                start_ms as int == d * (start_ms as int / d) + start_ms as int % d,
                last == d * (last / d) + last % d,
                0 <= start_ms as int % d,
                0 <= last % d,
        ;
    }
    let first_bucket_ms: i64 = first_bucket_ms * bucket_ms;
    let last_bucket_ms: i64 = last_bucket_ms * bucket_ms;
    let span = floor_div(last_bucket_ms - first_bucket_ms, bucket_ms);
    let count: i64 = if span < 0 {
        1
    } else if span >= MAX_RANGE_BUCKETS {
        MAX_RANGE_BUCKETS
    } else {
        span + 1
    };
    assert((count - 1) * bucket_ms <= 59 * 86_400_000 && (count - 1) * bucket_ms >= 0)
        by (nonlinear_arith)
        requires
            1 <= count <= 60,
            0 < bucket_ms <= 86_400_000,
    ;
    let series_start_ms = saturating_sub(last_bucket_ms, (count - 1) * bucket_ms);
    (unit, bucket_ms, series_start_ms, count)
}

/// Asks `chrono::Utc::now` for the day, and gives the time at which that day began in milliseconds
/// since the epoch: a whole number of days.
#[verifier::external_body]
fn today_start_ms() -> (r: i64)
    ensures
        r as int % DAY_MS as int == 0,
{
    let midnight = chrono::Utc::now().date_naive().and_time(chrono::NaiveTime::MIN);
    midnight.and_utc().timestamp_millis()
}

/// The buckets that are shown where no range is asked for.
pub fn default_usage_buckets(today_start_ms: i64) -> (r: (TokenUsageGranularity, i64, i64, i64))
    ensures
        (r.0, r.1 as int, r.2 as int, r.3 as int) == default_buckets(today_start_ms as int),
{
    let series_start_ms = saturating_sub(today_start_ms, (OVERVIEW_DAYS - 1) * DAY_MS);
    (TokenUsageGranularity::Day, DAY_MS, series_start_ms, OVERVIEW_DAYS)
}

/// The buckets that the overview shows: those of the range that is asked for, or else the days up to
/// the one that it is.
pub fn token_usage_buckets(start_ms: Option<i64>, end_ms: Option<i64>) -> (r: (
    TokenUsageGranularity,
    i64,
    i64,
    i64,
))
    requires
        start_ms is Some && end_ms is Some ==> range_fits(start_ms->0 as int, end_ms->0 as int),
    ensures
        start_ms is Some && end_ms is Some ==> (r.0, r.1 as int, r.2 as int, r.3 as int)
            == range_buckets(start_ms->0 as int, end_ms->0 as int),
        !(start_ms is Some && end_ms is Some) ==> exists|today: int|
            #![trigger default_buckets(today)]
            i64::MIN <= today <= i64::MAX && today % DAY_MS as int == 0 && (
                r.0,
                r.1 as int,
                r.2 as int,
                r.3 as int,
            ) == default_buckets(today),
{
    match (start_ms, end_ms) {
        (Some(start), Some(end)) => range_usage_buckets(start, end),
        _ => {
            let today = today_start_ms();
            default_usage_buckets(today)
        },
    }
}

/// From when on the store is asked for what the buckets hold.
pub fn series_query_start(start_ms: Option<i64>, series_start_ms: i64) -> (r: i64)
    ensures
        r == (match start_ms {
            Some(start) => if start > series_start_ms {
                start
            } else {
                series_start_ms
            },
            None => series_start_ms,
        }),
{
    match start_ms {
        Some(start) => if start > series_start_ms {
            start
        } else {
            series_start_ms
        },
        None => series_start_ms,
    }
}

/// When the bucket at a place in the series starts.
pub open spec fn bucket_start(series_start: int, bucket_ms: int, place: int) -> int {
    saturated(series_start + saturated(place * bucket_ms))
}

/// The last of the recorded buckets that starts at a time.
pub open spec fn recorded_at(rows: Seq<TokenUsageBucket>, start: int) -> Option<TokenUsageBucket>
    decreases rows.len(),
{
    if rows.len() == 0 {
        None
    } else if rows.last().bucket_start_ms == start {
        Some(rows.last())
    } else {
        recorded_at(rows.drop_last(), start)
    }
}

/// A bucket in which nothing was used.
pub open spec fn empty_bucket(start: int) -> TokenUsageBucket {
    TokenUsageBucket {
        bucket_start_ms: start as i64,
        input_tokens: 0,
        cache_read_tokens: 0,
        cache_write_tokens: 0,
        output_tokens: 0,
    }
}

/// The bucket at a place in the series: the one that was recorded for its start, unless the bucket
/// before it took that already, and else an empty one.
pub open spec fn bucket_at(
    rows: Seq<TokenUsageBucket>,
    series_start: int,
    bucket_ms: int,
    place: int,
) -> TokenUsageBucket {
    let start = bucket_start(series_start, bucket_ms, place);
    if place > 0 && bucket_start(series_start, bucket_ms, place - 1) == start {
        empty_bucket(start)
    } else {
        match recorded_at(rows, start) {
            Some(bucket) => bucket,
            None => empty_bucket(start),
        }
    }
}

/// The buckets of the series, in order.
pub open spec fn usage_series(
    rows: Seq<TokenUsageBucket>,
    series_start: int,
    bucket_ms: int,
    count: int,
) -> Seq<TokenUsageBucket> {
    Seq::new(
        if count < 0 {
            0
        } else {
            count as nat
        },
        |place: int| bucket_at(rows, series_start, bucket_ms, place),
    )
}

/// The last of the recorded buckets that starts at a time.
fn find_recorded(rows: &Vec<TokenUsageBucket>, start: i64) -> (r: Option<TokenUsageBucket>)
    ensures
        r == recorded_at(rows@, start as int),
{
    let mut left: usize = rows.len();
    assert(rows@.take(left as int) =~= rows@);
    while left > 0
        invariant
            left <= rows@.len(),
            recorded_at(rows@, start as int) == recorded_at(rows@.take(left as int), start as int),
        decreases left,
    {
        assert(rows@.take(left as int).drop_last() =~= rows@.take(left - 1));
        assert(rows@.take(left as int).last() == rows@[left - 1]);
        if rows[left - 1].bucket_start_ms == start {
            return Some(rows[left - 1]);
        }
        left -= 1;
    }
    None
}

/// Multiplies within the 64-bit range.
fn saturating_mul(a: i64, b: i64) -> (r: i64)
    ensures
        r == saturated(a * b),
{
    assert(-0x8000_0000_0000_0000 * 0x8000_0000_0000_0000 <= a * b <= 0x8000_0000_0000_0000
        * 0x8000_0000_0000_0000) by (nonlinear_arith)
        requires
            -0x8000_0000_0000_0000 <= a <= 0x8000_0000_0000_0000,
            -0x8000_0000_0000_0000 <= b <= 0x8000_0000_0000_0000,
    ;
    saturate(a as i128 * b as i128)
}

/// The buckets of the series, in order, filled with what was recorded for each of them.
pub fn token_usage_series(
    rows: &Vec<TokenUsageBucket>,
    series_start_ms: i64,
    bucket_ms: i64,
    bucket_count: i64,
) -> (r: Vec<TokenUsageBucket>)
    ensures
        r@ == usage_series(rows@, series_start_ms as int, bucket_ms as int, bucket_count as int),
{
    let mut out: Vec<TokenUsageBucket> = Vec::new();
    let mut place: i64 = 0;
    let mut previous: Option<i64> = None;
    while place < bucket_count
        invariant
            0 <= place,
            place <= bucket_count || (place == 0 && bucket_count < 0),
            out@.len() == place,
            place == 0 ==> previous is None,
            place > 0 ==> previous is Some && previous->0 == bucket_start(
                series_start_ms as int,
                bucket_ms as int,
                place - 1,
            ),
            forall|i: int|
                0 <= i < place ==> #[trigger] out@[i] == bucket_at(
                    rows@,
                    series_start_ms as int,
                    bucket_ms as int,
                    i,
                ),
        decreases bucket_count - place,
    {
        let start = saturating_add(series_start_ms, saturating_mul(place, bucket_ms));
        let taken = match previous {
            Some(before) => before == start,
            None => false,
        };
        let found = if taken {
            None
        } else {
            find_recorded(rows, start)
        };
        let bucket = match found {
            Some(bucket) => bucket,
            None => TokenUsageBucket {
                bucket_start_ms: start,
                input_tokens: 0,
                cache_read_tokens: 0,
                cache_write_tokens: 0,
                output_tokens: 0,
            },
        };
        out.push(bucket);
        previous = Some(start);
        place += 1;
    }
    assert(out@ =~= usage_series(
        rows@,
        series_start_ms as int,
        bucket_ms as int,
        bucket_count as int,
    ));
    out
}

/// A range is shown in at least one bucket and in no more than sixty, the last of which is the one
/// that the range ends in.
pub proof fn law_range_ends_in_its_last_bucket(start: i64, end: i64)
    requires
        range_fits(start as int, end as int),
        last_bucket(start as int, end as int) - (MAX_RANGE_BUCKETS - 1) * DAY_MS >= i64::MIN,
    ensures
        ({
            let (_, b, first, count) = range_buckets(start as int, end as int);
            &&& 1 <= count <= MAX_RANGE_BUCKETS
            &&& bucket_start(first, b, count - 1) == last_bucket(start as int, end as int)
        }),
{
    let (_, b, first, count) = range_buckets(start as int, end as int);
    let last = last_bucket(start as int, end as int);
    assert(0 <= (count - 1) * b <= 59 * 86_400_000) by (nonlinear_arith)
        requires
            1 <= count <= 60,
            0 < b <= 86_400_000,
    ;
    let v = saturated(end - 1);
    lemma_fundamental_div_mod(v, b);
    assert((v / b) * b <= v) by (nonlinear_arith)
        requires
            v == b * (v / b) + v % b,
            0 <= v % b,
    ;
}

/// A range that fits into sixty buckets is shown from the bucket on that it starts in.
pub proof fn law_short_range_starts_in_its_first_bucket(start: i64, end: i64)
    requires
        range_fits(start as int, end as int),
        ({
            let b = granularity(duration(start as int, end as int)).1;
            0 <= (last_bucket(start as int, end as int) - first_bucket(start as int, end as int))
                / b < MAX_RANGE_BUCKETS
        }),
    ensures
        range_buckets(start as int, end as int).2 == first_bucket(start as int, end as int),
{
    let b = granularity(duration(start as int, end as int)).1;
    let v = saturated(end - 1);
    let first = first_bucket(start as int, end as int);
    let last = last_bucket(start as int, end as int);
    let x = v / b;
    let y = start as int / b;
    assert(last - first == b * (x - y) + 0) by (nonlinear_arith)
        requires
            last == x * b,
            first == y * b,
    ;
    lemma_fundamental_div_mod_converse(last - first, b, x - y, 0);
    assert(last - ((x - y) + 1 - 1) * b == first) by (nonlinear_arith)
        requires
            last == x * b,
            first == y * b,
    ;
    lemma_fundamental_div_mod(start as int, b);
    assert(y * b <= start) by (nonlinear_arith)
        requires
            start == b * y + start as int % b,
            0 <= start as int % b,
    ;
}

/// What the store recorded for a bucket of the series is what the series shows at its place, for a
/// series whose buckets do not run out of 64-bit times.
pub proof fn law_recorded_usage_is_shown(
    rows: Seq<TokenUsageBucket>,
    series_start: int,
    bucket_ms: int,
    count: int,
    place: int,
)
    requires
        i64::MIN <= series_start,
        0 < bucket_ms,
        0 <= place < count,
        series_start + count * bucket_ms <= i64::MAX,
        count * bucket_ms <= i64::MAX,
        recorded_at(rows, series_start + place * bucket_ms) is Some,
    ensures
        usage_series(rows, series_start, bucket_ms, count)[place] == recorded_at(
            rows,
            series_start + place * bucket_ms,
        )->0,
{
    assert(0 <= place * bucket_ms <= count * bucket_ms && (place - 1) * bucket_ms == place
        * bucket_ms - bucket_ms) by (nonlinear_arith)
        requires
            0 <= place < count,
            0 < bucket_ms,
    ;
    assert(place > 0 ==> 0 <= (place - 1) * bucket_ms) by (nonlinear_arith)
        requires
            0 < bucket_ms,
    ;
}

/// What the overview says is what was counted: the tokens of prompts are those sent anew, read from
/// the cache and written to it, and the whole is these and the tokens of answers, as long as the sums
/// fit.
pub proof fn law_overview_adds_up(
    calls: i64,
    successful: i64,
    failed: i64,
    input: i64,
    cache_read: i64,
    cache_write: i64,
    output: i64,
)
    requires
        0 <= input,
        0 <= cache_read,
        0 <= cache_write,
        0 <= output,
        input + cache_read + cache_write + output <= i64::MAX,
    ensures
        ({
            let m = counted(
                calls as int,
                successful as int,
                failed as int,
                input as int,
                cache_read as int,
                cache_write as int,
                output as int,
            );
            &&& m.llm_calls == calls
            &&& m.successful_calls == successful
            &&& m.failed_calls == failed
            &&& m.input_tokens == input
            &&& m.cache_read_tokens == cache_read
            &&& m.cache_write_tokens == cache_write
            &&& m.output_tokens == output
            &&& m.prompt_tokens == input + cache_read + cache_write
            &&& m.token_usage == input + cache_read + cache_write + output
        }),
{
}

/// A range of up to an hour is shown by minutes, one of up to sixty hours by hours, and a longer one by
/// days.
pub proof fn law_buckets_grow_with_the_range(duration: int)
    ensures
        duration <= 3_600_000 ==> granularity(duration) == (TokenUsageGranularity::Minute, 60_000int),
        3_600_000 < duration <= 216_000_000 ==> granularity(duration) == (
            TokenUsageGranularity::Hour,
            3_600_000int,
        ),
        216_000_000 < duration ==> granularity(duration) == (
            TokenUsageGranularity::Day,
            86_400_000int,
        ),
{
}

/// Without a range, the last 365 days are shown, today being the last of them.
pub proof fn law_a_year_is_shown_by_default(today: i64)
    requires
        today - 365 * 86_400_000 >= i64::MIN,
    ensures
        ({
            let (by, length, first, count) = default_buckets(today as int);
            &&& by == TokenUsageGranularity::Day
            &&& length == 86_400_000
            &&& count == 365
            &&& first + (count - 1) * length == today
        }),
{
}

/// A bucket of the series starts where its place says; one for which nothing was recorded is empty.
pub proof fn law_unrecorded_buckets_are_empty(
    rows: Seq<TokenUsageBucket>,
    series_start: int,
    bucket_ms: int,
    count: int,
    place: int,
)
    requires
        i64::MIN <= series_start,
        0 < bucket_ms,
        0 <= place < count,
        series_start + count * bucket_ms <= i64::MAX,
        count * bucket_ms <= i64::MAX,
        forall|i: int|
            0 <= i < rows.len() ==> (#[trigger] rows[i]).bucket_start_ms != series_start + place
                * bucket_ms,
    ensures
        ({
            let bucket = usage_series(rows, series_start, bucket_ms, count)[place];
            &&& usage_series(rows, series_start, bucket_ms, count).len() == count
            &&& bucket.bucket_start_ms == series_start + place * bucket_ms
            &&& bucket.input_tokens == 0
            &&& bucket.cache_read_tokens == 0
            &&& bucket.cache_write_tokens == 0
            &&& bucket.output_tokens == 0
        }),
{
    assert(0 <= place * bucket_ms < count * bucket_ms) by (nonlinear_arith)
        requires
            0 <= place < count,
            0 < bucket_ms,
    ;
    lemma_not_recorded(rows, series_start + place * bucket_ms);
}

proof fn lemma_not_recorded(rows: Seq<TokenUsageBucket>, start: int)
    requires
        forall|i: int| 0 <= i < rows.len() ==> (#[trigger] rows[i]).bucket_start_ms != start,
    ensures
        recorded_at(rows, start) is None,
    decreases rows.len(),
{
    if rows.len() > 0 {
        let rest = rows.drop_last();
        assert forall|i: int| 0 <= i < rest.len() implies (#[trigger] rest[i]).bucket_start_ms
            != start by {
            assert(rest[i] == rows[i]);
        }
        lemma_not_recorded(rest, start);
        assert(rows[rows.len() - 1].bucket_start_ms != start);
    }
}

/// What was recorded last for a start is what is found for it.
pub proof fn law_latest_record_counts(rows: Seq<TokenUsageBucket>, i: int)
    requires
        0 <= i < rows.len(),
        forall|k: int|
            i < k < rows.len() ==> (#[trigger] rows[k]).bucket_start_ms != rows[i].bucket_start_ms,
    ensures
        recorded_at(rows, rows[i].bucket_start_ms as int) == Some(rows[i]),
    decreases rows.len(),
{
    if i < rows.len() - 1 {
        let rest = rows.drop_last();
        assert(rest[i] == rows[i]);
        assert forall|k: int| i < k < rest.len() implies (#[trigger] rest[k]).bucket_start_ms
            != rest[i].bucket_start_ms by {
            assert(rest[k] == rows[k]);
        }
        law_latest_record_counts(rest, i);
        assert(rows[rows.len() - 1].bucket_start_ms != rows[i].bucket_start_ms);
    }
}

} // verus!
