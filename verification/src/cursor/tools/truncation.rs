//! Texts cut to a number of bytes, with a notice that says so.
//!
//! The notice tells how many bytes are shown, and its own length depends on that number. The number
//! is found in rounds: each takes the room that the notice leaves and counts again.
use crate::text;
use vstd::prelude::*;

verus! {

/// How often the bytes are counted at most. Where the count settles at all, far fewer rounds do.
pub const MAX_ROUNDS: u64 = 64;

/// The notice that a result was cut.
pub open spec fn notice_of(label: Seq<char>, limit: nat, shown: nat, original: nat) -> Seq<char> {
    "[truncated: "@ + label + " result exceeded "@ + text::decimal(limit) + " bytes; showing "@
        + text::decimal(shown) + " of "@ + text::decimal(original) + " bytes]"@
}

/// The notice that a result was cut.
pub fn truncation_notice(label: &str, limit: usize, shown: usize, original: usize) -> (r: String)
    ensures
        r@ == notice_of(label@, limit as nat, shown as nat, original as nat),
{
    let mut out = "[truncated: ".to_owned();
    out.append(label);
    out.append(" result exceeded ");
    out.append(text::decimal_u64(limit as u64).as_str());
    out.append(" bytes; showing ");
    out.append(text::decimal_u64(shown as u64).as_str());
    out.append(" of ");
    out.append(text::decimal_u64(original as u64).as_str());
    out.append(" bytes]");
    out
}

/// The end of a text that was cut: the notice on a line of its own.
pub open spec fn tail_of(label: Seq<char>, limit: nat, shown: nat, original: nat) -> Seq<char> {
    "\n\n"@ + notice_of(label, limit, shown, original)
}

/// The middle of a text of which both ends are kept.
pub open spec fn gap_of(label: Seq<char>, limit: nat, shown: nat, original: nat) -> Seq<char> {
    "\n\n[truncated: "@ + label + " result exceeded "@ + text::decimal(limit)
        + " bytes; omitted middle; showing "@ + text::decimal(shown) + " of "@ + text::decimal(
        original,
    ) + " bytes]\n\n"@
}

/// The room that is left of a limit.
pub open spec fn room(limit: nat, taken: nat) -> nat {
    if taken >= limit {
        0
    } else {
        (limit - taken) as nat
    }
}

/// The beginning that stays where `shown` bytes are told to be shown.
pub open spec fn kept_head(label: Seq<char>, content: Seq<char>, limit: nat, shown: nat) -> Seq<
    char,
> {
    text::prefix_within(
        content,
        room(limit, text::utf8_len(tail_of(label, limit, shown, text::utf8_len(content)))),
    )
}

/// How many bytes stay where `shown` bytes are told to be shown.
pub open spec fn recount(label: Seq<char>, content: Seq<char>, limit: nat, shown: nat) -> nat {
    text::utf8_len(kept_head(label, content, limit, shown))
}

/// The number that the rounds arrive at: the first that its own notice makes true.
pub open spec fn settle(
    label: Seq<char>,
    content: Seq<char>,
    limit: nat,
    shown: nat,
    rounds: nat,
) -> nat
    decreases rounds,
{
    let next = recount(label, content, limit, shown);
    if next == shown || rounds == 0 {
        shown
    } else {
        settle(label, content, limit, next, (rounds - 1) as nat)
    }
}

/// The number of bytes that the notice tells.
pub open spec fn shown_bytes(label: Seq<char>, content: Seq<char>, limit: nat) -> nat {
    settle(label, content, limit, limit, MAX_ROUNDS as nat)
}

/// A text without line feeds at its end.
pub open spec fn without_feeds(s: Seq<char>) -> Seq<char>
    decreases s.len(),
{
    if s.len() > 0 && s.last() == '\n' {
        without_feeds(s.drop_last())
    } else {
        s
    }
}

/// A text cut to a limit: its beginning and a notice.
pub open spec fn truncated(label: Seq<char>, content: Seq<char>, limit: nat) -> Seq<char> {
    if text::utf8_len(content) <= limit {
        content
    } else {
        let shown = shown_bytes(label, content, limit);
        without_feeds(kept_head(label, content, limit, shown)) + tail_of(
            label,
            limit,
            shown,
            text::utf8_len(content),
        )
    }
}

/// A text without line feeds at its end.
pub fn trim_feeds(s: &str) -> (r: String)
    ensures
        r@ == without_feeds(s@),
{
    let chars = text::to_chars(s);
    let mut end: usize = chars.len();
    assert(chars@.take(end as int) =~= chars@);
    while end > 0 && chars[end - 1] == '\n'
        invariant
            end <= chars@.len(),
            chars@ == s@,
            without_feeds(chars@.take(end as int)) == without_feeds(s@),
        decreases end,
    {
        assert(chars@.take(end as int).drop_last() =~= chars@.take(end - 1));
        end -= 1;
    }
    let kept = text::slice(&chars, 0, end);
    assert(kept@ =~= chars@.take(end as int));
    kept
}

fn tail(label: &str, limit: usize, shown: usize, original: usize) -> (r: String)
    ensures
        r@ == tail_of(label@, limit as nat, shown as nat, original as nat),
{
    let notice = truncation_notice(label, limit, shown, original);
    text::concat("\n\n", notice.as_str())
}

/// The beginning of a text that takes at most a number of bytes.
pub fn utf8_prefix(content: &str, limit: usize) -> (r: String)
    ensures
        r@ == text::prefix_within(content@, limit as nat),
{
    let chars = text::to_chars(content);
    let end = text::prefix_end(&chars, limit);
    let kept = text::slice(&chars, 0, end);
    assert(kept@ =~= chars@.take(end as int));
    kept
}

/// The end of a text that takes at most a number of bytes.
pub fn utf8_suffix(content: &str, limit: usize) -> (r: String)
    ensures
        r@ == text::suffix_within(content@, limit as nat),
{
    let chars = text::to_chars(content);
    let start = text::suffix_start(&chars, limit);
    let kept = text::slice(&chars, start, chars.len());
    assert(kept@ =~= chars@.skip(start as int));
    kept
}

/// A text cut to a limit: its beginning and a notice.
pub fn truncate_text(label: &str, content: &str, limit: usize) -> (r: String)
    ensures
        r@ == truncated(label@, content@, limit as nat),
{
    let original = text::byte_len(content);
    if original <= limit {
        return content.to_owned();
    }
    let mut shown: usize = limit;
    let mut rounds: u64 = MAX_ROUNDS;
    loop
        invariant
            original == text::utf8_len(content@),
            original > limit,
            rounds <= MAX_ROUNDS,
            shown_bytes(label@, content@, limit as nat) == settle(
                label@,
                content@,
                limit as nat,
                shown as nat,
                rounds as nat,
            ),
        decreases rounds,
    {
        let end = tail(label, limit, shown, original);
        let available = limit.saturating_sub(text::byte_len(end.as_str()));
        let kept = utf8_prefix(content, available);
        let next = text::byte_len(kept.as_str());
        if next == shown || rounds == 0 {
            let head = trim_feeds(kept.as_str());
            return text::concat(head.as_str(), end.as_str());
        }
        shown = next;
        rounds -= 1;
    }
}

/// The two ends that stay where `shown` bytes are told to be shown.
pub open spec fn kept_ends(label: Seq<char>, content: Seq<char>, limit: nat, shown: nat) -> (
    Seq<char>,
    Seq<char>,
) {
    let space = room(limit, text::utf8_len(gap_of(label, limit, shown, text::utf8_len(content))));
    let head = text::prefix_within(content, space / 2);
    (head, text::suffix_within(content, (space - text::utf8_len(head)) as nat))
}

/// How many bytes of both ends stay where `shown` bytes are told to be shown.
pub open spec fn recount_ends(label: Seq<char>, content: Seq<char>, limit: nat, shown: nat) -> nat {
    let ends = kept_ends(label, content, limit, shown);
    text::utf8_len(ends.0) + text::utf8_len(ends.1)
}

/// The number that the rounds arrive at: the first that its own notice makes true.
pub open spec fn settle_ends(
    label: Seq<char>,
    content: Seq<char>,
    limit: nat,
    shown: nat,
    rounds: nat,
) -> nat
    decreases rounds,
{
    let next = recount_ends(label, content, limit, shown);
    if next == shown || rounds == 0 {
        shown
    } else {
        settle_ends(label, content, limit, next, (rounds - 1) as nat)
    }
}

/// The number of bytes that the notice between two ends tells.
pub open spec fn shown_end_bytes(label: Seq<char>, content: Seq<char>, limit: nat) -> nat {
    settle_ends(label, content, limit, limit, MAX_ROUNDS as nat)
}

/// A text cut to a limit: its beginning, a notice and its end.
pub open spec fn truncated_middle(label: Seq<char>, content: Seq<char>, limit: nat) -> Seq<char> {
    if text::utf8_len(content) <= limit {
        content
    } else {
        let shown = shown_end_bytes(label, content, limit);
        let ends = kept_ends(label, content, limit, shown);
        ends.0 + gap_of(label, limit, shown, text::utf8_len(content)) + ends.1
    }
}

fn gap(label: &str, limit: usize, shown: usize, original: usize) -> (r: String)
    ensures
        r@ == gap_of(label@, limit as nat, shown as nat, original as nat),
{
    let mut out = "\n\n[truncated: ".to_owned();
    out.append(label);
    out.append(" result exceeded ");
    out.append(text::decimal_u64(limit as u64).as_str());
    out.append(" bytes; omitted middle; showing ");
    out.append(text::decimal_u64(shown as u64).as_str());
    out.append(" of ");
    out.append(text::decimal_u64(original as u64).as_str());
    out.append(" bytes]\n\n");
    out
}

/// A text cut to a limit: its beginning, a notice and its end.
pub fn truncate_edges(label: &str, content: &str, limit: usize) -> (r: String)
    ensures
        r@ == truncated_middle(label@, content@, limit as nat),
{
    let original = text::byte_len(content);
    if original <= limit {
        return content.to_owned();
    }
    let mut shown: usize = limit;
    let mut rounds: u64 = MAX_ROUNDS;
    loop
        invariant
            original == text::utf8_len(content@),
            original > limit,
            rounds <= MAX_ROUNDS,
            shown_end_bytes(label@, content@, limit as nat) == settle_ends(
                label@,
                content@,
                limit as nat,
                shown as nat,
                rounds as nat,
            ),
        decreases rounds,
    {
        let middle = gap(label, limit, shown, original);
        let available = limit.saturating_sub(text::byte_len(middle.as_str()));
        let head = utf8_prefix(content, available / 2);
        proof {
            text::lemma_prefix_within_fits(content@, (available / 2) as nat);
        }
        let head_bytes = text::byte_len(head.as_str());
        let end = utf8_suffix(content, available - head_bytes);
        proof {
            text::lemma_suffix_within_fits(content@, (available - head_bytes) as nat);
        }
        let next = head_bytes + text::byte_len(end.as_str());
        if next == shown || rounds == 0 {
            return text::concat3(head.as_str(), middle.as_str(), end.as_str());
        }
        shown = next;
        rounds -= 1;
    }
}

/// The count after some rounds.
pub open spec fn count_after(label: Seq<char>, content: Seq<char>, limit: nat, rounds: nat) -> nat
    decreases rounds,
{
    if rounds == 0 {
        limit
    } else {
        recount(label, content, limit, count_after(label, content, limit, (rounds - 1) as nat))
    }
}

/// A larger number has no fewer digits.
proof fn lemma_digits_grow(a: nat, b: nat)
    requires
        a <= b,
    ensures
        text::decimal(a).len() <= text::decimal(b).len(),
        text::decimal(a).len() >= 1,
    decreases b,
{
    if b >= 10 && a >= 10 {
        lemma_digits_grow(a / 10, b / 10);
    }
}

/// Ten to the power of `k`.
pub open spec fn ten_to(k: nat) -> nat
    decreases k,
{
    if k == 0 {
        1
    } else {
        10 * ten_to((k - 1) as nat)
    }
}

/// A number below ten to the power of `k` has at most `k` digits.
pub proof fn lemma_digits_bound(n: nat, k: nat)
    requires
        k >= 1,
        n < ten_to(k),
    ensures
        text::decimal(n).len() <= k,
    decreases k,
{
    if n >= 10 {
        if k == 1 {
            reveal_with_fuel(ten_to, 2);
        } else {
            lemma_digits_bound(n / 10, (k - 1) as nat);
        }
    }
}

/// A numeral takes one byte for each digit.
pub proof fn lemma_numeral_bytes(n: nat)
    ensures
        text::utf8_len(text::decimal(n)) == text::decimal(n).len(),
    decreases n,
{
    let empty = Seq::<char>::empty();
    if n < 10 {
        let c = text::digit_char(n);
        assert(text::decimal(n) =~= empty.push(c));
        text::lemma_utf8_len_push(empty, c);
        assert(text::utf8_len(empty) == 0);
    } else {
        lemma_numeral_bytes(n / 10);
        text::lemma_utf8_len_push(text::decimal(n / 10), text::digit_char(n % 10));
    }
}

/// The length of the notice depends on the shown number by its digits alone.
proof fn lemma_tail_bytes(label: Seq<char>, limit: nat, shown: nat, original: nat)
    ensures
        text::utf8_len(tail_of(label, limit, shown, original)) == text::utf8_len(
            tail_of(label, limit, 0, original),
        ) - 1 + text::decimal(shown).len(),
{
    lemma_tail_parts(label, limit, shown, original);
    lemma_tail_parts(label, limit, 0, original);
    assert(text::decimal(0).len() == 1);
}

proof fn lemma_tail_parts(label: Seq<char>, limit: nat, shown: nat, original: nat)
    ensures
        ({
            let before = "[truncated: "@ + label + " result exceeded "@ + text::decimal(limit)
                + " bytes; showing "@;
            let after = " of "@ + text::decimal(original) + " bytes]"@;
            text::utf8_len(tail_of(label, limit, shown, original)) == text::utf8_len("\n\n"@)
                + text::utf8_len(before) + text::decimal(shown).len() + text::utf8_len(after)
        }),
{
    let before = "[truncated: "@ + label + " result exceeded "@ + text::decimal(limit)
        + " bytes; showing "@;
    let after = " of "@ + text::decimal(original) + " bytes]"@;
    let number = text::decimal(shown);
    let notice = notice_of(label, limit, shown, original);
    assert(notice =~= (before + number) + after);
    text::lemma_encode_concat(before + number, after);
    text::lemma_encode_concat(before, number);
    lemma_numeral_bytes(shown);
    text::lemma_encode_concat("\n\n"@, notice);
}

/// More room never keeps less.
pub proof fn lemma_prefix_grows(s: Seq<char>, small: nat, large: nat)
    requires
        small <= large,
    ensures
        text::utf8_len(text::prefix_within(s, small)) <= text::utf8_len(
            text::prefix_within(s, large),
        ),
    decreases s.len(),
{
    text::lemma_prefix_within_fits(s, small);
    if text::utf8_len(s) <= large || s.len() == 0 {
        let n = text::prefix_within(s, small).len() as int;
        text::lemma_utf8_len_take(s, n, s.len() as int);
        assert(s.take(s.len() as int) =~= s);
    } else {
        lemma_prefix_grows(s.drop_last(), small, large);
    }
}

/// A number with more digits leaves no more to be shown.
proof fn lemma_recount_shrinks(label: Seq<char>, content: Seq<char>, limit: nat, a: nat, b: nat)
    requires
        text::decimal(a).len() <= text::decimal(b).len(),
    ensures
        recount(label, content, limit, b) <= recount(label, content, limit, a),
        text::decimal(a).len() == text::decimal(b).len() ==> recount(label, content, limit, b)
            == recount(label, content, limit, a),
{
    let original = text::utf8_len(content);
    lemma_tail_bytes(label, limit, a, original);
    lemma_tail_bytes(label, limit, b, original);
    let room_a = room(limit, text::utf8_len(tail_of(label, limit, a, original)));
    let room_b = room(limit, text::utf8_len(tail_of(label, limit, b, original)));
    lemma_prefix_grows(content, room_b, room_a);
}

/// No count is larger than the limit.
proof fn lemma_count_within(label: Seq<char>, content: Seq<char>, limit: nat, rounds: nat)
    ensures
        count_after(label, content, limit, rounds) <= limit,
{
    if rounds > 0 {
        let before = count_after(label, content, limit, (rounds - 1) as nat);
        let space = room(
            limit,
            text::utf8_len(tail_of(label, limit, before, text::utf8_len(content))),
        );
        text::lemma_prefix_within_fits(content, space);
    }
}

/// Counts two rounds apart: those after an odd number of rounds grow, the others shrink.
proof fn lemma_counts_close_in(label: Seq<char>, content: Seq<char>, limit: nat, k: nat)
    ensures
        count_after(label, content, limit, 2 * k + 1) <= count_after(
            label,
            content,
            limit,
            2 * k + 3,
        ),
        count_after(label, content, limit, 2 * k + 4) <= count_after(
            label,
            content,
            limit,
            2 * k + 2,
        ),
    decreases k,
{
    let c = |n: nat| count_after(label, content, limit, n);
    if k == 0 {
        lemma_count_within(label, content, limit, 2);
        lemma_digits_grow(c(2), c(0));
        lemma_recount_shrinks(label, content, limit, c(2), c(0));
    } else {
        lemma_counts_close_in(label, content, limit, (k - 1) as nat);
        assert(2 * (k - 1) + 4 == 2 * k + 2);
        assert(2 * (k - 1) + 2 == 2 * k);
        lemma_digits_grow(c(2 * k + 2), c(2 * k));
        lemma_recount_shrinks(label, content, limit, c(2 * k + 2), c(2 * k));
    }
    assert(c(2 * k + 1) <= c(2 * k + 3));
    lemma_digits_grow(c(2 * k + 1), c(2 * k + 3));
    lemma_recount_shrinks(label, content, limit, c(2 * k + 1), c(2 * k + 3));
}

/// Once two counts two rounds apart have as many digits, the rounds repeat.
proof fn lemma_counts_repeat(label: Seq<char>, content: Seq<char>, limit: nat, from: nat, m: nat)
    requires
        text::decimal(count_after(label, content, limit, from)).len() == text::decimal(
            count_after(label, content, limit, from + 2),
        ).len(),
    ensures
        count_after(label, content, limit, from + 1 + 2 * m) == count_after(
            label,
            content,
            limit,
            from + 1,
        ),
        count_after(label, content, limit, from + 2 + 2 * m) == count_after(
            label,
            content,
            limit,
            from + 2,
        ),
    decreases m,
{
    let c = |n: nat| count_after(label, content, limit, n);
    if m > 0 {
        lemma_counts_repeat(label, content, limit, from, (m - 1) as nat);
        let k = (from + 2 * m) as nat;
        assert(from + 2 + 2 * (m - 1) == k);
        assert(c(k) == c(from + 2));
        lemma_recount_shrinks(label, content, limit, c(from), c(from + 2));
        assert(c(from + 1) == recount(label, content, limit, c(from)));
        assert(c(k + 1) == recount(label, content, limit, c(k)));
        assert(c(k + 1) == c(from + 1));
        assert(c(k + 2) == recount(label, content, limit, c(k + 1)));
        assert(c(from + 2) == recount(label, content, limit, c(from + 1)));
    }
}

/// Among the counts after odd numbers of rounds two neighbours have as many digits before long.
proof fn lemma_digits_level(label: Seq<char>, content: Seq<char>, limit: nat, k: nat) -> (found: nat)
    requires
        limit <= u64::MAX,
        text::decimal(count_after(label, content, limit, 2 * k + 1)).len() > k,
        k <= 20,
    ensures
        found <= 20,
        text::decimal(count_after(label, content, limit, 2 * found + 1)).len() == text::decimal(
            count_after(label, content, limit, 2 * found + 3),
        ).len(),
    decreases 20 - k,
{
    let c = |n: nat| count_after(label, content, limit, n);
    lemma_counts_close_in(label, content, limit, k);
    lemma_digits_grow(c(2 * k + 1), c(2 * k + 3));
    lemma_count_within(label, content, limit, 2 * k + 1);
    reveal_with_fuel(ten_to, 21);
    lemma_digits_bound(c(2 * k + 1), 20);
    if text::decimal(c(2 * k + 1)).len() == text::decimal(c(2 * k + 3)).len() {
        k
    } else {
        assert(2 * (k + 1) + 1 == 2 * k + 3);
        lemma_digits_level(label, content, limit, k + 1)
    }
}

/// The rounds follow the counts.
proof fn lemma_settle_follows(
    label: Seq<char>,
    content: Seq<char>,
    limit: nat,
    at: nat,
    n: nat,
    rounds: nat,
)
    requires
        at <= n,
        n - at <= rounds,
        recount(label, content, limit, count_after(label, content, limit, n)) == count_after(
            label,
            content,
            limit,
            n,
        ),
        forall|j: nat|
            at <= j < n ==> #[trigger] count_after(label, content, limit, j) != count_after(
                label,
                content,
                limit,
                j + 1,
            ),
    ensures
        settle(label, content, limit, count_after(label, content, limit, at), rounds)
            == count_after(label, content, limit, n),
    decreases n - at,
{
    if at < n {
        assert(count_after(label, content, limit, at) != count_after(
            label,
            content,
            limit,
            at + 1,
        ));
        lemma_settle_follows(label, content, limit, at + 1, n, (rounds - 1) as nat);
    }
}

/// Where counting again ever gives the same number, that number is what the notice tells: the rounds
/// that are made always reach it.
pub proof fn law_count_settles(label: Seq<char>, content: Seq<char>, limit: nat, n: nat)
    requires
        limit <= u64::MAX,
        recount(label, content, limit, count_after(label, content, limit, n)) == count_after(
            label,
            content,
            limit,
            n,
        ),
    ensures
        ({
            let shown = shown_bytes(label, content, limit);
            &&& shown == count_after(label, content, limit, n)
            &&& recount(label, content, limit, shown) == shown
        }),
{
    let c = |n: nat| count_after(label, content, limit, n);
    lemma_digits_grow(c(1), c(1));
    let level = lemma_digits_level(label, content, limit, 0);
    let from = 2 * level + 1;
    let first = lemma_first_fixed(label, content, limit, n);
    if first > from + 2 {
        let m = ((first - (from + 1)) / 2) as nat;
        lemma_counts_repeat(label, content, limit, from, m);
        lemma_counts_repeat(label, content, limit, from, m + 1);
        assert(c(first) == c(first + 1));
        if first == from + 1 + 2 * m {
            assert(c(first) == c(from + 1));
            assert(c(first + 1) == c(from + 2));
            assert(c(from + 1) == c((from + 1) + 1));
            assert(false);
        } else {
            assert(first == from + 2 + 2 * m);
            assert(first + 1 == from + 1 + 2 * (m + 1));
            assert(c(first) == c(from + 2));
            assert(c(first + 1) == c(from + 1));
            assert(c(from + 1) == c((from + 1) + 1));
            assert(false);
        }
    }
    lemma_settle_follows(label, content, limit, 0, first, MAX_ROUNDS as nat);
    lemma_fixed_stays(label, content, limit, first, n);
}

proof fn lemma_first_fixed(label: Seq<char>, content: Seq<char>, limit: nat, n: nat) -> (first: nat)
    requires
        recount(label, content, limit, count_after(label, content, limit, n)) == count_after(
            label,
            content,
            limit,
            n,
        ),
    ensures
        first <= n,
        recount(label, content, limit, count_after(label, content, limit, first)) == count_after(
            label,
            content,
            limit,
            first,
        ),
        forall|j: nat|
            j < first ==> #[trigger] count_after(label, content, limit, j) != count_after(
                label,
                content,
                limit,
                j + 1,
            ),
    decreases n,
{
    if exists|j: nat|
        j < n && #[trigger] count_after(label, content, limit, j) == count_after(
            label,
            content,
            limit,
            j + 1,
        ) {
        let j = choose|j: nat|
            j < n && #[trigger] count_after(label, content, limit, j) == count_after(
                label,
                content,
                limit,
                j + 1,
            );
        lemma_first_fixed(label, content, limit, j)
    } else {
        n
    }
}

proof fn lemma_fixed_stays(label: Seq<char>, content: Seq<char>, limit: nat, first: nat, n: nat)
    requires
        first <= n,
        recount(label, content, limit, count_after(label, content, limit, first)) == count_after(
            label,
            content,
            limit,
            first,
        ),
    ensures
        count_after(label, content, limit, n) == count_after(label, content, limit, first),
    decreases n,
{
    if n > first {
        lemma_fixed_stays(label, content, limit, first, (n - 1) as nat);
    }
}

/// The count of both ends after some rounds.
pub open spec fn ends_after(label: Seq<char>, content: Seq<char>, limit: nat, rounds: nat) -> nat
    decreases rounds,
{
    if rounds == 0 {
        limit
    } else {
        recount_ends(label, content, limit, ends_after(label, content, limit, (rounds - 1) as nat))
    }
}

proof fn lemma_gap_parts(label: Seq<char>, limit: nat, shown: nat, original: nat)
    ensures
        ({
            let before = "\n\n[truncated: "@ + label + " result exceeded "@ + text::decimal(limit)
                + " bytes; omitted middle; showing "@;
            let after = " of "@ + text::decimal(original) + " bytes]\n\n"@;
            text::utf8_len(gap_of(label, limit, shown, original)) == text::utf8_len(before)
                + text::decimal(shown).len() + text::utf8_len(after)
        }),
{
    let before = "\n\n[truncated: "@ + label + " result exceeded "@ + text::decimal(limit)
        + " bytes; omitted middle; showing "@;
    let after = " of "@ + text::decimal(original) + " bytes]\n\n"@;
    let number = text::decimal(shown);
    assert(gap_of(label, limit, shown, original) =~= (before + number) + after);
    text::lemma_encode_concat(before + number, after);
    text::lemma_encode_concat(before, number);
    lemma_numeral_bytes(shown);
}

/// Numbers with as many digits leave the same ends.
proof fn lemma_digits_decide_ends(
    label: Seq<char>,
    content: Seq<char>,
    limit: nat,
    a: nat,
    b: nat,
)
    requires
        text::decimal(a).len() == text::decimal(b).len(),
    ensures
        recount_ends(label, content, limit, a) == recount_ends(label, content, limit, b),
{
    lemma_gap_parts(label, limit, a, text::utf8_len(content));
    lemma_gap_parts(label, limit, b, text::utf8_len(content));
}

/// No count of both ends is larger than the limit.
proof fn lemma_ends_within(label: Seq<char>, content: Seq<char>, limit: nat, rounds: nat)
    ensures
        ends_after(label, content, limit, rounds) <= limit,
{
    if rounds > 0 {
        let before = ends_after(label, content, limit, (rounds - 1) as nat);
        let middle = gap_of(label, limit, before, text::utf8_len(content));
        let space = room(limit, text::utf8_len(middle));
        let ends = kept_ends(label, content, limit, before);
        text::lemma_prefix_within_fits(content, space / 2);
        text::lemma_suffix_within_fits(content, (space - text::utf8_len(ends.0)) as nat);
    }
}

/// Once two counts have as many digits, the rounds repeat.
proof fn lemma_ends_repeat(
    label: Seq<char>,
    content: Seq<char>,
    limit: nat,
    i: nat,
    j: nat,
    m: nat,
)
    requires
        text::decimal(ends_after(label, content, limit, i)).len() == text::decimal(
            ends_after(label, content, limit, j),
        ).len(),
    ensures
        ends_after(label, content, limit, i + 1 + m) == ends_after(
            label,
            content,
            limit,
            j + 1 + m,
        ),
    decreases m,
{
    if m > 0 {
        lemma_ends_repeat(label, content, limit, i, j, (m - 1) as nat);
    } else {
        lemma_digits_decide_ends(
            label,
            content,
            limit,
            ends_after(label, content, limit, i),
            ends_after(label, content, limit, j),
        );
    }
}

/// Two of the first counts have as many digits: there are more counts than numbers of digits.
proof fn lemma_ends_level(label: Seq<char>, content: Seq<char>, limit: nat) -> (found: (nat, nat))
    requires
        limit <= u64::MAX,
    ensures
        found.0 < found.1 <= 20,
        text::decimal(ends_after(label, content, limit, found.0)).len() == text::decimal(
            ends_after(label, content, limit, found.1),
        ).len(),
{
    let digits = Seq::new(
        21,
        |k: int| text::decimal(ends_after(label, content, limit, k as nat)).len() as int,
    );
    let range = vstd::set_lib::set_int_range(1, 21);
    vstd::set_lib::lemma_int_range(1, 21);
    assert forall|k: int| 0 <= k < digits.len() implies 1 <= #[trigger] digits[k] <= 20 by {
        let count = ends_after(label, content, limit, k as nat);
        lemma_ends_within(label, content, limit, k as nat);
        lemma_digits_grow(count, count);
        reveal_with_fuel(ten_to, 21);
        lemma_digits_bound(count, 20);
    }
    assert(digits.to_set().subset_of(range));
    if digits.no_duplicates() {
        digits.unique_seq_to_set();
        vstd::set_lib::lemma_len_subset(digits.to_set(), range);
        assert(false);
    }
    let (a, b) = choose|a: int, b: int|
        0 <= a < digits.len() && 0 <= b < digits.len() && a != b && digits[a] == digits[b];
    if a < b {
        (a as nat, b as nat)
    } else {
        (b as nat, a as nat)
    }
}

proof fn lemma_first_fixed_ends(label: Seq<char>, content: Seq<char>, limit: nat, n: nat) -> (first:
    nat)
    requires
        ends_after(label, content, limit, n) == ends_after(label, content, limit, n + 1),
    ensures
        first <= n,
        ends_after(label, content, limit, first) == ends_after(label, content, limit, first + 1),
        ends_after(label, content, limit, n) == ends_after(label, content, limit, first),
        forall|j: nat|
            j < first ==> #[trigger] ends_after(label, content, limit, j) != ends_after(
                label,
                content,
                limit,
                j + 1,
            ),
    decreases n,
{
    if exists|j: nat|
        j < n && #[trigger] ends_after(label, content, limit, j) == ends_after(
            label,
            content,
            limit,
            j + 1,
        ) {
        let j = choose|j: nat|
            j < n && #[trigger] ends_after(label, content, limit, j) == ends_after(
                label,
                content,
                limit,
                j + 1,
            );
        lemma_fixed_ends_stay(label, content, limit, j, n);
        lemma_first_fixed_ends(label, content, limit, j)
    } else {
        n
    }
}

proof fn lemma_fixed_ends_stay(
    label: Seq<char>,
    content: Seq<char>,
    limit: nat,
    first: nat,
    n: nat,
)
    requires
        first <= n,
        ends_after(label, content, limit, first) == ends_after(label, content, limit, first + 1),
    ensures
        ends_after(label, content, limit, n) == ends_after(label, content, limit, first),
    decreases n,
{
    if n > first {
        lemma_fixed_ends_stay(label, content, limit, first, (n - 1) as nat);
    }
}

/// The rounds follow the counts of both ends.
proof fn lemma_settle_ends_follows(
    label: Seq<char>,
    content: Seq<char>,
    limit: nat,
    at: nat,
    n: nat,
    rounds: nat,
)
    requires
        at <= n,
        n - at <= rounds,
        ends_after(label, content, limit, n) == ends_after(label, content, limit, n + 1),
        forall|j: nat|
            at <= j < n ==> #[trigger] ends_after(label, content, limit, j) != ends_after(
                label,
                content,
                limit,
                j + 1,
            ),
    ensures
        settle_ends(label, content, limit, ends_after(label, content, limit, at), rounds)
            == ends_after(label, content, limit, n),
    decreases n - at,
{
    if at < n {
        assert(ends_after(label, content, limit, at) != ends_after(label, content, limit, at + 1));
        lemma_settle_ends_follows(label, content, limit, at + 1, n, (rounds - 1) as nat);
    }
}

/// The same of a text that is cut in the middle: where counting both ends again ever gives the same
/// number, that number is what the notice tells.
pub proof fn law_count_of_ends_settles(label: Seq<char>, content: Seq<char>, limit: nat, n: nat)
    requires
        limit <= u64::MAX,
        recount_ends(label, content, limit, ends_after(label, content, limit, n)) == ends_after(
            label,
            content,
            limit,
            n,
        ),
    ensures
        ({
            let shown = shown_end_bytes(label, content, limit);
            &&& shown == ends_after(label, content, limit, n)
            &&& recount_ends(label, content, limit, shown) == shown
        }),
{
    let c = |n: nat| ends_after(label, content, limit, n);
    assert(c(n) == c(n + 1));
    let (i, j) = lemma_ends_level(label, content, limit);
    let first = lemma_first_fixed_ends(label, content, limit, n);
    if first > j {
        let m = (first - j - 1) as nat;
        lemma_ends_repeat(label, content, limit, i, j, m);
        lemma_ends_repeat(label, content, limit, i, j, m + 1);
        assert(c(i + 1 + m) == c(first));
        assert(c(i + 1 + m + 1) == c(first + 1));
        assert(ends_after(label, content, limit, i + 1 + m) != ends_after(
            label,
            content,
            limit,
            i + 1 + m + 1,
        ));
        assert(false);
    }
    lemma_settle_ends_follows(label, content, limit, 0, first, MAX_ROUNDS as nat);
}

/// A text without line feeds at its end is no longer.
pub proof fn lemma_without_feeds(s: Seq<char>)
    ensures
        text::utf8_len(without_feeds(s)) <= text::utf8_len(s),
    decreases s.len(),
{
    if s.len() > 0 && s.last() == '\n' {
        lemma_without_feeds(s.drop_last());
        text::lemma_utf8_len_push(s.drop_last(), '\n');
        assert(s.drop_last().push('\n') =~= s);
    }
}

/// The rounds never tell more than the limit.
proof fn lemma_settle_within(
    label: Seq<char>,
    content: Seq<char>,
    limit: nat,
    shown: nat,
    rounds: nat,
)
    requires
        shown <= limit,
    ensures
        settle(label, content, limit, shown, rounds) <= limit,
    decreases rounds,
{
    let end = tail_of(label, limit, shown, text::utf8_len(content));
    text::lemma_prefix_within_fits(content, room(limit, text::utf8_len(end)));
    if rounds > 0 {
        lemma_settle_within(
            label,
            content,
            limit,
            recount(label, content, limit, shown),
            (rounds - 1) as nat,
        );
    }
}

proof fn lemma_settle_ends_within(
    label: Seq<char>,
    content: Seq<char>,
    limit: nat,
    shown: nat,
    rounds: nat,
)
    requires
        shown <= limit,
    ensures
        settle_ends(label, content, limit, shown, rounds) <= limit,
    decreases rounds,
{
    let middle = gap_of(label, limit, shown, text::utf8_len(content));
    let space = room(limit, text::utf8_len(middle));
    let ends = kept_ends(label, content, limit, shown);
    text::lemma_prefix_within_fits(content, space / 2);
    text::lemma_suffix_within_fits(content, (space - text::utf8_len(ends.0)) as nat);
    if rounds > 0 {
        lemma_settle_ends_within(
            label,
            content,
            limit,
            recount_ends(label, content, limit, shown),
            (rounds - 1) as nat,
        );
    }
}

/// A number of 64 bits takes at most twenty bytes.
proof fn lemma_number_bytes(n: nat)
    requires
        n <= u64::MAX,
    ensures
        text::utf8_len(text::decimal(n)) <= 20,
{
    reveal_with_fuel(ten_to, 21);
    lemma_digits_bound(n, 20);
    lemma_numeral_bytes(n);
}

/// The length of a notice without its label is bounded.
pub proof fn lemma_notice_bytes(label: Seq<char>, limit: nat, shown: nat, original: nat)
    requires
        limit <= u64::MAX,
        shown <= u64::MAX,
        original <= u64::MAX,
    ensures
        text::utf8_len(notice_of(label, limit, shown, original)) <= text::utf8_len(label) + 150,
        text::utf8_len(tail_of(label, limit, shown, original)) <= text::utf8_len(label) + 152,
{
    let a = "[truncated: "@;
    let c = " result exceeded "@;
    let d = text::decimal(limit);
    let e = " bytes; showing "@;
    let f = text::decimal(shown);
    let g = " of "@;
    let h = text::decimal(original);
    let k = " bytes]"@;
    reveal_strlit("[truncated: ");
    reveal_strlit(" result exceeded ");
    reveal_strlit(" bytes; showing ");
    reveal_strlit(" of ");
    reveal_strlit(" bytes]");
    reveal_strlit("\n\n");
    text::lemma_ascii_len(a);
    text::lemma_ascii_len(c);
    text::lemma_ascii_len(e);
    text::lemma_ascii_len(g);
    text::lemma_ascii_len(k);
    text::lemma_ascii_len("\n\n"@);
    lemma_number_bytes(limit);
    lemma_number_bytes(shown);
    lemma_number_bytes(original);
    text::lemma_encode_concat(a, label);
    text::lemma_encode_concat(a + label, c);
    text::lemma_encode_concat(a + label + c, d);
    text::lemma_encode_concat(a + label + c + d, e);
    text::lemma_encode_concat(a + label + c + d + e, f);
    text::lemma_encode_concat(a + label + c + d + e + f, g);
    text::lemma_encode_concat(a + label + c + d + e + f + g, h);
    text::lemma_encode_concat(a + label + c + d + e + f + g + h, k);
    text::lemma_encode_concat("\n\n"@, notice_of(label, limit, shown, original));
}

/// The length of the middle of a text of which both ends are kept is bounded but for its label.
proof fn lemma_gap_bytes(label: Seq<char>, limit: nat, shown: nat, original: nat)
    requires
        limit <= u64::MAX,
        shown <= u64::MAX,
        original <= u64::MAX,
    ensures
        text::utf8_len(gap_of(label, limit, shown, original)) <= text::utf8_len(label) + 180,
{
    let a = "\n\n[truncated: "@;
    let c = " result exceeded "@;
    let d = text::decimal(limit);
    let e = " bytes; omitted middle; showing "@;
    let f = text::decimal(shown);
    let g = " of "@;
    let h = text::decimal(original);
    let k = " bytes]\n\n"@;
    reveal_strlit("\n\n[truncated: ");
    reveal_strlit(" result exceeded ");
    reveal_strlit(" bytes; omitted middle; showing ");
    reveal_strlit(" of ");
    reveal_strlit(" bytes]\n\n");
    text::lemma_ascii_len(a);
    text::lemma_ascii_len(c);
    text::lemma_ascii_len(e);
    text::lemma_ascii_len(g);
    text::lemma_ascii_len(k);
    lemma_number_bytes(limit);
    lemma_number_bytes(shown);
    lemma_number_bytes(original);
    text::lemma_encode_concat(a, label);
    text::lemma_encode_concat(a + label, c);
    text::lemma_encode_concat(a + label + c, d);
    text::lemma_encode_concat(a + label + c + d, e);
    text::lemma_encode_concat(a + label + c + d + e, f);
    text::lemma_encode_concat(a + label + c + d + e + f, g);
    text::lemma_encode_concat(a + label + c + d + e + f + g, h);
    text::lemma_encode_concat(a + label + c + d + e + f + g + h, k);
}

/// A cut text keeps its limit, as long as there is room for the notice in it; so cutting it again
/// changes nothing.
pub proof fn law_truncated_fits(label: Seq<char>, content: Seq<char>, limit: nat)
    requires
        text::utf8_len(label) + 152 <= limit <= u64::MAX,
        text::utf8_len(content) <= u64::MAX,
    ensures
        text::utf8_len(truncated(label, content, limit)) <= limit,
        truncated(label, truncated(label, content, limit), limit) == truncated(
            label,
            content,
            limit,
        ),
{
    if text::utf8_len(content) > limit {
        let shown = shown_bytes(label, content, limit);
        lemma_settle_within(label, content, limit, limit, MAX_ROUNDS as nat);
        lemma_notice_bytes(label, limit, shown, text::utf8_len(content));
        let end = tail_of(label, limit, shown, text::utf8_len(content));
        let kept = kept_head(label, content, limit, shown);
        text::lemma_prefix_within_fits(content, room(limit, text::utf8_len(end)));
        lemma_without_feeds(kept);
        text::lemma_encode_concat(without_feeds(kept), end);
    }
}

/// A text cut in the middle keeps its limit, as long as there is room for the notice in it, and what
/// stays of it is its beginning and its end.
pub proof fn law_truncated_middle_fits(label: Seq<char>, content: Seq<char>, limit: nat)
    requires
        text::utf8_len(label) + 180 <= limit <= u64::MAX,
        text::utf8_len(content) <= u64::MAX,
    ensures
        text::utf8_len(truncated_middle(label, content, limit)) <= limit,
        ({
            let ends = kept_ends(label, content, limit, shown_end_bytes(label, content, limit));
            ends.0.is_prefix_of(content) && ends.1.is_suffix_of(content)
        }),
{
    let shown = shown_end_bytes(label, content, limit);
    let middle = gap_of(label, limit, shown, text::utf8_len(content));
    let space = room(limit, text::utf8_len(middle));
    let ends = kept_ends(label, content, limit, shown);
    text::lemma_prefix_within_fits(content, space / 2);
    text::lemma_suffix_within_fits(content, (space - text::utf8_len(ends.0)) as nat);
    if text::utf8_len(content) > limit {
        lemma_settle_ends_within(label, content, limit, limit, MAX_ROUNDS as nat);
        lemma_gap_bytes(label, limit, shown, text::utf8_len(content));
        text::lemma_encode_concat(ends.0, middle);
        text::lemma_encode_concat(ends.0 + middle, ends.1);
    }
}

/// A text within its limit stays as it is. Of a longer one the beginning stays, as much of it as fits
/// beside the notice, but for line feeds at its end; the notice tells what the text was, how long it
/// was and how long it may be.
pub proof fn law_beginning_stays(label: Seq<char>, content: Seq<char>, limit: nat)
    ensures
        text::utf8_len(content) <= limit ==> truncated(label, content, limit) == content,
        text::utf8_len(content) > limit ==> exists|kept: Seq<char>, notice: Seq<char>|
            {
                &&& truncated(label, content, limit) == #[trigger] (without_feeds(kept) + notice)
                &&& kept.is_prefix_of(content)
                &&& text::starts(notice, "\n\n[truncated: "@ + label)
                &&& text::contains_text(notice, text::decimal(text::utf8_len(content)))
                &&& text::contains_text(notice, text::decimal(limit))
                &&& text::utf8_len(notice) <= limit ==> text::utf8_len(kept) + text::utf8_len(
                    notice,
                ) <= limit
                &&& kept.len() < content.len() && text::utf8_len(notice) <= limit
                    ==> text::utf8_len(content.take(kept.len() as int + 1)) + text::utf8_len(notice)
                    > limit
            },
{
    if text::utf8_len(content) > limit {
        let original = text::utf8_len(content);
        let shown = shown_bytes(label, content, limit);
        let kept = kept_head(label, content, limit, shown);
        let notice = tail_of(label, limit, shown, original);
        text::law_longest_parts_fit(content, room(limit, text::utf8_len(notice)));
        lemma_notice_tells(label, limit, shown, original);
        assert(truncated(label, content, limit) == without_feeds(kept) + notice);
    }
}

proof fn lemma_notice_tells(label: Seq<char>, limit: nat, shown: nat, original: nat)
    ensures
        text::starts(tail_of(label, limit, shown, original), "\n\n[truncated: "@ + label),
        text::contains_text(tail_of(label, limit, shown, original), text::decimal(original)),
        text::contains_text(tail_of(label, limit, shown, original), text::decimal(limit)),
        text::contains_text(tail_of(label, limit, shown, original), text::decimal(shown)),
{
    let notice = tail_of(label, limit, shown, original);
    reveal_strlit("\n\n");
    reveal_strlit("[truncated: ");
    reveal_strlit("\n\n[truncated: ");
    let start = "\n\n[truncated: "@ + label;
    assert("\n\n"@ + "[truncated: "@ =~= "\n\n[truncated: "@);
    assert(notice.subrange(0, start.len() as int) =~= start);
    let before = start + " result exceeded "@;
    let l = text::decimal(limit);
    let s = text::decimal(shown);
    let o = text::decimal(original);
    assert(notice.subrange(before.len() as int, (before.len() + l.len()) as int) =~= l);
    assert(text::occurs_at(notice, l, before.len() as int));
    let middle = before + l + " bytes; showing "@;
    assert(notice.subrange(middle.len() as int, (middle.len() + s.len()) as int) =~= s);
    assert(text::occurs_at(notice, s, middle.len() as int));
    let last = middle + s + " of "@;
    assert(notice.subrange(last.len() as int, (last.len() + o.len()) as int) =~= o);
    assert(text::occurs_at(notice, o, last.len() as int));
}

/// A text within its limit stays as it is where both ends are kept, too. Of a longer one the beginning
/// and the end stay, half of the room for the first and the rest for the second, as much as fits.
pub proof fn law_both_ends_stay(label: Seq<char>, content: Seq<char>, limit: nat)
    ensures
        text::utf8_len(content) <= limit ==> truncated_middle(label, content, limit) == content,
        text::utf8_len(content) > limit ==> exists|head: Seq<char>, gap: Seq<char>, end: Seq<char>|
            {
                &&& truncated_middle(label, content, limit) == #[trigger] (head + gap + end)
                &&& head.is_prefix_of(content)
                &&& end.is_suffix_of(content)
                &&& text::starts(gap, "\n\n[truncated: "@ + label)
                &&& text::utf8_len(gap) <= limit && head.len() < content.len() ==> text::utf8_len(
                    content.take(head.len() as int + 1),
                ) > (limit - text::utf8_len(gap)) / 2
                &&& text::utf8_len(gap) <= limit && end.len() < content.len() ==> text::utf8_len(
                    content.skip(content.len() - end.len() - 1),
                ) + text::utf8_len(head) + text::utf8_len(gap) > limit
            },
{
    if text::utf8_len(content) > limit {
        let original = text::utf8_len(content);
        let shown = shown_end_bytes(label, content, limit);
        let gap = gap_of(label, limit, shown, original);
        let space = room(limit, text::utf8_len(gap));
        let ends = kept_ends(label, content, limit, shown);
        text::law_longest_parts_fit(content, space / 2);
        text::law_longest_parts_fit(content, (space - text::utf8_len(ends.0)) as nat);
        let start = "\n\n[truncated: "@ + label;
        assert(gap.subrange(0, start.len() as int) =~= start);
        assert(truncated_middle(label, content, limit) == ends.0 + gap + ends.1);
    }
}

} // verus!
