//! Token counts as people write them.
use crate::text;
use vstd::prelude::*;

verus! {

/// How many tokens a last letter stands for, and how many characters it takes.
pub open spec fn unit(value: Seq<char>) -> (nat, nat) {
    if value.last() == 'k' {
        (1, 1_000)
    } else if value.last() == 'm' {
        (1, 1_000_000)
    } else {
        (0, 1)
    }
}

/// The number of tokens that a text names: digits, with `k` or `m` behind them for thousands or
/// millions, in either case and with white space around them. None where the text is something
/// else, or where the number does not fit in 64 bits.
pub open spec fn token_count(value: Seq<char>) -> Option<nat> {
    let value = text::lowercase(text::trimmed(value));
    if value.len() == 0 {
        None
    } else {
        let (letters, multiplier) = unit(value);
        match text::unsigned_of(value.take(value.len() - letters), u64::MAX as nat) {
            Some(number) => if number * multiplier <= u64::MAX {
                Some(number * multiplier)
            } else {
                None
            },
            None => None,
        }
    }
}

/// Reads a number of tokens.
pub fn parse_token_count(value: &str) -> (r: Option<u64>)
    ensures
        match r {
            Some(n) => token_count(value@) == Some(n as nat),
            None => token_count(value@) is None,
        },
{
    let lowered = text::to_lowercase(&text::trim(value));
    let chars = text::to_chars(&lowered);
    if chars.len() == 0 {
        return None;
    }
    let last = chars[chars.len() - 1];
    let letters: usize = if last == 'k' || last == 'm' {
        1
    } else {
        0
    };
    let multiplier: u64 = if last == 'k' {
        1_000
    } else if last == 'm' {
        1_000_000
    } else {
        1
    };
    let digits = text::slice(&chars, 0, chars.len() - letters);
    assert(digits@ =~= chars@.take(chars@.len() - letters));
    match text::parse_u64(&digits) {
        Some(number) => number.checked_mul(multiplier),
        None => None,
    }
}

/// A number of tokens as it is shown: whole millions with `M`, whole thousands with `K`, and any
/// other number in digits.
pub open spec fn shown_count(tokens: nat) -> Seq<char> {
    if tokens >= 1_000_000 && tokens % 1_000_000 == 0 {
        text::decimal(tokens / 1_000_000) + "M"@
    } else if tokens >= 1_000 && tokens % 1_000 == 0 {
        text::decimal(tokens / 1_000) + "K"@
    } else {
        text::decimal(tokens)
    }
}

/// Writes a number of tokens.
pub fn format_token_count(tokens: u64) -> (r: String)
    ensures
        r@ == shown_count(tokens as nat),
{
    if tokens >= 1_000_000 && tokens % 1_000_000 == 0 {
        text::concat(&text::decimal_u64(tokens / 1_000_000), "M")
    } else if tokens >= 1_000 && tokens % 1_000 == 0 {
        text::concat(&text::decimal_u64(tokens / 1_000), "K")
    } else {
        text::decimal_u64(tokens)
    }
}

/// A number of tokens that is written out reads back as itself.
pub proof fn law_shown_count_reads_back(tokens: nat)
    requires
        tokens <= u64::MAX,
    ensures
        token_count(shown_count(tokens)) == Some(tokens),
{
    reveal_strlit("M");
    reveal_strlit("K");
    let (digits, letter, number): (Seq<char>, Seq<char>, nat) = if tokens >= 1_000_000 && tokens
        % 1_000_000 == 0 {
        (text::decimal(tokens / 1_000_000), "M"@, tokens / 1_000_000)
    } else if tokens >= 1_000 && tokens % 1_000 == 0 {
        (text::decimal(tokens / 1_000), "K"@, tokens / 1_000)
    } else {
        (text::decimal(tokens), ""@, tokens)
    };
    reveal_strlit("");
    text::lemma_decimal_reads_back(number);
    let shown = shown_count(tokens);
    assert(shown =~= digits + letter);
    assert(text::trim_start(shown) == shown) by {
        assert(!text::whitespace(digits[0]));
        assert(shown[0] == digits[0]);
    }
    assert(text::trim_end(shown) == shown) by {
        assert(!text::whitespace(shown.last()));
    }
    let lowered = text::lowercase(shown);
    if letter.len() == 0 {
        assert(lowered =~= digits);
        assert(text::is_digit(digits.last()));
        assert(lowered.take(lowered.len() as int) =~= digits);
    } else {
        assert(lowered.take(lowered.len() - 1) =~= digits);
        assert(lowered.last() == text::ascii_lower(letter[0]));
    }
    assert(text::trimmed(shown) == shown);
    assert(text::is_digit(digits[0]));
    assert(text::unsigned_of(digits, u64::MAX as nat) == Some(number));
    if tokens >= 1_000_000 && tokens % 1_000_000 == 0 {
        assert(letter[0] == 'M');
        assert(unit(lowered) == (1nat, 1_000_000nat));
        assert(number * 1_000_000nat == tokens);
    } else if tokens >= 1_000 && tokens % 1_000 == 0 {
        assert(letter[0] == 'K');
        assert(unit(lowered) == (1nat, 1_000nat));
        assert(number * 1_000nat == tokens);
    } else {
        assert(unit(lowered) == (0nat, 1nat));
        assert(number * 1nat == tokens);
    }
}

} // verus!
