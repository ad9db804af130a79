//! Text as sequences of characters.
//!
//! Contracts in this crate speak of text through its view, a `Seq<char>`. This module holds the
//! vocabulary for it (blanks, lines, decimal numerals, UTF-8 length) and the functions that compute
//! each of them.
use crate::data;
use vstd::prelude::*;
use vstd::utf8::*;

verus! {

/// `String::push` appends the character to the end of the string.
pub assume_specification[ std::string::String::push ](s: &mut std::string::String, c: char)
    ensures
        final(s)@ == old(s)@.push(c),
;

/// Number of bytes of the UTF-8 encoding of `s`.
pub open spec fn utf8_len(s: Seq<char>) -> nat {
    encode_utf8(s).len()
}

/// Number of bytes of the UTF-8 encoding of one character.
pub open spec fn char_utf8_len(c: char) -> nat {
    let v = c as u32;
    if v <= 0x7F {
        1
    } else if v <= 0x7FF {
        2
    } else if v <= 0xFFFF {
        3
    } else {
        4
    }
}

/// A character is encoded in as many bytes as its scalar value needs.
pub proof fn lemma_encode_char(c: char)
    ensures
        encode_scalar(c as u32).len() == char_utf8_len(c),
{
}

/// The encoding of a concatenation is the concatenation of the encodings.
pub proof fn lemma_encode_concat(a: Seq<char>, b: Seq<char>)
    ensures
        encode_utf8(a + b) == encode_utf8(a) + encode_utf8(b),
        utf8_len(a + b) == utf8_len(a) + utf8_len(b),
    decreases a.len(),
{
    if a.len() == 0 {
        assert(a + b =~= b);
        assert(encode_utf8(a) + encode_utf8(b) =~= encode_utf8(b));
    } else {
        assert((a + b).drop_first() =~= a.drop_first() + b);
        lemma_encode_concat(a.drop_first(), b);
        assert(encode_utf8(a + b) =~= encode_utf8(a) + encode_utf8(b));
    }
}

/// Appending a character adds the length of its own encoding.
pub proof fn lemma_utf8_len_push(s: Seq<char>, c: char)
    ensures
        utf8_len(s.push(c)) == utf8_len(s) + char_utf8_len(c),
{
    let one = seq![c];
    assert(s.push(c) =~= s + one);
    lemma_encode_concat(s, one);
    assert(one.drop_first() =~= Seq::empty());
    reveal_with_fuel(encode_utf8, 2);
    lemma_encode_char(c);
    assert(encode_utf8(one) =~= encode_scalar(c as u32));
}

/// A text of `n` characters takes at least `n` bytes.
pub proof fn lemma_utf8_len_at_least(s: Seq<char>)
    ensures
        s.len() <= utf8_len(s),
    decreases s.len(),
{
    if s.len() > 0 {
        lemma_utf8_len_at_least(s.drop_first());
        lemma_encode_char(s[0]);
    }
}

/// A text of ASCII characters takes one byte for each.
pub proof fn lemma_ascii_len(s: Seq<char>)
    requires
        forall|i: int| 0 <= i < s.len() ==> s[i] as u32 <= 0x7F,
    ensures
        utf8_len(s) == s.len(),
    decreases s.len(),
{
    if s.len() > 0 {
        let t = s.drop_last();
        lemma_ascii_len(t);
        lemma_utf8_len_push(t, s.last());
        assert(t.push(s.last()) =~= s);
    }
}

/// The encoded length of `s` in bytes.
pub fn byte_len(s: &str) -> (r: usize)
    ensures
        r == utf8_len(s@),
{
    s.as_bytes().len()
}

/// The encoded length of one character in bytes.
pub fn char_byte_len(c: char) -> (r: usize)
    ensures
        r == char_utf8_len(c),
{
    let v: u32 = c as u32;
    if v <= 0x7F {
        1
    } else if v <= 0x7FF {
        2
    } else if v <= 0xFFFF {
        3
    } else {
        4
    }
}

/// Whether two texts hold the same characters.
pub fn same(a: &str, b: &str) -> (r: bool)
    ensures
        r == (a@ == b@),
{
    broadcast use encode_utf8_decode_utf8;

    let x = a.as_bytes();
    let y = b.as_bytes();
    if x.len() != y.len() {
        return false;
    }
    let mut i: usize = 0;
    while i < x.len()
        invariant
            i <= x@.len(),
            x@.len() == y@.len(),
            x@ == encode_utf8(a@),
            y@ == encode_utf8(b@),
            forall|k: int| 0 <= k < i ==> x@[k] == y@[k],
        decreases x@.len() - i,
    {
        if x[i] != y[i] {
            return false;
        }
        i += 1;
    }
    assert(x@ =~= y@);
    assert(decode_utf8(encode_utf8(a@)) == a@);
    assert(decode_utf8(encode_utf8(b@)) == b@);
    true
}

/// The characters of a text.
pub fn to_chars(s: &str) -> (r: Vec<char>)
    ensures
        r@ == s@,
{
    let mut out: Vec<char> = Vec::new();
    for c in it: s.chars()
        invariant
            out@ == it.seq().take(it.index() as int),
            it.seq() == s@,
    {
        out.push(c);
    }
    out
}

/// The text made of the characters at `from..to`.
pub fn slice(chars: &Vec<char>, from: usize, to: usize) -> (r: String)
    requires
        from <= to <= chars@.len(),
    ensures
        r@ == chars@.subrange(from as int, to as int),
{
    let mut out = String::new();
    let mut i: usize = from;
    while i < to
        invariant
            from <= i <= to <= chars@.len(),
            out@ == chars@.subrange(from as int, i as int),
        decreases to - i,
    {
        out.push(chars[i]);
        i += 1;
        assert(out@ =~= chars@.subrange(from as int, i as int));
    }
    out
}

/// Whether `c` has Unicode's `White_Space` property.
pub open spec fn whitespace(c: char) -> bool {
    let v = c as u32;
    ||| 0x9 <= v <= 0xD
    ||| v == 0x20
    ||| v == 0x85
    ||| v == 0xA0
    ||| v == 0x1680
    ||| 0x2000 <= v <= 0x200A
    ||| v == 0x2028
    ||| v == 0x2029
    ||| v == 0x202F
    ||| v == 0x205F
    ||| v == 0x3000
}

/// Whether `c` has Unicode's `White_Space` property.
pub fn is_whitespace(c: char) -> (r: bool)
    ensures
        r == whitespace(c),
{
    let v: u32 = c as u32;
    (0x9 <= v && v <= 0xD) || v == 0x20 || v == 0x85 || v == 0xA0 || v == 0x1680 || (0x2000 <= v && v
        <= 0x200A) || v == 0x2028 || v == 0x2029 || v == 0x202F || v == 0x205F || v == 0x3000
}

/// `s` without its leading white space.
pub open spec fn trim_start(s: Seq<char>) -> Seq<char>
    decreases s.len(),
{
    if s.len() > 0 && whitespace(s[0]) {
        trim_start(s.drop_first())
    } else {
        s
    }
}

/// `s` without its trailing white space.
pub open spec fn trim_end(s: Seq<char>) -> Seq<char>
    decreases s.len(),
{
    if s.len() > 0 && whitespace(s.last()) {
        trim_end(s.drop_last())
    } else {
        s
    }
}

/// `s` without white space on either side.
pub open spec fn trimmed(s: Seq<char>) -> Seq<char> {
    trim_end(trim_start(s))
}

/// Skipping a run of leading white space leaves the same text to trim.
proof fn lemma_trim_start_skip(s: Seq<char>, n: int)
    requires
        0 <= n <= s.len(),
        forall|k: int| 0 <= k < n ==> whitespace(#[trigger] s[k]),
    ensures
        trim_start(s) == trim_start(s.skip(n)),
    decreases n,
{
    if n > 0 {
        assert(s[0] == s[0]);
        assert forall|k: int| 0 <= k < n - 1 implies whitespace(#[trigger] s.drop_first()[k]) by {
            assert(s.drop_first()[k] == s[k + 1]);
        }
        lemma_trim_start_skip(s.drop_first(), n - 1);
        assert(s.drop_first().skip(n - 1) =~= s.skip(n));
    } else {
        assert(s.skip(0) =~= s);
    }
}

/// Dropping a run of trailing white space leaves the same text to trim.
proof fn lemma_trim_end_take(s: Seq<char>, n: int)
    requires
        0 <= n <= s.len(),
        forall|k: int| n <= k < s.len() ==> whitespace(#[trigger] s[k]),
    ensures
        trim_end(s) == trim_end(s.take(n)),
    decreases s.len() - n,
{
    if n < s.len() {
        assert(whitespace(s[s.len() - 1]));
        assert forall|k: int| n <= k < s.drop_last().len() implies whitespace(
            #[trigger] s.drop_last()[k],
        ) by {
            assert(s.drop_last()[k] == s[k]);
        }
        lemma_trim_end_take(s.drop_last(), n);
        assert(s.drop_last().take(n) =~= s.take(n));
    } else {
        assert(s.take(n) =~= s);
    }
}

/// The bounds of the text that is left after trimming both sides.
pub fn trim_bounds(chars: &Vec<char>) -> (r: (usize, usize))
    ensures
        r.0 <= r.1 <= chars@.len(),
        chars@.subrange(r.0 as int, r.1 as int) == trimmed(chars@),
{
    let mut from: usize = 0;
    while from < chars.len() && is_whitespace(chars[from])
        invariant
            from <= chars@.len(),
            forall|k: int| 0 <= k < from ==> whitespace(#[trigger] chars@[k]),
        decreases chars@.len() - from,
    {
        from += 1;
    }
    proof {
        lemma_trim_start_skip(chars@, from as int);
    }
    let ghost rest = chars@.skip(from as int);
    assert(trim_start(rest) == rest);
    let mut to: usize = chars.len();
    while to > from && is_whitespace(chars[to - 1])
        invariant
            from <= to <= chars@.len(),
            rest == chars@.skip(from as int),
            forall|k: int| to <= k < chars@.len() ==> whitespace(#[trigger] chars@[k]),
        decreases to,
    {
        to -= 1;
    }
    proof {
        let n = to - from;
        assert forall|k: int| n <= k < rest.len() implies whitespace(#[trigger] rest[k]) by {
            assert(rest[k] == chars@[k + from]);
        }
        lemma_trim_end_take(rest, n);
        assert(rest.take(n) =~= chars@.subrange(from as int, to as int));
        assert(n > 0 ==> rest.take(n).last() == chars@[to - 1]);
    }
    (from, to)
}

/// The text without white space on either side.
pub fn trim(s: &str) -> (r: String)
    ensures
        r@ == trimmed(s@),
{
    let chars = to_chars(s);
    let (from, to) = trim_bounds(&chars);
    slice(&chars, from, to)
}

/// A text is blank when it holds nothing but white space.
pub open spec fn blank(s: Seq<char>) -> bool {
    trimmed(s).len() == 0
}

/// Whether the text holds nothing but white space.
pub fn is_blank(s: &str) -> (r: bool)
    ensures
        r == blank(s@),
{
    let chars = to_chars(s);
    let (from, to) = trim_bounds(&chars);
    from == to
}

/// The character for a decimal digit.
pub open spec fn digit_char(d: nat) -> char {
    (48 + d) as char
}

/// The decimal numeral of `n`.
pub open spec fn decimal(n: nat) -> Seq<char>
    decreases n,
{
    if n < 10 {
        seq![digit_char(n)]
    } else {
        decimal(n / 10).push(digit_char(n % 10))
    }
}

/// The decimal numeral of an integer, with a minus sign in front of a negative one.
pub open spec fn decimal_int(n: int) -> Seq<char> {
    if n < 0 {
        seq!['-'] + decimal((-n) as nat)
    } else {
        decimal(n as nat)
    }
}

/// The decimal numeral of `n`.
pub fn decimal_u64(n: u64) -> (r: String)
    ensures
        r@ == decimal(n as nat),
    decreases n,
{
    let mut out = if n < 10 {
        String::new()
    } else {
        decimal_u64(n / 10)
    };
    let d: u8 = (n % 10) as u8;
    out.push((48u8 + d) as char);
    out
}

/// The decimal numeral of `n`.
pub fn decimal_i64(n: i64) -> (r: String)
    ensures
        r@ == decimal_int(n as int),
{
    if n >= 0 {
        decimal_u64(n as u64)
    } else {
        let magnitude: u64 = (-(n + 1)) as u64 + 1;
        let mut out = String::new();
        out.push('-');
        let digits = decimal_u64(magnitude);
        out.append(digits.as_str());
        assert(out@ =~= decimal_int(n as int));
        out
    }
}

/// Whether `part` occurs in `s` at position `i`.
pub open spec fn occurs_at(s: Seq<char>, part: Seq<char>, i: int) -> bool {
    0 <= i && i + part.len() <= s.len() && s.subrange(i, i + part.len()) == part
}

/// Whether `part` occurs somewhere in `s`.
pub open spec fn contains_text(s: Seq<char>, part: Seq<char>) -> bool {
    exists|i: int| #[trigger] occurs_at(s, part, i)
}

/// Whether `part` occurs in `s` at `i`.
pub fn is_at(s: &Vec<char>, part: &Vec<char>, i: usize) -> (r: bool)
    ensures
        r == occurs_at(s@, part@, i as int),
{
    if i > s.len() || part.len() > s.len() - i {
        return false;
    }
    let mut k: usize = 0;
    while k < part.len()
        invariant
            k <= part@.len(),
            i + part@.len() <= s.len(),
            forall|j: int| 0 <= j < k ==> s@[i + j] == part@[j],
        decreases part@.len() - k,
    {
        if s[i + k] != part[k] {
            assert(s@.subrange(i as int, i + part@.len())[k as int] == s@[i + k]);
            return false;
        }
        k += 1;
    }
    assert(s@.subrange(i as int, i + part@.len()) =~= part@);
    true
}

/// The first position at or after `from` where `part` occurs.
pub fn find_from(s: &Vec<char>, part: &Vec<char>, from: usize) -> (r: Option<usize>)
    ensures
        match r {
            Some(i) => from <= i && occurs_at(s@, part@, i as int) && (forall|j: int|
                from <= j < i ==> !occurs_at(s@, part@, j)),
            None => forall|j: int| from <= j ==> !occurs_at(s@, part@, j),
        },
{
    let mut i: usize = from;
    while i <= s.len()
        invariant
            from <= i,
            i <= s@.len() + 1 || i == from,
            forall|j: int| from <= j < i ==> !occurs_at(s@, part@, j),
        decreases s@.len() + 1 - i,
    {
        if is_at(s, part, i) {
            return Some(i);
        }
        if i == s.len() {
            assert forall|j: int| from <= j implies !occurs_at(s@, part@, j) by {
                if j > i {
                    assert(j + part@.len() > s@.len());
                }
            }
            return None;
        }
        i += 1;
    }
    assert forall|j: int| from <= j implies !occurs_at(s@, part@, j) by {
        if j >= i {
            assert(j + part@.len() > s@.len());
        }
    }
    None
}

/// Whether `part` occurs in `s`.
pub fn contains(s: &str, part: &str) -> (r: bool)
    ensures
        r == contains_text(s@, part@),
{
    let a = to_chars(s);
    let b = to_chars(part);
    match find_from(&a, &b, 0) {
        Some(_) => true,
        None => false,
    }
}

/// Whether `s` begins with `prefix`.
pub open spec fn starts(s: Seq<char>, prefix: Seq<char>) -> bool {
    occurs_at(s, prefix, 0)
}

/// Whether `s` ends with `suffix`.
pub open spec fn ends(s: Seq<char>, suffix: Seq<char>) -> bool {
    occurs_at(s, suffix, s.len() - suffix.len())
}

/// Whether `s` begins with `prefix`.
pub fn starts_with(s: &str, prefix: &str) -> (r: bool)
    ensures
        r == starts(s@, prefix@),
{
    let a = to_chars(s);
    let b = to_chars(prefix);
    is_at(&a, &b, 0)
}

/// Whether `s` ends with `suffix`.
pub fn ends_with(s: &str, suffix: &str) -> (r: bool)
    ensures
        r == ends(s@, suffix@),
{
    let a = to_chars(s);
    let b = to_chars(suffix);
    if b.len() > a.len() {
        false
    } else {
        is_at(&a, &b, a.len() - b.len())
    }
}

/// Position of the first character equal to `c`, or the length of `s` if there is none.
pub open spec fn index_of_char(s: Seq<char>, c: char) -> int
    decreases s.len(),
{
    if s.len() == 0 || s[0] == c {
        0
    } else {
        1 + index_of_char(s.drop_first(), c)
    }
}

/// The position found is the first occurrence, or the length where there is none.
pub proof fn lemma_index_of_char(s: Seq<char>, c: char)
    ensures
        0 <= index_of_char(s, c) <= s.len(),
        index_of_char(s, c) < s.len() ==> s[index_of_char(s, c)] == c,
        forall|k: int| 0 <= k < index_of_char(s, c) ==> s[k] != c,
    decreases s.len(),
{
    if s.len() > 0 && s[0] != c {
        let t = s.drop_first();
        lemma_index_of_char(t, c);
        assert forall|k: int| 0 <= k < index_of_char(s, c) implies s[k] != c by {
            if k > 0 {
                assert(t[k - 1] == s[k]);
            }
        }
    }
}

/// A position that is the first occurrence is the one found.
pub proof fn lemma_index_of_char_is(s: Seq<char>, c: char, i: int)
    requires
        0 <= i <= s.len(),
        forall|k: int| 0 <= k < i ==> s[k] != c,
        i < s.len() ==> s[i] == c,
    ensures
        index_of_char(s, c) == i,
{
    lemma_index_of_char(s, c);
}

/// The lines of `s`: it is cut after each line feed, the feed and a carriage return right before it
/// are dropped, and a text that ends in a line feed has no empty line after it.
pub open spec fn lines_of(s: Seq<char>) -> Seq<Seq<char>>
    decreases s.len(),
{
    let i = index_of_char(s, '\n');
    if s.len() == 0 {
        Seq::empty()
    } else if i < 0 || i >= s.len() {
        seq![s]
    } else {
        seq![without_cr(s.take(i))] + lines_of(s.skip(i + 1))
    }
}

/// `line` without one trailing carriage return.
pub open spec fn without_cr(line: Seq<char>) -> Seq<char> {
    if line.len() > 0 && line.last() == '\r' {
        line.drop_last()
    } else {
        line
    }
}

/// The lines of a text.
pub fn lines(s: &str) -> (r: Vec<String>)
    ensures
        data::views(r@) == lines_of(s@),
{
    let chars = to_chars(s);
    let mut out: Vec<String> = Vec::new();
    let mut from: usize = 0;
    let mut i: usize = 0;
    assert(chars@.skip(0) =~= chars@);
    assert(data::views(out@) + lines_of(chars@) =~= lines_of(chars@));
    while i < chars.len()
        invariant
            from <= i <= chars@.len(),
            chars@ == s@,
            forall|k: int| from <= k < i ==> chars@[k] != '\n',
            data::views(out@) + lines_of(chars@.skip(from as int)) == lines_of(s@),
        decreases chars@.len() - i,
    {
        if chars[i] == '\n' {
            let ghost rest = chars@.skip(from as int);
            let ghost n = i - from;
            let ghost before = data::views(out@);
            proof {
                assert forall|k: int| 0 <= k < n implies rest[k] != '\n' by {
                    assert(rest[k] == chars@[from + k]);
                }
                lemma_index_of_char_is(rest, '\n', n);
                assert(rest.skip(n + 1) =~= chars@.skip(i + 1));
                assert(rest.take(n) =~= chars@.subrange(from as int, i as int));
            }
            let end: usize = if i > from && chars[i - 1] == '\r' {
                i - 1
            } else {
                i
            };
            let line = slice(&chars, from, end);
            assert(line@ =~= without_cr(rest.take(n)));
            out.push(line);
            from = i + 1;
            assert(data::views(out@) =~= before.push(line@));
            assert(before.push(line@) + lines_of(chars@.skip(from as int)) =~= before + (
            seq![line@] + lines_of(chars@.skip(from as int))));
        }
        i += 1;
    }
    let ghost rest = chars@.skip(from as int);
    let ghost before = data::views(out@);
    if from < chars.len() {
        proof {
            assert forall|k: int| 0 <= k < rest.len() implies rest[k] != '\n' by {
                assert(rest[k] == chars@[from + k]);
            }
            lemma_index_of_char_is(rest, '\n', rest.len() as int);
        }
        let line = slice(&chars, from, chars.len());
        assert(line@ =~= rest);
        out.push(line);
        assert(data::views(out@) =~= before.push(line@));
        assert(data::views(out@) =~= before + seq![rest]);
    } else {
        assert(lines_of(rest) =~= Seq::empty());
        assert(data::views(out@) =~= lines_of(s@));
    }
    out
}

/// The pieces of `s` between separators `c`: one more than there are separators.
pub open spec fn split_of(s: Seq<char>, c: char) -> Seq<Seq<char>>
    decreases s.len(),
{
    let i = index_of_char(s, c);
    if i < 0 || i >= s.len() {
        seq![s]
    } else {
        seq![s.take(i)] + split_of(s.skip(i + 1), c)
    }
}

/// There is always a first piece.
pub proof fn lemma_split_has_first(s: Seq<char>, c: char)
    ensures
        split_of(s, c).len() >= 1,
{
}

/// The pieces of a text between separators `c`.
pub fn split(s: &str, c: char) -> (r: Vec<String>)
    ensures
        data::views(r@) == split_of(s@, c),
{
    let chars = to_chars(s);
    let mut out: Vec<String> = Vec::new();
    let mut from: usize = 0;
    let mut i: usize = 0;
    assert(chars@.skip(0) =~= chars@);
    assert(data::views(out@) + split_of(chars@, c) =~= split_of(chars@, c));
    while i < chars.len()
        invariant
            from <= i <= chars@.len(),
            chars@ == s@,
            forall|k: int| from <= k < i ==> chars@[k] != c,
            data::views(out@) + split_of(chars@.skip(from as int), c) == split_of(s@, c),
        decreases chars@.len() - i,
    {
        if chars[i] == c {
            let ghost rest = chars@.skip(from as int);
            let ghost n = i - from;
            let ghost before = data::views(out@);
            proof {
                assert forall|k: int| 0 <= k < n implies rest[k] != c by {
                    assert(rest[k] == chars@[from + k]);
                }
                lemma_index_of_char_is(rest, c, n);
                assert(rest.skip(n + 1) =~= chars@.skip(i + 1));
                assert(rest.take(n) =~= chars@.subrange(from as int, i as int));
            }
            let piece = slice(&chars, from, i);
            out.push(piece);
            from = i + 1;
            assert(data::views(out@) =~= before.push(piece@));
            assert(before.push(piece@) + split_of(chars@.skip(from as int), c) =~= before + (
            seq![piece@] + split_of(chars@.skip(from as int), c)));
        }
        i += 1;
    }
    let ghost rest = chars@.skip(from as int);
    let ghost before = data::views(out@);
    proof {
        assert forall|k: int| 0 <= k < rest.len() implies rest[k] != c by {
            assert(rest[k] == chars@[from + k]);
        }
        lemma_index_of_char_is(rest, c, rest.len() as int);
    }
    let piece = slice(&chars, from, chars.len());
    assert(piece@ =~= rest);
    out.push(piece);
    assert(data::views(out@) =~= before.push(piece@));
    assert(data::views(out@) =~= before + seq![rest]);
    out
}

/// The pieces with `sep` between each two.
pub open spec fn joined(pieces: Seq<Seq<char>>, sep: Seq<char>) -> Seq<char>
    decreases pieces.len(),
{
    if pieces.len() == 0 {
        Seq::empty()
    } else if pieces.len() == 1 {
        pieces[0]
    } else {
        joined(pieces.drop_last(), sep) + sep + pieces.last()
    }
}

/// The pieces with `sep` between each two.
pub fn join(pieces: &Vec<String>, sep: &str) -> (r: String)
    ensures
        r@ == joined(data::views(pieces@), sep@),
{
    let mut out = String::new();
    let mut i: usize = 0;
    assert(data::views(pieces@).take(0) =~= Seq::empty());
    while i < pieces.len()
        invariant
            i <= pieces@.len(),
            out@ == joined(data::views(pieces@).take(i as int), sep@),
        decreases pieces@.len() - i,
    {
        if i > 0 {
            out.append(sep);
        }
        out.append(pieces[i].as_str());
        i += 1;
        proof {
            let now = data::views(pieces@).take(i as int);
            assert(now.drop_last() =~= data::views(pieces@).take(i - 1));
            assert(now.last() == pieces@[i - 1]@);
            if i == 1 {
                assert(out@ =~= now[0]);
            }
        }
    }
    assert(data::views(pieces@).take(i as int) =~= data::views(pieces@));
    out
}

/// Whether `c` is an ASCII decimal digit.
pub open spec fn is_digit(c: char) -> bool {
    '0' <= c <= '9'
}

/// Whether every character of `s` is an ASCII decimal digit.
pub open spec fn all_digits(s: Seq<char>) -> bool {
    forall|i: int| 0 <= i < s.len() ==> is_digit(#[trigger] s[i])
}

/// The number that a sequence of decimal digits denotes.
pub open spec fn digits_value(s: Seq<char>) -> nat
    decreases s.len(),
{
    if s.len() == 0 {
        0
    } else {
        10 * digits_value(s.drop_last()) + ((s.last() as int - '0' as int) as nat)
    }
}

/// More digits never denote a smaller number.
proof fn lemma_digits_value_grows(s: Seq<char>, n: int)
    requires
        0 <= n <= s.len(),
        all_digits(s),
    ensures
        digits_value(s.take(n)) <= digits_value(s),
    decreases s.len() - n,
{
    if n < s.len() {
        let t = s.drop_last();
        assert forall|i: int| 0 <= i < t.len() implies is_digit(#[trigger] t[i]) by {
            assert(t[i] == s[i]);
        }
        lemma_digits_value_grows(t, n);
        assert(t.take(n) =~= s.take(n));
    } else {
        assert(s.take(n) =~= s);
    }
}

/// What a text denotes as an unsigned number no larger than `max`: an optional plus sign and at
/// least one decimal digit.
pub open spec fn unsigned_of(s: Seq<char>, max: nat) -> Option<nat> {
    let digits = if s.len() > 0 && s[0] == '+' {
        s.drop_first()
    } else {
        s
    };
    if digits.len() > 0 && all_digits(digits) && digits_value(digits) <= max {
        Some(digits_value(digits))
    } else {
        None
    }
}

/// The number denoted by the decimal digits from `from` on, if there is one and it fits.
fn digits_from(chars: &Vec<char>, from: usize) -> (r: Option<u64>)
    requires
        from <= chars@.len(),
    ensures
        ({
            let digits = chars@.skip(from as int);
            match r {
                Some(n) => digits.len() > 0 && all_digits(digits) && digits_value(digits) == n,
                None => !(digits.len() > 0 && all_digits(digits) && digits_value(digits)
                    <= u64::MAX),
            }
        }),
{
    let ghost digits = chars@.skip(from as int);
    if from == chars.len() {
        return None;
    }
    let mut value: u64 = 0;
    let mut i: usize = from;
    assert(digits.take(0) =~= Seq::empty());
    while i < chars.len()
        invariant
            from <= i <= chars@.len(),
            digits == chars@.skip(from as int),
            digits.len() > 0,
            forall|k: int| 0 <= k < i - from ==> is_digit(#[trigger] digits[k]),
            value == digits_value(digits.take(i - from)),
        decreases chars@.len() - i,
    {
        let c = chars[i];
        assert(digits[i - from] == c);
        if !('0' <= c && c <= '9') {
            assert(!is_digit(digits[i - from]));
            return None;
        }
        let d: u64 = (c as u32 - '0' as u32) as u64;
        proof {
            let n = i - from;
            let now = digits.take(n + 1);
            assert(now.drop_last() =~= digits.take(n));
            assert(now.last() == c);
            assert(digits_value(now) == 10 * value + d);
            if all_digits(digits) {
                lemma_digits_value_grows(digits, n + 1);
            }
        }
        let scaled = match value.checked_mul(10) {
            Some(v) => v,
            None => {
                return None;
            },
        };
        value = match scaled.checked_add(d) {
            Some(v) => v,
            None => {
                return None;
            },
        };
        i += 1;
    }
    assert(digits.take(i - from) =~= digits);
    Some(value)
}

/// The unsigned 64-bit number that the characters denote.
pub fn parse_u64_chars(chars: &Vec<char>) -> (r: Option<u64>)
    ensures
        match r {
            Some(n) => unsigned_of(chars@, u64::MAX as nat) == Some(n as nat),
            None => unsigned_of(chars@, u64::MAX as nat) is None,
        },
{
    let from: usize = if chars.len() > 0 && chars[0] == '+' {
        1
    } else {
        0
    };
    assert(from == 1 ==> chars@.skip(1) =~= chars@.drop_first());
    assert(from == 0 ==> chars@.skip(0) =~= chars@);
    digits_from(chars, from)
}

/// The unsigned 64-bit number that a text denotes.
pub fn parse_u64(s: &str) -> (r: Option<u64>)
    ensures
        match r {
            Some(n) => unsigned_of(s@, u64::MAX as nat) == Some(n as nat),
            None => unsigned_of(s@, u64::MAX as nat) is None,
        },
{
    let chars = to_chars(s);
    parse_u64_chars(&chars)
}

/// The longest prefix of `s` that takes at most `limit` bytes.
pub open spec fn prefix_within(s: Seq<char>, limit: nat) -> Seq<char>
    decreases s.len(),
{
    if utf8_len(s) <= limit || s.len() == 0 {
        s
    } else {
        prefix_within(s.drop_last(), limit)
    }
}

/// The longest suffix of `s` that takes at most `limit` bytes.
pub open spec fn suffix_within(s: Seq<char>, limit: nat) -> Seq<char>
    decreases s.len(),
{
    if utf8_len(s) <= limit || s.len() == 0 {
        s
    } else {
        suffix_within(s.drop_first(), limit)
    }
}

/// A longer prefix takes no fewer bytes.
pub proof fn lemma_utf8_len_take(s: Seq<char>, i: int, j: int)
    requires
        0 <= i <= j <= s.len(),
    ensures
        utf8_len(s.take(i)) + (j - i) <= utf8_len(s.take(j)),
        utf8_len(s.take(j)) == utf8_len(s.take(i)) + utf8_len(s.subrange(i, j)),
{
    assert(s.take(j) =~= s.take(i) + s.subrange(i, j));
    lemma_encode_concat(s.take(i), s.subrange(i, j));
    lemma_utf8_len_at_least(s.subrange(i, j));
}

/// The longest fitting prefix is known by its end: one more character does not fit.
pub proof fn lemma_prefix_within(s: Seq<char>, limit: nat, k: int)
    requires
        0 <= k <= s.len(),
        utf8_len(s.take(k)) <= limit,
        k < s.len() ==> utf8_len(s.take(k + 1)) > limit,
    ensures
        prefix_within(s, limit) == s.take(k),
    decreases s.len(),
{
    if k == s.len() {
        assert(s.take(k) =~= s);
    } else {
        lemma_utf8_len_take(s, k + 1, s.len() as int);
        assert(s.take(s.len() as int) =~= s);
        let t = s.drop_last();
        assert(t.take(k) =~= s.take(k));
        if k < t.len() {
            assert(t.take(k + 1) =~= s.take(k + 1));
        }
        lemma_prefix_within(t, limit, k);
    }
}

/// The longest fitting prefix fits, and is a prefix.
pub proof fn lemma_prefix_within_fits(s: Seq<char>, limit: nat)
    ensures
        utf8_len(prefix_within(s, limit)) <= limit,
        prefix_within(s, limit).len() <= s.len(),
        prefix_within(s, limit) == s.take(prefix_within(s, limit).len() as int),
    decreases s.len(),
{
    if utf8_len(s) <= limit || s.len() == 0 {
        assert(s.take(s.len() as int) =~= s);
    } else {
        let t = s.drop_last();
        lemma_prefix_within_fits(t, limit);
        let n = prefix_within(t, limit).len() as int;
        assert(t.take(n) =~= s.take(n));
    }
}

/// The longest fitting suffix fits, and is a suffix.
pub proof fn lemma_suffix_within_fits(s: Seq<char>, limit: nat)
    ensures
        utf8_len(suffix_within(s, limit)) <= limit,
        suffix_within(s, limit).len() <= s.len(),
        suffix_within(s, limit) == s.skip(s.len() - suffix_within(s, limit).len()),
    decreases s.len(),
{
    if utf8_len(s) <= limit || s.len() == 0 {
        assert(s.skip(0) =~= s);
    } else {
        let t = s.drop_first();
        lemma_suffix_within_fits(t, limit);
        let n = suffix_within(t, limit).len() as int;
        assert(t.skip(t.len() - n) =~= s.skip(s.len() - n));
    }
}

/// The longest fitting suffix is known by its start: one more character does not fit.
pub proof fn lemma_suffix_within(s: Seq<char>, limit: nat, k: int)
    requires
        0 <= k <= s.len(),
        utf8_len(s.skip(k)) <= limit,
        k > 0 ==> utf8_len(s.skip(k - 1)) > limit,
    ensures
        suffix_within(s, limit) == s.skip(k),
    decreases s.len(),
{
    if k == 0 {
        assert(s.skip(0) =~= s);
    } else {
        assert(s.skip(0) =~= s);
        assert(s =~= s.take(k - 1) + s.skip(k - 1));
        lemma_encode_concat(s.take(k - 1), s.skip(k - 1));
        let t = s.drop_first();
        assert(t.skip(k - 1) =~= s.skip(k));
        if k > 1 {
            assert(t.skip(k - 2) =~= s.skip(k - 1));
        }
        lemma_suffix_within(t, limit, k - 1);
    }
}

/// How many characters the longest prefix of at most `limit` bytes has.
pub fn prefix_end(chars: &Vec<char>, limit: usize) -> (r: usize)
    ensures
        r <= chars@.len(),
        chars@.take(r as int) == prefix_within(chars@, limit as nat),
{
    let mut used: usize = 0;
    let mut i: usize = 0;
    assert(chars@.take(0) =~= Seq::empty());
    while i < chars.len()
        invariant
            i <= chars@.len(),
            used == utf8_len(chars@.take(i as int)),
            used <= limit,
        decreases chars@.len() - i,
    {
        let n: usize = char_byte_len(chars[i]);
        proof {
            assert(chars@.take(i + 1) =~= chars@.take(i as int).push(chars@[i as int]));
            lemma_utf8_len_push(chars@.take(i as int), chars@[i as int]);
        }
        if n > limit - used {
            proof {
                lemma_prefix_within(chars@, limit as nat, i as int);
            }
            return i;
        }
        used += n;
        i += 1;
    }
    proof {
        lemma_prefix_within(chars@, limit as nat, i as int);
    }
    i
}

/// Where the longest suffix of at most `limit` bytes begins.
pub fn suffix_start(chars: &Vec<char>, limit: usize) -> (r: usize)
    ensures
        r <= chars@.len(),
        chars@.skip(r as int) == suffix_within(chars@, limit as nat),
{
    let mut used: usize = 0;
    let mut i: usize = chars.len();
    assert(chars@.skip(i as int) =~= Seq::empty());
    while i > 0
        invariant
            i <= chars@.len(),
            used == utf8_len(chars@.skip(i as int)),
            used <= limit,
        decreases i,
    {
        let n: usize = char_byte_len(chars[i - 1]);
        proof {
            let one = seq![chars@[i - 1]];
            assert(chars@.skip(i - 1) =~= one + chars@.skip(i as int));
            lemma_encode_concat(one, chars@.skip(i as int));
            lemma_utf8_len_push(Seq::empty(), chars@[i - 1]);
            assert(Seq::<char>::empty().push(chars@[i - 1]) =~= one);
        }
        if n > limit - used {
            proof {
                lemma_suffix_within(chars@, limit as nat, i as int);
            }
            return i;
        }
        used += n;
        i -= 1;
    }
    proof {
        lemma_suffix_within(chars@, limit as nat, i as int);
    }
    i
}

/// The lower-case form of an ASCII letter; other characters stay as they are.
pub open spec fn ascii_lower(c: char) -> char {
    if 'A' <= c <= 'Z' {
        ((c as u32 + 32) as u32) as char
    } else {
        c
    }
}

/// The text with its ASCII letters in lower case.
pub open spec fn lowercase(s: Seq<char>) -> Seq<char> {
    s.map_values(|c: char| ascii_lower(c))
}

/// Whether two texts differ in the case of ASCII letters only.
pub open spec fn same_ignoring_case(a: Seq<char>, b: Seq<char>) -> bool {
    lowercase(a) == lowercase(b)
}

/// The lower-case form of an ASCII letter; other characters stay as they are.
pub fn lower_char(c: char) -> (r: char)
    ensures
        r == ascii_lower(c),
{
    if 'A' <= c && c <= 'Z' {
        let v: u8 = c as u8;
        assert(v == c as u32);
        (v + 32) as char
    } else {
        c
    }
}

/// The text with its ASCII letters in lower case.
pub fn to_lowercase(s: &str) -> (r: String)
    ensures
        r@ == lowercase(s@),
{
    let chars = to_chars(s);
    let mut out = String::new();
    let mut i: usize = 0;
    while i < chars.len()
        invariant
            i <= chars@.len(),
            chars@ == s@,
            out@ == lowercase(s@).take(i as int),
        decreases chars@.len() - i,
    {
        out.push(lower_char(chars[i]));
        i += 1;
        assert(lowercase(s@).take(i as int) =~= lowercase(s@).take(i - 1).push(
            ascii_lower(s@[i - 1]),
        ));
    }
    assert(lowercase(s@).take(i as int) =~= lowercase(s@));
    out
}

/// Whether two texts differ in the case of ASCII letters only.
pub fn eq_ignore_case(a: &str, b: &str) -> (r: bool)
    ensures
        r == same_ignoring_case(a@, b@),
{
    let x = to_lowercase(a);
    let y = to_lowercase(b);
    same(x.as_str(), y.as_str())
}

/// Whether `c` is an ASCII letter or digit.
pub open spec fn ascii_alphanumeric(c: char) -> bool {
    '0' <= c <= '9' || 'a' <= c <= 'z' || 'A' <= c <= 'Z'
}

/// The ASCII letters and digits of a name, in lower case.
pub open spec fn plain_name(s: Seq<char>) -> Seq<char>
    decreases s.len(),
{
    if s.len() == 0 {
        Seq::empty()
    } else if ascii_alphanumeric(s.last()) {
        plain_name(s.drop_last()).push(ascii_lower(s.last()))
    } else {
        plain_name(s.drop_last())
    }
}

/// The ASCII letters and digits of a name, in lower case.
pub fn normalized(name: &str) -> (r: String)
    ensures
        r@ == plain_name(name@),
{
    let chars = to_chars(name);
    let mut out = String::new();
    let mut i: usize = 0;
    assert(chars@.take(0) =~= Seq::empty());
    while i < chars.len()
        invariant
            i <= chars@.len(),
            out@ == plain_name(chars@.take(i as int)),
        decreases chars@.len() - i,
    {
        let c = chars[i];
        if ('0' <= c && c <= '9') || ('a' <= c && c <= 'z') || ('A' <= c && c <= 'Z') {
            out.push(lower_char(c));
        }
        i += 1;
        assert(chars@.take(i as int).drop_last() =~= chars@.take(i - 1));
    }
    assert(chars@.take(i as int) =~= chars@);
    out
}

/// What a text denotes as a signed number between `min` and `max`: an optional sign and at least one
/// decimal digit.
pub open spec fn signed_of(s: Seq<char>, min: int, max: int) -> Option<int> {
    let negative = s.len() > 0 && s[0] == '-';
    let digits = if s.len() > 0 && (s[0] == '+' || s[0] == '-') {
        s.drop_first()
    } else {
        s
    };
    let value = if negative {
        -(digits_value(digits) as int)
    } else {
        digits_value(digits) as int
    };
    if digits.len() > 0 && all_digits(digits) && min <= value <= max {
        Some(value)
    } else {
        None
    }
}

/// The signed 32-bit number that a text denotes.
pub fn parse_i32(s: &str) -> (r: Option<i32>)
    ensures
        match r {
            Some(n) => signed_of(s@, i32::MIN as int, i32::MAX as int) == Some(n as int),
            None => signed_of(s@, i32::MIN as int, i32::MAX as int) is None,
        },
{
    let chars = to_chars(s);
    let negative = chars.len() > 0 && chars[0] == '-';
    let from: usize = if chars.len() > 0 && (chars[0] == '+' || chars[0] == '-') {
        1
    } else {
        0
    };
    assert(from == 1 ==> chars@.skip(1) =~= chars@.drop_first());
    assert(from == 0 ==> chars@.skip(0) =~= chars@);
    match digits_from(&chars, from) {
        None => None,
        Some(n) => if negative {
            if n <= 0x8000_0000 {
                Some((-(n as i64)) as i32)
            } else {
                None
            }
        } else if n <= 0x7FFF_FFFF {
            Some(n as i32)
        } else {
            None
        },
    }
}

/// The number that a text of decimal digits denotes, if it fits into 64 bits.
pub fn parse_digits(s: &str) -> (r: Option<u64>)
    ensures
        match r {
            Some(n) => s@.len() > 0 && all_digits(s@) && digits_value(s@) == n,
            None => !(s@.len() > 0 && all_digits(s@) && digits_value(s@) <= u64::MAX),
        },
{
    let chars = to_chars(s);
    assert(chars@.skip(0) =~= chars@);
    digits_from(&chars, 0)
}

/// The unsigned 32-bit number that a text denotes.
pub fn parse_u32(s: &str) -> (r: Option<u32>)
    ensures
        match r {
            Some(n) => unsigned_of(s@, u32::MAX as nat) == Some(n as nat),
            None => unsigned_of(s@, u32::MAX as nat) is None,
        },
{
    match parse_u64(s) {
        Some(n) => if n <= u32::MAX as u64 {
            Some(n as u32)
        } else {
            None
        },
        None => None,
    }
}

/// What follows a prefix.
pub open spec fn after_prefix(s: Seq<char>, prefix: Seq<char>) -> Option<Seq<char>> {
    if starts(s, prefix) {
        Some(s.skip(prefix.len() as int))
    } else {
        None
    }
}

/// What follows a prefix.
pub fn strip_prefix(s: &str, prefix: &str) -> (r: Option<String>)
    ensures
        data::option_view(r) == after_prefix(s@, prefix@),
{
    let a = to_chars(s);
    let b = to_chars(prefix);
    if is_at(&a, &b, 0) {
        let rest = slice(&a, b.len(), a.len());
        assert(rest@ =~= s@.skip(prefix@.len() as int));
        Some(rest)
    } else {
        None
    }
}

/// The text with a suffix.
pub fn concat(a: &str, b: &str) -> (r: String)
    ensures
        r@ == a@ + b@,
{
    let mut out = a.to_owned();
    out.append(b);
    out
}

/// The texts one after the other.
pub fn concat3(a: &str, b: &str, c: &str) -> (r: String)
    ensures
        r@ == a@ + b@ + c@,
{
    let mut out = a.to_owned();
    out.append(b);
    out.append(c);
    out
}

/// What bytes say as text where they are read leniently.
pub uninterp spec fn lenient(bytes: Seq<u8>) -> Seq<char>;

/// Reads bytes as UTF-8 through `String::from_utf8_lossy`. The text is a function of the bytes alone;
/// bytes that are UTF-8 give the text that they encode. Where they are not, replacement characters
/// stand in it, and which is left to the name.
#[verifier::external_body]
pub(crate) fn lossy_text(bytes: &[u8]) -> (r: String)
    ensures
        r@ == lenient(bytes@),
        vstd::utf8::valid_utf8(bytes@) ==> r@ == vstd::utf8::decode_utf8(bytes@),
{
    String::from_utf8_lossy(bytes).into_owned()
}

/// Position of the first occurrence of `part` at or after `from`, or the length of `s` if there is
/// none.
pub open spec fn first_occurrence(s: Seq<char>, part: Seq<char>, from: int) -> int
    decreases s.len() - from,
{
    if from < 0 || from >= s.len() {
        s.len() as int
    } else if occurs_at(s, part, from) {
        from
    } else {
        first_occurrence(s, part, from + 1)
    }
}

/// The first occurrence is where the text first occurs.
pub proof fn lemma_first_occurrence(s: Seq<char>, part: Seq<char>, from: int, at: int)
    requires
        0 <= from <= at <= s.len(),
        forall|j: int| from <= j < at ==> !occurs_at(s, part, j),
        at < s.len() ==> occurs_at(s, part, at),
    ensures
        first_occurrence(s, part, from) == at,
    decreases at - from,
{
    if from < at {
        lemma_first_occurrence(s, part, from + 1, at);
    }
}

/// The pieces of `s` between the occurrences of a separator that is not empty.
pub open spec fn split_at_text(s: Seq<char>, sep: Seq<char>) -> Seq<Seq<char>>
    decreases s.len(),
{
    let i = first_occurrence(s, sep, 0);
    if i < 0 || i >= s.len() || sep.len() == 0 || i + sep.len() > s.len() {
        seq![s]
    } else {
        seq![s.take(i)] + split_at_text(s.skip(i + sep.len()), sep)
    }
}

/// The pieces of a text between the occurrences of a separator.
pub fn split_text(s: &str, sep: &str) -> (r: Vec<String>)
    requires
        sep@.len() > 0,
    ensures
        data::views(r@) == split_at_text(s@, sep@),
{
    let chars = to_chars(s);
    let part = to_chars(sep);
    let mut out: Vec<String> = Vec::new();
    let mut from: usize = 0;
    assert(chars@.skip(0) =~= chars@);
    assert(data::views(out@) + split_at_text(chars@, sep@) =~= split_at_text(chars@, sep@));
    loop
        invariant
            from <= chars@.len(),
            chars@ == s@,
            part@ == sep@,
            sep@.len() > 0,
            data::views(out@) + split_at_text(chars@.skip(from as int), sep@) == split_at_text(
                s@,
                sep@,
            ),
        decreases chars@.len() - from,
    {
        let ghost rest = chars@.skip(from as int);
        let ghost before = data::views(out@);
        assert forall|j: int| 0 <= j implies occurs_at(rest, sep@, j) == occurs_at(
            chars@,
            sep@,
            from + j,
        ) by {
            if j + sep@.len() <= rest.len() {
                assert(rest.subrange(j, j + sep@.len()) =~= chars@.subrange(
                    from + j,
                    from + j + sep@.len(),
                ));
            }
        }
        match find_from(&chars, &part, from) {
            Some(i) => {
                proof {
                    lemma_first_occurrence(rest, sep@, 0, i - from);
                    assert(rest.skip(i - from + sep@.len()) =~= chars@.skip(i + sep@.len()));
                    assert(rest.take(i - from) =~= chars@.subrange(from as int, i as int));
                }
                let piece = slice(&chars, from, i);
                out.push(piece);
                assert(i + part@.len() <= chars.len());
                from = i + part.len();
                assert(data::views(out@) =~= before.push(piece@));
                assert(before.push(piece@) + split_at_text(chars@.skip(from as int), sep@)
                    =~= before + (seq![piece@] + split_at_text(chars@.skip(from as int), sep@)));
            },
            None => {
                proof {
                    lemma_first_occurrence(rest, sep@, 0, rest.len() as int);
                }
                let piece = slice(&chars, from, chars.len());
                assert(piece@ =~= rest);
                out.push(piece);
                assert(data::views(out@) =~= before + seq![rest]);
                return out;
            },
        }
    }
}

/// The text with each `from` turned into `to`.
pub open spec fn replaced(s: Seq<char>, from: char, to: char) -> Seq<char> {
    s.map_values(
        |c: char|
            if c == from {
                to
            } else {
                c
            },
    )
}

/// The text with each `from` turned into `to`.
pub fn replace(s: &str, from: char, to: char) -> (r: String)
    ensures
        r@ == replaced(s@, from, to),
{
    let chars = to_chars(s);
    let mut out = String::new();
    let mut i: usize = 0;
    assert(out@ =~= replaced(s@, from, to).take(0));
    while i < chars.len()
        invariant
            i <= chars@.len(),
            chars@ == s@,
            out@ == replaced(s@, from, to).take(i as int),
        decreases chars@.len() - i,
    {
        if chars[i] == from {
            out.push(to);
        } else {
            out.push(chars[i]);
        }
        i += 1;
        assert(replaced(s@, from, to).take(i as int) =~= replaced(s@, from, to).take(i - 1).push(
            replaced(s@, from, to)[i - 1],
        ));
    }
    assert(replaced(s@, from, to).take(i as int) =~= replaced(s@, from, to));
    out
}

/// What is left of a text when a prefix is taken off as often as it stands there.
pub open spec fn without_prefixes(s: Seq<char>, prefix: Seq<char>) -> Seq<char>
    decreases s.len(),
{
    if prefix.len() > 0 && starts(s, prefix) {
        without_prefixes(s.skip(prefix.len() as int), prefix)
    } else {
        s
    }
}

/// What is left of a text when a prefix is taken off as often as it stands there.
pub fn strip_prefixes(s: &str, prefix: &str) -> (r: String)
    ensures
        r@ == without_prefixes(s@, prefix@),
{
    let mut rest = s.to_owned();
    while !prefix.is_empty() && starts_with(rest.as_str(), prefix)
        invariant
            without_prefixes(rest@, prefix@) == without_prefixes(s@, prefix@),
        decreases rest@.len(),
    {
        match strip_prefix(rest.as_str(), prefix) {
            Some(shorter) => {
                rest = shorter;
            },
            None => {
                return rest;
            },
        }
    }
    rest
}

/// The number that a text denotes as a length.
pub fn parse_usize(s: &str) -> (r: Option<usize>)
    ensures
        match r {
            Some(n) => unsigned_of(s@, usize::MAX as nat) == Some(n as nat),
            None => unsigned_of(s@, usize::MAX as nat) is None,
        },
{
    match parse_u64(s) {
        Some(n) => if n <= usize::MAX as u64 {
            Some(n as usize)
        } else {
            None
        },
        None => None,
    }
}

/// The text without white space at its end.
pub fn trim_right(s: &str) -> (r: String)
    ensures
        r@ == trim_end(s@),
{
    let chars = to_chars(s);
    let mut end: usize = chars.len();
    assert(chars@.take(end as int) =~= chars@);
    while end > 0 && is_whitespace(chars[end - 1])
        invariant
            end <= chars@.len(),
            chars@ == s@,
            trim_end(chars@.take(end as int)) == trim_end(s@),
        decreases end,
    {
        assert(chars@.take(end as int).drop_last() =~= chars@.take(end - 1));
        end -= 1;
    }
    let kept = slice(&chars, 0, end);
    assert(kept@ =~= chars@.take(end as int));
    kept
}

/// The first characters of a text, at most `count` of them.
pub open spec fn first_chars(s: Seq<char>, count: int) -> Seq<char> {
    if s.len() <= count {
        s
    } else {
        s.take(count)
    }
}

/// The first characters of a text, at most `count` of them.
pub fn take_chars(s: &str, count: usize) -> (r: String)
    ensures
        r@ == first_chars(s@, count as int),
{
    let chars = to_chars(s);
    if chars.len() <= count {
        s.to_owned()
    } else {
        let cut = slice(&chars, 0, count);
        assert(cut@ =~= s@.take(count as int));
        cut
    }
}

/// How many characters a text has.
pub fn char_count(s: &str) -> (r: usize)
    ensures
        r == s@.len(),
{
    to_chars(s).len()
}

/// Whether `a` stands before `b` in the order of their characters.
pub open spec fn precedes(a: Seq<char>, b: Seq<char>) -> bool
    decreases a.len(),
{
    if b.len() == 0 {
        false
    } else if a.len() == 0 {
        true
    } else if a[0] != b[0] {
        a[0] < b[0]
    } else {
        precedes(a.drop_first(), b.drop_first())
    }
}

/// Whether `a` stands before `b` in the order of their characters.
pub fn is_before(a: &str, b: &str) -> (r: bool)
    ensures
        r == precedes(a@, b@),
{
    let x = to_chars(a);
    let y = to_chars(b);
    let mut i: usize = 0;
    assert(x@.skip(0) =~= x@);
    assert(y@.skip(0) =~= y@);
    while i < x.len() && i < y.len() && x[i] == y[i]
        invariant
            i <= x@.len(),
            i <= y@.len(),
            precedes(x@.skip(i as int), y@.skip(i as int)) == precedes(a@, b@),
        decreases x@.len() - i,
    {
        assert(x@.skip(i as int).drop_first() =~= x@.skip(i + 1));
        assert(y@.skip(i as int).drop_first() =~= y@.skip(i + 1));
        i += 1;
    }
    if i == y.len() {
        false
    } else if i == x.len() {
        true
    } else {
        x[i] < y[i]
    }
}

/// The order of texts is total and strict.
pub proof fn lemma_precedes_total(a: Seq<char>, b: Seq<char>)
    ensures
        precedes(a, b) || precedes(b, a) || a == b,
        !precedes(a, a),
        precedes(a, b) ==> a != b,
    decreases a.len(),
{
    if a.len() > 0 {
        lemma_precedes_total(a.drop_first(), a.drop_first());
    }
    if a.len() > 0 && b.len() > 0 && a[0] == b[0] {
        lemma_precedes_total(a.drop_first(), b.drop_first());
        if a.drop_first() == b.drop_first() {
            assert(a =~= seq![a[0]] + a.drop_first());
            assert(b =~= seq![b[0]] + b.drop_first());
        }
    } else if a.len() == 0 && b.len() == 0 {
        assert(a =~= b);
    }
}

/// What stands before a text that stands before another stands before that one.
pub proof fn lemma_precedes_transitive(a: Seq<char>, b: Seq<char>, c: Seq<char>)
    requires
        precedes(a, b),
        precedes(b, c),
    ensures
        precedes(a, c),
    decreases a.len(),
{
    if a.len() > 0 && a[0] == b[0] && b[0] == c[0] {
        lemma_precedes_transitive(a.drop_first(), b.drop_first(), c.drop_first());
    }
}

/// `s` without the characters `c` at its end.
pub open spec fn without_trailing(s: Seq<char>, c: char) -> Seq<char>
    decreases s.len(),
{
    if s.len() > 0 && s.last() == c {
        without_trailing(s.drop_last(), c)
    } else {
        s
    }
}

/// Leaves out the characters `c` at the end of a text.
pub fn strip_trailing(s: &str, c: char) -> (r: String)
    ensures
        r@ == without_trailing(s@, c),
{
    let chars = to_chars(s);
    let mut end: usize = chars.len();
    assert(chars@.take(end as int) =~= s@);
    while end > 0 && chars[end - 1] == c
        invariant
            end <= chars@.len(),
            without_trailing(chars@.take(end as int), c) == without_trailing(s@, c),
        decreases end,
    {
        assert(chars@.take(end as int).drop_last() =~= chars@.take(end - 1));
        assert(chars@.take(end as int).last() == chars@[end - 1]);
        end -= 1;
    }
    assert(end > 0 ==> chars@.take(end as int).last() == chars@[end - 1]);
    let out = slice(&chars, 0, end);
    assert(out@ =~= chars@.take(end as int));
    out
}

/// What is left of a text whose trailing characters were left out does not end in one of them.
pub proof fn lemma_without_trailing(s: Seq<char>, c: char)
    ensures
        without_trailing(s, c).len() > 0 ==> without_trailing(s, c).last() != c,
        without_trailing(s, c).len() <= s.len(),
    decreases s.len(),
{
    if s.len() > 0 && s.last() == c {
        lemma_without_trailing(s.drop_last(), c);
    }
}

/// The digits of a number denote it.
pub proof fn lemma_decimal_reads_back(n: nat)
    ensures
        all_digits(decimal(n)),
        decimal(n).len() > 0,
        digits_value(decimal(n)) == n,
    decreases n,
{
    let s = decimal(n);
    if n >= 10 {
        lemma_decimal_reads_back(n / 10);
        assert(s.drop_last() =~= decimal(n / 10));
        assert(s.last() == digit_char(n % 10));
    } else {
        assert(s =~= seq![digit_char(n)]);
        assert(s.drop_last() =~= Seq::<char>::empty());
        assert(digits_value(s.drop_last()) == 0);
    }
}

proof fn lemma_joined_first(pieces: Seq<Seq<char>>, sep: Seq<char>)
    requires
        pieces.len() >= 2,
    ensures
        joined(pieces, sep) == pieces[0] + sep + joined(pieces.drop_first(), sep),
    decreases pieces.len(),
{
    let rest = pieces.drop_first();
    if pieces.len() == 2 {
        assert(pieces.drop_last().len() == 1);
        assert(pieces.drop_last()[0] == pieces[0]);
        assert(joined(pieces.drop_last(), sep) == pieces[0]);
        assert(rest[0] == pieces.last());
    } else {
        lemma_joined_first(pieces.drop_last(), sep);
        assert(pieces.drop_last().drop_first() =~= rest.drop_last());
        assert(rest.last() == pieces.last());
        assert(joined(pieces, sep) =~= pieces[0] + sep + joined(rest, sep));
    }
}

/// The pieces of a text, joined again by what they were separated by, are the text; none of them holds
/// the separator.
pub proof fn law_pieces_make_up_the_text(s: Seq<char>, c: char)
    ensures
        joined(split_of(s, c), seq![c]) == s,
        forall|i: int|
            0 <= i < split_of(s, c).len() ==> !(#[trigger] split_of(s, c)[i]).contains(c),
    decreases s.len(),
{
    let i = index_of_char(s, c);
    let pieces = split_of(s, c);
    lemma_index_of_char(s, c);
    if i < s.len() {
        let rest = s.skip(i + 1);
        law_pieces_make_up_the_text(rest, c);
        assert(pieces.drop_first() =~= split_of(rest, c));
        lemma_joined_first(pieces, seq![c]);
        assert(joined(pieces, seq![c]) =~= s);
        assert forall|k: int| 0 <= k < pieces.len() implies !(#[trigger] pieces[k]).contains(c) by {
            if k > 0 {
                assert(pieces[k] == split_of(rest, c)[k - 1]);
            } else {
                assert forall|j: int| 0 <= j < s.take(i).len() implies s.take(i)[j] != c by {}
            }
        }
    }
}

/// Pieces without the separator, joined by it, are found again, each by itself.
pub proof fn law_joined_pieces_are_split(pieces: Seq<Seq<char>>, c: char)
    requires
        pieces.len() > 0,
        forall|i: int| 0 <= i < pieces.len() ==> !(#[trigger] pieces[i]).contains(c),
    ensures
        split_of(joined(pieces, seq![c]), c) == pieces,
    decreases pieces.len(),
{
    let s = joined(pieces, seq![c]);
    let first = pieces[0];
    assert forall|k: int| 0 <= k < first.len() implies first[k] != c by {
        assert(first.contains(first[k]));
    }
    if pieces.len() == 1 {
        lemma_index_of_char_is(s, c, s.len() as int);
        assert(seq![s] =~= pieces);
    } else {
        lemma_joined_first(pieces, seq![c]);
        let rest = pieces.drop_first();
        assert forall|i: int| 0 <= i < rest.len() implies !(#[trigger] rest[i]).contains(c) by {
            assert(rest[i] == pieces[i + 1]);
        }
        law_joined_pieces_are_split(rest, c);
        let n = first.len() as int;
        assert(s[n] == c);
        assert forall|k: int| 0 <= k < n implies s[k] != c by {
            assert(s[k] == first[k]);
        }
        lemma_index_of_char_is(s, c, n);
        assert(s.take(n) =~= first);
        assert(s.skip(n + 1) =~= joined(rest, seq![c]));
        assert(seq![first] + rest =~= pieces);
    }
}

/// Each piece occurs in the text that is joined of it.
pub proof fn law_each_piece_is_in_the_text(pieces: Seq<Seq<char>>, sep: Seq<char>, i: int)
    requires
        0 <= i < pieces.len(),
    ensures
        contains_text(joined(pieces, sep), pieces[i]),
    decreases pieces.len(),
{
    let s = joined(pieces, sep);
    if pieces.len() == 1 {
        assert(s.subrange(0, pieces[0].len() as int) =~= pieces[0]);
        assert(occurs_at(s, pieces[i], 0));
    } else if i < pieces.len() - 1 {
        let before = pieces.drop_last();
        law_each_piece_is_in_the_text(before, sep, i);
        lemma_contains_within(
            Seq::empty(),
            joined(before, sep),
            sep + pieces.last(),
            pieces[i],
        );
        assert(Seq::empty() + joined(before, sep) + (sep + pieces.last()) =~= s);
    } else {
        let at = s.len() - pieces[i].len();
        assert(s.subrange(at, at + pieces[i].len()) =~= pieces[i]);
        assert(occurs_at(s, pieces[i], at));
    }
}

/// What occurs in a text occurs in every longer text around it.
pub proof fn lemma_contains_within(
    before: Seq<char>,
    s: Seq<char>,
    after: Seq<char>,
    part: Seq<char>,
)
    requires
        contains_text(s, part),
    ensures
        contains_text(before + s + after, part),
{
    let i = choose|i: int| #[trigger] occurs_at(s, part, i);
    let whole = before + s + after;
    assert(whole.subrange(before.len() + i, before.len() + i + part.len()) =~= s.subrange(
        i,
        i + part.len(),
    ));
    assert(occurs_at(whole, part, before.len() + i));
}

/// Lines that are written one after the other, each ended by a line feed, are read back as they are.
pub proof fn law_written_lines_are_read_back(written: Seq<Seq<char>>)
    requires
        forall|i: int|
            0 <= i < written.len() ==> !(#[trigger] written[i]).contains('\n') && !(
            written[i].len() > 0 && written[i].last() == '\r'),
    ensures
        lines_of(written.map_values(|line: Seq<char>| line.push('\n')).flatten()) == written,
    decreases written.len(),
{
    let all = written.map_values(|line: Seq<char>| line.push('\n'));
    let s = all.flatten();
    if written.len() > 0 {
        let rest = written.drop_first();
        assert forall|i: int| 0 <= i < rest.len() implies !(#[trigger] rest[i]).contains('\n') && !(
        rest[i].len() > 0 && rest[i].last() == '\r') by {
            assert(rest[i] == written[i + 1]);
        }
        law_written_lines_are_read_back(rest);
        assert(all.drop_first() =~= rest.map_values(|line: Seq<char>| line.push('\n')));
        let first = written[0];
        let n = first.len() as int;
        assert(all.first() == first.push('\n'));
        assert(s == first.push('\n') + all.drop_first().flatten());
        assert(s[n] == '\n');
        assert forall|k: int| 0 <= k < n implies s[k] != '\n' by {
            assert(s[k] == first[k]);
            assert(first.contains(first[k]));
        }
        lemma_index_of_char_is(s, '\n', n);
        assert(s.take(n) =~= first);
        assert(s.skip(n + 1) =~= all.drop_first().flatten());
        assert(seq![first] + rest =~= written);
    } else {
        assert(all =~= Seq::empty());
        assert(lines_of(s) =~= written);
    }
}

/// No line holds a line feed.
pub proof fn law_lines_hold_no_feed(s: Seq<char>)
    ensures
        forall|i: int| 0 <= i < lines_of(s).len() ==> !(#[trigger] lines_of(s)[i]).contains('\n'),
    decreases s.len(),
{
    let i = index_of_char(s, '\n');
    let all = lines_of(s);
    lemma_index_of_char(s, '\n');
    if s.len() > 0 {
        if i < s.len() {
            law_lines_hold_no_feed(s.skip(i + 1));
        }
        assert forall|k: int| 0 <= k < all.len() implies !(#[trigger] all[k]).contains('\n') by {
            if i < s.len() {
                if k > 0 {
                    assert(all[k] == lines_of(s.skip(i + 1))[k - 1]);
                } else {
                    assert(all[0] == without_cr(s.take(i)));
                    assert forall|j: int| 0 <= j < all[0].len() implies all[0][j] != '\n' by {
                        assert(all[0][j] == s[j]);
                    }
                }
            } else {
                assert(all[k] == s);
            }
        }
    }
}

/// Trimming takes white space off both ends, all of it and nothing else.
pub proof fn law_trimming_takes_off_white_space(s: Seq<char>)
    ensures
        exists|from: int, to: int|
            #![trigger s.subrange(from, to)]
            0 <= from <= to <= s.len() && trimmed(s) == s.subrange(from, to) && (forall|k: int|
                (0 <= k < from || to <= k < s.len()) ==> whitespace(#[trigger] s[k])),
        trimmed(s).len() > 0 ==> !whitespace(trimmed(s)[0]) && !whitespace(trimmed(s).last()),
        blank(s) <==> forall|k: int| 0 <= k < s.len() ==> whitespace(#[trigger] s[k]),
{
    let (from, rest) = lemma_trim_start_takes(s);
    let to = lemma_trim_end_takes(rest);
    assert(trimmed(s) =~= s.subrange(from, from + to));
    assert forall|k: int| (0 <= k < from || from + to <= k < s.len()) implies whitespace(
        #[trigger] s[k],
    ) by {
        if k >= from {
            assert(s[k] == rest[k - from]);
        }
    }
    if trimmed(s).len() > 0 {
        assert(trimmed(s)[0] == rest[0]);
        assert(trimmed(s)[0] == s[from]);
        assert(!whitespace(s[from]));
    }
}

proof fn lemma_trim_start_takes(s: Seq<char>) -> (r: (int, Seq<char>))
    ensures
        0 <= r.0 <= s.len(),
        r.1 == s.skip(r.0),
        trim_start(s) == r.1,
        forall|k: int| 0 <= k < r.0 ==> whitespace(#[trigger] s[k]),
        r.1.len() > 0 ==> !whitespace(r.1[0]),
    decreases s.len(),
{
    if s.len() > 0 && whitespace(s[0]) {
        let inner = lemma_trim_start_takes(s.drop_first());
        assert forall|k: int| 0 <= k < inner.0 + 1 implies whitespace(#[trigger] s[k]) by {
            if k > 0 {
                assert(s[k] == s.drop_first()[k - 1]);
            }
        }
        assert(s.drop_first().skip(inner.0) =~= s.skip(inner.0 + 1));
        (inner.0 + 1, inner.1)
    } else {
        assert(s.skip(0) =~= s);
        (0, s)
    }
}

proof fn lemma_trim_end_takes(s: Seq<char>) -> (r: int)
    ensures
        0 <= r <= s.len(),
        trim_end(s) == s.take(r),
        forall|k: int| r <= k < s.len() ==> whitespace(#[trigger] s[k]),
        r > 0 ==> !whitespace(s[r - 1]),
    decreases s.len(),
{
    if s.len() > 0 && whitespace(s.last()) {
        let inner = lemma_trim_end_takes(s.drop_last());
        assert forall|k: int| inner <= k < s.len() implies whitespace(#[trigger] s[k]) by {
            if k < s.len() - 1 {
                assert(s[k] == s.drop_last()[k]);
            }
        }
        assert(s.drop_last().take(inner) =~= s.take(inner));
        inner
    } else {
        assert(s.take(s.len() as int) =~= s);
        s.len() as int
    }
}

/// The longest beginning of a text that fits is a beginning, fits, and is not all only where one more
/// character would not fit. The same holds of its longest end.
pub proof fn law_longest_parts_fit(s: Seq<char>, limit: nat)
    ensures
        prefix_within(s, limit).is_prefix_of(s),
        utf8_len(prefix_within(s, limit)) <= limit,
        prefix_within(s, limit).len() < s.len() ==> utf8_len(
            s.take(prefix_within(s, limit).len() as int + 1),
        ) > limit,
        suffix_within(s, limit).is_suffix_of(s),
        utf8_len(suffix_within(s, limit)) <= limit,
        suffix_within(s, limit).len() < s.len() ==> utf8_len(
            s.skip(s.len() - suffix_within(s, limit).len() - 1),
        ) > limit,
{
    lemma_prefix_within_fits(s, limit);
    lemma_suffix_within_fits(s, limit);
    lemma_next_does_not_fit(s, limit);
}

proof fn lemma_next_does_not_fit(s: Seq<char>, limit: nat)
    ensures
        prefix_within(s, limit).len() < s.len() ==> utf8_len(
            s.take(prefix_within(s, limit).len() as int + 1),
        ) > limit,
        suffix_within(s, limit).len() < s.len() ==> utf8_len(
            s.skip(s.len() - suffix_within(s, limit).len() - 1),
        ) > limit,
    decreases s.len(),
{
    if utf8_len(s) > limit && s.len() > 0 {
        let t = s.drop_last();
        let u = s.drop_first();
        lemma_next_does_not_fit(t, limit);
        lemma_next_does_not_fit(u, limit);
        lemma_prefix_within_fits(t, limit);
        lemma_suffix_within_fits(u, limit);
        let n = prefix_within(t, limit).len() as int;
        let m = suffix_within(u, limit).len() as int;
        assert(s.take(s.len() as int) =~= s);
        assert(s.skip(0) =~= s);
        if n < t.len() {
            assert(t.take(n + 1) =~= s.take(n + 1));
        }
        if m < u.len() {
            assert(u.skip(u.len() - m - 1) =~= s.skip(s.len() - m - 1));
        }
    }
}

} // verus!
