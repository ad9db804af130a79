//! Digests and their hexadecimal text.
use vstd::prelude::*;

verus! {

/// The SHA-256 digest of some bytes.
pub uninterp spec fn sha256(data: Seq<u8>) -> Seq<u8>;

/// The lower-case hexadecimal digit for a value below sixteen.
pub open spec fn hex_digit(v: int) -> char {
    if v < 10 {
        (48 + v) as char
    } else {
        (87 + v) as char
    }
}

/// Two lower-case hexadecimal digits for each byte, the high one first.
pub open spec fn hex_text(data: Seq<u8>) -> Seq<char>
    decreases data.len(),
{
    if data.len() == 0 {
        Seq::empty()
    } else {
        hex_text(data.drop_last()).push(hex_digit(data.last() as int / 16)).push(
            hex_digit(data.last() as int % 16),
        )
    }
}

/// Calls `sha2::Sha256::digest`. The 32 bytes depend on the data alone and are named [`sha256`].
#[verifier::external_body]
pub(crate) fn sha256_digest(data: &[u8]) -> (r: Vec<u8>)
    ensures
        r@ == sha256(data@),
        r@.len() == 32,
{
    <sha2::Sha256 as sha2::Digest>::digest(data).to_vec()
}

/// Calls `hex::encode`, which writes two lower-case hexadecimal digits for each byte.
#[verifier::external_body]
pub(crate) fn hex_encode(data: &[u8]) -> (r: String)
    ensures
        r@ == hex_text(data@),
{
    hex::encode(data)
}

/// The hexadecimal text of the SHA-256 digest of some bytes.
pub fn fingerprint(data: &[u8]) -> (r: String)
    ensures
        r@ == hex_text(sha256(data@)),
{
    let digest = sha256_digest(data);
    hex_encode(digest.as_slice())
}

/// The text of a digest has two characters for each byte.
pub proof fn law_hex_text_length(data: Seq<u8>)
    ensures
        hex_text(data).len() == 2 * data.len(),
    decreases data.len(),
{
    if data.len() > 0 {
        law_hex_text_length(data.drop_last());
    }
}

/// The value of a hexadecimal digit.
pub open spec fn digit_value(c: char) -> int {
    if '0' <= c <= '9' {
        c as int - '0' as int
    } else {
        c as int - 'a' as int + 10
    }
}

/// The two digits of each byte tell the byte, so that bytes are read back from their text.
pub proof fn law_digits_tell_the_bytes(data: Seq<u8>, i: int)
    requires
        0 <= i < data.len(),
    ensures
        hex_text(data).len() == 2 * data.len(),
        16 * digit_value(hex_text(data)[2 * i]) + digit_value(hex_text(data)[2 * i + 1]) == data[i],
    decreases data.len(),
{
    law_hex_text_length(data);
    law_hex_text_length(data.drop_last());
    if i < data.len() - 1 {
        law_digits_tell_the_bytes(data.drop_last(), i);
        assert(data.drop_last()[i] == data[i]);
    } else {
        let v = data[i] as int;
        assert(digit_value(hex_digit(v / 16)) == v / 16);
        assert(digit_value(hex_digit(v % 16)) == v % 16);
        assert(16 * (v / 16) + v % 16 == v);
    }
}

} // verus!
