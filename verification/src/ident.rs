//! Identifiers made of chance.
use crate::text;
use vstd::prelude::*;

verus! {

/// Whether `c` is a lower-case hexadecimal digit.
pub open spec fn is_hex(c: char) -> bool {
    '0' <= c <= '9' || 'a' <= c <= 'f'
}

/// Whether every character of `s` is a lower-case hexadecimal digit.
pub open spec fn all_hex(s: Seq<char>) -> bool {
    forall|i: int| 0 <= i < s.len() ==> is_hex(#[trigger] s[i])
}

/// Calls `uuid::Uuid::new_v4` and writes the identifier with `Uuid::simple`: 32 lower-case
/// hexadecimal digits, which differ from call to call.
#[verifier::external_body]
fn random_simple_uuid() -> (r: String)
    ensures
        r@.len() == 32,
        all_hex(r@),
{
    uuid::Uuid::new_v4().simple().to_string()
}

/// Eight hexadecimal digits that differ from call to call.
pub fn short_random_id() -> (r: String)
    ensures
        r@.len() == 8,
        all_hex(r@),
{
    let id = random_simple_uuid();
    let chars = text::to_chars(id.as_str());
    let out = text::slice(&chars, 0, 8);
    assert forall|i: int| 0 <= i < out@.len() implies is_hex(#[trigger] out@[i]) by {
        assert(out@[i] == id@[i]);
    }
    out
}

} // verus!
