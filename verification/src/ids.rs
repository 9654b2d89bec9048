//! Fresh identifiers for connections and transfer tasks.
use vstd::prelude::*;

verus! {

/// A lowercase hexadecimal digit.
pub open spec fn is_lower_hex(c: char) -> bool {
    ('0' <= c && c <= '9') || ('a' <= c && c <= 'f')
}

/// The hyphenated text of a random (version 4, RFC 4122 variant) UUID:
/// 8-4-4-4-12 lowercase hexadecimal digits, version digit `4`, variant digit
/// one of `8`, `9`, `a`, `b`.
pub open spec fn is_v4_text(s: Seq<char>) -> bool {
    &&& s.len() == 36
    &&& forall|i: int|
        0 <= i < 36 ==> if i == 8 || i == 13 || i == 18 || i == 23 {
            s[i] == '-'
        } else {
            is_lower_hex(s[i])
        }
    &&& s[14] == '4'
    &&& (s[19] == '8' || s[19] == '9' || s[19] == 'a' || s[19] == 'b')
}

/// Trusted: `uuid::Uuid::new_v4` (random bits with the version nibble set to
/// 4 and the variant bits to `10`), rendered by its `Display` impl, which
/// writes the hyphenated lowercase form. The contract claims only that shape;
/// which of the 2^122 values comes out is left open, as it is random.
#[verifier::external_body]
pub(crate) fn fresh_v4_id() -> (r: String)
    ensures
        is_v4_text(r@),
{
    uuid::Uuid::new_v4().to_string()
}

} // verus!
