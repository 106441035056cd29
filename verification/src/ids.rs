//! Fresh random identifiers.
use vstd::prelude::*;
use vstd::string::*;

verus! {

/// A lower-case hexadecimal digit.
pub open spec fn is_lower_hex(c: char) -> bool {
    ('0' <= c && c <= '9') || ('a' <= c && c <= 'f')
}

/// The shape of a hyphenated identifier: 36 characters, each a lower-case
/// hexadecimal digit or a hyphen.
pub open spec fn is_hyphenated_id(s: Seq<char>) -> bool {
    s.len() == 36 && forall|i: int| 0 <= i < s.len() ==> is_lower_hex(#[trigger] s[i]) || s[i] == '-'
}

/// The shape of a simple identifier: 32 lower-case hexadecimal digits.
pub open spec fn is_simple_id(s: Seq<char>) -> bool {
    s.len() == 32 && forall|i: int| 0 <= i < s.len() ==> is_lower_hex(#[trigger] s[i])
}

/// `uuid::Uuid::new_v4`, written out with the `Display` of `Uuid`: a random
/// identifier in the hyphenated lower-case form. Only its shape is known; two
/// calls give different values.
#[verifier::external_body]
pub(crate) fn new_hyphenated_id() -> (id: String)
    ensures
        is_hyphenated_id(id@),
{
    uuid::Uuid::new_v4().to_string()
}

/// `uuid::Uuid::new_v4`, written out with the `Display` of `Uuid::simple`: a
/// random identifier as 32 lower-case hexadecimal digits. Only its shape is
/// known; two calls give different values.
#[verifier::external_body]
pub(crate) fn new_simple_id() -> (id: String)
    ensures
        is_simple_id(id@),
{
    uuid::Uuid::new_v4().simple().to_string()
}

} // verus!
