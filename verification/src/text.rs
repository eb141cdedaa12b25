//! Conversions between strings and character vectors. All parsing and
//! printing in this crate works on `Vec<char>`; these two wrappers move
//! between that representation and `String` at the boundary.

use vstd::prelude::*;

verus! {

/// Relies on std's `str::chars`: iterating a string yields exactly the
/// characters of its view, in order.
#[verifier::external_body]
pub(crate) fn str_chars(s: &str) -> (r: Vec<char>)
    ensures
        r@ == s@,
{
    s.chars().collect()
}

/// Relies on std's `FromIterator<char> for String`: collecting characters
/// builds the string whose view is exactly that character sequence.
#[verifier::external_body]
pub(crate) fn chars_string(v: &Vec<char>) -> (r: String)
    ensures
        r@ == v@,
{
    v.iter().collect()
}

} // verus!
