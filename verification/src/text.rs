//! Character-level building blocks for the strings this library produces.

use vstd::prelude::*;

verus! {

/// Appends one character to a `String` (`std::string::String::push`).
/// The contract claims only what `push` documents: the character lands at the end
/// and nothing before it changes.
#[verifier::external_body]
pub(crate) fn push_char(s: &mut String, c: char)
    ensures
        final(s)@ == old(s)@.push(c),
{
    s.push(c);
}

} // verus!
