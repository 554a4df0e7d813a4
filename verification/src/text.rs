//! Small helpers for building strings from verified character data.

use vstd::prelude::*;

verus! {

/// Relies on `String::push`, which appends the given character.
#[verifier::external_body]
pub(crate) fn string_push_char(s: &mut String, c: char)
    ensures
        final(s)@ == old(s)@.push(c),
{
    s.push(c)
}

} // verus!
