//! Building strings one character at a time.

use vstd::prelude::*;

verus! {

/// Calls `String::push`.
///
/// Trusted: afterwards the string is what it was with `c` added at the end,
/// as the documentation of `push` says.
#[verifier::external_body]
pub(crate) fn push_char(text: &mut String, c: char)
    ensures
        final(text)@ == old(text)@.push(c),
{
    text.push(c);
}

} // verus!
