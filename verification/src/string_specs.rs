//! What the library takes for granted of `String`.
use vstd::prelude::*;

verus! {

/// `String::push` appends the given character to the end of the string, and
/// does nothing else to it.
pub assume_specification[ String::push ](s: &mut String, ch: char)
    ensures
        final(s)@ == old(s)@.push(ch),
;

} // verus!
