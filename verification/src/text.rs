//! What the library relies on from `std` for building strings.

use vstd::prelude::*;

verus! {

/// `String::push` appends the given character at the end of the string
/// (its documentation: "Appends the given char to the end of this String").
pub assume_specification[ String::push ](s: &mut String, ch: char)
    ensures
        final(s)@ == old(s)@.push(ch),
;

} // verus!
