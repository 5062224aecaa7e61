//! Building strings character by character.

use vstd::prelude::*;

verus! {

/// `String::push` appends one character; the contract says the view grows by
/// exactly that character, as std documents.
pub assume_specification[ String::push ](s: &mut String, ch: char)
    ensures
        final(s)@ == old(s)@.push(ch),
;

} // verus!
