//! String building helpers.
//!
//! Verified code builds messages and frames by appending to a `String`;
//! these wrappers give the two std append operations contracts over the
//! string's character view.

use vstd::prelude::*;

verus! {

/// Relies on String::push: appends one character.
#[verifier::external_body]
pub fn push_char(s: &mut String, c: char)
    ensures
        final(s)@ == old(s)@.push(c),
{
    s.push(c);
}

/// Relies on String::push_str: appends the slice's characters.
#[verifier::external_body]
pub fn push_str(s: &mut String, v: &str)
    ensures
        final(s)@ == old(s)@ + v@,
{
    s.push_str(v);
}

} // verus!
