//! The two operations on characters that the standard library keeps to
//! itself. Their contracts are taken on trust from its documentation.

use vstd::prelude::*;

verus! {

/// What `char::is_whitespace` answers for `c`.
pub uninterp spec fn char_is_whitespace(c: char) -> bool;

/// Whether `c` is white space, where `answer` is what the standard library
/// answers for it. Of the first 128 characters, the space and the five from
/// the tabulator to the carriage return are white space, and no other.
pub open spec fn white_space(c: char, answer: bool) -> bool {
    if (c as u32) < 128 {
        c as u32 == 0x20 || 0x09 <= c as u32 <= 0x0D
    } else {
        answer
    }
}

/// Whether `c` is white space.
pub open spec fn is_white_space(c: char) -> bool {
    white_space(c, char_is_whitespace(c))
}

/// Calls `char::is_whitespace`, which answers by the character alone, and
/// which the standard library defines as the white space of Unicode.
#[verifier::external_body]
pub(crate) fn is_whitespace(c: char) -> (b: bool)
    ensures
        b == white_space(c, char_is_whitespace(c)),
{
    c.is_whitespace()
}

/// Calls `String::push`, which appends the one character to the end of the
/// string and leaves the rest as it was.
#[verifier::external_body]
pub(crate) fn push_char(s: &mut String, c: char)
    ensures
        final(s)@ == old(s)@.push(c),
{
    s.push(c);
}

} // verus!
