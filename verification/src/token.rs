//! The special characters ("atoms") of F750 source text.
use vstd::prelude::*;

verus! {

pub const ATOM_COMMENT: char = ';';
pub const ATOM_WHITESPACE: char = ' ';
pub const ATOM_SEPARATOR: char = ',';
pub const ATOM_COLON: char = ':';
pub const ATOM_QUOTE: char = '"';
pub const ATOM_UNDERLINE: char = '_';
pub const ATOM_PLUS: char = '+';
pub const ATOM_DEREF: char = '&';
pub const ATOM_HASHTAG: char = '#';
pub const ATOM_AT: char = '@';
pub const CHAR_DOT: char = '.';

/// Whether `ch` ends a plain word: a space, `,`, `:`, `"`, `+`, `&`, `#` or `@`.
pub open spec fn spec_is_special_atom(ch: char) -> bool {
    ch == ATOM_WHITESPACE || ch == ATOM_SEPARATOR || ch == ATOM_COLON || ch == ATOM_QUOTE
        || ch == ATOM_PLUS || ch == ATOM_DEREF || ch == ATOM_HASHTAG || ch == ATOM_AT
}

/// Returns whether `ch` ends a plain word. The flag `exclude_digit` does
/// not change the answer.
pub fn is_special_atom(ch: char, exclude_digit: bool) -> (r: bool)
    ensures
        r == spec_is_special_atom(ch),
{
    ch == ATOM_WHITESPACE || ch == ATOM_SEPARATOR || ch == ATOM_COLON || ch == ATOM_QUOTE
        || ch == ATOM_PLUS || ch == ATOM_DEREF || ch == ATOM_HASHTAG || ch == ATOM_AT
}

} // verus!
