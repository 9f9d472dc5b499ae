//! Characters and character classes, and what is taken on trust from the
//! standard library about them.

use vstd::prelude::*;

verus! {

/// What `char::is_alphanumeric` answers for a character: membership in the
/// Unicode classes Alphabetic, Nd, Nl and No.
pub uninterp spec fn alphanumeric(c: char) -> bool;

/// The ASCII letters and digits.
pub open spec fn ascii_alphanumeric(c: char) -> bool {
    ('a' <= c && c <= 'z') || ('A' <= c && c <= 'Z') || ('0' <= c && c <= '9')
}

/// `char::is_alphanumeric` is a function of the character alone, and it holds
/// of every ASCII letter and digit. Nothing else is claimed of it.
pub assume_specification[ char::is_alphanumeric ](c: char) -> (r: bool)
    ensures
        r == alphanumeric(c),
        ascii_alphanumeric(c) ==> r,
;

/// `String::push` appends the character to the end of the string.
pub assume_specification[ std::string::String::push ](s: &mut std::string::String, ch: char)
    ensures
        final(s)@ == old(s)@.push(ch),
;

/// The blanks that separate symbols: space, tab, carriage return, line feed.
pub open spec fn is_blank(c: char) -> bool {
    c == ' ' || c == '\t' || c == '\r' || c == '\n'
}

/// A character that may stand inside a word: `_`, or a letter or digit as
/// `char::is_alphanumeric` knows them, the ASCII ones among them.
pub open spec fn is_word_char(c: char) -> bool {
    ascii_alphanumeric(c) || alphanumeric(c) || c == '_'
}

/// The letters with which a word may begin: those with which a reserved
/// word begins.
pub open spec fn is_word_start(c: char) -> bool {
    c == 'a' || c == 'b' || c == 'c' || c == 'd' || c == 'e' || c == 'f' || c == 'i' || c == 'l'
        || c == 'm' || c == 'n' || c == 'o' || c == 'p' || c == 'r' || c == 't' || c == 'u' || c
        == 'v' || c == 'w'
}

/// The character at offset `i`, or NUL where `i` is outside the text.
pub open spec fn current(s: Seq<char>, i: int) -> char {
    if 0 <= i < s.len() {
        s[i]
    } else {
        '\0'
    }
}

pub fn blank(c: char) -> (r: bool)
    ensures
        r == is_blank(c),
{
    c == ' ' || c == '\t' || c == '\r' || c == '\n'
}

pub fn word_char(c: char) -> (r: bool)
    ensures
        r == is_word_char(c),
{
    c.is_alphanumeric() || c == '_'
}

pub fn word_start(c: char) -> (r: bool)
    ensures
        r == is_word_start(c),
        r ==> is_word_char(c),
{
    c == 'a' || c == 'b' || c == 'c' || c == 'd' || c == 'e' || c == 'f' || c == 'i' || c == 'l'
        || c == 'm' || c == 'n' || c == 'o' || c == 'p' || c == 'r' || c == 't' || c == 'u' || c
        == 'v' || c == 'w'
}

} // verus!
