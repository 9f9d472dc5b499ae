//! The lexical grammar, as functions on the sequence of characters.
//!
//! Offsets are positions in that sequence. Outside the text, and where a NUL
//! stands in it, the text counts as ended.

use vstd::prelude::*;
use crate::scanner::Symbols;
use crate::text::{current, is_blank, is_word_char, is_word_start};

verus! {

/// What one reading of the text finds.
pub enum Lexeme {
    /// A symbol without text: punctuation, an operator, a reserved word, or
    /// the end of the text.
    Token(Symbols),
    /// A word that is not reserved, with its span and its characters.
    Name(u32, u32, Seq<char>),
    /// A block comment that does not end; the offset is where the search
    /// stopped.
    Unterminated(u32),
    /// A character that begins no symbol, at the offset.
    Unrecognized(u32),
}

/// One reading: what was found, where it starts, and where the cursor
/// stands afterwards.
pub struct Step {
    pub lexeme: Lexeme,
    pub start: int,
    pub index: int,
}

/// The symbol that the single character `c` stands for, with span `a..b`.
pub open spec fn single(c: char, a: u32, b: u32) -> Option<Symbols> {
    if c == ')' {
        Some(Symbols::Rparen(a, b))
    } else if c == '[' {
        Some(Symbols::Lbrak(a, b))
    } else if c == ']' {
        Some(Symbols::Rbrak(a, b))
    } else if c == '{' {
        Some(Symbols::Lbrace(a, b))
    } else if c == '}' {
        Some(Symbols::Rbrace(a, b))
    } else if c == '|' {
        Some(Symbols::Bar(a, b))
    } else if c == '#' {
        Some(Symbols::Neq(a, b))
    } else if c == '&' {
        Some(Symbols::And(a, b))
    } else if c == ',' {
        Some(Symbols::Comma(a, b))
    } else if c == '*' {
        Some(Symbols::Times(a, b))
    } else if c == '-' {
        Some(Symbols::Minus(a, b))
    } else if c == '/' {
        Some(Symbols::Slash(a, b))
    } else if c == ';' {
        Some(Symbols::Semicolon(a, b))
    } else if c == '=' {
        Some(Symbols::Eql(a, b))
    } else if c == '^' {
        Some(Symbols::Arrow(a, b))
    } else if c == '~' {
        Some(Symbols::Not(a, b))
    } else if c == '+' {
        Some(Symbols::Plus(a, b))
    } else if c == '(' {
        Some(Symbols::Lparen(a, b))
    } else if c == ':' {
        Some(Symbols::Colon(a, b))
    } else if c == '<' {
        Some(Symbols::Lss(a, b))
    } else if c == '>' {
        Some(Symbols::Gtr(a, b))
    } else if c == '.' {
        Some(Symbols::Period(a, b))
    } else {
        None
    }
}

/// The symbol that the two characters `c`, `d` stand for together, with
/// span `a..b`.
pub open spec fn double(c: char, d: char, a: u32, b: u32) -> Option<Symbols> {
    if c == ':' && d == '=' {
        Some(Symbols::Becomes(a, b))
    } else if c == '<' && d == '=' {
        Some(Symbols::Leq(a, b))
    } else if c == '>' && d == '=' {
        Some(Symbols::Geq(a, b))
    } else if c == '.' && d == '.' {
        Some(Symbols::Upto(a, b))
    } else {
        None
    }
}

/// The reserved word that `w` spells, with span `a..b`.
pub open spec fn keyword(w: Seq<char>, a: u32, b: u32) -> Option<Symbols> {
    if w == "array"@ {
        Some(Symbols::Array(a, b))
    } else if w == "async"@ {
        Some(Symbols::Async(a, b))
    } else if w == "await"@ {
        Some(Symbols::Await(a, b))
    } else if w == "begin"@ {
        Some(Symbols::Begin(a, b))
    } else if w == "by"@ {
        Some(Symbols::By(a, b))
    } else if w == "case"@ {
        Some(Symbols::Case(a, b))
    } else if w == "const"@ {
        Some(Symbols::Const(a, b))
    } else if w == "continue"@ {
        Some(Symbols::Continue(a, b))
    } else if w == "div"@ {
        Some(Symbols::Div(a, b))
    } else if w == "do"@ {
        Some(Symbols::Do(a, b))
    } else if w == "else"@ {
        Some(Symbols::Else(a, b))
    } else if w == "elsif"@ {
        Some(Symbols::Elsif(a, b))
    } else if w == "end"@ {
        Some(Symbols::End(a, b))
    } else if w == "exit"@ {
        Some(Symbols::Exit(a, b))
    } else if w == "false"@ {
        Some(Symbols::False(a, b))
    } else if w == "for"@ {
        Some(Symbols::For(a, b))
    } else if w == "if"@ {
        Some(Symbols::If(a, b))
    } else if w == "import"@ {
        Some(Symbols::Import(a, b))
    } else if w == "in"@ {
        Some(Symbols::In(a, b))
    } else if w == "is"@ {
        Some(Symbols::Is(a, b))
    } else if w == "loop"@ {
        Some(Symbols::Loop(a, b))
    } else if w == "mod"@ {
        Some(Symbols::Mod(a, b))
    } else if w == "module"@ {
        Some(Symbols::Module(a, b))
    } else if w == "nil"@ {
        Some(Symbols::Nil(a, b))
    } else if w == "of"@ {
        Some(Symbols::Of(a, b))
    } else if w == "or"@ {
        Some(Symbols::Or(a, b))
    } else if w == "pointer"@ {
        Some(Symbols::Pointer(a, b))
    } else if w == "procedure"@ {
        Some(Symbols::Procedure(a, b))
    } else if w == "record"@ {
        Some(Symbols::Record(a, b))
    } else if w == "repeat"@ {
        Some(Symbols::Repeat(a, b))
    } else if w == "return"@ {
        Some(Symbols::Return(a, b))
    } else if w == "then"@ {
        Some(Symbols::Then(a, b))
    } else if w == "to"@ {
        Some(Symbols::To(a, b))
    } else if w == "true"@ {
        Some(Symbols::True(a, b))
    } else if w == "type"@ {
        Some(Symbols::Type(a, b))
    } else if w == "until"@ {
        Some(Symbols::Until(a, b))
    } else if w == "var"@ {
        Some(Symbols::Var(a, b))
    } else if w == "while"@ {
        Some(Symbols::While(a, b))
    } else if w == "with"@ {
        Some(Symbols::With(a, b))
    } else {
        None
    }
}

/// The first offset from `i` on that holds no blank.
pub open spec fn blanks_end(s: Seq<char>, i: int) -> int
    decreases s.len() - i,
{
    if 0 <= i < s.len() && is_blank(s[i]) {
        blanks_end(s, i + 1)
    } else {
        i
    }
}

/// The first offset from `i` on that holds no word character.
pub open spec fn word_end(s: Seq<char>, i: int) -> int
    decreases s.len() - i,
{
    if 0 <= i < s.len() && is_word_char(s[i]) {
        word_end(s, i + 1)
    } else {
        i
    }
}

/// Where the search for the end of a block comment stops, and how many
/// comments are still open there, when it stands at `i` inside `depth` nested
/// comments. `*)` closes one, `(*` opens one more, any other character is
/// passed over. The search stops when none is open, or at the end of the
/// text.
pub open spec fn comment_end(s: Seq<char>, i: int, depth: nat) -> (int, nat)
    decreases s.len() - i,
{
    if depth == 0 || current(s, i) == '\0' {
        (i, depth)
    } else if current(s, i) == '*' && current(s, i + 1) == ')' {
        comment_end(s, i + 2, (depth - 1) as nat)
    } else if current(s, i) == '(' && current(s, i + 1) == '*' {
        comment_end(s, i + 2, depth + 1)
    } else {
        comment_end(s, i + 1, depth)
    }
}

/// Whether a block comment opens at `p`.
pub open spec fn comment_opens(s: Seq<char>, p: int) -> bool {
    current(s, p) == '(' && current(s, p + 1) == '*'
}

/// The reading at `p`, where neither a blank nor a comment begins: the end
/// of the text, a two-character operator before a one-character one, a word
/// taken as long as it goes, or else an error that consumes nothing.
pub open spec fn lexeme_at(s: Seq<char>, p: int) -> Step {
    let c = current(s, p);
    let d = current(s, p + 1);
    let e = word_end(s, p);
    if c == '\0' {
        Step { lexeme: Lexeme::Token(Symbols::Eof), start: p, index: p }
    } else if double(c, d, p as u32, (p + 2) as u32) is Some {
        Step {
            lexeme: Lexeme::Token(double(c, d, p as u32, (p + 2) as u32)->0),
            start: p,
            index: p + 2,
        }
    } else if single(c, p as u32, (p + 1) as u32) is Some {
        Step {
            lexeme: Lexeme::Token(single(c, p as u32, (p + 1) as u32)->0),
            start: p,
            index: p + 1,
        }
    } else if is_word_start(c) {
        Step { lexeme: word(s.subrange(p, e), p as u32, e as u32), start: p, index: e }
    } else {
        Step { lexeme: Lexeme::Unrecognized(p as u32), start: p, index: p }
    }
}

/// A word with span `a..b`: the reserved word it spells, or a name.
pub open spec fn word(w: Seq<char>, a: u32, b: u32) -> Lexeme {
    match keyword(w, a, b) {
        Some(k) => Lexeme::Token(k),
        None => Lexeme::Name(a, b, w),
    }
}

/// The reading from offset `i`: blanks and block comments are passed over,
/// then the symbol that follows is read. A comment that does not end is an
/// error, with the cursor left where the search stopped.
pub open spec fn scan(s: Seq<char>, i: int) -> Step
    decreases s.len() - i,
    via scan_terminates
{
    let p = blanks_end(s, i);
    if comment_opens(s, p) {
        let (q, depth) = comment_end(s, p + 2, 1);
        if depth > 0 {
            Step { lexeme: Lexeme::Unterminated(q as u32), start: p, index: q }
        } else {
            scan(s, q)
        }
    } else {
        lexeme_at(s, p)
    }
}

#[via_fn]
proof fn scan_terminates(s: Seq<char>, i: int) {
    let p = blanks_end(s, i);
    lemma_blanks_end(s, i);
    lemma_comment_end(s, p + 2, 1);
}

/// Passing over blanks never moves back, stays inside the text, and stops
/// before a character that is no blank.
pub proof fn lemma_blanks_end(s: Seq<char>, i: int)
    ensures
        i <= blanks_end(s, i),
        i <= s.len() ==> blanks_end(s, i) <= s.len(),
        !is_blank(current(s, blanks_end(s, i))),
        blanks_end(s, blanks_end(s, i)) == blanks_end(s, i),
    decreases s.len() - i,
{
    if 0 <= i < s.len() && is_blank(s[i]) {
        lemma_blanks_end(s, i + 1);
    }
}

/// A word never ends before it starts, nor after the text.
pub proof fn lemma_word_end(s: Seq<char>, i: int)
    ensures
        i <= word_end(s, i),
        i <= s.len() ==> word_end(s, i) <= s.len(),
        0 <= i < s.len() && is_word_char(s[i]) ==> i < word_end(s, i),
    decreases s.len() - i,
{
    if 0 <= i < s.len() && is_word_char(s[i]) {
        lemma_word_end(s, i + 1);
    }
}

/// The search for the end of a comment never moves back and stays inside
/// the text; where it stops with a comment still open, the text has ended.
pub proof fn lemma_comment_end(s: Seq<char>, i: int, depth: nat)
    ensures
        i <= comment_end(s, i, depth).0,
        i <= s.len() ==> comment_end(s, i, depth).0 <= s.len(),
        comment_end(s, i, depth).1 > 0 ==> current(s, comment_end(s, i, depth).0) == '\0',
    decreases s.len() - i,
{
    if depth == 0 || current(s, i) == '\0' {
    } else if current(s, i) == '*' && current(s, i + 1) == ')' {
        lemma_comment_end(s, i + 2, (depth - 1) as nat);
    } else if current(s, i) == '(' && current(s, i + 1) == '*' {
        lemma_comment_end(s, i + 2, depth + 1);
    } else {
        lemma_comment_end(s, i + 1, depth);
    }
}

} // verus!
