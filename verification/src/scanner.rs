//! The scanner: a cursor over the characters of a source text, and the
//! recogniser that reads one symbol at a time from it.

use vstd::prelude::*;
use vstd::std_specs::iter::IteratorSpec;
use vstd::string::StrSliceExecFns;
use crate::grammar::{
    blanks_end, comment_end, double, keyword, lemma_blanks_end, lemma_comment_end, scan, single,
    word_end, Lexeme,
};
use crate::text::{blank, current, word_char, word_start};

verus! {

/// A symbol of the source text. Every variant but `Eof` carries the offsets
/// of its first character and of the character after its last; `Number`,
/// `String` and `Ident` also carry their text.
#[derive(Clone, PartialEq, Debug)]
pub enum Symbols {
    Times(u32, u32),
    Slash(u32, u32),
    Div(u32, u32),
    Mod(u32, u32),
    And(u32, u32),
    Plus(u32, u32),
    Minus(u32, u32),
    Or(u32, u32),
    Eql(u32, u32),
    Neq(u32, u32),
    Lss(u32, u32),
    Leq(u32, u32),
    Gtr(u32, u32),
    Geq(u32, u32),
    In(u32, u32),
    Is(u32, u32),
    Arrow(u32, u32),
    Period(u32, u32),
    Comma(u32, u32),
    Colon(u32, u32),
    Upto(u32, u32),
    Rparen(u32, u32),
    Rbrak(u32, u32),
    Rbrace(u32, u32),
    Of(u32, u32),
    Then(u32, u32),
    Do(u32, u32),
    To(u32, u32),
    By(u32, u32),
    Lparen(u32, u32),
    Lbrak(u32, u32),
    Lbrace(u32, u32),
    Not(u32, u32),
    Becomes(u32, u32),
    Number(u32, u32, Box<std::string::String>),
    Nil(u32, u32),
    String(u32, u32, Box<std::string::String>),
    Ident(u32, u32, Box<std::string::String>),
    Semicolon(u32, u32),
    Bar(u32, u32),
    End(u32, u32),
    Else(u32, u32),
    Elsif(u32, u32),
    Until(u32, u32),
    If(u32, u32),
    Case(u32, u32),
    While(u32, u32),
    Repeat(u32, u32),
    For(u32, u32),
    Loop(u32, u32),
    With(u32, u32),
    Exit(u32, u32),
    Return(u32, u32),
    Array(u32, u32),
    Record(u32, u32),
    Pointer(u32, u32),
    Begin(u32, u32),
    Const(u32, u32),
    Type(u32, u32),
    Var(u32, u32),
    Procedure(u32, u32),
    Import(u32, u32),
    Module(u32, u32),
    False(u32, u32),
    True(u32, u32),
    Continue(u32, u32),
    Await(u32, u32),
    Async(u32, u32),
    Eof,
}

/// Why no symbol could be read.
#[derive(Clone, Copy, PartialEq, Eq, Debug)]
pub enum LexicalError {
    /// The text ended, or a NUL stood in it, inside a block comment. The
    /// offset is where the search for the end of the comment stopped.
    UnterminatedComment(u32),
    /// The character at the offset begins no symbol.
    UnrecognizedCharacter(u32),
}

/// Whether the result `r` of a reading says what the lexeme `l` is.
pub open spec fn tells(r: Result<Symbols, LexicalError>, l: Lexeme) -> bool {
    match l {
        Lexeme::Token(k) => r == Ok::<Symbols, LexicalError>(k),
        Lexeme::Name(a, b, w) => r matches Ok(Symbols::Ident(x, y, t)) && x == a && y == b && t@
            == w,
        Lexeme::Unterminated(q) => r == Err::<Symbols, LexicalError>(
            LexicalError::UnterminatedComment(q),
        ),
        Lexeme::Unrecognized(p) => r == Err::<Symbols, LexicalError>(
            LexicalError::UnrecognizedCharacter(p),
        ),
    }
}

/// The operations of a scanner, stated over the text it reads, the offset of
/// its cursor and the offset it has marked as the start of a symbol.
pub trait ScannerMethods: Sized {
    /// The characters of the source text.
    spec fn source(&self) -> Seq<char>;

    /// The offset of the cursor.
    spec fn position(&self) -> int;

    /// The offset marked as the start of the symbol being read.
    spec fn mark(&self) -> int;

    /// Whether the scanner is in order; `wf_means` says what that is.
    spec fn wf(&self) -> bool;

    /// A scanner is in order when the mark is not after the cursor, the
    /// cursor is not after the end of the text, and every offset fits in 32
    /// bits.
    proof fn wf_means(&self)
        ensures
            self.wf() <==> 0 <= self.mark() <= self.position() <= self.source().len()
                <= u32::MAX,
    ;

    /// A scanner at the start of `text`.
    fn new(text: &'static str) -> (scanner: Self)
        requires
            text@.len() <= u32::MAX,
        ensures
            scanner.wf(),
            scanner.source() == text@,
            scanner.position() == 0,
            scanner.mark() == 0,
    ;

    /// The character under the cursor, or NUL at the end of the text.
    fn get_char(&mut self) -> (c: char)
        requires
            old(self).wf(),
        ensures
            *final(self) == *old(self),
            c == current(old(self).source(), old(self).position()),
    ;

    /// Moves the cursor one character on; at the end of the text it stays.
    fn next_char(&mut self)
        requires
            old(self).wf(),
        ensures
            final(self).wf(),
            final(self).source() == old(self).source(),
            final(self).mark() == old(self).mark(),
            final(self).position() == if old(self).position() < old(self).source().len() {
                old(self).position() + 1
            } else {
                old(self).position()
            },
    ;

    /// Marks the offset of the cursor as the start of a symbol and returns
    /// it.
    fn start_position(&mut self) -> (start: u32)
        requires
            old(self).wf(),
        ensures
            final(self).wf(),
            final(self).source() == old(self).source(),
            final(self).position() == old(self).position(),
            final(self).mark() == old(self).position(),
            start == old(self).position(),
    ;

    /// Reads the next symbol: passes over blanks and block comments, marks
    /// the start of what follows and reads it, leaving the cursor behind it.
    /// An error leaves the cursor where the reading stopped.
    fn get_symbol(&mut self) -> (r: Result<Symbols, LexicalError>)
        requires
            old(self).wf(),
        ensures
            final(self).wf(),
            final(self).source() == old(self).source(),
            final(self).position() == scan(old(self).source(), old(self).position()).index,
            final(self).mark() == scan(old(self).source(), old(self).position()).start,
            tells(r, scan(old(self).source(), old(self).position()).lexeme),
    ;
}

/// A scanner over a text held in memory.
pub struct Scanner {
    /// The source text, character by character.
    buffer: Vec<char>,
    /// Where the symbol being read starts.
    start_pos: u32,
    /// The cursor: an offset into `buffer`.
    index: u32,
}

/// The symbol that the single character `c` stands for.
fn single_symbol(c: char, a: u32, b: u32) -> (k: Option<Symbols>)
    ensures
        k == single(c, a, b),
{
    if c == ')' {
        Some(Symbols::Rparen(a, b))
    } else if c == '[' {
        Some(Symbols::Lbrak(a, b))
    } else if c == ']' {
        Some(Symbols::Rbrak(a, b))
    } else if c == '{' {
        Some(Symbols::Lbrace(a, b))
    } else if c == '}' {
        Some(Symbols::Rbrace(a, b))
    } else if c == '|' {
        Some(Symbols::Bar(a, b))
    } else if c == '#' {
        Some(Symbols::Neq(a, b))
    } else if c == '&' {
        Some(Symbols::And(a, b))
    } else if c == ',' {
        Some(Symbols::Comma(a, b))
    } else if c == '*' {
        Some(Symbols::Times(a, b))
    } else if c == '-' {
        Some(Symbols::Minus(a, b))
    } else if c == '/' {
        Some(Symbols::Slash(a, b))
    } else if c == ';' {
        Some(Symbols::Semicolon(a, b))
    } else if c == '=' {
        Some(Symbols::Eql(a, b))
    } else if c == '^' {
        Some(Symbols::Arrow(a, b))
    } else if c == '~' {
        Some(Symbols::Not(a, b))
    } else if c == '+' {
        Some(Symbols::Plus(a, b))
    } else if c == '(' {
        Some(Symbols::Lparen(a, b))
    } else if c == ':' {
        Some(Symbols::Colon(a, b))
    } else if c == '<' {
        Some(Symbols::Lss(a, b))
    } else if c == '>' {
        Some(Symbols::Gtr(a, b))
    } else if c == '.' {
        Some(Symbols::Period(a, b))
    } else {
        None
    }
}

/// The symbol that the characters `c`, `d` stand for together.
fn double_symbol(c: char, d: char, a: u32, b: u32) -> (k: Option<Symbols>)
    ensures
        k == double(c, d, a, b),
{
    if c == ':' && d == '=' {
        Some(Symbols::Becomes(a, b))
    } else if c == '<' && d == '=' {
        Some(Symbols::Leq(a, b))
    } else if c == '>' && d == '=' {
        Some(Symbols::Geq(a, b))
    } else if c == '.' && d == '.' {
        Some(Symbols::Upto(a, b))
    } else {
        None
    }
}

impl Scanner {
    /// Moves the cursor over the blanks under it.
    fn skip_blanks(&mut self)
        requires
            old(self).wf(),
        ensures
            final(self).wf(),
            final(self).source() == old(self).source(),
            final(self).mark() == old(self).mark(),
            final(self).position() == blanks_end(old(self).source(), old(self).position()),
    {
        loop
            invariant
                self.wf(),
                self.source() == old(self).source(),
                self.mark() == old(self).mark(),
                blanks_end(self.source(), self.position()) == blanks_end(
                    old(self).source(),
                    old(self).position(),
                ),
            ensures
                self.position() == blanks_end(old(self).source(), old(self).position()),
            decreases self.source().len() - self.position(),
        {
            let c = self.get_char();
            if !blank(c) {
                break ;
            }
            self.next_char();
        }
    }

    /// Moves the cursor over the word characters under it.
    fn skip_word(&mut self)
        requires
            old(self).wf(),
        ensures
            final(self).wf(),
            final(self).source() == old(self).source(),
            final(self).mark() == old(self).mark(),
            final(self).position() == word_end(old(self).source(), old(self).position()),
    {
        loop
            invariant
                self.wf(),
                self.source() == old(self).source(),
                self.mark() == old(self).mark(),
                word_end(self.source(), self.position()) == word_end(
                    old(self).source(),
                    old(self).position(),
                ),
            ensures
                self.position() == word_end(old(self).source(), old(self).position()),
            decreases self.source().len() - self.position(),
        {
            if self.index as usize >= self.buffer.len() {
                break ;
            }
            let c = self.get_char();
            if !word_char(c) {
                break ;
            }
            self.next_char();
        }
    }

    /// With the cursor inside one block comment, moves it to where the
    /// comment ends, and returns how many comments are still open there.
    fn skip_comment(&mut self) -> (depth: u32)
        requires
            old(self).wf(),
            old(self).position() >= 1,
        ensures
            final(self).wf(),
            final(self).source() == old(self).source(),
            final(self).mark() == old(self).mark(),
            (final(self).position(), depth as nat) == comment_end(
                old(self).source(),
                old(self).position(),
                1,
            ),
    {
        let mut depth: u32 = 1;
        loop
            invariant
                self.wf(),
                self.source() == old(self).source(),
                self.mark() == old(self).mark(),
                depth <= self.position(),
                comment_end(self.source(), self.position(), depth as nat) == comment_end(
                    old(self).source(),
                    old(self).position(),
                    1,
                ),
            ensures
                (self.position(), depth as nat) == comment_end(
                    old(self).source(),
                    old(self).position(),
                    1,
                ),
            decreases self.source().len() - self.position(),
        {
            let c = self.get_char();
            if depth == 0 || c == '\0' {
                break ;
            }
            self.next_char();
            let d = self.get_char();
            if c == '*' && d == ')' {
                self.next_char();
                depth = depth - 1;
            } else if c == '(' && d == '*' {
                self.next_char();
                depth = depth + 1;
            }
        }
        depth
    }

    /// Whether the characters from `a` up to `b` spell `word`.
    fn spells(&self, a: u32, b: u32, word: &str) -> (r: bool)
        requires
            self.wf(),
            a <= b <= self.source().len(),
        ensures
            r == (self.source().subrange(a as int, b as int) == word@),
    {
        let n = word.unicode_len();
        if (b - a) as usize != n {
            return false;
        }
        let mut k: usize = 0;
        while k < n
            invariant
                self.wf(),
                a <= b <= self.source().len(),
                n == b - a,
                n == word@.len(),
                k <= n,
                self.source().subrange(a as int, a + k) == word@.subrange(0, k as int),
            decreases n - k,
        {
            if self.buffer[a as usize + k] != word.get_char(k) {
                assert(self.source().subrange(a as int, b as int)[k as int] != word@[k as int]);
                return false;
            }
            assert(self.source().subrange(a as int, a + k + 1) == word@.subrange(0, k + 1)) by {
                assert(self.source().subrange(a as int, a + k + 1) =~= self.source().subrange(
                    a as int,
                    a + k,
                ).push(self.source()[a + k]));
                assert(word@.subrange(0, k + 1) =~= word@.subrange(0, k as int).push(
                    word@[k as int],
                ));
            }
            k = k + 1;
        }
        assert(word@.subrange(0, n as int) =~= word@);
        true
    }

    /// The reserved word that the characters from `a` up to `b` spell.
    fn reserved(&self, a: u32, b: u32) -> (k: Option<Symbols>)
        requires
            self.wf(),
            a <= b <= self.source().len(),
        ensures
            k == keyword(self.source().subrange(a as int, b as int), a, b),
    {
        if self.spells(a, b, "array") {
            Some(Symbols::Array(a, b))
        } else if self.spells(a, b, "async") {
            Some(Symbols::Async(a, b))
        } else if self.spells(a, b, "await") {
            Some(Symbols::Await(a, b))
        } else if self.spells(a, b, "begin") {
            Some(Symbols::Begin(a, b))
        } else if self.spells(a, b, "by") {
            Some(Symbols::By(a, b))
        } else if self.spells(a, b, "case") {
            Some(Symbols::Case(a, b))
        } else if self.spells(a, b, "const") {
            Some(Symbols::Const(a, b))
        } else if self.spells(a, b, "continue") {
            Some(Symbols::Continue(a, b))
        } else if self.spells(a, b, "div") {
            Some(Symbols::Div(a, b))
        } else if self.spells(a, b, "do") {
            Some(Symbols::Do(a, b))
        } else if self.spells(a, b, "else") {
            Some(Symbols::Else(a, b))
        } else if self.spells(a, b, "elsif") {
            Some(Symbols::Elsif(a, b))
        } else if self.spells(a, b, "end") {
            Some(Symbols::End(a, b))
        } else if self.spells(a, b, "exit") {
            Some(Symbols::Exit(a, b))
        } else if self.spells(a, b, "false") {
            Some(Symbols::False(a, b))
        } else if self.spells(a, b, "for") {
            Some(Symbols::For(a, b))
        } else if self.spells(a, b, "if") {
            Some(Symbols::If(a, b))
        } else if self.spells(a, b, "import") {
            Some(Symbols::Import(a, b))
        } else if self.spells(a, b, "in") {
            Some(Symbols::In(a, b))
        } else if self.spells(a, b, "is") {
            Some(Symbols::Is(a, b))
        } else if self.spells(a, b, "loop") {
            Some(Symbols::Loop(a, b))
        } else if self.spells(a, b, "mod") {
            Some(Symbols::Mod(a, b))
        } else if self.spells(a, b, "module") {
            Some(Symbols::Module(a, b))
        } else if self.spells(a, b, "nil") {
            Some(Symbols::Nil(a, b))
        } else if self.spells(a, b, "of") {
            Some(Symbols::Of(a, b))
        } else if self.spells(a, b, "or") {
            Some(Symbols::Or(a, b))
        } else if self.spells(a, b, "pointer") {
            Some(Symbols::Pointer(a, b))
        } else if self.spells(a, b, "procedure") {
            Some(Symbols::Procedure(a, b))
        } else if self.spells(a, b, "record") {
            Some(Symbols::Record(a, b))
        } else if self.spells(a, b, "repeat") {
            Some(Symbols::Repeat(a, b))
        } else if self.spells(a, b, "return") {
            Some(Symbols::Return(a, b))
        } else if self.spells(a, b, "then") {
            Some(Symbols::Then(a, b))
        } else if self.spells(a, b, "to") {
            Some(Symbols::To(a, b))
        } else if self.spells(a, b, "true") {
            Some(Symbols::True(a, b))
        } else if self.spells(a, b, "type") {
            Some(Symbols::Type(a, b))
        } else if self.spells(a, b, "until") {
            Some(Symbols::Until(a, b))
        } else if self.spells(a, b, "var") {
            Some(Symbols::Var(a, b))
        } else if self.spells(a, b, "while") {
            Some(Symbols::While(a, b))
        } else if self.spells(a, b, "with") {
            Some(Symbols::With(a, b))
        } else {
            None
        }
    }

    /// The characters from `a` up to `b`, as a string.
    fn text(&self, a: u32, b: u32) -> (t: std::string::String)
        requires
            self.wf(),
            a <= b <= self.source().len(),
        ensures
            t@ == self.source().subrange(a as int, b as int),
    {
        let mut t = std::string::String::new();
        let mut k: u32 = a;
        while k < b
            invariant
                self.wf(),
                a <= k <= b <= self.source().len(),
                t@ == self.source().subrange(a as int, k as int),
            decreases b - k,
        {
            t.push(self.buffer[k as usize]);
            assert(self.source().subrange(a as int, k + 1) =~= self.source().subrange(
                a as int,
                k as int,
            ).push(self.source()[k as int]));
            k = k + 1;
        }
        t
    }
}

impl ScannerMethods for Scanner {
    closed spec fn source(&self) -> Seq<char> {
        self.buffer@
    }

    closed spec fn position(&self) -> int {
        self.index as int
    }

    closed spec fn mark(&self) -> int {
        self.start_pos as int
    }

    closed spec fn wf(&self) -> bool {
        self.start_pos <= self.index <= self.buffer@.len() <= u32::MAX
    }

    proof fn wf_means(&self) {
    }

    fn new(text: &'static str) -> (scanner: Self) {
        let mut buffer: Vec<char> = Vec::new();
        let mut chars = text.chars();
        loop
            invariant
                buffer@ + chars.remaining() == text@,
                chars.obeys_prophetic_iter_laws(),
                chars.decrease() is Some,
            ensures
                buffer@ == text@,
            decreases chars.decrease()->0,
        {
            match chars.next() {
                Some(c) => {
                    buffer.push(c);
                },
                None => {
                    break ;
                },
            }
        }
        Scanner { buffer, start_pos: 0, index: 0 }
    }

    fn get_char(&mut self) -> (c: char) {
        if (self.index as usize) < self.buffer.len() {
            self.buffer[self.index as usize]
        } else {
            '\0'
        }
    }

    fn next_char(&mut self) {
        if (self.index as usize) < self.buffer.len() {
            self.index = self.index + 1;
        }
    }

    fn start_position(&mut self) -> (start: u32) {
        self.start_pos = self.index;
        self.start_pos
    }

    fn get_symbol(&mut self) -> (r: Result<Symbols, LexicalError>) {
        loop
            invariant
                self.wf(),
                self.source() == old(self).source(),
                scan(self.source(), self.position()) == scan(
                    old(self).source(),
                    old(self).position(),
                ),
            decreases self.source().len() - self.position(),
        {
            let ghost from = self.position();
            self.skip_blanks();
            let a = self.start_position();
            let c = self.get_char();
            proof {
                // Neither blanks nor a comment move the cursor back, so a
                // closed comment leaves less text to read.
                lemma_blanks_end(self.source(), from);
                lemma_comment_end(self.source(), a + 2, 1);
            }
            if c == '\0' {
                return Ok(Symbols::Eof);
            }
            if word_start(c) {
                self.skip_word();
                let b = self.index;
                return match self.reserved(a, b) {
                    Some(k) => Ok(k),
                    None => Ok(Symbols::Ident(a, b, Box::new(self.text(a, b)))),
                };
            }
            match single_symbol(c, a, a + 1) {
                None => {
                    return Err(LexicalError::UnrecognizedCharacter(a));
                },
                Some(one) => {
                    self.next_char();
                    let d = self.get_char();
                    if c == '(' && d == '*' {
                        self.next_char();
                        let depth = self.skip_comment();
                        if depth > 0 {
                            return Err(LexicalError::UnterminatedComment(self.index));
                        }
                    } else if d == '\0' {
                        return Ok(one);
                    } else {
                        return match double_symbol(c, d, a, a + 2) {
                            Some(two) => {
                                self.next_char();
                                Ok(two)
                            },
                            None => Ok(one),
                        };
                    }
                },
            }
        }
    }
}

} // verus!
