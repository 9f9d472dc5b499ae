//! What holds of every reading, proved from the grammar.

use vstd::prelude::*;
use crate::grammar::{
    blanks_end, comment_end, comment_opens, keyword, lemma_blanks_end, lemma_comment_end,
    lemma_word_end, lexeme_at, scan, single, word_end, Lexeme, Step,
};
use crate::scanner::Symbols;
use crate::text::{current, is_blank, is_word_char, is_word_start};

verus! {

/// A word character run: from `i` up to `e` every character is a word
/// character, and the run ends at `e`.
proof fn lemma_word_run(s: Seq<char>, i: int, e: int)
    requires
        0 <= i <= e <= s.len(),
        forall|k: int| i <= k < e ==> is_word_char(#[trigger] s[k]),
        e < s.len() ==> !is_word_char(s[e]),
    ensures
        word_end(s, i) == e,
    decreases e - i,
{
    if i < e {
        lemma_word_run(s, i + 1, e);
    }
}

/// Every reserved word is made of lower-case ASCII letters and begins with a
/// letter that starts a word.
proof fn lemma_keyword_letters(w: Seq<char>, a: u32, b: u32)
    requires
        keyword(w, a, b) is Some,
    ensures
        w.len() > 0,
        is_word_start(w[0]),
        forall|k: int| 0 <= k < w.len() ==> 'a' <= #[trigger] w[k] <= 'z',
{
    reveal_strlit("array");
    reveal_strlit("async");
    reveal_strlit("await");
    reveal_strlit("begin");
    reveal_strlit("by");
    reveal_strlit("case");
    reveal_strlit("const");
    reveal_strlit("continue");
    reveal_strlit("div");
    reveal_strlit("do");
    reveal_strlit("else");
    reveal_strlit("elsif");
    reveal_strlit("end");
    reveal_strlit("exit");
    reveal_strlit("false");
    reveal_strlit("for");
    reveal_strlit("if");
    reveal_strlit("import");
    reveal_strlit("in");
    reveal_strlit("is");
    reveal_strlit("loop");
    reveal_strlit("mod");
    reveal_strlit("module");
    reveal_strlit("nil");
    reveal_strlit("of");
    reveal_strlit("or");
    reveal_strlit("pointer");
    reveal_strlit("procedure");
    reveal_strlit("record");
    reveal_strlit("repeat");
    reveal_strlit("return");
    reveal_strlit("then");
    reveal_strlit("to");
    reveal_strlit("true");
    reveal_strlit("type");
    reveal_strlit("until");
    reveal_strlit("var");
    reveal_strlit("while");
    reveal_strlit("with");
}

/// A text of one punctuation character reads as that symbol, with the span
/// from 0 to 1, and the cursor is left behind it.
pub proof fn single_character(c: char)
    requires
        single(c, 0, 1) is Some,
    ensures
        scan(seq![c], 0) == (Step {
            lexeme: Lexeme::Token(single(c, 0, 1)->0),
            start: 0,
            index: 1,
        }),
{
    let s = seq![c];
    assert(s[0] == c);
    assert(blanks_end(s, 0) == 0);
}

/// Where a colon stands, the reading is `Becomes` over two characters if
/// `=` follows, and `Colon` over one character otherwise.
pub proof fn colon_or_becomes(s: Seq<char>, p: int)
    requires
        0 <= p < s.len(),
        s[p] == ':',
    ensures
        scan(s, p) == if current(s, p + 1) == '=' {
            Step {
                lexeme: Lexeme::Token(Symbols::Becomes(p as u32, (p + 2) as u32)),
                start: p,
                index: p + 2,
            }
        } else {
            Step {
                lexeme: Lexeme::Token(Symbols::Colon(p as u32, (p + 1) as u32)),
                start: p,
                index: p + 1,
            }
        },
{
}

/// Where `<` stands, the reading is `Leq` over two characters if `=`
/// follows, and `Lss` over one character otherwise.
pub proof fn less_or_leq(s: Seq<char>, p: int)
    requires
        0 <= p < s.len(),
        s[p] == '<',
    ensures
        scan(s, p) == if current(s, p + 1) == '=' {
            Step {
                lexeme: Lexeme::Token(Symbols::Leq(p as u32, (p + 2) as u32)),
                start: p,
                index: p + 2,
            }
        } else {
            Step {
                lexeme: Lexeme::Token(Symbols::Lss(p as u32, (p + 1) as u32)),
                start: p,
                index: p + 1,
            }
        },
{
}

/// Where `>` stands, the reading is `Geq` over two characters if `=`
/// follows, and `Gtr` over one character otherwise.
pub proof fn greater_or_geq(s: Seq<char>, p: int)
    requires
        0 <= p < s.len(),
        s[p] == '>',
    ensures
        scan(s, p) == if current(s, p + 1) == '=' {
            Step {
                lexeme: Lexeme::Token(Symbols::Geq(p as u32, (p + 2) as u32)),
                start: p,
                index: p + 2,
            }
        } else {
            Step {
                lexeme: Lexeme::Token(Symbols::Gtr(p as u32, (p + 1) as u32)),
                start: p,
                index: p + 1,
            }
        },
{
}

/// Where a period stands, the reading is `Upto` over two characters if a
/// second period follows, and `Period` over one character otherwise.
pub proof fn period_or_upto(s: Seq<char>, p: int)
    requires
        0 <= p < s.len(),
        s[p] == '.',
    ensures
        scan(s, p) == if current(s, p + 1) == '.' {
            Step {
                lexeme: Lexeme::Token(Symbols::Upto(p as u32, (p + 2) as u32)),
                start: p,
                index: p + 2,
            }
        } else {
            Step {
                lexeme: Lexeme::Token(Symbols::Period(p as u32, (p + 1) as u32)),
                start: p,
                index: p + 1,
            }
        },
{
}

/// The reserved words: each spelling stands for its own symbol, none for
/// another's.
pub proof fn reserved_words(a: u32, b: u32)
    ensures
        keyword("array"@, a, b) == Some(Symbols::Array(a, b)),
        keyword("async"@, a, b) == Some(Symbols::Async(a, b)),
        keyword("await"@, a, b) == Some(Symbols::Await(a, b)),
        keyword("begin"@, a, b) == Some(Symbols::Begin(a, b)),
        keyword("by"@, a, b) == Some(Symbols::By(a, b)),
        keyword("case"@, a, b) == Some(Symbols::Case(a, b)),
        keyword("const"@, a, b) == Some(Symbols::Const(a, b)),
        keyword("continue"@, a, b) == Some(Symbols::Continue(a, b)),
        keyword("div"@, a, b) == Some(Symbols::Div(a, b)),
        keyword("do"@, a, b) == Some(Symbols::Do(a, b)),
        keyword("else"@, a, b) == Some(Symbols::Else(a, b)),
        keyword("elsif"@, a, b) == Some(Symbols::Elsif(a, b)),
        keyword("end"@, a, b) == Some(Symbols::End(a, b)),
        keyword("exit"@, a, b) == Some(Symbols::Exit(a, b)),
        keyword("false"@, a, b) == Some(Symbols::False(a, b)),
        keyword("for"@, a, b) == Some(Symbols::For(a, b)),
        keyword("if"@, a, b) == Some(Symbols::If(a, b)),
        keyword("import"@, a, b) == Some(Symbols::Import(a, b)),
        keyword("in"@, a, b) == Some(Symbols::In(a, b)),
        keyword("is"@, a, b) == Some(Symbols::Is(a, b)),
        keyword("loop"@, a, b) == Some(Symbols::Loop(a, b)),
        keyword("mod"@, a, b) == Some(Symbols::Mod(a, b)),
        keyword("module"@, a, b) == Some(Symbols::Module(a, b)),
        keyword("nil"@, a, b) == Some(Symbols::Nil(a, b)),
        keyword("of"@, a, b) == Some(Symbols::Of(a, b)),
        keyword("or"@, a, b) == Some(Symbols::Or(a, b)),
        keyword("pointer"@, a, b) == Some(Symbols::Pointer(a, b)),
        keyword("procedure"@, a, b) == Some(Symbols::Procedure(a, b)),
        keyword("record"@, a, b) == Some(Symbols::Record(a, b)),
        keyword("repeat"@, a, b) == Some(Symbols::Repeat(a, b)),
        keyword("return"@, a, b) == Some(Symbols::Return(a, b)),
        keyword("then"@, a, b) == Some(Symbols::Then(a, b)),
        keyword("to"@, a, b) == Some(Symbols::To(a, b)),
        keyword("true"@, a, b) == Some(Symbols::True(a, b)),
        keyword("type"@, a, b) == Some(Symbols::Type(a, b)),
        keyword("until"@, a, b) == Some(Symbols::Until(a, b)),
        keyword("var"@, a, b) == Some(Symbols::Var(a, b)),
        keyword("while"@, a, b) == Some(Symbols::While(a, b)),
        keyword("with"@, a, b) == Some(Symbols::With(a, b)),
{
    reveal_strlit("array");
    assert("array"@ =~= seq!['a', 'r', 'r', 'a', 'y']);
    reveal_strlit("async");
    assert("async"@ =~= seq!['a', 's', 'y', 'n', 'c']);
    reveal_strlit("await");
    assert("await"@ =~= seq!['a', 'w', 'a', 'i', 't']);
    reveal_strlit("begin");
    assert("begin"@ =~= seq!['b', 'e', 'g', 'i', 'n']);
    reveal_strlit("by");
    assert("by"@ =~= seq!['b', 'y']);
    reveal_strlit("case");
    assert("case"@ =~= seq!['c', 'a', 's', 'e']);
    reveal_strlit("const");
    assert("const"@ =~= seq!['c', 'o', 'n', 's', 't']);
    reveal_strlit("continue");
    assert("continue"@ =~= seq!['c', 'o', 'n', 't', 'i', 'n', 'u', 'e']);
    reveal_strlit("div");
    assert("div"@ =~= seq!['d', 'i', 'v']);
    reveal_strlit("do");
    assert("do"@ =~= seq!['d', 'o']);
    reveal_strlit("else");
    assert("else"@ =~= seq!['e', 'l', 's', 'e']);
    reveal_strlit("elsif");
    assert("elsif"@ =~= seq!['e', 'l', 's', 'i', 'f']);
    reveal_strlit("end");
    assert("end"@ =~= seq!['e', 'n', 'd']);
    reveal_strlit("exit");
    assert("exit"@ =~= seq!['e', 'x', 'i', 't']);
    reveal_strlit("false");
    assert("false"@ =~= seq!['f', 'a', 'l', 's', 'e']);
    reveal_strlit("for");
    assert("for"@ =~= seq!['f', 'o', 'r']);
    reveal_strlit("if");
    assert("if"@ =~= seq!['i', 'f']);
    reveal_strlit("import");
    assert("import"@ =~= seq!['i', 'm', 'p', 'o', 'r', 't']);
    reveal_strlit("in");
    assert("in"@ =~= seq!['i', 'n']);
    reveal_strlit("is");
    assert("is"@ =~= seq!['i', 's']);
    reveal_strlit("loop");
    assert("loop"@ =~= seq!['l', 'o', 'o', 'p']);
    reveal_strlit("mod");
    assert("mod"@ =~= seq!['m', 'o', 'd']);
    reveal_strlit("module");
    assert("module"@ =~= seq!['m', 'o', 'd', 'u', 'l', 'e']);
    reveal_strlit("nil");
    assert("nil"@ =~= seq!['n', 'i', 'l']);
    reveal_strlit("of");
    assert("of"@ =~= seq!['o', 'f']);
    reveal_strlit("or");
    assert("or"@ =~= seq!['o', 'r']);
    reveal_strlit("pointer");
    assert("pointer"@ =~= seq!['p', 'o', 'i', 'n', 't', 'e', 'r']);
    reveal_strlit("procedure");
    assert("procedure"@ =~= seq!['p', 'r', 'o', 'c', 'e', 'd', 'u', 'r', 'e']);
    reveal_strlit("record");
    assert("record"@ =~= seq!['r', 'e', 'c', 'o', 'r', 'd']);
    reveal_strlit("repeat");
    assert("repeat"@ =~= seq!['r', 'e', 'p', 'e', 'a', 't']);
    reveal_strlit("return");
    assert("return"@ =~= seq!['r', 'e', 't', 'u', 'r', 'n']);
    reveal_strlit("then");
    assert("then"@ =~= seq!['t', 'h', 'e', 'n']);
    reveal_strlit("to");
    assert("to"@ =~= seq!['t', 'o']);
    reveal_strlit("true");
    assert("true"@ =~= seq!['t', 'r', 'u', 'e']);
    reveal_strlit("type");
    assert("type"@ =~= seq!['t', 'y', 'p', 'e']);
    reveal_strlit("until");
    assert("until"@ =~= seq!['u', 'n', 't', 'i', 'l']);
    reveal_strlit("var");
    assert("var"@ =~= seq!['v', 'a', 'r']);
    reveal_strlit("while");
    assert("while"@ =~= seq!['w', 'h', 'i', 'l', 'e']);
    reveal_strlit("with");
    assert("with"@ =~= seq!['w', 'i', 't', 'h']);
}

/// A text that is exactly a reserved word reads as that word's symbol, with
/// the span of the whole text.
pub proof fn keyword_alone(w: Seq<char>)
    requires
        keyword(w, 0, w.len() as u32) is Some,
    ensures
        scan(w, 0) == (Step {
            lexeme: Lexeme::Token(keyword(w, 0, w.len() as u32)->0),
            start: 0,
            index: w.len() as int,
        }),
{
    lemma_keyword_letters(w, 0, w.len() as u32);
    lemma_word_run(w, 0, w.len() as int);
    assert(w.subrange(0, w.len() as int) =~= w);
}

/// A text that is one word, begins with a letter that starts a word and
/// spells no reserved word reads as a name with exactly that text, with the
/// span of the whole text.
pub proof fn name_alone(w: Seq<char>)
    requires
        w.len() > 0,
        is_word_start(w[0]),
        forall|k: int| 0 <= k < w.len() ==> is_word_char(#[trigger] w[k]),
        keyword(w, 0, w.len() as u32) is None,
    ensures
        scan(w, 0) == (Step {
            lexeme: Lexeme::Name(0, w.len() as u32, w),
            start: 0,
            index: w.len() as int,
        }),
{
    lemma_word_run(w, 0, w.len() as int);
    assert(w.subrange(0, w.len() as int) =~= w);
}

/// A text of one character that is no blank, no punctuation and no letter
/// that starts a word reads as an error at offset 0, and nothing is
/// consumed.
pub proof fn unrecognized_alone(c: char)
    requires
        c != '\0',
        !is_blank(c),
        single(c, 0, 1) is None,
        !is_word_start(c),
    ensures
        scan(seq![c], 0) == (Step { lexeme: Lexeme::Unrecognized(0), start: 0, index: 0 }),
{
    let s = seq![c];
    assert(s[0] == c);
    assert(blanks_end(s, 0) == 0);
}

/// Blanks before a symbol do not change the reading.
pub proof fn blanks_are_transparent(s: Seq<char>, i: int)
    ensures
        scan(s, i) == scan(s, blanks_end(s, i)),
{
    lemma_blanks_end(s, i);
}

/// A block comment that closes does not change the reading: reading where
/// it opens gives what reading behind its end gives.
pub proof fn closed_comment_is_transparent(s: Seq<char>, p: int)
    requires
        comment_opens(s, p),
        comment_end(s, p + 2, 1).1 == 0,
    ensures
        scan(s, p) == scan(s, comment_end(s, p + 2, 1).0),
{
}

/// A block comment that does not close is an error: the reading where it
/// opens is `Unterminated`, with the mark where the comment opens and the
/// cursor where the text ends.
pub proof fn open_comment_is_an_error(s: Seq<char>, p: int)
    requires
        comment_opens(s, p),
        comment_end(s, p + 2, 1).1 > 0,
    ensures
        scan(s, p) == (Step {
            lexeme: Lexeme::Unterminated(comment_end(s, p + 2, 1).0 as u32),
            start: p,
            index: comment_end(s, p + 2, 1).0,
        }),
        current(s, scan(s, p).index) == '\0',
{
    lemma_comment_end(s, p + 2, 1);
}

/// At the end of a text, and so in an empty text, the reading is `Eof`.
pub proof fn end_of_text(s: Seq<char>)
    ensures
        scan(s, s.len() as int) == (Step {
            lexeme: Lexeme::Token(Symbols::Eof),
            start: s.len() as int,
            index: s.len() as int,
        }),
{
}

/// Once a reading is `Eof`, reading again from where the cursor was left
/// gives the same: `Eof`, with the cursor and the mark where they were.
pub proof fn eof_repeats(s: Seq<char>, i: int)
    requires
        scan(s, i).lexeme == Lexeme::Token(Symbols::Eof),
    ensures
        scan(s, scan(s, i).index) == scan(s, i),
        scan(s, i).start == scan(s, i).index,
    decreases s.len() - i,
{
    let p = blanks_end(s, i);
    lemma_blanks_end(s, i);
    if comment_opens(s, p) {
        let (q, depth) = comment_end(s, p + 2, 1);
        lemma_comment_end(s, p + 2, 1);
        if depth == 0 {
            eof_repeats(s, q);
        }
    } else {
        lemma_token_not_eof(s, p);
    }
}

/// Only at the end of the text is the lexeme at an offset `Eof`.
proof fn lemma_token_not_eof(s: Seq<char>, p: int)
    ensures
        lexeme_at(s, p).lexeme == Lexeme::Token(Symbols::Eof) ==> current(s, p) == '\0',
{
}

/// A reading from inside the text never moves back and never leaves the
/// text: the symbol starts at or after the offset the reading began at, the
/// cursor is left at or after its start, and not after the end of the text.
/// Every symbol but `Eof` takes at least one character, and a name never
/// spells a reserved word.
pub proof fn reading_advances(s: Seq<char>, i: int)
    requires
        0 <= i <= s.len(),
    ensures
        i <= scan(s, i).start <= scan(s, i).index <= s.len(),
        scan(s, i).lexeme is Token && scan(s, i).lexeme != Lexeme::Token(Symbols::Eof)
            ==> scan(s, i).start < scan(s, i).index,
        scan(s, i).lexeme matches Lexeme::Name(a, b, w) ==> scan(s, i).start < scan(s, i).index
            && keyword(w, a, b) is None && w == s.subrange(
            scan(s, i).start,
            scan(s, i).index,
        ),
    decreases s.len() - i,
{
    let p = blanks_end(s, i);
    lemma_blanks_end(s, i);
    if comment_opens(s, p) {
        let (q, depth) = comment_end(s, p + 2, 1);
        lemma_comment_end(s, p + 2, 1);
        if depth == 0 {
            reading_advances(s, q);
        }
    } else {
        lemma_word_end(s, p);
    }
}

} // verus!
