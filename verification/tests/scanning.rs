use simba::scanner::{LexicalError, Scanner, ScannerMethods, Symbols};

fn first(text: &'static str) -> Result<Symbols, LexicalError> {
    Scanner::new(text).get_symbol()
}

fn all(text: &'static str) -> Vec<Result<Symbols, LexicalError>> {
    let mut scanner = Scanner::new(text);
    let mut found = Vec::new();
    loop {
        let r = scanner.get_symbol();
        let stop = matches!(r, Ok(Symbols::Eof) | Err(_));
        found.push(r);
        if stop {
            return found;
        }
    }
}

fn ident(a: u32, b: u32, text: &str) -> Symbols {
    Symbols::Ident(a, b, Box::new(text.to_string()))
}

#[test]
fn every_punctuation_character_alone() {
    assert_eq!(first(")"), Ok(Symbols::Rparen(0, 1)));
    assert_eq!(first("["), Ok(Symbols::Lbrak(0, 1)));
    assert_eq!(first("]"), Ok(Symbols::Rbrak(0, 1)));
    assert_eq!(first("{"), Ok(Symbols::Lbrace(0, 1)));
    assert_eq!(first("}"), Ok(Symbols::Rbrace(0, 1)));
    assert_eq!(first("|"), Ok(Symbols::Bar(0, 1)));
    assert_eq!(first("#"), Ok(Symbols::Neq(0, 1)));
    assert_eq!(first("&"), Ok(Symbols::And(0, 1)));
    assert_eq!(first(","), Ok(Symbols::Comma(0, 1)));
    assert_eq!(first("*"), Ok(Symbols::Times(0, 1)));
    assert_eq!(first("-"), Ok(Symbols::Minus(0, 1)));
    assert_eq!(first("/"), Ok(Symbols::Slash(0, 1)));
    assert_eq!(first(";"), Ok(Symbols::Semicolon(0, 1)));
    assert_eq!(first("="), Ok(Symbols::Eql(0, 1)));
    assert_eq!(first("^"), Ok(Symbols::Arrow(0, 1)));
    assert_eq!(first("~"), Ok(Symbols::Not(0, 1)));
    assert_eq!(first("+"), Ok(Symbols::Plus(0, 1)));
    assert_eq!(first("("), Ok(Symbols::Lparen(0, 1)));
    assert_eq!(first(":"), Ok(Symbols::Colon(0, 1)));
    assert_eq!(first("<"), Ok(Symbols::Lss(0, 1)));
    assert_eq!(first(">"), Ok(Symbols::Gtr(0, 1)));
    assert_eq!(first("."), Ok(Symbols::Period(0, 1)));
}

#[test]
fn punctuation_leaves_the_cursor_behind_it() {
    let mut scanner = Scanner::new("+");
    assert_eq!(scanner.get_symbol(), Ok(Symbols::Plus(0, 1)));
    assert_eq!(scanner.get_char(), '\0');
    assert_eq!(scanner.get_symbol(), Ok(Symbols::Eof));
}

#[test]
fn colon_and_becomes() {
    assert_eq!(first(":"), Ok(Symbols::Colon(0, 1)));
    assert_eq!(first(":="), Ok(Symbols::Becomes(0, 2)));
    assert_eq!(
        all(":a"),
        vec![Ok(Symbols::Colon(0, 1)), Ok(ident(1, 2, "a")), Ok(Symbols::Eof)]
    );
    assert_eq!(
        all("::="),
        vec![Ok(Symbols::Colon(0, 1)), Ok(Symbols::Becomes(1, 3)), Ok(Symbols::Eof)]
    );
}

#[test]
fn relations_and_periods() {
    assert_eq!(first("<"), Ok(Symbols::Lss(0, 1)));
    assert_eq!(first("<="), Ok(Symbols::Leq(0, 2)));
    assert_eq!(first(">"), Ok(Symbols::Gtr(0, 1)));
    assert_eq!(first(">="), Ok(Symbols::Geq(0, 2)));
    assert_eq!(first("."), Ok(Symbols::Period(0, 1)));
    assert_eq!(first(".."), Ok(Symbols::Upto(0, 2)));
    assert_eq!(
        all("<>"),
        vec![Ok(Symbols::Lss(0, 1)), Ok(Symbols::Gtr(1, 2)), Ok(Symbols::Eof)]
    );
    assert_eq!(
        all("..."),
        vec![Ok(Symbols::Upto(0, 2)), Ok(Symbols::Period(2, 3)), Ok(Symbols::Eof)]
    );
    assert_eq!(
        all("=<"),
        vec![Ok(Symbols::Eql(0, 1)), Ok(Symbols::Lss(1, 2)), Ok(Symbols::Eof)]
    );
}

#[test]
fn every_reserved_word_alone() {
    assert_eq!(first("array"), Ok(Symbols::Array(0, 5)));
    assert_eq!(first("async"), Ok(Symbols::Async(0, 5)));
    assert_eq!(first("await"), Ok(Symbols::Await(0, 5)));
    assert_eq!(first("begin"), Ok(Symbols::Begin(0, 5)));
    assert_eq!(first("by"), Ok(Symbols::By(0, 2)));
    assert_eq!(first("case"), Ok(Symbols::Case(0, 4)));
    assert_eq!(first("const"), Ok(Symbols::Const(0, 5)));
    assert_eq!(first("continue"), Ok(Symbols::Continue(0, 8)));
    assert_eq!(first("div"), Ok(Symbols::Div(0, 3)));
    assert_eq!(first("do"), Ok(Symbols::Do(0, 2)));
    assert_eq!(first("else"), Ok(Symbols::Else(0, 4)));
    assert_eq!(first("elsif"), Ok(Symbols::Elsif(0, 5)));
    assert_eq!(first("end"), Ok(Symbols::End(0, 3)));
    assert_eq!(first("exit"), Ok(Symbols::Exit(0, 4)));
    assert_eq!(first("false"), Ok(Symbols::False(0, 5)));
    assert_eq!(first("for"), Ok(Symbols::For(0, 3)));
    assert_eq!(first("if"), Ok(Symbols::If(0, 2)));
    assert_eq!(first("import"), Ok(Symbols::Import(0, 6)));
    assert_eq!(first("in"), Ok(Symbols::In(0, 2)));
    assert_eq!(first("is"), Ok(Symbols::Is(0, 2)));
    assert_eq!(first("loop"), Ok(Symbols::Loop(0, 4)));
    assert_eq!(first("mod"), Ok(Symbols::Mod(0, 3)));
    assert_eq!(first("module"), Ok(Symbols::Module(0, 6)));
    assert_eq!(first("nil"), Ok(Symbols::Nil(0, 3)));
    assert_eq!(first("of"), Ok(Symbols::Of(0, 2)));
    assert_eq!(first("or"), Ok(Symbols::Or(0, 2)));
    assert_eq!(first("pointer"), Ok(Symbols::Pointer(0, 7)));
    assert_eq!(first("procedure"), Ok(Symbols::Procedure(0, 9)));
    assert_eq!(first("record"), Ok(Symbols::Record(0, 6)));
    assert_eq!(first("repeat"), Ok(Symbols::Repeat(0, 6)));
    assert_eq!(first("return"), Ok(Symbols::Return(0, 6)));
    assert_eq!(first("then"), Ok(Symbols::Then(0, 4)));
    assert_eq!(first("to"), Ok(Symbols::To(0, 2)));
    assert_eq!(first("true"), Ok(Symbols::True(0, 4)));
    assert_eq!(first("type"), Ok(Symbols::Type(0, 4)));
    assert_eq!(first("until"), Ok(Symbols::Until(0, 5)));
    assert_eq!(first("var"), Ok(Symbols::Var(0, 3)));
    assert_eq!(first("while"), Ok(Symbols::While(0, 5)));
    assert_eq!(first("with"), Ok(Symbols::With(0, 4)));
}

#[test]
fn reserved_word_is_followed_by_eof() {
    assert_eq!(all("procedure"), vec![Ok(Symbols::Procedure(0, 9)), Ok(Symbols::Eof)]);
}

#[test]
fn names() {
    assert_eq!(first("foobar"), Ok(ident(0, 6, "foobar")));
    assert_eq!(first("arrays"), Ok(ident(0, 6, "arrays")));
    assert_eq!(first("en"), Ok(ident(0, 2, "en")));
    assert_eq!(first("a"), Ok(ident(0, 1, "a")));
    assert_eq!(first("lo"), Ok(ident(0, 2, "lo")));
    assert_eq!(first("modUle"), Ok(ident(0, 6, "modUle")));
}

#[test]
fn names_hold_letters_digits_and_underscores() {
    assert_eq!(
        all("foo_bar1+"),
        vec![Ok(ident(0, 8, "foo_bar1")), Ok(Symbols::Plus(8, 9)), Ok(Symbols::Eof)]
    );
    assert_eq!(first("end_"), Ok(ident(0, 4, "end_")));
    assert_eq!(first("to2"), Ok(ident(0, 3, "to2")));
    assert_eq!(first("a-b"), Ok(ident(0, 1, "a")));
}

#[test]
fn names_hold_letters_beyond_ascii() {
    assert_eq!(first("et\u{e9}"), Ok(ident(0, 3, "et\u{e9}")));
    assert_eq!(first("n\u{663}"), Ok(ident(0, 2, "n\u{663}")));
    assert_eq!(
        all("a\u{2014}"),
        vec![Ok(ident(0, 1, "a")), Err(LexicalError::UnrecognizedCharacter(1))]
    );
}

#[test]
fn comment_before_a_reserved_word() {
    assert_eq!(all("(* comment *)end"), vec![Ok(Symbols::End(13, 16)), Ok(Symbols::Eof)]);
    assert_eq!(all("(* comment *) end"), vec![Ok(Symbols::End(14, 17)), Ok(Symbols::Eof)]);
    assert_eq!(
        all("  (* one *)\n\t(* two *)  end"),
        vec![Ok(Symbols::End(24, 27)), Ok(Symbols::Eof)]
    );
}

#[test]
fn nested_comment_is_one_skip() {
    assert_eq!(
        all("(* outer (* inner *) still-outer *);"),
        vec![Ok(Symbols::Semicolon(35, 36)), Ok(Symbols::Eof)]
    );
    assert_eq!(all("(* outer (* inner *) still-outer *)"), vec![Ok(Symbols::Eof)]);
    assert_eq!(all("(*(*(**)*)*)by"), vec![Ok(Symbols::By(12, 14)), Ok(Symbols::Eof)]);
}

#[test]
fn comment_closes_after_a_run_of_stars() {
    assert_eq!(all("(* a **) end"), vec![Ok(Symbols::End(9, 12)), Ok(Symbols::Eof)]);
    assert_eq!(all("(***)+"), vec![Ok(Symbols::Plus(5, 6)), Ok(Symbols::Eof)]);
    assert_eq!(all("(* ((* *) *)+"), vec![Ok(Symbols::Plus(12, 13)), Ok(Symbols::Eof)]);
}

#[test]
fn unterminated_comment() {
    assert_eq!(first("(* never closes"), Err(LexicalError::UnterminatedComment(15)));
    assert_eq!(first("(*"), Err(LexicalError::UnterminatedComment(2)));
    assert_eq!(first("(*)"), Err(LexicalError::UnterminatedComment(3)));
    assert_eq!(first("(* a *"), Err(LexicalError::UnterminatedComment(6)));
    assert_eq!(first("(* (* *)"), Err(LexicalError::UnterminatedComment(8)));
    assert_eq!(first("  (* (* *) end"), Err(LexicalError::UnterminatedComment(14)));
}

#[test]
fn unterminated_comment_leaves_the_cursor_at_the_end() {
    let mut scanner = Scanner::new(" (* open");
    assert_eq!(scanner.get_symbol(), Err(LexicalError::UnterminatedComment(8)));
    assert_eq!(scanner.get_char(), '\0');
    assert_eq!(scanner.get_symbol(), Ok(Symbols::Eof));
}

#[test]
fn left_parenthesis_is_not_a_comment() {
    assert_eq!(first("("), Ok(Symbols::Lparen(0, 1)));
    assert_eq!(
        all("(a*)"),
        vec![
            Ok(Symbols::Lparen(0, 1)),
            Ok(ident(1, 2, "a")),
            Ok(Symbols::Times(2, 3)),
            Ok(Symbols::Rparen(3, 4)),
            Ok(Symbols::Eof),
        ]
    );
    assert_eq!(
        all("( *"),
        vec![Ok(Symbols::Lparen(0, 1)), Ok(Symbols::Times(2, 3)), Ok(Symbols::Eof)]
    );
}

#[test]
fn unrecognized_characters() {
    assert_eq!(first("@"), Err(LexicalError::UnrecognizedCharacter(0)));
    assert_eq!(first("1"), Err(LexicalError::UnrecognizedCharacter(0)));
    assert_eq!(first("\""), Err(LexicalError::UnrecognizedCharacter(0)));
    assert_eq!(first("'"), Err(LexicalError::UnrecognizedCharacter(0)));
    assert_eq!(first("Array"), Err(LexicalError::UnrecognizedCharacter(0)));
    assert_eq!(first("x"), Err(LexicalError::UnrecognizedCharacter(0)));
    assert_eq!(first("_a"), Err(LexicalError::UnrecognizedCharacter(0)));
    assert_eq!(first("\u{e9}t"), Err(LexicalError::UnrecognizedCharacter(0)));
    assert_eq!(first("  \n@"), Err(LexicalError::UnrecognizedCharacter(3)));
}

#[test]
fn unrecognized_character_is_not_consumed() {
    let mut scanner = Scanner::new("; @");
    assert_eq!(scanner.get_symbol(), Ok(Symbols::Semicolon(0, 1)));
    assert_eq!(scanner.get_symbol(), Err(LexicalError::UnrecognizedCharacter(2)));
    assert_eq!(scanner.get_char(), '@');
    assert_eq!(scanner.get_symbol(), Err(LexicalError::UnrecognizedCharacter(2)));
    assert_eq!(scanner.start_position(), 2);
}

#[test]
fn empty_text_is_eof() {
    assert_eq!(first(""), Ok(Symbols::Eof));
    assert_eq!(first(" \t\r\n"), Ok(Symbols::Eof));
}

#[test]
fn eof_repeats() {
    let mut scanner = Scanner::new("by  ");
    assert_eq!(scanner.get_symbol(), Ok(Symbols::By(0, 2)));
    for _ in 0..5 {
        assert_eq!(scanner.get_symbol(), Ok(Symbols::Eof));
        assert_eq!(scanner.get_char(), '\0');
        assert_eq!(scanner.start_position(), 4);
    }
    let mut empty = Scanner::new("");
    for _ in 0..3 {
        assert_eq!(empty.get_symbol(), Ok(Symbols::Eof));
        assert_eq!(empty.start_position(), 0);
    }
}

#[test]
fn blanks_are_passed_over() {
    assert_eq!(all(" \t\r\n end \n"), vec![Ok(Symbols::End(5, 8)), Ok(Symbols::Eof)]);
}

#[test]
fn a_statement() {
    assert_eq!(
        all("var a := b;"),
        vec![
            Ok(Symbols::Var(0, 3)),
            Ok(ident(4, 5, "a")),
            Ok(Symbols::Becomes(6, 8)),
            Ok(ident(9, 10, "b")),
            Ok(Symbols::Semicolon(10, 11)),
            Ok(Symbols::Eof),
        ]
    );
}

#[test]
fn symbols_never_overlap() {
    let found = all("if a<=b then (* so *) c:=d[e..f] elsif ~t&u#v do exit end.");
    let mut last: u32 = 0;
    let mut count = 0;
    for r in found {
        let (s, e) = match r {
            Ok(Symbols::Eof) => break,
            Ok(Symbols::Ident(s, e, _)) => (s, e),
            Ok(Symbols::If(s, e))
            | Ok(Symbols::Leq(s, e))
            | Ok(Symbols::Then(s, e))
            | Ok(Symbols::Becomes(s, e))
            | Ok(Symbols::Lbrak(s, e))
            | Ok(Symbols::Upto(s, e))
            | Ok(Symbols::Rbrak(s, e))
            | Ok(Symbols::Elsif(s, e))
            | Ok(Symbols::Not(s, e))
            | Ok(Symbols::And(s, e))
            | Ok(Symbols::Neq(s, e))
            | Ok(Symbols::Do(s, e))
            | Ok(Symbols::Exit(s, e))
            | Ok(Symbols::End(s, e))
            | Ok(Symbols::Period(s, e)) => (s, e),
            other => panic!("unexpected {:?}", other),
        };
        assert!(last <= s);
        assert!(s < e);
        last = e;
        count += 1;
    }
    assert_eq!(count, 24);
    assert_eq!(last, 58);
}

#[test]
fn nul_ends_the_text() {
    let mut scanner = Scanner::new("ab\0cd");
    assert_eq!(scanner.get_symbol(), Ok(ident(0, 2, "ab")));
    assert_eq!(scanner.get_symbol(), Ok(Symbols::Eof));
    assert_eq!(scanner.get_symbol(), Ok(Symbols::Eof));
    assert_eq!(first("(* a \0 *)"), Err(LexicalError::UnterminatedComment(5)));
}

#[test]
fn cursor_reads_and_advances() {
    let mut scanner = Scanner::new("ab");
    assert_eq!(scanner.get_char(), 'a');
    assert_eq!(scanner.get_char(), 'a');
    assert_eq!(scanner.start_position(), 0);
    scanner.next_char();
    assert_eq!(scanner.get_char(), 'b');
    assert_eq!(scanner.start_position(), 1);
    scanner.next_char();
    assert_eq!(scanner.get_char(), '\0');
    assert_eq!(scanner.start_position(), 2);
    scanner.next_char();
    scanner.next_char();
    assert_eq!(scanner.get_char(), '\0');
    assert_eq!(scanner.start_position(), 2);
}

#[test]
fn cursor_on_an_empty_text() {
    let mut scanner = Scanner::new("");
    assert_eq!(scanner.get_char(), '\0');
    scanner.next_char();
    assert_eq!(scanner.get_char(), '\0');
    assert_eq!(scanner.start_position(), 0);
}

#[test]
fn cursor_counts_characters_not_bytes() {
    let mut scanner = Scanner::new("\u{e9}\u{4e2d};");
    scanner.next_char();
    assert_eq!(scanner.get_char(), '\u{4e2d}');
    scanner.next_char();
    assert_eq!(scanner.get_symbol(), Ok(Symbols::Semicolon(2, 3)));
}
