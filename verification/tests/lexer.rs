use mus::frontend::errors::errors::ErrorKind;
use mus::frontend::lexer::lexer::Lexer;
use mus::frontend::lexer::tokens::{Token, TokenKind};

fn lex(src: &str) -> Vec<Token> {
    let mut l = Lexer::new(src.to_string(), "main.mus".to_string());
    l.tokenize().unwrap();
    l.into_tokens()
}

#[test]
fn tokens_end_with_one_eof() {
    let toks = lex("pub fn main() void {\n    var x i32 = 1 + 2\n}\n");
    assert!(matches!(toks.last().unwrap().kind, TokenKind::EOF));
    let eofs = toks.iter().filter(|t| matches!(t.kind, TokenKind::EOF)).count();
    assert_eq!(eofs, 1);
}

#[test]
fn empty_source_is_just_eof() {
    let toks = lex("");
    assert_eq!(toks.len(), 1);
    assert!(matches!(toks[0].kind, TokenKind::EOF));
}

#[test]
fn newline_ends_a_statement() {
    let toks = lex("x\ny");
    assert!(matches!(toks[0].kind, TokenKind::Identifier(_)));
    assert!(matches!(toks[1].kind, TokenKind::Semicolon));
    assert!(matches!(toks[2].kind, TokenKind::Identifier(_)));
    assert!(matches!(toks[3].kind, TokenKind::Semicolon));
    assert!(matches!(toks[4].kind, TokenKind::EOF));
}

#[test]
fn no_semicolon_after_an_operator() {
    let toks = lex("1 +\n2");
    assert!(matches!(toks[0].kind, TokenKind::Integer(1)));
    assert!(matches!(toks[1].kind, TokenKind::Plus));
    assert!(matches!(toks[2].kind, TokenKind::Integer(2)));
}

#[test]
fn literals() {
    let toks = lex("12_000 3.5 'a' \"hi\\n\" true");
    assert!(matches!(toks[0].kind, TokenKind::Integer(12000)));
    match &toks[1].kind {
        TokenKind::Float(t) => assert_eq!(t, "3.5"),
        _ => panic!("expected a float"),
    }
    assert!(matches!(toks[2].kind, TokenKind::Character('a')));
    match &toks[3].kind {
        TokenKind::String(t) => assert_eq!(t, "hi\n"),
        _ => panic!("expected a string"),
    }
    assert!(matches!(toks[4].kind, TokenKind::True));
}

#[test]
fn spans_of_tokens() {
    let toks = lex("var abc");
    assert_eq!((toks[0].span.start, toks[0].span.end), (0, 3));
    assert_eq!((toks[1].span.start, toks[1].span.end), (4, 7));
}

#[test]
fn illegal_character() {
    let mut l = Lexer::new("@".to_string(), "main.mus".to_string());
    let e = l.tokenize().unwrap_err();
    assert_eq!(e.kind, ErrorKind::Lexical);
    assert_eq!(e.message, "Illegal character '@'");
}

#[test]
fn unterminated_string() {
    let mut l = Lexer::new("\"abc".to_string(), "main.mus".to_string());
    let e = l.tokenize().unwrap_err();
    assert_eq!(e.message, "Unterminated string");
}

#[test]
fn integer_too_large() {
    let mut l = Lexer::new("99999999999999999999".to_string(), "main.mus".to_string());
    assert!(l.tokenize_checked().is_none());
}

#[test]
fn token_spans_in_order() {
    let src = "pub fn main() void {\n    var s str = \"a\\n\" // note\n    x = 'c' + 1.5 >= y...\n}\n";
    let toks = lex(src);
    for t in &toks {
        assert!(t.span.start <= t.span.end);
        assert!(t.span.end <= src.chars().count() + 1);
    }
    for w in toks.windows(2) {
        assert!(w[0].span.end <= w[1].span.start);
    }
    let last = toks.last().unwrap();
    assert_eq!((last.span.start, last.span.end), (src.chars().count(), src.chars().count()));
    let toks = lex("x");
    let last = toks.last().unwrap();
    assert_eq!((last.span.start, last.span.end), (2, 2));
}
