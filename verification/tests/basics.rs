use mus::cli::cli::Cli;
use mus::frontend::errors::errors::{Error, ErrorKind};
use mus::frontend::errors::span::{Span, Spanned};
use mus::frontend::parser::ast::BinOp;
use mus::frontend::sema::names::{NameMap, NameSet};
use mus::frontend::text::push_decimal;

#[test]
fn span_constructors() {
    let s = Span::new(3, 7);
    assert_eq!((s.start, s.end), (3, 7));
    let t = Span::short(5);
    assert_eq!((t.start, t.end), (5, 5));
}

#[test]
fn span_merge_keeps_start_and_takes_end() {
    let mut s = Span::new(2, 4);
    s.merge(Span::new(10, 12));
    assert_eq!((s.start, s.end), (2, 12));
}

#[test]
fn spanned_keeps_node_and_span() {
    let s = Spanned::new(42, Span::new(1, 2));
    assert_eq!(s.node, 42);
    assert_eq!(s.span, Span::new(1, 2));
}

#[test]
fn error_kind_codes() {
    assert_eq!(ErrorKind::Lexical.code(), 1);
    assert_eq!(ErrorKind::Syntax.code(), 2);
    assert_eq!(ErrorKind::Semantic.code(), 3);
}

#[test]
fn error_new_keeps_fields() {
    let e = Error::new(ErrorKind::Syntax, "a.mus", "text", Span::new(0, 1), "bad", Some("hint"));
    assert_eq!(e.kind, ErrorKind::Syntax);
    assert_eq!(e.file, "a.mus");
    assert_eq!(e.source, "text");
    assert_eq!(e.message, "bad");
    assert_eq!(e.note, Some("hint".to_string()));
    let f = Error::new(ErrorKind::Lexical, "b", "", Span::short(0), "x", None);
    assert_eq!(f.note, None);
}

#[test]
fn binding_powers() {
    assert_eq!(BinOp::Or.binding_power(), (1, 2));
    assert_eq!(BinOp::And.binding_power(), (3, 4));
    assert_eq!(BinOp::Eq.binding_power(), (5, 6));
    assert_eq!(BinOp::NotEq.binding_power(), (5, 6));
    assert_eq!(BinOp::Lower.binding_power(), (7, 8));
    assert_eq!(BinOp::GreaterEq.binding_power(), (7, 8));
    assert_eq!(BinOp::Minus.binding_power(), (9, 10));
    assert_eq!(BinOp::Divide.binding_power(), (11, 12));
}

#[test]
fn every_operator_associates_left() {
    let ops = [
        BinOp::Plus, BinOp::Minus, BinOp::Multiply, BinOp::Divide, BinOp::Eq, BinOp::Greater,
        BinOp::Lower, BinOp::GreaterEq, BinOp::LowerEq, BinOp::NotEq, BinOp::And, BinOp::Or,
    ];
    for op in ops.iter() {
        let (l, r) = op.binding_power();
        assert!(l < r);
        for other in ops.iter() {
            let (l2, _) = other.binding_power();
            if l < l2 {
                assert!(r < l2);
            }
        }
    }
}

#[test]
fn decimal_text() {
    let mut s = "n=".to_string();
    push_decimal(&mut s, 0);
    assert_eq!(s, "n=0");
    let mut t = String::new();
    push_decimal(&mut t, 1204);
    assert_eq!(t, "1204");
}

#[test]
fn name_map_read_after_write() {
    let mut m = NameMap::new();
    assert_eq!(m.get("a"), None);
    m.insert("a".to_string(), 3);
    m.insert("b".to_string(), 4);
    m.insert("a".to_string(), 5);
    assert_eq!(m.get("a"), Some(5));
    assert_eq!(m.get("b"), Some(4));
    assert_eq!(m.len(), 2);
    let (k, v) = m.entry(0);
    assert_eq!((k.as_str(), v), ("a", 5));
    assert!(m.contains_key("b"));
    assert!(!m.contains_key("c"));
}

#[test]
fn name_set_insert_contains() {
    let mut s = NameSet::new();
    assert!(!s.contains("x"));
    s.insert("x".to_string());
    assert!(s.contains("x"));
    assert!(!s.contains("y"));
}

#[test]
fn cli_release_flag() {
    assert!(Cli::Run { release: true }.release());
    assert!(!Cli::Build { release: false }.release());
}
