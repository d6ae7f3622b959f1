use mus::frontend::errors::errors::{Error, ErrorKind};
use mus::frontend::lexer::lexer::Lexer;
use mus::frontend::parser::parser::Parser;
use mus::frontend::sema::modules::ModuleFiles;
use mus::frontend::sema::sema::Sema;
use mus::frontend::sema::type_checker::TypeChecker;

fn lex_error(src: &str) -> Error {
    let mut l = Lexer::new(src.to_string(), "main.mus".to_string());
    let e = l.tokenize().unwrap_err();
    assert_eq!(e.kind, ErrorKind::Lexical);
    assert_eq!(e.file, "main.mus");
    assert_eq!(e.source, src);
    e
}

fn parse_error(src: &str) -> Error {
    let mut l = Lexer::new(src.to_string(), "main.mus".to_string());
    l.tokenize().unwrap();
    let mut p = Parser::new(l.into_tokens(), "main.mus".to_string(), src.to_string());
    let e = p.parse_program().unwrap_err();
    assert_eq!(e.kind, ErrorKind::Syntax);
    e
}

fn check_error(src: &str) -> (String, Option<String>) {
    let mut l = Lexer::new(src.to_string(), "main.mus".to_string());
    l.tokenize().unwrap();
    let mut p = Parser::new(l.into_tokens(), "main.mus".to_string(), src.to_string());
    let prog = p.parse_program().unwrap();
    let files = ModuleFiles::new();
    let mut s = Sema::new("main.mus".to_string(), src.to_string());
    let typed = s.analyze(&prog, &files).unwrap();
    let mut t = TypeChecker::new("main.mus".to_string(), src.to_string());
    let e = t.check(&typed).unwrap_err();
    assert_eq!(e.kind, ErrorKind::Semantic);
    (e.message, e.note)
}

fn in_main(body: &str) -> String {
    format!("pub fn main() void {{\n{}}}\n", body)
}

#[test]
fn too_many_points() {
    let e = lex_error("1.2.3");
    assert_eq!(e.message, "Too many points");
    assert_eq!((e.span.start, e.span.end), (0, 5));
    assert_eq!(e.note, None);
}

#[test]
fn unknown_escape() {
    let e = lex_error("'\\q'");
    assert_eq!(e.message, "Unknown character escape 'q'");
    assert_eq!(e.note, Some("Available character escapes are n, r, t, \\, 0, ' and \"".to_string()));
    assert_eq!((e.span.start, e.span.end), (1, 3));
}

#[test]
fn empty_character() {
    let e = lex_error("''");
    assert_eq!(e.message, "Empty character");
    assert_eq!((e.span.start, e.span.end), (0, 1));
}

#[test]
fn unterminated_character() {
    let e = lex_error("'ab'");
    assert_eq!(e.message, "Unterminated character");
    assert_eq!((e.span.start, e.span.end), (0, 2));
    let e = lex_error("'");
    assert_eq!(e.message, "Unterminated character");
}

#[test]
fn escape_at_end_of_input() {
    let e = lex_error("\"a\\");
    assert_eq!(e.message, "Unterminated character");
    assert_eq!((e.span.start, e.span.end), (2, 3));
}

#[test]
fn unterminated_comment() {
    let e = lex_error("/* abc");
    assert_eq!(e.message, "Unterminated comment");
    assert_eq!((e.span.start, e.span.end), (0, 6));
}

#[test]
fn item_expected_at_top_level() {
    let e = parse_error("var x i32 = 1\n");
    assert_eq!(e.message, "Expected import, extern or fn, got var");
    assert_eq!((e.span.start, e.span.end), (0, 3));
}

#[test]
fn identifier_expected() {
    let e = parse_error("fn 1() void {\n}\n");
    assert_eq!(e.message, "Expected identifier, got 'int literal'");
}

#[test]
fn type_expected() {
    let e = parse_error("fn f() x {\n}\n");
    assert_eq!(e.message, "Expected type, got 'identifier'");
}

#[test]
fn token_expected() {
    let e = parse_error("fn f() void x\n");
    assert_eq!(e.message, "Expected {, found identifier");
}

#[test]
fn expression_expected() {
    let e = parse_error(&in_main("    var x i32 = )\n"));
    assert_eq!(e.message, "Expected expr, got )");
}

#[test]
fn binary_operation_on_str() {
    let (m, n) = check_error(&in_main("    var s str = \"a\" + \"b\"\n"));
    assert_eq!(m, "Can't append binary operation to str");
    assert_eq!(n, Some("You can append binary operation to any type literal except str".to_string()));
}

#[test]
fn arithmetic_on_bool() {
    let (m, n) = check_error(&in_main("    var b bool = true + false\n"));
    assert_eq!(m, "Can't append arithmetic operation to bool");
    assert_eq!(
        n,
        Some("You can append arithmetic operation only to i64, u64, f64, i32, u32, f32, i16, u16, i8 and u8 literals".to_string())
    );
}

#[test]
fn negating_bool() {
    let (m, n) = check_error(&in_main("    var b bool = -true\n"));
    assert_eq!(m, "Can't negate bool expr");
    assert_eq!(n, Some("You can negate only i64, i32, i16, i8, f64 and f32 literals".to_string()));
}

#[test]
fn not_on_char() {
    let (m, n) = check_error(&in_main("    var c char = !'a'\n"));
    assert_eq!(m, "Can't append not to char");
    assert_eq!(n, Some("You can append not on any type literal except char and str".to_string()));
}

#[test]
fn cast_from_str() {
    let (m, n) = check_error(&in_main("    var x i32 = \"a\" as i32\n"));
    assert_eq!(m, "Can't cast from str");
    assert_eq!(n, None);
}

#[test]
fn cast_to_str() {
    let (m, _) = check_error(&in_main("    var x str = 1 as str\n"));
    assert_eq!(m, "Can't cast to str");
}

#[test]
fn if_condition_str() {
    let (m, _) = check_error(&in_main("    if \"a\" {\n    }\n"));
    assert_eq!(m, "If condition can't be str");
}

#[test]
fn while_condition_str() {
    let (m, _) = check_error(&in_main("    while \"a\" {\n    }\n"));
    assert_eq!(m, "While condition can't be str");
}

#[test]
fn void_variable() {
    let src = format!("fn g() void {{\n}}\n{}", in_main("    var x void = g()\n"));
    let (m, n) = check_error(&src);
    assert_eq!(m, "Variable 'x' can't be void");
    assert_eq!(n, Some("Just call void function without defining a variable".to_string()));
}

#[test]
fn void_parameter() {
    let src = format!("fn f(a void) void {{\n}}\n{}", in_main(""));
    let (m, n) = check_error(&src);
    assert_eq!(m, "Parameter 'a' can't be void");
    assert_eq!(n, Some("Remove parameter 'a'".to_string()));
}

#[test]
fn return_type_mismatch() {
    let src = format!("fn f() i32 {{\n    return true\n}}\n{}", in_main(""));
    let (m, _) = check_error(&src);
    assert_eq!(m, "Expected type i32, got bool");
}
