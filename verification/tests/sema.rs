use mus::frontend::errors::errors::ErrorKind;
use mus::frontend::lexer::lexer::Lexer;
use mus::frontend::parser::ast::{Extern, Type, Visibility};
use mus::frontend::errors::span::{Span, Spanned};
use mus::frontend::parser::parser::Parser;
use mus::frontend::sema::modules::ModuleFiles;
use mus::frontend::sema::sema::{Sema, Stop};
use mus::frontend::sema::type_checker::TypeChecker;
use mus::frontend::sema::typed_ast::{TypedExpression, TypedItem, TypedProgram, TypedStatement};

fn analyze(src: &str) -> Result<TypedProgram, Stop> {
    let mut l = Lexer::new(src.to_string(), "main.mus".to_string());
    l.tokenize().unwrap();
    let mut p = Parser::new(l.into_tokens(), "main.mus".to_string(), src.to_string());
    let prog = p.parse_program().unwrap();
    let files = ModuleFiles::new();
    let mut s = Sema::new("main.mus".to_string(), src.to_string());
    s.analyze(&prog, &files)
}

fn report(src: &str) -> (String, Option<String>) {
    match analyze(src) {
        Err(Stop::Report(e)) => {
            assert_eq!(e.kind, ErrorKind::Semantic);
            (e.message, e.note)
        },
        Err(other) => panic!("expected an error report, got {:?}", other),
        Ok(_) => panic!("expected an error report"),
    }
}

fn check(src: &str) -> Result<(), (String, Option<String>)> {
    let prog = analyze(src).unwrap();
    let mut t = TypeChecker::new("main.mus".to_string(), src.to_string());
    t.check(&prog).map_err(|e| (e.message, e.note))
}

#[test]
fn main_function_analyzes() {
    let prog = analyze("pub fn main() void {\n    var x i32 = 1\n}\n").unwrap();
    assert_eq!(prog.items.len(), 1);
    match &prog.items[0] {
        TypedItem::Function(f) => {
            assert_eq!(f.mangled, "main.main");
            assert_eq!(f.name.node, "main");
            assert_eq!(f.file, "main.mus");
            assert_eq!(f.body.body.len(), 1);
        },
        _ => panic!("expected a function"),
    }
}

#[test]
fn integer_literal_takes_the_wanted_type() {
    let prog = analyze("pub fn main() void {\n    var x i64 = 5\n    var y = 7\n}\n").unwrap();
    match &prog.items[0] {
        TypedItem::Function(f) => {
            match &f.body.body[0] {
                TypedStatement::Var { val, ty, .. } => {
                    assert!(matches!(val.node, TypedExpression::Integer { val: 5, ty: Type::I64 }));
                    assert_eq!(ty.node, Type::I64);
                },
                _ => panic!("expected a variable"),
            }
            match &f.body.body[1] {
                TypedStatement::Var { val, ty, .. } => {
                    assert!(matches!(val.node, TypedExpression::Integer { val: 7, ty: Type::I32 }));
                    assert_eq!(ty.node, Type::I32);
                },
                _ => panic!("expected a variable"),
            }
        },
        _ => panic!("expected a function"),
    }
}

#[test]
fn analysis_keeps_spans() {
    let src = "pub fn main() void {\n    var x i32 = 42\n}\n";
    let prog = analyze(src).unwrap();
    match &prog.items[0] {
        TypedItem::Function(f) => match &f.body.body[0] {
            TypedStatement::Var { val, .. } => {
                assert_eq!(&src[val.span.start..val.span.end], "42");
            },
            _ => panic!("expected a variable"),
        },
        _ => panic!("expected a function"),
    }
}

#[test]
fn main_undefined() {
    let (m, n) = report("pub fn other() void {\n}\n");
    assert_eq!(m, "Function 'main' is undefined");
    assert_eq!(n, Some("Define a public function 'main'".to_string()));
}

#[test]
fn main_private() {
    let (m, n) = report("fn main() void {\n}\n");
    assert_eq!(m, "Function 'main' is private");
    assert_eq!(n, Some("Make function 'main' public".to_string()));
}

#[test]
fn main_with_params() {
    let (m, n) = report("pub fn main(a i32) void {\n}\n");
    assert_eq!(m, "Function 'main' can't have any params");
    assert_eq!(n, None);
}

#[test]
fn undefined_variable() {
    let (m, _) = report("pub fn main() void {\n    var x i32 = y\n}\n");
    assert_eq!(m, "Undefined variable 'y'");
}

#[test]
fn assign_to_const() {
    let (m, _) = report("pub fn main() void {\n    const x i32 = 1\n    x = 2\n}\n");
    assert_eq!(m, "Assign to const 'x'");
}

#[test]
fn continue_outside_loop() {
    let (m, n) = report("pub fn main() void {\n    continue\n}\n");
    assert_eq!(m, "Continue outside of loop");
    assert_eq!(n, Some("Remove the continue statement".to_string()));
}

#[test]
fn break_outside_loop() {
    let (m, n) = report("pub fn main() void {\n    break\n}\n");
    assert_eq!(m, "Break outside of loop");
    assert_eq!(n, Some("Remove the break statement".to_string()));
}

#[test]
fn break_inside_loop() {
    assert!(analyze("pub fn main() void {\n    while true {\n        break\n    }\n}\n").is_ok());
}

#[test]
fn variable_not_visible_after_its_block() {
    let (m, _) = report("pub fn main() void {\n    if true {\n        var x i32 = 1\n    }\n    x = 2\n}\n");
    assert_eq!(m, "Undefined variable 'x'");
}

#[test]
fn undefined_function() {
    let (m, _) = report("pub fn main() void {\n    foo()\n}\n");
    assert_eq!(m, "Undefined function 'foo'");
}

#[test]
fn wrong_number_of_arguments() {
    let (m, _) = report("fn f(a i32) void {\n}\npub fn main() void {\n    f()\n}\n");
    assert_eq!(m, "Function f takes 1 args, but gets 0");
}

#[test]
fn variadic_extern_takes_more() {
    assert!(analyze("extern fn printf(f str, ...) i32\npub fn main() void {\n    printf(\"%d\", 1, 2)\n}\n").is_ok());
    let (m, _) = report("extern fn printf(f str, ...) i32\npub fn main() void {\n    printf()\n}\n");
    assert_eq!(m, "Function printf takes 1 args, but gets 0");
}

#[test]
fn for_loop_stops_analysis() {
    assert!(matches!(analyze("pub fn main() void {\n    for i in 3 {\n    }\n}\n"), Err(Stop::Abort)));
}

#[test]
fn extern_not_declared() {
    let mut s = Sema::new("main.mus".to_string(), String::new());
    let ext = Extern {
        name: "puts".to_string(),
        params: Vec::new(),
        ret_type: Spanned::new(Type::I32, Span::short(0)),
        visibility: Visibility::Public,
    };
    assert!(matches!(s.analyze_extern(&ext, "main"), Err(Stop::Abort)));
}

#[test]
fn type_mismatch() {
    assert_eq!(
        check("pub fn main() void {\n    var x i32 = true\n}\n"),
        Err(("Expected type i32, got bool".to_string(), None))
    );
}

#[test]
fn missing_return() {
    assert_eq!(
        check("fn f() i32 {\n}\npub fn main() void {\n}\n"),
        Err(("Missing return in non-void function 'f'".to_string(), None))
    );
}

#[test]
fn well_typed_program_checks() {
    assert_eq!(check("fn f(a i32) i32 {\n    return a + 1\n}\npub fn main() void {\n    var x i32 = f(2)\n}\n"), Ok(()));
}
