use mus::frontend::lexer::lexer::Lexer;
use mus::frontend::parser::ast::Program;
use mus::frontend::parser::parser::Parser;
use mus::frontend::sema::modules::{ModuleFile, ModuleFiles, ModuleSystem};
use mus::frontend::sema::sema::{Sema, Stop};
use mus::frontend::sema::typed_ast::{TypedItem, TypedProgram};

fn parse(src: &str) -> Program {
    let mut l = Lexer::new(src.to_string(), "main.mus".to_string());
    l.tokenize().unwrap();
    let mut p = Parser::new(l.into_tokens(), "main.mus".to_string(), src.to_string());
    p.parse_program().unwrap()
}

fn text(file: &str, source: &str) -> ModuleFile {
    ModuleFile::Text { file: file.to_string(), source: source.to_string() }
}

fn analyze(src: &str, files: &ModuleFiles) -> Result<TypedProgram, Stop> {
    let prog = parse(src);
    let mut s = Sema::new("main.mus".to_string(), src.to_string());
    s.analyze(&prog, files)
}

fn message(r: Result<TypedProgram, Stop>) -> String {
    match r {
        Err(Stop::Report(e)) => e.message,
        Err(other) => panic!("expected a report, got {:?}", other),
        Ok(_) => panic!("expected a report"),
    }
}

const UTILS: &str = "pub fn add(a i32, b i32) i32 {\n    return a + b\n}\nfn hidden() void {\n}\n";

#[test]
fn files_store() {
    let mut f = ModuleFiles::new();
    assert!(f.get("a").is_none());
    f.insert("a".to_string(), ModuleFile::Absent);
    f.insert("b".to_string(), text("b.mus", "x"));
    f.insert("a".to_string(), ModuleFile::Unreadable("no".to_string()));
    assert_eq!(f.len(), 2);
    assert!(matches!(f.get("a"), Some(ModuleFile::Unreadable(m)) if m == "no"));
    assert!(matches!(f.get("b"), Some(ModuleFile::Text { .. })));
}

#[test]
fn unknown_module_file_is_asked_for() {
    let files = ModuleFiles::new();
    match analyze("import utils\npub fn main() void {\n}\n", &files) {
        Err(Stop::Need(p)) => assert_eq!(p, "utils"),
        _ => panic!("expected a request for the module file"),
    }
}

#[test]
fn module_not_found() {
    let mut files = ModuleFiles::new();
    files.insert("utils".to_string(), ModuleFile::Absent);
    assert_eq!(message(analyze("import utils\npub fn main() void {\n}\n", &files)), "Module 'utils' not found");
}

#[test]
fn module_unreadable() {
    let mut files = ModuleFiles::new();
    files.insert("utils".to_string(), ModuleFile::Unreadable("permission denied".to_string()));
    assert_eq!(
        message(analyze("import utils\npub fn main() void {\n}\n", &files)),
        "An error occurred when reading module 'utils': permission denied"
    );
}

#[test]
fn whole_module_import() {
    let mut files = ModuleFiles::new();
    files.insert("utils".to_string(), text("utils.mus", UTILS));
    let prog = analyze("import utils\npub fn main() void {\n    var x i32 = utils.add(1, 2)\n}\n", &files).unwrap();
    let names: Vec<String> = prog.items.iter().map(|i| match i {
        TypedItem::Function(f) => f.mangled.clone(),
        TypedItem::Extern(e) => e.mangled.clone(),
    }).collect();
    assert_eq!(names, vec!["utils.add".to_string(), "utils.hidden".to_string(), "main.main".to_string()]);
    match &prog.items[0] {
        TypedItem::Function(f) => assert_eq!(f.file, "utils.mus"),
        _ => panic!("expected a function"),
    }
}

#[test]
fn private_function_not_imported_with_module() {
    let mut files = ModuleFiles::new();
    files.insert("utils".to_string(), text("utils.mus", UTILS));
    assert_eq!(
        message(analyze("import utils\npub fn main() void {\n    utils.hidden()\n}\n", &files)),
        "Undefined function 'utils.hidden'"
    );
}

#[test]
fn single_item_import() {
    let mut files = ModuleFiles::new();
    files.insert("utils.add".to_string(), ModuleFile::Absent);
    files.insert("utils".to_string(), text("utils.mus", UTILS));
    assert!(analyze("import utils.add\npub fn main() void {\n    var x i32 = add(1, 2)\n}\n", &files).is_ok());
}

#[test]
fn private_item_import() {
    let mut files = ModuleFiles::new();
    files.insert("utils.hidden".to_string(), ModuleFile::Absent);
    files.insert("utils".to_string(), text("utils.mus", UTILS));
    assert_eq!(
        message(analyze("import utils.hidden\npub fn main() void {\n}\n", &files)),
        "Imported item 'hidden' is private"
    );
}

#[test]
fn missing_item_import() {
    let mut files = ModuleFiles::new();
    files.insert("utils.nope".to_string(), ModuleFile::Absent);
    files.insert("utils".to_string(), text("utils.mus", UTILS));
    assert_eq!(
        message(analyze("import utils.nope\npub fn main() void {\n}\n", &files)),
        "Item 'nope' not found in module 'utils'"
    );
}

#[test]
fn import_cycle_stops() {
    let mut files = ModuleFiles::new();
    files.insert("a".to_string(), text("a.mus", "import b\n"));
    files.insert("b".to_string(), text("b.mus", "import a\n"));
    assert!(matches!(analyze("import a\npub fn main() void {\n}\n", &files), Err(Stop::Abort)));
}

#[test]
fn module_loaded_once() {
    let mut files = ModuleFiles::new();
    files.insert("utils".to_string(), text("utils.mus", UTILS));
    let prog = parse("import utils\nimport utils\npub fn main() void {\n}\n");
    let mut m = ModuleSystem::new("main.mus".to_string(), String::new());
    assert!(m.register_main(&prog, "main.mus".to_string(), String::new(), &files).is_ok());
    let (_, modules, scopes) = m.into_parts();
    assert_eq!(modules.len(), 2);
    assert_eq!(modules[0].path, "utils");
    assert_eq!(modules[1].path, "main");
    assert!(scopes.contains_key("utils"));
}

#[test]
fn main_is_the_last_module() {
    let src = "extern fn puts(s str) i32
pub fn main() void {
}
";
    let prog = parse(src);
    let files = ModuleFiles::new();
    let mut m = ModuleSystem::new("main.mus".to_string(), src.to_string());
    assert!(m.register_main(&prog, "main.mus".to_string(), src.to_string(), &files).is_ok());
    let (context, modules, _) = m.into_parts();
    assert_eq!(modules.len(), 1);
    assert_eq!(modules[0].path, "main");
    assert_eq!(modules[0].file, "main.mus");
    assert_eq!(modules[0].source, src);
    assert_eq!(modules[0].program.items.len(), 2);
    let f = context.get_func("main.main").unwrap();
    assert_eq!(f.module, "main");
    assert!(context.get_func("main.puts").is_some());
}

#[test]
fn item_list_import_asks_for_its_file() {
    let files = ModuleFiles::new();
    match analyze("import utils.(add)\npub fn main() void {\n}\n", &files) {
        Err(Stop::Need(p)) => assert_eq!(p, "utils"),
        other => panic!("expected a request for the module file, got {:?}", other.err()),
    }
}

#[test]
fn item_list_import() {
    let mut files = ModuleFiles::new();
    files.insert("utils".to_string(), text("utils.mus", UTILS));
    let prog = analyze("import utils.(add)\npub fn main() void {\n    var x i32 = add(1, 2)\n}\n", &files).unwrap();
    assert_eq!(prog.items.len(), 3);
    assert!(analyze("import utils.(add as plus)\npub fn main() void {\n    var x i32 = plus(1, 2)\n}\n", &files).is_ok());
    assert_eq!(
        message(analyze("import utils.(add, hidden)\npub fn main() void {\n}\n", &files)),
        "Imported item 'hidden' is private"
    );
}

#[test]
fn item_import_repeated() {
    let mut files = ModuleFiles::new();
    files.insert("utils".to_string(), text("utils.mus", UTILS));
    files.insert("utils.add".to_string(), ModuleFile::Absent);
    assert!(analyze("import utils.add\nimport utils.add\npub fn main() void {\n    var x i32 = add(1, 2)\n}\n", &files).is_ok());
}

#[test]
fn syntax_error_in_module_names_source_as_file() {
    let mut files = ModuleFiles::new();
    files.insert("bad".to_string(), text("bad.mus", "fn"));
    match analyze("import bad\npub fn main() void {\n}\n", &files) {
        Err(Stop::Report(e)) => {
            assert_eq!(e.file, "fn");
            assert_eq!(e.source, "bad.mus");
        },
        _ => panic!("expected a syntax error"),
    }
}
