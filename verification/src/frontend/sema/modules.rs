use vstd::prelude::*;
use crate::frontend::errors::errors::{Error, ErrorKind, ErrorView, Diagnostic, error_of, opt_str_view};
use crate::frontend::errors::span::{Span, Spanned};
use crate::frontend::lexer::lexer::{Lexer, LexOutcome, lex};
use crate::frontend::parser::ast::{
    Type, Visibility, Program, Item, ImportPath, Param, SpecProgram, SpecItem, SpecImportPath, SpecParam,
    Expression, Statement, Block, Function, Import, Extern,
    import_path_view, import_paths_view, texts_view, params_view, param_view, items_view, item_view,
    sexpr_view, exprs_view, stmt_view, stmts_view, block_view,
};
use crate::frontend::parser::parser::{
    Parser, parse_program, join_dotted, join_path, lemma_import_paths_view_push, lemma_texts_view_push,
    lemma_exprs_view_push, lemma_stmts_view_push,
};
use crate::frontend::sema::names::{NameMap, NameSet};
use crate::frontend::sema::context::{Context, ContextView, initial_context};
use crate::frontend::sema::scopes::{ScopeKind, ScopeView};
use crate::frontend::sema::symbols::{SymbolView, SymbolTable};
use crate::frontend::sema::sema::{Stop, StopView, mangle, opt_text};
use crate::frontend::text::{push_str, push_char, chars_of, text_is};

verus! {

// ---------------------------------------------------------------------------
// What is known of the module files.
// ---------------------------------------------------------------------------

/// What the file of a module holds, as far as its reader found.
#[derive(Debug)]
pub enum ModuleFile {
    /// There is no file at the module's path.
    Absent,
    /// The file exists but could not be read; the reader's message.
    Unreadable(String),
    /// The file's name and its text.
    Text { file: String, source: String },
}

/// The mathematical model of a [`ModuleFile`].
pub enum ModuleFileView {
    Absent,
    Unreadable(Seq<char>),
    Text { file: Seq<char>, source: Seq<char> },
}

impl View for ModuleFile {
    type V = ModuleFileView;

    open spec fn view(&self) -> ModuleFileView {
        match *self {
            ModuleFile::Absent => ModuleFileView::Absent,
            ModuleFile::Unreadable(m) => ModuleFileView::Unreadable(m@),
            ModuleFile::Text { file, source } => ModuleFileView::Text { file: file@, source: source@ },
        }
    }
}

/// The module files known so far, each under the dotted path of its module.
#[derive(Debug)]
pub struct ModuleFiles {
    index: NameMap,
    files: Vec<ModuleFile>,
}

impl View for ModuleFiles {
    type V = Map<Seq<char>, ModuleFileView>;

    closed spec fn view(&self) -> Map<Seq<char>, ModuleFileView> {
        Map::new(|k: Seq<char>| self.index@.contains_key(k), |k: Seq<char>| self.files@[self.index@[k] as int]@)
    }
}

impl ModuleFiles {
    pub closed spec fn wf(&self) -> bool {
        &&& self.index.wf()
        &&& forall|k: Seq<char>| #[trigger] self.index@.contains_key(k) ==> self.index@[k] < self.files@.len()
        &&& forall|k1: Seq<char>, k2: Seq<char>|
            #[trigger] self.index@.contains_key(k1) && #[trigger] self.index@.contains_key(k2) && k1 != k2
                ==> self.index@[k1] != self.index@[k2]
    }

    pub fn new() -> (f: Self)
        ensures
            f.wf(),
            f@ == Map::<Seq<char>, ModuleFileView>::empty(),
    {
        let f = ModuleFiles { index: NameMap::new(), files: Vec::new() };
        proof {
            assert(f@ =~= Map::<Seq<char>, ModuleFileView>::empty());
        }
        f
    }

    /// Records what the file of module `path` holds.
    pub fn insert(&mut self, path: String, file: ModuleFile)
        requires
            old(self).wf(),
        ensures
            final(self).wf(),
            final(self)@ == old(self)@.insert(path@, file@),
    {
        let ghost fv = file@;
        match self.index.get(path.as_str()) {
            Some(i) => {
                self.files.set(i, file);
            },
            None => {
                let n = self.files.len();
                self.index.insert(path, n);
                self.files.push(file);
            },
        }
        proof {
            assert forall|k: Seq<char>| #[trigger] self@.contains_key(k) == old(self)@.insert(path@, fv).contains_key(k) by {}
            assert forall|k: Seq<char>| self@.contains_key(k) implies #[trigger] self@[k] == old(self)@.insert(path@, fv)[k] by {
                if k != path@ {
                    assert(old(self).index@.contains_key(k));
                }
            }
            assert(self@ =~= old(self)@.insert(path@, fv));
        }
    }

    /// What is known of the file of module `path`.
    pub fn get(&self, path: &str) -> (r: Option<&ModuleFile>)
        requires
            self.wf(),
        ensures
            match r {
                Some(f) => self@.contains_key(path@) && self@[path@] == f@,
                None => !self@.contains_key(path@),
            },
    {
        match self.index.get(path) {
            Some(i) => Some(&self.files[i]),
            None => None,
        }
    }

    /// The number of modules whose file is known.
    pub fn len(&self) -> (n: usize)
        requires
            self.wf(),
        ensures
            n == self@.dom().len(),
            self@.dom().finite(),
    {
        proof {
            self.index.lemma_keys();
            assert(self@.dom() =~= self.index@.dom());
        }
        self.index.len()
    }
}

// ---------------------------------------------------------------------------
// Dotted paths.
// ---------------------------------------------------------------------------

/// The index of the last `.` among the first `n` characters of `s`, or -1.
pub open spec fn last_dot_before(s: Seq<char>, n: int) -> int
    decreases n,
{
    if n <= 0 {
        -1
    } else if s[n - 1] == '.' {
        n - 1
    } else {
        last_dot_before(s, n - 1)
    }
}

/// The index of the last `.` of `s`, or -1.
pub open spec fn last_dot(s: Seq<char>) -> int {
    last_dot_before(s, s.len() as int)
}

/// The path of the module that contains `s`: all before its last dot.
pub open spec fn parent_path(s: Seq<char>) -> Seq<char> {
    s.take(last_dot(s))
}

/// The last segment of `s`: all after its last dot, or all of `s`.
pub open spec fn last_segment(s: Seq<char>) -> Seq<char> {
    s.skip(last_dot(s) + 1)
}

proof fn lemma_last_dot_before(s: Seq<char>, n: int)
    requires
        0 <= n <= s.len(),
    ensures
        -1 <= last_dot_before(s, n) < n,
        last_dot_before(s, n) >= 0 ==> s[last_dot_before(s, n)] == '.',
        forall|j: int| last_dot_before(s, n) < j < n ==> s[j] != '.',
    decreases n,
{
    if n > 0 && s[n - 1] != '.' {
        lemma_last_dot_before(s, n - 1);
    }
}

/// The index of the last `.` of `s`, if it has one.
fn find_last_dot(s: &Vec<char>) -> (r: Option<usize>)
    ensures
        match r {
            Some(i) => i as int == last_dot(s@),
            None => last_dot(s@) == -1,
        },
{
    let mut n = s.len();
    while n > 0
        invariant
            n <= s@.len(),
            last_dot_before(s@, n as int) == last_dot(s@),
        decreases n,
    {
        if s[n - 1] == '.' {
            return Some(n - 1);
        }
        n -= 1;
    }
    None
}

/// The text of `s` from `start` up to `end`.
fn text_range(s: &Vec<char>, start: usize, end: usize) -> (t: String)
    requires
        start <= end <= s@.len(),
    ensures
        t@ == s@.subrange(start as int, end as int),
{
    let mut t = String::new();
    let mut i = start;
    while i < end
        invariant
            start <= i <= end <= s@.len(),
            t@ == s@.subrange(start as int, i as int),
        decreases end - i,
    {
        push_char(&mut t, s[i]);
        proof {
            assert(t@ =~= s@.subrange(start as int, i + 1));
        }
        i += 1;
    }
    t
}

/// Splits `path` at its last dot: the path before it and the segment after it.
fn split_last(path: &str) -> (r: Option<(String, String)>)
    ensures
        match r {
            Some((p, n)) => last_dot(path@) >= 0 && p@ == parent_path(path@) && n@ == last_segment(path@),
            None => last_dot(path@) == -1,
        },
{
    let chars = chars_of(&path.to_owned());
    proof {
        lemma_last_dot_before(chars@, chars@.len() as int);
    }
    match find_last_dot(&chars) {
        Some(i) => {
            let parent = text_range(&chars, 0, i);
            let name = text_range(&chars, i + 1, chars.len());
            proof {
                assert(parent@ =~= parent_path(path@));
                assert(name@ =~= last_segment(path@));
            }
            Some((parent, name))
        },
        None => None,
    }
}

/// The last segment of `path`.
fn last_segment_of(path: &str) -> (r: String)
    ensures
        r@ == last_segment(path@),
{
    match split_last(path) {
        Some((_, name)) => name,
        None => {
            let r = path.to_owned();
            proof {
                assert(r@ =~= last_segment(path@));
            }
            r
        },
    }
}

// ---------------------------------------------------------------------------
// Modules and the state of loading them.
// ---------------------------------------------------------------------------

/// A module read from its file.
#[derive(Debug)]
pub struct Module {
    pub path: String,
    pub program: Program,
    pub file: String,
    pub source: String,
}

/// The mathematical model of a [`Module`].
pub struct ModuleView {
    pub path: Seq<char>,
    pub program: SpecProgram,
    pub file: Seq<char>,
    pub source: Seq<char>,
}

impl View for Module {
    type V = ModuleView;

    open spec fn view(&self) -> ModuleView {
        ModuleView { path: self.path@, program: self.program@, file: self.file@, source: self.source@ }
    }
}

pub open spec fn modules_view(s: Seq<Module>) -> Seq<ModuleView> {
    s.map_values(|m: Module| m@)
}

/// What was read of a module: its text, the item it names when the path names an item
/// of a module rather than a module, and the file read.
pub struct SourceView {
    pub source: Seq<char>,
    pub item: Option<Seq<char>>,
    pub file: Seq<char>,
}

/// The error that module loading reports: it refers to the main file.
pub open spec fn load_error(file: Seq<char>, source: Seq<char>, span: Span, message: Seq<char>) -> StopView {
    StopView::Report(error_of(ErrorKind::Semantic, file, source, Diagnostic { span, message, note: None }))
}

pub open spec fn read_error(file: Seq<char>, source: Seq<char>, span: Span, path: Seq<char>, reason: Seq<char>) -> StopView {
    load_error(file, source, span, "An error occurred when reading module '"@ + path + "': "@ + reason)
}

pub open spec fn not_found(file: Seq<char>, source: Seq<char>, span: Span, path: Seq<char>) -> StopView {
    load_error(file, source, span, "Module '"@ + path + "' not found"@)
}

/// What reading module `path` gives: its own file if it has one, else the file of the
/// module that contains it, naming the item; errors refer to `file` and `source`.
#[verifier::opaque]
pub open spec fn source_of(files: Map<Seq<char>, ModuleFileView>, path: Seq<char>, span: Span, file: Seq<char>, source: Seq<char>) -> Result<SourceView, StopView> {
    if !files.contains_key(path) {
        Err(StopView::Need(path))
    } else {
        match files[path] {
            ModuleFileView::Text { file: f, source: t } => Ok(SourceView { source: t, item: None, file: f }),
            ModuleFileView::Unreadable(reason) => Err(read_error(file, source, span, path, reason)),
            ModuleFileView::Absent => if last_dot(path) < 0 {
                Err(not_found(file, source, span, path))
            } else if !files.contains_key(parent_path(path)) {
                Err(StopView::Need(parent_path(path)))
            } else {
                match files[parent_path(path)] {
                    ModuleFileView::Text { file: f, source: t } => Ok(SourceView { source: t, item: Some(last_segment(path)), file: f }),
                    ModuleFileView::Unreadable(reason) => Err(read_error(file, source, span, path, reason)),
                    ModuleFileView::Absent => Err(not_found(file, source, span, path)),
                }
            },
        }
    }
}

/// The program in `source`, read from `file`. A syntax error names the two the other
/// way round, as the loader hands them to the parser. A text too long to index stops
/// the analysis.
#[verifier::opaque]
pub open spec fn compile_source(source: Seq<char>, file: Seq<char>) -> Result<SpecProgram, StopView> {
    if source.len() + 2 >= usize::MAX {
        Err(StopView::Abort)
    } else {
        match lex(source) {
            LexOutcome::Done(ts) => match parse_program(ts, 0) {
                Ok(prog) => Ok(prog),
                Err(d) => Err(StopView::Report(error_of(ErrorKind::Syntax, source, file, d))),
            },
            LexOutcome::Failed(d) => Err(StopView::Report(error_of(ErrorKind::Lexical, file, source, d))),
            LexOutcome::Overflow => Err(StopView::Abort),
        }
    }
}

/// The state of module loading: the context with every module's functions declared,
/// the modules read so far, the paths done, the scope of each module, and the main
/// file and text that loading errors refer to.
pub struct LoaderView {
    pub context: ContextView,
    pub modules: Seq<ModuleView>,
    pub loaded: Set<Seq<char>>,
    pub scopes: Map<Seq<char>, usize>,
    pub file: Seq<char>,
    pub source: Seq<char>,
}

pub open spec fn param_types(params: Seq<Spanned<SpecParam>>) -> Seq<Type> {
    params.map_values(|p: Spanned<SpecParam>| p.node.ty.node)
}

/// The context after declaring the functions and externs of `items`, from the `i`-th
/// on, as functions of module `module`.
pub open spec fn declare_items(c: ContextView, items: Seq<SpecItem>, module: Seq<char>, i: int) -> ContextView
    decreases items.len() - i,
{
    if i < 0 || i >= items.len() {
        c
    } else {
        let c1 = match items[i] {
            SpecItem::Extern(e) => c.add_func(e.name, mangle(module, e.name), param_types(e.params), e.ret_type.node, e.visibility, module),
            SpecItem::Function(f) => c.add_func(
                f.name.node,
                mangle(module, f.name.node),
                param_types(f.params),
                f.ret_type.node,
                f.visibility,
                module,
            ),
            SpecItem::Import(_) => c,
        };
        declare_items(c1, items, module, i + 1)
    }
}

/// The import paths of `items`, in order.
pub open spec fn imports_of(items: Seq<SpecItem>) -> Seq<SpecImportPath>
    decreases items.len(),
{
    if items.len() == 0 {
        Seq::empty()
    } else {
        let prev = imports_of(items.drop_last());
        match items.last() {
            SpecItem::Import(im) => prev.push(im.path),
            _ => prev,
        }
    }
}

/// Binds `alias` (else `name`) in the current scope to the public function that `name`
/// names in module `path`, else to the function of that full name.
pub open spec fn import_single(m: LoaderView, path: Seq<char>, name: Seq<char>, alias: Option<Seq<char>>, span: Span) -> (LoaderView, Result<(), StopView>) {
    let found = match m.context.func(mangle(path, name)) {
        Some(sym) => Some(sym),
        None => m.context.func(name),
    };
    match found {
        None => (m, Err(load_error(m.file, m.source, span, "Item '"@ + name + "' not found in module '"@ + path + "'"@))),
        Some(sym) => if sym.visibility != Visibility::Public {
            (m, Err(load_error(m.file, m.source, span, "Imported item '"@ + name + "' is private"@)))
        } else {
            let local = match alias {
                Some(a) => a,
                None => name,
            };
            (LoaderView { context: m.context.bind(local, sym.id), ..m }, Ok(()))
        },
    }
}

/// Imports the items of an import path, from the `i`-th on, from module `path`.
pub open spec fn import_items(m: LoaderView, path: Seq<char>, items: Seq<SpecImportPath>, i: int) -> (LoaderView, Result<(), StopView>)
    decreases items.len() - i,
{
    if i < 0 || i >= items.len() {
        (m, Ok(()))
    } else {
        let (m1, r1) = import_single(m, path, join_dotted(items[i].path.node), items[i].alias, items[i].path.span);
        match r1 {
            Err(x) => (m1, Err(x)),
            Ok(()) => import_items(LoaderView { loaded: m1.loaded.insert(path), ..m1 }, path, items, i + 1),
        }
    }
}

/// Whether `k` is `prefix`, a dot, and a name that `src` binds to a public symbol.
pub open spec fn import_key(src: Map<Seq<char>, usize>, syms: Seq<SymbolView>, prefix: Seq<char>, k: Seq<char>) -> bool {
    &&& k.len() > prefix.len()
    &&& k.take(prefix.len() as int) == prefix
    &&& k[prefix.len() as int] == '.'
    &&& src.contains_key(k.skip(prefix.len() + 1int))
    &&& syms[src[k.skip(prefix.len() + 1int)] as int].visibility == Visibility::Public
}

/// `target` with each public name `n` of `src` also bound as `prefix.n`.
pub open spec fn with_imports(target: Map<Seq<char>, usize>, src: Map<Seq<char>, usize>, syms: Seq<SymbolView>, prefix: Seq<char>) -> Map<Seq<char>, usize> {
    Map::new(
        |k: Seq<char>| target.contains_key(k) || import_key(src, syms, prefix, k),
        |k: Seq<char>| if import_key(src, syms, prefix, k) {
            src[k.skip(prefix.len() + 1int)]
        } else {
            target[k]
        },
    )
}

/// The context with the public names of `src` bound in the current scope under `prefix`.
pub open spec fn import_public(c: ContextView, src: Map<Seq<char>, usize>, prefix: Seq<char>) -> ContextView {
    ContextView {
        scopes: c.scopes.update(
            c.current,
            ScopeView { symbols: with_imports(c.scopes[c.current].symbols, src, c.symbols, prefix), ..c.scopes[c.current] },
        ),
        ..c
    }
}

/// Loads module `path` and what it imports, unless it is done. `stack` holds the
/// modules whose loading is under way: meeting one of them again is a cycle, which
/// stops the analysis. Each path on the stack was read from `files`, and none twice,
/// so a path that can be read and is not on the stack finds it shorter than the number
/// of files (`lemma_stack_short`); the test of the stack's length bounds the recursion.
pub open spec fn load_module(m: LoaderView, files: Map<Seq<char>, ModuleFileView>, path: Seq<char>, span: Span, stack: Seq<Seq<char>>) -> (LoaderView, Result<(), StopView>)
    decreases files.dom().len() - stack.len(), 0int, 0int,
{
    if m.loaded.contains(path) {
        (m, Ok(()))
    } else if stack.contains(path) {
        (m, Err(StopView::Abort))
    } else {
        match source_of(files, path, span, m.file, m.source) {
            Err(x) => (m, Err(x)),
            Ok(src) => if stack.len() >= files.dom().len() {
                (m, Err(StopView::Abort))
            } else {
                match src.item {
                    Some(name) => load_item(m, files, path, name, span, stack.push(path)),
                    None => load_file(m, files, path, src, span, stack.push(path)),
                }
            },
        }
    }
}

/// Loads the module that contains item `name` named by `path`, and binds the item.
pub open spec fn load_item(m: LoaderView, files: Map<Seq<char>, ModuleFileView>, path: Seq<char>, name: Seq<char>, span: Span, stack: Seq<Seq<char>>) -> (LoaderView, Result<(), StopView>)
    decreases files.dom().len() - stack.len(), 4int, 0int,
{
    let parent = parent_path(path);
    let (m1, r1) = load_module(m, files, parent, span, stack);
    match r1 {
        Err(x) => (m1, Err(x)),
        Ok(()) => {
            let (m2, r2) = import_single(m1, parent, name, None, span);
            match r2 {
                Err(x) => (m2, Err(x)),
                Ok(()) => (LoaderView { loaded: m2.loaded.insert(parent), ..m2 }, Ok(())),
            }
        },
    }
}

/// The state after reading module `path` from `src`, before resolving its imports: the
/// module recorded, a scope of its own made current, its functions declared.
pub open spec fn enter_module(m: LoaderView, path: Seq<char>, src: SourceView, ast: SpecProgram) -> LoaderView {
    let scope = m.context.scopes.len() as usize;
    let c1 = ContextView {
        scopes: m.context.scopes.push(ScopeView { id: scope, parent: None, kind: ScopeKind::Module, symbols: Map::empty() }),
        current: scope as int,
        ..m.context
    };
    LoaderView {
        context: declare_items(c1, ast.items, path, 0),
        modules: m.modules.push(ModuleView { path, program: ast, file: src.file, source: src.source }),
        scopes: m.scopes.insert(path, scope),
        ..m
    }
}

/// Compiles module `path` from `src`, declares its functions and resolves its imports.
pub open spec fn load_file(m: LoaderView, files: Map<Seq<char>, ModuleFileView>, path: Seq<char>, src: SourceView, span: Span, stack: Seq<Seq<char>>) -> (LoaderView, Result<(), StopView>)
    decreases files.dom().len() - stack.len(), 4int, 0int,
{
    match compile_source(src.source, src.file) {
        Err(x) => (m, Err(x)),
        Ok(ast) => {
            let (m2, r2) = resolve_imports(enter_module(m, path, src, ast), files, imports_of(ast.items), 0, stack);
            match r2 {
                Err(x) => (m2, Err(x)),
                Ok(()) => (
                    LoaderView { context: ContextView { current: m.context.current, ..m2.context }, loaded: m2.loaded.insert(path), ..m2 },
                    Ok(()),
                ),
            }
        },
    }
}

/// Loads module `path` and binds its public functions under `alias`, else under the
/// last segment of `path`.
pub open spec fn import_all(m: LoaderView, files: Map<Seq<char>, ModuleFileView>, path: Seq<char>, alias: Option<Seq<char>>, span: Span, stack: Seq<Seq<char>>) -> (LoaderView, Result<(), StopView>)
    decreases files.dom().len() - stack.len(), 1int, 0int,
{
    let (m1, r1) = load_module(m, files, path, span, stack);
    match r1 {
        Err(x) => (m1, Err(x)),
        Ok(()) => if !m1.scopes.contains_key(path) || m1.scopes[path] >= m1.context.scopes.len() {
            (m1, Err(StopView::Abort))
        } else {
            let src = m1.context.scopes[m1.scopes[path] as int].symbols;
            if exists|n: Seq<char>| #[trigger] src.contains_key(n) && src[n] >= m1.context.symbols.len() {
                (m1, Err(StopView::Abort))
            } else {
                let prefix = match alias {
                    Some(a) => a,
                    None => last_segment(path),
                };
                (LoaderView { context: import_public(m1.context, src, prefix), ..m1 }, Ok(()))
            }
        },
    }
}

/// Resolves one import: a whole module, one item of a module, or a list of items.
pub open spec fn resolve_import(m: LoaderView, files: Map<Seq<char>, ModuleFileView>, imp: SpecImportPath, stack: Seq<Seq<char>>) -> (LoaderView, Result<(), StopView>)
    decreases files.dom().len() - stack.len(), 2int, 0int,
{
    let path = join_dotted(imp.path.node);
    let span = imp.path.span;
    if imp.items.len() == 0 {
        match source_of(files, path, span, m.file, m.source) {
            Err(x) => (m, Err(x)),
            Ok(src) => match src.item {
                None => import_all(m, files, path, imp.alias, span, stack),
                Some(_) => {
                    let parent = parent_path(path);
                    let (m1, r1) = load_module(m, files, parent, span, stack);
                    match r1 {
                        Err(x) => (m1, Err(x)),
                        Ok(()) => {
                            let (m2, r2) = import_single(m1, parent, last_segment(path), imp.alias, span);
                            match r2 {
                                Err(x) => (m2, Err(x)),
                                Ok(()) => (LoaderView { loaded: m2.loaded.insert(path), ..m2 }, Ok(())),
                            }
                        },
                    }
                },
            },
        }
    } else {
        let (m1, r1) = load_module(m, files, path, span, stack);
        match r1 {
            Err(x) => (m1, Err(x)),
            Ok(()) => import_items(m1, path, imp.items, 0),
        }
    }
}

/// Resolves the imports from the `i`-th on, in order.
pub open spec fn resolve_imports(m: LoaderView, files: Map<Seq<char>, ModuleFileView>, imports: Seq<SpecImportPath>, i: int, stack: Seq<Seq<char>>) -> (LoaderView, Result<(), StopView>)
    decreases files.dom().len() - stack.len(), 3int, imports.len() - i,
{
    if i < 0 || i >= imports.len() {
        (m, Ok(()))
    } else {
        let (m1, r1) = resolve_import(m, files, imports[i], stack);
        match r1 {
            Err(x) => (m1, Err(x)),
            Ok(()) => resolve_imports(m1, files, imports, i + 1, stack),
        }
    }
}

/// Declares the functions of the main program and resolves its imports; then records
/// the main program, read from `file` with text `source`, as the last module, done.
#[verifier::opaque]
pub open spec fn register_main(m: LoaderView, files: Map<Seq<char>, ModuleFileView>, program: SpecProgram, file: Seq<char>, source: Seq<char>) -> (LoaderView, Result<(), StopView>) {
    let m1 = LoaderView { context: declare_items(m.context, program.items, "main"@, 0), ..m };
    let (m2, r2) = resolve_imports(m1, files, imports_of(program.items), 0, Seq::empty());
    match r2 {
        Err(x) => (m2, Err(x)),
        Ok(()) => (
            LoaderView {
                modules: m2.modules.push(ModuleView { path: "main"@, program, file, source }),
                loaded: m2.loaded.insert("main"@),
                ..m2
            },
            Ok(()),
        ),
    }
}

// ---------------------------------------------------------------------------
// Reading and compiling a module.
// ---------------------------------------------------------------------------

proof fn lemma_import_paths_view_index(s: Seq<ImportPath>)
    ensures
        import_paths_view(s).len() == s.len(),
        forall|i: int| 0 <= i < s.len() ==> #[trigger] import_paths_view(s)[i] == import_path_view(s[i]),
    decreases s.len(),
{
    if s.len() > 0 {
        lemma_import_paths_view_index(s.subrange(0, s.len() - 1));
    }
}

/// A copy of an import path.
fn clone_import_path(p: &ImportPath) -> (q: ImportPath)
    ensures
        import_path_view(q) == import_path_view(*p),
    decreases *p,
{
    let mut names: Vec<String> = Vec::new();
    let mut i: usize = 0;
    while i < p.path.node.len()
        invariant
            i <= p.path.node@.len(),
            names@.len() == i,
            forall|j: int| 0 <= j < i ==> #[trigger] names@[j]@ == p.path.node@[j]@,
        decreases p.path.node@.len() - i,
    {
        names.push(p.path.node[i].clone());
        i += 1;
    }
    proof {
        assert(texts_view(names@) =~= texts_view(p.path.node@));
    }
    let mut items: Vec<ImportPath> = Vec::new();
    let mut j: usize = 0;
    #[verifier::loop_isolation(false)]
    while j < p.items.len()
        invariant
            j <= p.items@.len(),
            items@.len() == j,
            forall|k: int| 0 <= k < j ==> #[trigger] import_path_view(items@[k]) == import_path_view(p.items@[k]),
        decreases p.items@.len() - j,
    {
        proof {
            assert(decreases_to!(*p => p.items@[j as int]));
        }
        let item = clone_import_path(&p.items[j]);
        items.push(item);
        j += 1;
    }
    proof {
        lemma_import_paths_view_index(items@);
        lemma_import_paths_view_index(p.items@);
        assert(import_paths_view(items@) =~= import_paths_view(p.items@));
    }
    let alias = match &p.alias {
        Some(a) => Some(a.clone()),
        None => None,
    };
    ImportPath { path: Spanned::new(names, p.path.span), items, alias }
}

/// Copies of the import paths of `items`, in order.
fn import_list(items: &Vec<Item>) -> (v: Vec<ImportPath>)
    ensures
        import_paths_view(v@) == imports_of(items_view(items@)),
{
    let ghost iv = items_view(items@);
    let mut v: Vec<ImportPath> = Vec::new();
    let mut i: usize = 0;
    proof {
        assert(iv.take(0) =~= Seq::<SpecItem>::empty());
    }
    while i < items.len()
        invariant
            i <= items@.len(),
            iv == items_view(items@),
            import_paths_view(v@) == imports_of(iv.take(i as int)),
        decreases items@.len() - i,
    {
        proof {
            assert(iv.take(i + 1).drop_last() =~= iv.take(i as int));
            assert(iv.take(i + 1).last() == iv[i as int]);
        }
        match &items[i] {
            Item::Import(im) => {
                let q = clone_import_path(&im.path);
                proof {
                    lemma_import_paths_view_push(v@, q);
                }
                v.push(q);
            },
            _ => {},
        }
        i += 1;
    }
    proof {
        assert(iv.take(items@.len() as int) =~= iv);
    }
    v
}

/// A copy of expression `e`.
fn copy_expr(e: &Spanned<Expression>) -> (r: Spanned<Expression>)
    ensures
        sexpr_view(r) == sexpr_view(*e),
    decreases *e,
{
    let node = match &e.node {
        Expression::Integer(v) => Expression::Integer(*v),
        Expression::Float(t) => Expression::Float(t.clone()),
        Expression::Bool(b) => Expression::Bool(*b),
        Expression::Char(c) => Expression::Char(*c),
        Expression::String(t) => Expression::String(t.clone()),
        Expression::Identifier(t) => Expression::Identifier(t.clone()),
        Expression::BinOp { left, op, right } => {
            let l = copy_expr(left);
            let r = copy_expr(right);
            Expression::BinOp { left: Box::new(l), op: *op, right: Box::new(r) }
        },
        Expression::UnOp { op, operand } => {
            let o = copy_expr(operand);
            Expression::UnOp { op: *op, operand: Box::new(o) }
        },
        Expression::Call { ident, args } => {
            let mut v: Vec<Spanned<Expression>> = Vec::new();
            let mut j: usize = 0;
            proof {
                assert(exprs_view(args@.take(0)) =~= exprs_view(v@)) by {
                    assert(args@.take(0) =~= Seq::<Spanned<Expression>>::empty());
                }
            }
            #[verifier::loop_isolation(false)]
            while j < args.len()
                invariant
                    j <= args@.len(),
                    exprs_view(v@) == exprs_view(args@.take(j as int)),
                decreases args@.len() - j,
            {
                proof {
                    assert(decreases_to!(*e => args@[j as int]));
                }
                let a = copy_expr(&args[j]);
                proof {
                    lemma_exprs_view_push(v@, a);
                    lemma_exprs_view_push(args@.take(j as int), args@[j as int]);
                    assert(args@.take(j as int).push(args@[j as int]) =~= args@.take(j + 1));
                }
                v.push(a);
                j += 1;
            }
            proof {
                assert(args@.take(args@.len() as int) =~= args@);
            }
            Expression::Call { ident: Spanned { node: ident.node.clone(), span: ident.span }, args: v }
        },
        Expression::As { expr, ty } => {
            let x = copy_expr(expr);
            Expression::As { expr: Box::new(x), ty: Spanned { node: ty.node, span: ty.span } }
        },
    };
    Spanned { node, span: e.span }
}

/// A copy of block `b`.
fn copy_block(b: &Block) -> (r: Block)
    ensures
        block_view(r) == block_view(*b),
    decreases *b, 1nat,
{
    let mut v: Vec<Statement> = Vec::new();
    let mut j: usize = 0;
    proof {
        assert(b.stmts@.take(0) =~= Seq::<Statement>::empty());
        assert(stmts_view(v@) =~= stmts_view(b.stmts@.take(0)));
    }
    while j < b.stmts.len()
        invariant
            j <= b.stmts@.len(),
            stmts_view(v@) == stmts_view(b.stmts@.take(j as int)),
        decreases b.stmts@.len() - j,
    {
        proof {
            assert(decreases_to!(*b => b.stmts@[j as int]));
        }
        let st = copy_stmt(&b.stmts[j]);
        proof {
            lemma_stmts_view_push(v@, st);
            lemma_stmts_view_push(b.stmts@.take(j as int), b.stmts@[j as int]);
            assert(b.stmts@.take(j as int).push(b.stmts@[j as int]) =~= b.stmts@.take(j + 1));
        }
        v.push(st);
        j += 1;
    }
    proof {
        assert(b.stmts@.take(b.stmts@.len() as int) =~= b.stmts@);
    }
    Block { stmts: v }
}

/// A copy of statement `s`.
fn copy_stmt(s: &Statement) -> (r: Statement)
    ensures
        stmt_view(r) == stmt_view(*s),
    decreases *s, 0nat,
{
    match s {
        Statement::Expression(e) => Statement::Expression(copy_expr(e)),
        Statement::Var { ident, ty, val, is_const } => {
            let t = match ty {
                Some(t) => Some(Spanned { node: t.node, span: t.span }),
                None => None,
            };
            Statement::Var { ident: ident.clone(), ty: t, val: copy_expr(val), is_const: *is_const }
        },
        Statement::Assign { ident, val } => Statement::Assign {
            ident: Spanned { node: ident.node.clone(), span: ident.span },
            val: copy_expr(val),
        },
        Statement::If { condition, then_br, else_br } => {
            let c = copy_expr(condition);
            let t = copy_block(then_br);
            let e = match else_br {
                Some(b) => Some(copy_block(b)),
                None => None,
            };
            Statement::If { condition: c, then_br: t, else_br: e }
        },
        Statement::While { condition, body } => {
            let c = copy_expr(condition);
            let b = copy_block(body);
            Statement::While { condition: c, body: b }
        },
        Statement::For { ident, iterable, body } => {
            let it = copy_expr(iterable);
            let b = copy_block(body);
            Statement::For { ident: ident.clone(), iterable: it, body: b }
        },
        Statement::Continue(sp) => Statement::Continue(*sp),
        Statement::Break(sp) => Statement::Break(*sp),
        Statement::Return(e, sp) => {
            let x = match e {
                Some(x) => Some(copy_expr(x)),
                None => None,
            };
            Statement::Return(x, *sp)
        },
    }
}

/// A copy of `params`.
fn copy_params(params: &Vec<Spanned<Param>>) -> (r: Vec<Spanned<Param>>)
    ensures
        params_view(r@) == params_view(params@),
{
    let mut v: Vec<Spanned<Param>> = Vec::new();
    let mut j: usize = 0;
    while j < params.len()
        invariant
            j <= params@.len(),
            v@.len() == j,
            forall|k: int| 0 <= k < j ==> #[trigger] param_view(v@[k]) == param_view(params@[k]),
        decreases params@.len() - j,
    {
        let p = &params[j];
        v.push(Spanned {
            node: Param { name: p.node.name.clone(), ty: Spanned { node: p.node.ty.node, span: p.node.ty.span } },
            span: p.span,
        });
        j += 1;
    }
    proof {
        assert(params_view(v@) =~= params_view(params@));
    }
    v
}

/// A copy of `program`.
fn copy_program(program: &Program) -> (r: Program)
    ensures
        r@ == program@,
{
    let mut v: Vec<Item> = Vec::new();
    let mut j: usize = 0;
    while j < program.items.len()
        invariant
            j <= program.items@.len(),
            v@.len() == j,
            forall|k: int| 0 <= k < j ==> #[trigger] item_view(v@[k]) == item_view(program.items@[k]),
        decreases program.items@.len() - j,
    {
        let item = match &program.items[j] {
            Item::Function(f) => Item::Function(Function {
                name: Spanned { node: f.name.node.clone(), span: f.name.span },
                params: copy_params(&f.params),
                ret_type: Spanned { node: f.ret_type.node, span: f.ret_type.span },
                body: copy_block(&f.body),
                visibility: f.visibility,
            }),
            Item::Import(im) => Item::Import(Import { path: clone_import_path(&im.path), visibility: im.visibility }),
            Item::Extern(e) => Item::Extern(Extern {
                name: e.name.clone(),
                params: copy_params(&e.params),
                ret_type: Spanned { node: e.ret_type.node, span: e.ret_type.span },
                visibility: e.visibility,
            }),
        };
        v.push(item);
        j += 1;
    }
    proof {
        assert(items_view(v@) =~= items_view(program.items@));
    }
    Program { items: v }
}

/// The types of `params`, in order.
fn param_types_of(params: &Vec<Spanned<Param>>) -> (v: Vec<Type>)
    ensures
        v@ == param_types(params_view(params@)),
{
    let mut v: Vec<Type> = Vec::new();
    let mut i: usize = 0;
    while i < params.len()
        invariant
            i <= params@.len(),
            v@.len() == i,
            forall|j: int| 0 <= j < i ==> #[trigger] v@[j] == params@[j].node.ty.node,
        decreases params@.len() - i,
    {
        v.push(params[i].node.ty.node);
        i += 1;
    }
    proof {
        assert(v@ =~= param_types(params_view(params@)));
    }
    v
}

/// The program in `source`, read from `file`.
fn compile_module(source: String, file: String) -> (r: Result<Program, Stop>)
    ensures
        match compile_source(source@, file@) {
            Ok(p) => r matches Ok(x) && x@ == p,
            Err(e) => r matches Err(y) && y@ == e,
        },
{
    proof {
        reveal(compile_source);
    }
    let n = chars_of(&source).len();
    if n >= usize::MAX - 2 {
        return Err(Stop::Abort);
    }
    let mut lex = Lexer::new(source.clone(), file.clone());
    proof {
        assert(lex.read() =~= Seq::<crate::frontend::lexer::tokens::SpecToken>::empty());
    }
    match lex.tokenize_checked() {
        None => return Err(Stop::Abort),
        Some(Err(e)) => return Err(Stop::Report(e)),
        Some(Ok(())) => {},
    }
    let tokens = lex.into_tokens();
    let mut parse = Parser::new(tokens, source, file);
    match parse.parse_program() {
        Ok(p) => Ok(p),
        Err(e) => Err(Stop::Report(e)),
    }
}

/// Whether `path` is among the paths of `stack`.
fn stack_has(stack: &Vec<String>, path: &str) -> (r: bool)
    ensures
        r == texts_view(stack@).contains(path@),
{
    let mut i: usize = 0;
    while i < stack.len()
        invariant
            i <= stack@.len(),
            forall|j: int| 0 <= j < i ==> #[trigger] stack@[j]@ != path@,
        decreases stack@.len() - i,
    {
        if text_is(&stack[i], path) {
            proof {
                assert(texts_view(stack@)[i as int] == path@);
            }
            return true;
        }
        i += 1;
    }
    proof {
        assert forall|j: int| 0 <= j < texts_view(stack@).len() implies #[trigger] texts_view(stack@)[j] != path@ by {
            assert(texts_view(stack@)[j] == stack@[j]@);
        }
    }
    false
}

/// `target` after binding the pairs of `adds` before the `j`-th, in order.
pub open spec fn applied(target: Map<Seq<char>, usize>, adds: Seq<(Seq<char>, usize)>, j: int) -> Map<Seq<char>, usize>
    decreases j,
{
    if j <= 0 {
        target
    } else {
        applied(target, adds, j - 1).insert(adds[j - 1].0, adds[j - 1].1)
    }
}

proof fn lemma_applied(target: Map<Seq<char>, usize>, adds: Seq<(Seq<char>, usize)>, j: int)
    requires
        0 <= j <= adds.len(),
        forall|a: int, b: int| 0 <= a < b < adds.len() ==> adds[a].0 != adds[b].0,
    ensures
        forall|k: Seq<char>| #[trigger] applied(target, adds, j).contains_key(k)
            == (target.contains_key(k) || exists|t: int| 0 <= t < j && adds[t].0 == k),
        forall|t: int| 0 <= t < j ==> #[trigger] applied(target, adds, j)[adds[t].0] == adds[t].1,
        forall|k: Seq<char>| !(exists|t: int| 0 <= t < j && adds[t].0 == k) && target.contains_key(k)
            ==> #[trigger] applied(target, adds, j)[k] == target[k],
    decreases j,
{
    if j > 0 {
        lemma_applied(target, adds, j - 1);
        let prev = applied(target, adds, j - 1);
        let m = applied(target, adds, j);
        assert(m == prev.insert(adds[j - 1].0, adds[j - 1].1));
        assert forall|k: Seq<char>| #[trigger] m.contains_key(k)
            == (target.contains_key(k) || exists|t: int| 0 <= t < j && adds[t].0 == k) by {
            let b = prev.contains_key(k);
            if k == adds[j - 1].0 {
                assert(0 <= j - 1 < j && adds[j - 1].0 == k);
            } else {
                if exists|t: int| 0 <= t < j && adds[t].0 == k {
                    let t = choose|t: int| 0 <= t < j && adds[t].0 == k;
                    assert(t != j - 1);
                    assert(0 <= t < j - 1 && adds[t].0 == k);
                }
                if exists|t: int| 0 <= t < j - 1 && adds[t].0 == k {
                    let t = choose|t: int| 0 <= t < j - 1 && adds[t].0 == k;
                    assert(0 <= t < j && adds[t].0 == k);
                }
            }
        }
        assert forall|t: int| 0 <= t < j implies #[trigger] m[adds[t].0] == adds[t].1 by {
            if t < j - 1 {
                assert(adds[t].0 != adds[j - 1].0);
                assert(prev[adds[t].0] == adds[t].1);
            }
        }
        assert forall|k: Seq<char>| !(exists|t: int| 0 <= t < j && adds[t].0 == k) && target.contains_key(k)
            implies #[trigger] m[k] == target[k] by {
            assert(!(0 <= j - 1 < j && adds[j - 1].0 == k));
            if exists|t: int| 0 <= t < j - 1 && adds[t].0 == k {
                let t = choose|t: int| 0 <= t < j - 1 && adds[t].0 == k;
                assert(0 <= t < j && adds[t].0 == k);
            }
            assert(prev[k] == target[k]);
        }
    }
}

proof fn lemma_prefixed(p: Seq<char>, n: Seq<char>)
    ensures
        (p + "."@ + n).len() > p.len(),
        (p + "."@ + n).take(p.len() as int) == p,
        (p + "."@ + n)[p.len() as int] == '.',
        (p + "."@ + n).skip(p.len() + 1int) == n,
{
    reveal_strlit(".");
    assert((p + "."@ + n).take(p.len() as int) =~= p);
    assert((p + "."@ + n).skip(p.len() + 1int) =~= n);
}

proof fn lemma_unprefixed(p: Seq<char>, k: Seq<char>)
    requires
        k.len() > p.len(),
        k.take(p.len() as int) == p,
        k[p.len() as int] == '.',
    ensures
        k == p + "."@ + k.skip(p.len() + 1int),
{
    reveal_strlit(".");
    assert(k =~= p + "."@ + k.skip(p.len() + 1int));
}

// ---------------------------------------------------------------------------
// The loader.
// ---------------------------------------------------------------------------

/// `adds` binds, each once, exactly the names `prefix.n` for the public names `n` of `src`,
/// each to the symbol `src` gives `n`.
pub open spec fn public_bindings(adds: Seq<(String, usize)>, src: Map<Seq<char>, usize>, syms: Seq<SymbolView>, prefix: Seq<char>) -> bool {
    &&& forall|a: int, b: int| 0 <= a < b < adds.len() ==> adds[a].0@ != adds[b].0@
    &&& forall|k: Seq<char>| #[trigger] import_key(src, syms, prefix, k)
        ==> exists|t: int| 0 <= t < adds.len() && #[trigger] adds[t].0@ == k
    &&& forall|t: int| 0 <= t < adds.len() ==> import_key(src, syms, prefix, #[trigger] adds[t].0@)
    &&& forall|t: int| 0 <= t < adds.len() ==> #[trigger] adds[t].1 == src[adds[t].0@.skip(prefix.len() + 1int)]
}

/// The public names of `table`, each as `prefix.name` with its symbol, in the order the
/// table keeps them; `None` where a name of the table stands for no symbol.
fn public_names(table: &NameMap, symbols: &SymbolTable, prefix: &String) -> (r: Option<Vec<(String, usize)>>)
    requires
        table.wf(),
    ensures
        r is None ==> exists|n: Seq<char>| #[trigger] table@.contains_key(n) && table@[n] >= symbols.entries().len(),
        r is Some ==> forall|n: Seq<char>| #[trigger] table@.contains_key(n) ==> table@[n] < symbols.entries().len(),
        r matches Some(adds) ==> public_bindings(adds@, table@, symbols.entries(), prefix@),
{
    let ghost src = table@;
    let ghost syms = symbols.entries();
    let mut adds: Vec<(String, usize)> = Vec::new();
    let ghost mut origin: Seq<int> = Seq::empty();
    let ghost mut slot: Seq<int> = Seq::empty();
    proof {
        table.lemma_keys();
    }
    let n = table.len();
    let ghost keys = table.keys();
    let mut i: usize = 0;
    while i < n
        invariant
            table.wf(),
            table@ == src,
            syms == symbols.entries(),
            keys == table.keys(),
            n == keys.len(),
            i <= n,
            forall|j: int| 0 <= j < keys.len() ==> #[trigger] src.contains_key(keys[j]),
            forall|k: Seq<char>| #[trigger] src.contains_key(k) ==> keys.contains(k),
            forall|j: int| 0 <= j < i ==> #[trigger] src[keys[j]] < syms.len(),
            forall|a: int, b: int| 0 <= a < keys.len() && 0 <= b < keys.len() && a != b ==> keys[a] != keys[b],
            adds@.len() == origin.len(),
            slot.len() == i,
            forall|t: int| 0 <= t < adds@.len() ==> {
                &&& 0 <= #[trigger] origin[t] < i
                &&& adds@[t].0@ == prefix@ + "."@ + keys[origin[t]]
                &&& adds@[t].1 == src[keys[origin[t]]]
                &&& syms[src[keys[origin[t]]] as int].visibility == Visibility::Public
            },
            forall|a: int, b: int| 0 <= a < b < adds@.len() ==> origin[a] < origin[b],
            forall|x: int| 0 <= x < i && syms[src[keys[x]] as int].visibility == Visibility::Public
                ==> 0 <= #[trigger] slot[x] < adds@.len() && origin[slot[x]] == x,
        decreases n - i,
    {
        let (name, id) = table.entry(i);
        let visibility = match symbols.get(id) {
            Some(sym) => sym.visibility,
            None => {
                proof {
                    assert(src.contains_key(name@) && src[name@] >= syms.len());
                }
                return None;
            },
        };
        if visibility == Visibility::Public {
            let mut local = prefix.clone();
            push_str(&mut local, ".");
            push_str(&mut local, name.as_str());
            proof {
                slot = slot.push(adds@.len() as int);
                origin = origin.push(i as int);
            }
            adds.push((local, id));
        } else {
            proof {
                slot = slot.push(-1);
            }
        }
        i += 1;
    }
    proof {
        let p = prefix@;
        assert forall|k: Seq<char>| #[trigger] src.contains_key(k) implies src[k] < syms.len() by {
            let j = choose|j: int| 0 <= j < keys.len() && keys[j] == k;
            assert(src[keys[j]] < syms.len());
        }
        assert forall|a: int, b: int| 0 <= a < b < adds@.len() implies adds@[a].0@ != adds@[b].0@ by {
            lemma_prefixed(p, keys[origin[a]]);
            lemma_prefixed(p, keys[origin[b]]);
        }
        assert forall|k: Seq<char>| #[trigger] import_key(src, syms, p, k)
            implies exists|t: int| 0 <= t < adds@.len() && #[trigger] adds@[t].0@ == k by {
            let nm = k.skip(p.len() + 1int);
            let x = choose|x: int| 0 <= x < keys.len() && keys[x] == nm;
            let t = slot[x];
            lemma_unprefixed(p, k);
            assert(adds@[t].0@ == k);
        }
        assert forall|t: int| 0 <= t < adds@.len() implies import_key(src, syms, p, #[trigger] adds@[t].0@)
            && adds@[t].1 == src[adds@[t].0@.skip(p.len() + 1int)] by {
            lemma_prefixed(p, keys[origin[t]]);
        }
        assert(public_bindings(adds@, src, syms, p));
    }
    Some(adds)
}

/// Loads the modules that a program imports, declares their functions, and binds the
/// imported names.
pub struct ModuleSystem {
    context: Context,
    modules: Vec<Module>,
    loaded: NameSet,
    scopes: NameMap,
    file: String,
    source: String,
}

impl View for ModuleSystem {
    type V = LoaderView;

    closed spec fn view(&self) -> LoaderView {
        LoaderView {
            context: self.context@,
            modules: modules_view(self.modules@),
            loaded: self.loaded@,
            scopes: self.scopes@,
            file: self.file@,
            source: self.source@,
        }
    }
}

impl ModuleSystem {
    pub closed spec fn wf(&self) -> bool {
        &&& self.context.wf()
        &&& self.loaded.wf()
        &&& self.scopes.wf()
    }

    /// A loader for the program in `file`, whose text is `source`.
    pub fn new(file: String, source: String) -> (m: Self)
        ensures
            m.wf(),
            m@ == (LoaderView {
                context: initial_context(),
                modules: Seq::empty(),
                loaded: Set::empty(),
                scopes: Map::empty(),
                file: file@,
                source: source@,
            }),
    {
        let m = ModuleSystem {
            context: Context::new(),
            modules: Vec::new(),
            loaded: NameSet::new(),
            scopes: NameMap::new(),
            file,
            source,
        };
        proof {
            assert(modules_view(m.modules@) =~= Seq::<ModuleView>::empty());
        }
        m
    }

    /// The context, the modules read, and the scope of each module.
    pub fn into_parts(self) -> (r: (Context, Vec<Module>, NameMap))
        requires
            self.wf(),
        ensures
            r.0.wf(),
            r.0@ == self@.context,
            modules_view(r.1@) == self@.modules,
            r.2.wf(),
            r.2@ == self@.scopes,
    {
        (self.context, self.modules, self.scopes)
    }

    fn error(&self, span: Span, message: &str) -> (e: Error)
        ensures
            e@ == error_of(ErrorKind::Semantic, self@.file, self@.source, Diagnostic { span, message: message@, note: None }),
    {
        Error::new(ErrorKind::Semantic, self.file.as_str(), self.source.as_str(), span, message, None)
    }

    fn read_error(&self, span: Span, path: &str, reason: &String) -> (e: Stop)
        ensures
            e@ == read_error(self@.file, self@.source, span, path@, reason@),
    {
        let mut message = "An error occurred when reading module '".to_owned();
        push_str(&mut message, path);
        push_str(&mut message, "': ");
        push_str(&mut message, reason.as_str());
        Stop::Report(self.error(span, message.as_str()))
    }

    fn not_found(&self, span: Span, path: &str) -> (e: Stop)
        ensures
            e@ == not_found(self@.file, self@.source, span, path@),
    {
        let mut message = "Module '".to_owned();
        push_str(&mut message, path);
        push_str(&mut message, "' not found");
        Stop::Report(self.error(span, message.as_str()))
    }

    /// The text of module `path`, the item it names if it names one, and the file read.
    fn load_source(&self, files: &ModuleFiles, path: &str, span: Span) -> (r: Result<(String, Option<String>, String), Stop>)
        requires
            files.wf(),
        ensures
            match source_of(files@, path@, span, self@.file, self@.source) {
                Ok(sv) => r matches Ok(x) && x.0@ == sv.source && opt_text(x.1) == sv.item && x.2@ == sv.file,
                Err(e) => r matches Err(y) && y@ == e,
            },
            r matches Ok(x) && x.1 is Some ==> last_dot(path@) >= 0,
    {
        proof {
            reveal(source_of);
        }
        match files.get(path) {
            None => Err(Stop::Need(path.to_owned())),
            Some(ModuleFile::Text { file, source }) => Ok((source.clone(), None, file.clone())),
            Some(ModuleFile::Unreadable(reason)) => Err(self.read_error(span, path, reason)),
            Some(ModuleFile::Absent) => match split_last(path) {
                None => Err(self.not_found(span, path)),
                Some((parent, name)) => match files.get(parent.as_str()) {
                    None => Err(Stop::Need(parent)),
                    Some(ModuleFile::Text { file, source }) => Ok((source.clone(), Some(name), file.clone())),
                    Some(ModuleFile::Unreadable(reason)) => Err(self.read_error(span, path, reason)),
                    Some(ModuleFile::Absent) => Err(self.not_found(span, path)),
                },
            },
        }
    }

    /// Declares the functions and externs of `items` as functions of module `module`.
    fn declare_items(&mut self, items: &Vec<Item>, module: &str)
        requires
            old(self).wf(),
        ensures
            final(self).wf(),
            old(self)@.context.scopes.len() <= final(self)@.context.scopes.len(),
            final(self)@ == (LoaderView { context: declare_items(old(self)@.context, items_view(items@), module@, 0), ..old(self)@ }),
    {
        let ghost iv = items_view(items@);
        let ghost c0 = self@.context;
        let mut i: usize = 0;
        while i < items.len()
            invariant
                self.wf(),
                i <= items@.len(),
                iv == items_view(items@),
                self@ == (LoaderView { context: self@.context, ..old(self)@ }),
                old(self)@.context.scopes.len() <= self@.context.scopes.len(),
                declare_items(c0, iv, module@, 0) == declare_items(self@.context, iv, module@, i as int),
            decreases items@.len() - i,
        {
            match &items[i] {
                Item::Extern(ext) => {
                    let mut mangled = module.to_owned();
                    push_str(&mut mangled, ".");
                    push_str(&mut mangled, ext.name.as_str());
                    let params = param_types_of(&ext.params);
                    self.context.add_func(ext.name.as_str(), mangled.as_str(), params, ext.ret_type.node, ext.visibility, module);
                },
                Item::Function(func) => {
                    let mut mangled = module.to_owned();
                    push_str(&mut mangled, ".");
                    push_str(&mut mangled, func.name.node.as_str());
                    let params = param_types_of(&func.params);
                    self.context.add_func(func.name.node.as_str(), mangled.as_str(), params, func.ret_type.node, func.visibility, module);
                },
                Item::Import(_) => {},
            }
            i += 1;
        }
    }

    /// Binds `alias` (else `name`) to the function `name` of module `path`.
    fn import_single(&mut self, path: &str, name: &str, alias: Option<&str>, span: Span) -> (r: Result<(), Stop>)
        requires
            old(self).wf(),
        ensures
            final(self).wf(),
            old(self)@.context.scopes.len() <= final(self)@.context.scopes.len(),
            final(self)@ == import_single(old(self)@, path@, name@, opt_str_view(alias), span).0,
            match import_single(old(self)@, path@, name@, opt_str_view(alias), span).1 {
                Ok(()) => r is Ok,
                Err(x) => r matches Err(y) && y@ == x,
            },
    {
        let mut mangled = path.to_owned();
        push_str(&mut mangled, ".");
        push_str(&mut mangled, name);
        let found = match self.context.get_func(mangled.as_str()) {
            Some(sym) => Some((sym.id, sym.visibility)),
            None => match self.context.get_func(name) {
                Some(sym) => Some((sym.id, sym.visibility)),
                None => None,
            },
        };
        match found {
            None => {
                let mut message = "Item '".to_owned();
                push_str(&mut message, name);
                push_str(&mut message, "' not found in module '");
                push_str(&mut message, path);
                push_str(&mut message, "'");
                proof {
                    assert(message@ =~= "Item '"@ + name@ + "' not found in module '"@ + path@ + "'"@);
                }
                Err(Stop::Report(self.error(span, message.as_str())))
            },
            Some((id, visibility)) => {
                if visibility != Visibility::Public {
                    let mut message = "Imported item '".to_owned();
                    push_str(&mut message, name);
                    push_str(&mut message, "' is private");
                    return Err(Stop::Report(self.error(span, message.as_str())));
                }
                let local = match alias {
                    Some(a) => a,
                    None => name,
                };
                let cur = self.context.current_scope;
                self.context.scopes.add_symbol(cur, local, id);
                Ok(())
            },
        }
    }

    /// Loads module `path` and binds its public functions under `alias`, else under the
    /// last segment of `path`.
    fn import_all(&mut self, files: &ModuleFiles, path: &str, alias: Option<&str>, span: Span, stack: &mut Vec<String>) -> (r: Result<(), Stop>)
        requires
            old(self).wf(),
            files.wf(),
        ensures
            final(self).wf(),
            old(self)@.context.scopes.len() <= final(self)@.context.scopes.len(),
            final(self)@ == import_all(old(self)@, files@, path@, opt_str_view(alias), span, texts_view(old(stack)@)).0,
            match import_all(old(self)@, files@, path@, opt_str_view(alias), span, texts_view(old(stack)@)).1 {
                Ok(()) => r is Ok,
                Err(x) => r matches Err(y) && y@ == x,
            },
            r is Ok ==> final(stack)@ == old(stack)@,
        decreases files@.dom().len() - old(stack)@.len(), 1int, 0int,
    {
        self.load_module(files, path, span, stack)?;
        let ghost m1 = self@;
        let scope = match self.scopes.get(path) {
            Some(s) => s,
            None => return Err(Stop::Abort),
        };
        if scope >= self.context.scopes.scopes.len() {
            return Err(Stop::Abort);
        }
        let prefix = match alias {
            Some(a) => a.to_owned(),
            None => last_segment_of(path),
        };
        let ghost src = m1.context.scopes[scope as int].symbols;
        let ghost syms = m1.context.symbols;
        let adds = match public_names(&self.context.scopes.scopes[scope].symbols, &self.context.symbols, &prefix) {
            Some(a) => a,
            None => return Err(Stop::Abort),
        };
        let cur = self.context.current_scope;
        let ghost target = m1.context.scopes[cur as int].symbols;
        let ghost av = adds@.map_values(|a: (String, usize)| (a.0@, a.1));
        proof {
            assert(m1.context.scopes.update(cur as int, ScopeView { symbols: applied(target, av, 0), ..m1.context.scopes[cur as int] })
                =~= m1.context.scopes);
        }
        let mut j: usize = 0;
        while j < adds.len()
            invariant
                self.wf(),
                cur == self.context.current_scope,
                cur < m1.context.scopes.len(),
                j <= adds@.len(),
                av == adds@.map_values(|a: (String, usize)| (a.0@, a.1)),
                self@.context == (ContextView {
                    scopes: m1.context.scopes.update(cur as int, ScopeView { symbols: applied(target, av, j as int), ..m1.context.scopes[cur as int] }),
                    ..m1.context
                }),
                self@ == (LoaderView { context: self@.context, ..m1 }),
            decreases adds@.len() - j,
        {
            self.context.scopes.add_symbol(cur, adds[j].0.as_str(), adds[j].1);
            proof {
                assert(self@.context.scopes =~= m1.context.scopes.update(
                    cur as int,
                    ScopeView { symbols: applied(target, av, j + 1), ..m1.context.scopes[cur as int] },
                ));
            }
            j += 1;
        }
        proof {
            let p = prefix@;
            lemma_applied(target, av, av.len() as int);
            let w = with_imports(target, src, syms, p);
            let ap = applied(target, av, av.len() as int);
            assert forall|k: Seq<char>| #[trigger] w.contains_key(k) == ap.contains_key(k) by {
                if import_key(src, syms, p, k) {
                    let t = choose|t: int| 0 <= t < adds@.len() && adds@[t].0@ == k;
                    assert(av[t].0 == k);
                }
                if exists|t: int| 0 <= t < av.len() && av[t].0 == k {
                    let t = choose|t: int| 0 <= t < av.len() && av[t].0 == k;
                    assert(adds@[t].0@ == k);
                }
            }
            assert forall|k: Seq<char>| w.contains_key(k) implies #[trigger] w[k] == ap[k] by {
                if import_key(src, syms, p, k) {
                    let t = choose|t: int| 0 <= t < adds@.len() && adds@[t].0@ == k;
                    assert(av[t].0 == k);
                    assert(ap[av[t].0] == av[t].1);
                } else {
                    if exists|t: int| 0 <= t < av.len() && av[t].0 == k {
                        let t = choose|t: int| 0 <= t < av.len() && av[t].0 == k;
                        assert(adds@[t].0@ == k);
                    }
                }
            }
            assert(w =~= ap);
            assert(self@.context == import_public(m1.context, src, p));
        }
        Ok(())
    }

    /// Loads module `path` and what it imports, unless it is done.
    fn load_module(&mut self, files: &ModuleFiles, path: &str, span: Span, stack: &mut Vec<String>) -> (r: Result<(), Stop>)
        requires
            old(self).wf(),
            files.wf(),
        ensures
            final(self).wf(),
            old(self)@.context.scopes.len() <= final(self)@.context.scopes.len(),
            final(self)@ == load_module(old(self)@, files@, path@, span, texts_view(old(stack)@)).0,
            match load_module(old(self)@, files@, path@, span, texts_view(old(stack)@)).1 {
                Ok(()) => r is Ok,
                Err(x) => r matches Err(y) && y@ == x,
            },
            r is Ok ==> final(stack)@ == old(stack)@,
        decreases files@.dom().len() - old(stack)@.len(), 0int, 0int,
    {
        if self.loaded.contains(path) {
            return Ok(());
        }
        if stack_has(stack, path) {
            return Err(Stop::Abort);
        }
        let (source, item, file) = self.load_source(files, path, span)?;
        if stack.len() >= files.len() {
            return Err(Stop::Abort);
        }
        stack.push(path.to_owned());
        proof {
            lemma_texts_view_push(old(stack)@, stack@.last());
        }
        match item {
            Some(name) => self.load_item(files, path, name.as_str(), span, stack)?,
            None => self.load_file(files, path, source, file, span, stack)?,
        }
        stack.pop();
        proof {
            assert(stack@ =~= old(stack)@);
        }
        Ok(())
    }

    /// Loads the module that contains item `name` named by `path`, and binds the item.
    fn load_item(&mut self, files: &ModuleFiles, path: &str, name: &str, span: Span, stack: &mut Vec<String>) -> (r: Result<(), Stop>)
        requires
            old(self).wf(),
            files.wf(),
            old(stack)@.len() <= files@.dom().len(),
            last_dot(path@) >= 0,
        ensures
            final(self).wf(),
            old(self)@.context.scopes.len() <= final(self)@.context.scopes.len(),
            final(self)@ == load_item(old(self)@, files@, path@, name@, span, texts_view(old(stack)@)).0,
            match load_item(old(self)@, files@, path@, name@, span, texts_view(old(stack)@)).1 {
                Ok(()) => r is Ok,
                Err(x) => r matches Err(y) && y@ == x,
            },
            r is Ok ==> final(stack)@ == old(stack)@,
        decreases files@.dom().len() - old(stack)@.len(), 4int, 0int,
    {
        let parent = match split_last(path) {
            Some((p, _)) => p,
            None => return Err(Stop::Abort),
        };
        self.load_module(files, parent.as_str(), span, stack)?;
        self.import_single(parent.as_str(), name, None, span)?;
        self.loaded.insert(parent);
        Ok(())
    }

    /// Compiles module `path` from `source`, declares its functions and resolves its imports.
    fn load_file(&mut self, files: &ModuleFiles, path: &str, source: String, file: String, span: Span, stack: &mut Vec<String>) -> (r: Result<(), Stop>)
        requires
            old(self).wf(),
            files.wf(),
            old(stack)@.len() <= files@.dom().len(),
        ensures
            final(self).wf(),
            old(self)@.context.scopes.len() <= final(self)@.context.scopes.len(),
            final(self)@ == load_file(old(self)@, files@, path@, SourceView { source: source@, item: None, file: file@ }, span, texts_view(old(stack)@)).0,
            match load_file(old(self)@, files@, path@, SourceView { source: source@, item: None, file: file@ }, span, texts_view(old(stack)@)).1 {
                Ok(()) => r is Ok,
                Err(x) => r matches Err(y) && y@ == x,
            },
            r is Ok ==> final(stack)@ == old(stack)@,
        decreases files@.dom().len() - old(stack)@.len(), 4int, 0int,
    {
        let ghost src = SourceView { source: source@, item: None, file: file@ };
        let ast = compile_module(source.clone(), file.clone())?;
        let imports = import_list(&ast.items);
        let old_scope = self.context.current_scope;
        let scope = self.context.scopes.add_scope(None, ScopeKind::Module);
        self.context.current_scope = scope;
        self.scopes.insert(path.to_owned(), scope);
        self.declare_items(&ast.items, path);
        let ghost before = self.modules@;
        let ghost ast_view = ast@;
        self.modules.push(Module { path: path.to_owned(), program: ast, file, source });
        proof {
            lemma_import_paths_view_index(imports@);
            assert(modules_view(self.modules@) =~= modules_view(before).push(
                ModuleView { path: path@, program: ast_view, file: src.file, source: src.source },
            ));
            assert(self@ == enter_module(old(self)@, path@, src, compile_source(src.source, src.file)->Ok_0));
        }
        let ghost m1 = self@;
        let ghost iv = import_paths_view(imports@);
        let ghost st = texts_view(stack@);
        let mut i: usize = 0;
        #[verifier::loop_isolation(false)]
        while i < imports.len()
            invariant
                self.wf(),
                files.wf(),
                i <= imports@.len(),
                stack@ == old(stack)@,
                old(self)@.context.scopes.len() < self@.context.scopes.len(),
                st == texts_view(old(stack)@),
                old(stack)@.len() <= files@.dom().len(),
                iv == import_paths_view(imports@),
                iv.len() == imports@.len(),
                forall|j: int| 0 <= j < iv.len() ==> #[trigger] iv[j] == import_path_view(imports@[j]),
                resolve_imports(m1, files@, iv, 0, st) == resolve_imports(self@, files@, iv, i as int, st),
            decreases imports@.len() - i,
        {
            self.resolve_import(files, &imports[i], stack)?;
            i += 1;
        }
        self.context.current_scope = old_scope;
        self.loaded.insert(path.to_owned());
        Ok(())
    }

    /// Resolves one import of the module being loaded.
    fn resolve_import(&mut self, files: &ModuleFiles, imp: &ImportPath, stack: &mut Vec<String>) -> (r: Result<(), Stop>)
        requires
            old(self).wf(),
            files.wf(),
        ensures
            final(self).wf(),
            old(self)@.context.scopes.len() <= final(self)@.context.scopes.len(),
            final(self)@ == resolve_import(old(self)@, files@, import_path_view(*imp), texts_view(old(stack)@)).0,
            match resolve_import(old(self)@, files@, import_path_view(*imp), texts_view(old(stack)@)).1 {
                Ok(()) => r is Ok,
                Err(x) => r matches Err(y) && y@ == x,
            },
            r is Ok ==> final(stack)@ == old(stack)@,
        decreases files@.dom().len() - old(stack)@.len(), 2int, 0int,
    {
        let path = join_path(&imp.path.node);
        let span = imp.path.span;
        let alias: Option<&str> = match &imp.alias {
            Some(a) => Some(a.as_str()),
            None => None,
        };
        if imp.items.len() == 0 {
            let (_, item, _) = self.load_source(files, path.as_str(), span)?;
            match item {
                None => self.import_all(files, path.as_str(), alias, span, stack),
                Some(_) => {
                    let (parent, name) = match split_last(path.as_str()) {
                        Some(x) => x,
                        None => return Err(Stop::Abort),
                    };
                    let r1 = self.load_module(files, parent.as_str(), span, stack);
                    if r1.is_err() {
                        proof {
                            let pv = import_path_view(*imp);
                            assert(join_dotted(pv.path.node) == path@);
                            assert(parent@ == parent_path(path@));
                            assert(self@ == load_module(old(self)@, files@, parent@, span, texts_view(old(stack)@)).0);
                            assert(resolve_import(old(self)@, files@, pv, texts_view(old(stack)@)).0
                                == load_module(old(self)@, files@, parent@, span, texts_view(old(stack)@)).0);
                        }
                        return r1;
                    }
                    self.import_single(parent.as_str(), name.as_str(), alias, span)?;
                    self.loaded.insert(path);
                    Ok(())
                },
            }
        } else {
            self.load_module(files, path.as_str(), span, stack)?;
            self.import_items(path, &imp.items)
        }
    }

    /// Binds the items of an import list from module `path`.
    fn import_items(&mut self, path: String, items: &Vec<ImportPath>) -> (r: Result<(), Stop>)
        requires
            old(self).wf(),
        ensures
            final(self).wf(),
            old(self)@.context.scopes.len() <= final(self)@.context.scopes.len(),
            final(self)@ == import_items(old(self)@, path@, import_paths_view(items@), 0).0,
            match import_items(old(self)@, path@, import_paths_view(items@), 0).1 {
                Ok(()) => r is Ok,
                Err(x) => r matches Err(y) && y@ == x,
            },
    {
        let ghost m1 = self@;
        let ghost iv = import_paths_view(items@);
        proof {
            lemma_import_paths_view_index(items@);
        }
        let mut i: usize = 0;
        #[verifier::loop_isolation(false)]
        while i < items.len()
            invariant
                self.wf(),
                i <= items@.len(),
                iv == import_paths_view(items@),
                iv.len() == items@.len(),
                forall|j: int| 0 <= j < iv.len() ==> #[trigger] iv[j] == import_path_view(items@[j]),
                import_items(m1, path@, iv, 0) == import_items(self@, path@, iv, i as int),
                m1.context.scopes.len() <= self@.context.scopes.len(),
            decreases items@.len() - i,
        {
            let item = &items[i];
            let name = join_path(&item.path.node);
            let item_alias: Option<&str> = match &item.alias {
                Some(a) => Some(a.as_str()),
                None => None,
            };
            self.import_single(path.as_str(), name.as_str(), item_alias, item.path.span)?;
            self.loaded.insert(path.clone());
            i += 1;
        }
        Ok(())
    }

    /// Declares the functions of the main program and resolves its imports, with what
    /// `files` knows of the module files; then records the main program, from `file`
    /// with text `source`, as the last module read, and as done.
    pub fn register_main(&mut self, program: &Program, file: String, source: String, files: &ModuleFiles) -> (r: Result<(), Stop>)
        requires
            old(self).wf(),
            files.wf(),
        ensures
            final(self).wf(),
            final(self)@ == register_main(old(self)@, files@, program@, file@, source@).0,
            match register_main(old(self)@, files@, program@, file@, source@).1 {
                Ok(()) => r is Ok,
                Err(x) => r matches Err(y) && y@ == x,
            },
    {
        proof {
            reveal(register_main);
        }
        self.declare_items(&program.items, "main");
        let imports = import_list(&program.items);
        let mut stack: Vec<String> = Vec::new();
        let ghost m1 = self@;
        let ghost iv = import_paths_view(imports@);
        proof {
            lemma_import_paths_view_index(imports@);
            assert(texts_view(stack@) =~= Seq::<Seq<char>>::empty());
        }
        let mut i: usize = 0;
        #[verifier::loop_isolation(false)]
        while i < imports.len()
            invariant
                self.wf(),
                files.wf(),
                i <= imports@.len(),
                stack@.len() == 0,
                texts_view(stack@) == Seq::<Seq<char>>::empty(),
                iv == import_paths_view(imports@),
                iv.len() == imports@.len(),
                forall|j: int| 0 <= j < iv.len() ==> #[trigger] iv[j] == import_path_view(imports@[j]),
                resolve_imports(m1, files@, iv, 0, Seq::empty()) == resolve_imports(self@, files@, iv, i as int, Seq::empty()),
            decreases imports@.len() - i,
        {
            self.resolve_import(files, &imports[i], &mut stack)?;
            i += 1;
        }
        let main = Module { path: "main".to_owned(), program: copy_program(program), file, source };
        proof {
            reveal_strlit("main");
            assert(modules_view(self.modules@.push(main)) =~= modules_view(self.modules@).push(main@));
        }
        self.modules.push(main);
        self.loaded.insert("main".to_owned());
        Ok(())
    }
}

// ---------------------------------------------------------------------------
// Laws of module loading.
// ---------------------------------------------------------------------------

/// Loading a module that is done changes nothing.
pub proof fn law_load_done(m: LoaderView, files: Map<Seq<char>, ModuleFileView>, path: Seq<char>, span: Span, stack: Seq<Seq<char>>)
    requires
        m.loaded.contains(path),
    ensures
        load_module(m, files, path, span, stack) == (m, Ok::<(), StopView>(())),
{
}

/// A module loaded without error is done afterwards, so it is never read twice; where
/// the path names an item of a module, that module is done.
pub proof fn law_loaded_after_load(m: LoaderView, files: Map<Seq<char>, ModuleFileView>, path: Seq<char>, span: Span, stack: Seq<Seq<char>>)
    requires
        load_module(m, files, path, span, stack).1 is Ok,
    ensures
        load_module(m, files, path, span, stack).0.loaded.contains(path)
            || load_module(m, files, path, span, stack).0.loaded.contains(parent_path(path)),
{
}

/// The stack of modules under way is shorter than the number of module files whenever
/// it holds only paths read from them, none twice, and a path that can be read is not on
/// it: there the test of the stack's length in `load_module` does not stop loading.
pub proof fn lemma_stack_short(files: Map<Seq<char>, ModuleFileView>, path: Seq<char>, span: Span, file: Seq<char>, source: Seq<char>, stack: Seq<Seq<char>>)
    requires
        files.dom().finite(),
        stack.no_duplicates(),
        forall|i: int| 0 <= i < stack.len() ==> files.contains_key(#[trigger] stack[i]),
        !stack.contains(path),
        source_of(files, path, span, file, source) is Ok,
    ensures
        stack.len() < files.dom().len(),
{
    reveal(source_of);
    stack.unique_seq_to_set();
    assert(stack.to_set().subset_of(files.dom().remove(path))) by {
        assert forall|x: Seq<char>| stack.to_set().contains(x) implies files.dom().remove(path).contains(x) by {
            let i = choose|i: int| 0 <= i < stack.len() && stack[i] == x;
            assert(files.contains_key(stack[i]));
        }
    }
    vstd::set_lib::lemma_len_subset(stack.to_set(), files.dom().remove(path));
}

/// Meeting a module again while it is being loaded, through a cycle of imports, stops
/// the analysis.
pub proof fn law_import_cycle(m: LoaderView, files: Map<Seq<char>, ModuleFileView>, path: Seq<char>, span: Span, stack: Seq<Seq<char>>)
    requires
        !m.loaded.contains(path),
        stack.contains(path),
    ensures
        load_module(m, files, path, span, stack) == (m, Err::<(), StopView>(StopView::Abort)),
{
}

/// Importing one item binds, in the current scope, the name it is imported as (its alias,
/// else its own name) to the function of that module with that name (else to the
/// function of that full name), and only where that function is public.
pub proof fn law_import_binds_public_item(m: LoaderView, path: Seq<char>, name: Seq<char>, alias: Option<Seq<char>>, span: Span)
    requires
        0 <= m.context.current < m.context.scopes.len(),
    ensures
        import_single(m, path, name, alias, span).1 is Ok ==> {
            let r = import_single(m, path, name, alias, span).0;
            let local = match alias {
                Some(a) => a,
                None => name,
            };
            let sym = match m.context.func(mangle(path, name)) {
                Some(f) => f,
                None => m.context.func(name)->0,
            };
            &&& m.context.func(mangle(path, name)) is Some || m.context.func(name) is Some
            &&& sym.visibility == Visibility::Public
            &&& r.context.scopes[m.context.current].symbols.contains_key(local)
            &&& r.context.scopes[m.context.current].symbols[local] == sym.id
        },
{
}

} // verus!
