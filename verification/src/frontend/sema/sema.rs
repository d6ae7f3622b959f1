use vstd::prelude::*;
use crate::frontend::errors::errors::{Error, ErrorKind, ErrorView, Diagnostic, error_of, opt_str_view};
use crate::frontend::errors::span::{Span, Spanned};
use crate::frontend::parser::ast::{
    Type, Visibility, BinOp, Block, Statement, Expression, Extern, Function, Param, Program, Item,
    SpecExpression, SpecStatement, SpecBlock, SpecParam, SpecFunction, SpecExtern, SpecItem, SpecProgram,
    items_view,
    expr_view, exprs_view, sexpr_view, stmt_view, stmts_view, block_view, param_view, params_view,
    spanned_text,
};
use crate::frontend::sema::context::{Context, ContextView, initial_context, law_declared_visible};
use crate::frontend::sema::scopes::ScopeKind;
use crate::frontend::sema::typed_ast::{
    TypedExpression, TypedStatement, TypedBlock, TypedParam, TypedFunction, TypedExtern, TypedItem, TypedProgram,
    SpecTypedExpression, SpecTypedStatement, SpecTypedBlock, SpecTypedParam, SpecTypedFunction,
    SpecTypedExtern, SpecTypedItem, SpecTypedProgram, titem_view, titems_view, texpr_view, texprs_view, stexpr_view, stexpr_opt_view, tstmt_view, tstmts_view,
    tblock_view, tparam_view, tparams_view, type_of,
};
use crate::frontend::sema::modules::{ModuleSystem, ModuleFiles, ModuleFileView, ModuleView, LoaderView, Module, register_main, modules_view};
use crate::frontend::sema::names::NameMap;
use crate::frontend::text::{push_str, push_decimal, decimal, text_is};

verus! {

// ---------------------------------------------------------------------------
// Why an analysis stops.
// ---------------------------------------------------------------------------

/// Why an analysis ended without a result.
#[derive(Debug)]
pub enum Stop {
    /// The program has an error.
    Report(Error),
    /// The analysis cannot go on: it met a `for` loop, a function that was never
    /// declared, a cycle of imports, or an integer literal of an imported module that
    /// does not fit in `i64`.
    Abort,
    /// The analysis needs to know about the module file of this dotted path.
    Need(String),
}

/// The mathematical model of a [`Stop`].
pub enum StopView {
    Report(ErrorView),
    Abort,
    Need(Seq<char>),
}

impl View for Stop {
    type V = StopView;

    open spec fn view(&self) -> StopView {
        match *self {
            Stop::Report(e) => StopView::Report(e@),
            Stop::Abort => StopView::Abort,
            Stop::Need(p) => StopView::Need(p@),
        }
    }
}

// ---------------------------------------------------------------------------
// The analysis of a function body, stated over views.
// ---------------------------------------------------------------------------

/// What the analysis of a function body knows: the context, the function and module
/// it is in, and the file and text that its errors refer to.
pub struct SemaView {
    pub context: ContextView,
    pub func: Option<Seq<char>>,
    pub module: Option<Seq<char>>,
    pub file: Seq<char>,
    pub source: Seq<char>,
}

pub open spec fn sem_error(s: SemaView, span: Span, message: Seq<char>, note: Option<Seq<char>>) -> StopView {
    StopView::Report(error_of(ErrorKind::Semantic, s.file, s.source, Diagnostic { span, message, note }))
}

/// The type of an integer literal where `expected` is wanted: that type if it is an
/// integer type, else `i32`.
pub open spec fn integer_type(expected: Option<Type>) -> Type {
    match expected {
        Some(t) => if matches!(t, Type::I64 | Type::U64 | Type::I32 | Type::U32 | Type::I16 | Type::U16 | Type::I8 | Type::U8) {
            t
        } else {
            Type::I32
        },
        None => Type::I32,
    }
}

/// The type of a float literal where `expected` is wanted: that type if it is a float
/// type, else `f64`.
pub open spec fn float_type(expected: Option<Type>) -> Type {
    match expected {
        Some(Type::F32) => Type::F32,
        _ => Type::F64,
    }
}

/// The type of a binary operation whose left operand has type `left`.
pub open spec fn binop_type(op: BinOp, left: Type) -> Type {
    if matches!(op, BinOp::Plus | BinOp::Minus | BinOp::Multiply | BinOp::Divide) {
        left
    } else {
        Type::Bool
    }
}

/// Whether a function with these parameter types takes any number of further arguments.
pub open spec fn is_var_args(params: Seq<Type>) -> bool {
    params.len() > 0 && params[params.len() - 1] == Type::Ellipsis
}

/// The number of arguments that a function with these parameter types needs at least.
pub open spec fn param_count(params: Seq<Type>) -> int {
    if is_var_args(params) {
        params.len() - 1
    } else {
        params.len() as int
    }
}

pub open spec fn spanned_opt_node(t: Option<Spanned<Type>>) -> Option<Type> {
    match t {
        Some(t) => Some(t.node),
        None => None,
    }
}

/// `p` followed by what `r` holds, or the stop of `r`.
pub open spec fn prepend<T>(p: Seq<T>, r: Result<Seq<T>, StopView>) -> Result<Seq<T>, StopView> {
    match r {
        Ok(rest) => Ok(p + rest),
        Err(x) => Err(x),
    }
}

/// The analysis of expression `e` where a value of type `expected` is wanted.
pub open spec fn sem_expr(s: SemaView, e: Spanned<SpecExpression>, expected: Option<Type>) -> Result<Spanned<SpecTypedExpression>, StopView>
    decreases e, 0nat,
{
    match e.node {
        SpecExpression::Integer(val) => Ok(Spanned { node: SpecTypedExpression::Integer { val, ty: integer_type(expected) }, span: e.span }),
        SpecExpression::Float(val) => Ok(Spanned { node: SpecTypedExpression::Float { val, ty: float_type(expected) }, span: e.span }),
        SpecExpression::Bool(b) => Ok(Spanned { node: SpecTypedExpression::Bool(b), span: e.span }),
        SpecExpression::Char(c) => Ok(Spanned { node: SpecTypedExpression::Char(c), span: e.span }),
        SpecExpression::String(t) => Ok(Spanned { node: SpecTypedExpression::String(t), span: e.span }),
        SpecExpression::Identifier(name) => match s.context.var(name) {
            Some(sym) => Ok(Spanned { node: SpecTypedExpression::Identifier { name, ty: sym.ty, symbol: sym.id }, span: e.span }),
            None => Err(sem_error(s, e.span, "Undefined variable '"@ + name + "'"@, None)),
        },
        SpecExpression::BinOp { left, op, right } => match sem_expr(s, *left, expected) {
            Err(x) => Err(x),
            Ok(l) => match sem_expr(s, *right, Some(type_of(l.node))) {
                Err(x) => Err(x),
                Ok(r) => Ok(Spanned {
                    node: SpecTypedExpression::BinOp { left: Box::new(l), op, right: Box::new(r), ty: binop_type(op, type_of(l.node)) },
                    span: e.span,
                }),
            },
        },
        SpecExpression::UnOp { op, operand } => match sem_expr(s, *operand, expected) {
            Err(x) => Err(x),
            Ok(o) => Ok(Spanned { node: SpecTypedExpression::UnOp { op, operand: Box::new(o), ty: type_of(o.node) }, span: e.span }),
        },
        SpecExpression::Call { ident, args } => match s.module {
            None => Err(StopView::Abort),
            Some(m) => match s.context.find_func(ident.node, m) {
                None => Err(sem_error(s, ident.span, "Undefined function '"@ + ident.node + "'"@, None)),
                Some(f) => {
                    let count = param_count(f.params);
                    if args.len() < count || (!is_var_args(f.params) && args.len() > count) {
                        Err(sem_error(
                            s,
                            ident.span,
                            "Function "@ + ident.node + " takes "@ + decimal(count as nat) + " args, but gets "@ + decimal(args.len()),
                            None,
                        ))
                    } else {
                        match sem_args(s, args, f.params, count, 0) {
                            Err(x) => Err(x),
                            Ok(targs) => Ok(Spanned {
                                node: SpecTypedExpression::Call { ident, mangled: f.mangled, ty: f.ty, symbol: f.id, args: targs },
                                span: e.span,
                            }),
                        }
                    }
                },
            },
        },
        SpecExpression::As { expr, ty } => match sem_expr(s, *expr, expected) {
            Err(x) => Err(x),
            Ok(x) => Ok(Spanned { node: SpecTypedExpression::As { expr: Box::new(x), ty }, span: e.span }),
        },
    }
}

/// The analysis of the arguments of a call from the `i`-th on, in order: the `k`-th
/// is wanted of the `k`-th parameter type while `k < count`.
pub open spec fn sem_args(s: SemaView, args: Seq<Spanned<SpecExpression>>, params: Seq<Type>, count: int, i: int) -> Result<Seq<Spanned<SpecTypedExpression>>, StopView>
    decreases args, args.len() - i + 1,
{
    if i < 0 || i >= args.len() {
        Ok(Seq::empty())
    } else {
        match sem_expr(s, args[i], if i < count { Some(params[i]) } else { None }) {
            Err(x) => Err(x),
            Ok(t) => prepend(seq![t], sem_args(s, args, params, count, i + 1)),
        }
    }
}

/// The analysis of statement `st`: the context after it, and its result.
pub open spec fn sem_stmt(s: SemaView, st: SpecStatement) -> (ContextView, Result<SpecTypedStatement, StopView>)
    decreases st, 0nat,
{
    match st {
        SpecStatement::Expression(e) => (s.context, match sem_expr(s, e, None) {
            Ok(t) => Ok(SpecTypedStatement::Expression(t)),
            Err(x) => Err(x),
        }),
        SpecStatement::Var { ident, ty, val, is_const } => match sem_expr(s, val, spanned_opt_node(ty)) {
            Err(x) => (s.context, Err(x)),
            Ok(tv) => {
                let vt = match ty {
                    Some(t) => t,
                    None => Spanned { node: type_of(tv.node), span: tv.span },
                };
                (s.context.add_var(ident, vt.node, !is_const), Ok(SpecTypedStatement::Var { ident, ty: vt, val: tv, is_const }))
            },
        },
        SpecStatement::Assign { ident, val } => match s.context.var(ident.node) {
            None => (s.context, Err(sem_error(s, ident.span, "Undefined variable '"@ + ident.node + "'"@, None))),
            Some(sym) => if !sym.mutable {
                (s.context, Err(sem_error(s, ident.span, "Assign to const '"@ + ident.node + "'"@, None)))
            } else {
                match sem_expr(s, val, Some(sym.ty)) {
                    Err(x) => (s.context, Err(x)),
                    Ok(tv) => (s.context, Ok(SpecTypedStatement::Assign { ident, val: tv, symbol: sym.id, var_ty: sym.ty })),
                }
            },
        },
        SpecStatement::If { condition, then_br, else_br } => {
            let (c1, te) = match else_br {
                Some(b) => {
                    let (c, r) = sem_block(s, b);
                    (c, match r {
                        Ok(tb) => Ok(Some(tb)),
                        Err(x) => Err(x),
                    })
                },
                None => (s.context, Ok(None)),
            };
            match te {
                Err(x) => (c1, Err(x)),
                Ok(teo) => {
                    let s1 = SemaView { context: c1, ..s };
                    match sem_expr(s1, condition, None) {
                        Err(x) => (c1, Err(x)),
                        Ok(tc) => {
                            let (c2, tt) = sem_block(s1, then_br);
                            match tt {
                                Err(x) => (c2, Err(x)),
                                Ok(tb) => (c2, Ok(SpecTypedStatement::If { condition: tc, then_br: tb, else_br: teo })),
                            }
                        },
                    }
                },
            }
        },
        SpecStatement::While { condition, body } => {
            let (c2, tb) = sem_block(SemaView { context: s.context.push_scope(ScopeKind::Loop), ..s }, body);
            match tb {
                Err(x) => (c2, Err(x)),
                Ok(b) => {
                    let c3 = c2.pop_scope();
                    match sem_expr(SemaView { context: c3, ..s }, condition, None) {
                        Err(x) => (c3, Err(x)),
                        Ok(tc) => (c3, Ok(SpecTypedStatement::While { condition: tc, body: b })),
                    }
                },
            }
        },
        SpecStatement::For { .. } => (s.context, Err(StopView::Abort)),
        SpecStatement::Continue(sp) => if s.context.in_loop() {
            (s.context, Ok(SpecTypedStatement::Continue(sp)))
        } else {
            (s.context, Err(sem_error(s, sp, "Continue outside of loop"@, Some("Remove the continue statement"@))))
        },
        SpecStatement::Break(sp) => if s.context.in_loop() {
            (s.context, Ok(SpecTypedStatement::Break(sp)))
        } else {
            (s.context, Err(sem_error(s, sp, "Break outside of loop"@, Some("Remove the break statement"@))))
        },
        SpecStatement::Return(e, sp) => match e {
            None => (s.context, Ok(SpecTypedStatement::Return(None, sp))),
            Some(x) => match s.func {
                None => (s.context, Err(StopView::Abort)),
                Some(f) => match s.context.func(f) {
                    None => (s.context, Err(StopView::Abort)),
                    Some(sym) => match sem_expr(s, x, Some(sym.ty)) {
                        Err(y) => (s.context, Err(y)),
                        Ok(t) => (s.context, Ok(SpecTypedStatement::Return(Some(t), sp))),
                    },
                },
            },
        },
    }
}

/// The analysis of the statements from the `i`-th on, in order.
pub open spec fn sem_stmts(s: SemaView, stmts: Seq<SpecStatement>, i: int) -> (ContextView, Result<Seq<SpecTypedStatement>, StopView>)
    decreases stmts, stmts.len() - i + 1,
{
    if i < 0 || i >= stmts.len() {
        (s.context, Ok(Seq::empty()))
    } else {
        let (c1, r) = sem_stmt(s, stmts[i]);
        match r {
            Err(x) => (c1, Err(x)),
            Ok(t) => {
                let (c2, rest) = sem_stmts(SemaView { context: c1, ..s }, stmts, i + 1);
                (c2, prepend(seq![t], rest))
            },
        }
    }
}

/// The analysis of a block, in a scope of its own.
pub open spec fn sem_block(s: SemaView, b: SpecBlock) -> (ContextView, Result<SpecTypedBlock, StopView>)
    decreases b, 1nat,
{
    let (c, r) = sem_stmts(SemaView { context: s.context.push_scope(ScopeKind::Local), ..s }, b.stmts, 0);
    match r {
        Err(x) => (c, Err(x)),
        Ok(ts) => (c.pop_scope(), Ok(SpecTypedBlock { body: ts })),
    }
}

/// The context after declaring the parameters from the `i`-th on as variables.
pub open spec fn add_params(c: ContextView, params: Seq<Spanned<SpecParam>>, i: int) -> ContextView
    decreases params.len() - i,
{
    if i < 0 || i >= params.len() {
        c
    } else {
        add_params(c.add_var(params[i].node.name, params[i].node.ty.node, true), params, i + 1)
    }
}

pub open spec fn typed_param(p: Spanned<SpecParam>) -> Spanned<SpecTypedParam> {
    Spanned { node: SpecTypedParam { name: p.node.name, ty: p.node.ty }, span: p.span }
}

pub open spec fn typed_params(params: Seq<Spanned<SpecParam>>) -> Seq<Spanned<SpecTypedParam>> {
    params.map_values(|p: Spanned<SpecParam>| typed_param(p))
}

/// The full name of item `name` of module `module`.
pub open spec fn mangle(module: Seq<char>, name: Seq<char>) -> Seq<char> {
    module + "."@ + name
}

/// The analysis of function `f` of module `module`: the state after it, and its result.
#[verifier::opaque]
pub open spec fn sem_function(s: SemaView, f: SpecFunction, module: Seq<char>) -> (SemaView, Result<SpecTypedFunction, StopView>) {
    let mangled = mangle(module, f.name.node);
    let s1 = SemaView { context: s.context.push_scope(ScopeKind::Local), func: Some(mangled), ..s };
    if mangled == "main.main"@ && f.visibility != Visibility::Public {
        (s1, Err(sem_error(s1, f.name.span, "Function 'main' is private"@, Some("Make function 'main' public"@))))
    } else if mangled == "main.main"@ && f.params.len() > 0 {
        (s1, Err(sem_error(s1, f.params[0].span, "Function 'main' can't have any params"@, None)))
    } else {
        let s2 = SemaView { context: add_params(s1.context, f.params, 0), ..s1 };
        let (c3, rb) = sem_block(s2, f.body);
        let s3 = SemaView { context: c3, ..s2 };
        match rb {
            Err(x) => (s3, Err(x)),
            Ok(body) => match c3.func(mangled) {
                None => (s3, Err(StopView::Abort)),
                Some(sym) => (
                    SemaView { context: c3.pop_scope(), func: None, ..s3 },
                    Ok(SpecTypedFunction {
                        name: f.name,
                        mangled,
                        params: typed_params(f.params),
                        ret_type: f.ret_type,
                        body,
                        symbol: sym.id,
                        visibility: f.visibility,
                        file: s.file,
                        source: s.source,
                    }),
                ),
            },
        }
    }
}

/// The analysis of extern function `e` of module `module`.
#[verifier::opaque]
pub open spec fn sem_extern(s: SemaView, e: SpecExtern, module: Seq<char>) -> Result<SpecTypedExtern, StopView> {
    match s.context.func(mangle(module, e.name)) {
        None => Err(StopView::Abort),
        Some(sym) => Ok(SpecTypedExtern {
            name: e.name,
            mangled: mangle(module, e.name),
            params: typed_params(e.params),
            ret_type: e.ret_type,
            symbol: sym.id,
            visibility: e.visibility,
        }),
    }
}

/// The analysis of the items of module `path`, from the `i`-th on; imports are skipped.
pub open spec fn sem_items(s: SemaView, items: Seq<SpecItem>, path: Seq<char>, i: int) -> (SemaView, Result<Seq<SpecTypedItem>, StopView>)
    decreases items.len() - i,
{
    if i < 0 || i >= items.len() {
        (s, Ok(Seq::empty()))
    } else {
        match items[i] {
            SpecItem::Extern(e) => match sem_extern(s, e, path) {
                Err(x) => (s, Err(x)),
                Ok(t) => {
                    let (s2, rest) = sem_items(s, items, path, i + 1);
                    (s2, prepend(seq![SpecTypedItem::Extern(t)], rest))
                },
            },
            SpecItem::Function(f) => {
                let (s1, r) = sem_function(s, f, path);
                match r {
                    Err(x) => (s1, Err(x)),
                    Ok(t) => {
                        let (s2, rest) = sem_items(s1, items, path, i + 1);
                        (s2, prepend(seq![SpecTypedItem::Function(t)], rest))
                    },
                }
            },
            SpecItem::Import(_) => sem_items(s, items, path, i + 1),
        }
    }
}

/// The scope that the items of module `path` are analyzed in: its own, else `global`.
pub open spec fn module_scope(scopes: Map<Seq<char>, usize>, path: Seq<char>, global: int) -> int {
    if scopes.contains_key(path) {
        scopes[path] as int
    } else {
        global
    }
}

/// The analysis of module `m`, in its scope and with its file.
#[verifier::opaque]
pub open spec fn sem_module(s: SemaView, m: ModuleView, scopes: Map<Seq<char>, usize>, global: int) -> (SemaView, Result<Seq<SpecTypedItem>, StopView>) {
    let scope = module_scope(scopes, m.path, global);
    if scope < 0 || scope >= s.context.scopes.len() {
        (s, Err(StopView::Abort))
    } else {
        let entered = SemaView {
            context: ContextView { current: scope, ..s.context },
            module: Some(m.path),
            file: m.file,
            source: m.source,
            ..s
        };
        let (s1, r) = sem_items(entered, m.program.items, m.path, 0);
        match r {
            Err(x) => (s1, Err(x)),
            Ok(items) => (SemaView { module: None, ..s1 }, Ok(items)),
        }
    }
}

/// The analysis of the modules from the `i`-th on, in order.
pub open spec fn sem_modules(s: SemaView, mods: Seq<ModuleView>, scopes: Map<Seq<char>, usize>, global: int, i: int) -> (SemaView, Result<Seq<SpecTypedItem>, StopView>)
    decreases mods.len() - i,
{
    if i < 0 || i >= mods.len() {
        (s, Ok(Seq::empty()))
    } else {
        let (s1, r) = sem_module(s, mods[i], scopes, global);
        match r {
            Err(x) => (s1, Err(x)),
            Ok(items) => {
                let (s2, rest) = sem_modules(s1, mods, scopes, global, i + 1);
                (s2, prepend(items, rest))
            },
        }
    }
}

/// The loader's state before anything is loaded, for the program in `file`.
pub open spec fn loader_start(file: Seq<char>, source: Seq<char>) -> LoaderView {
    LoaderView { context: initial_context(), modules: Seq::empty(), loaded: Set::empty(), scopes: Map::empty(), file, source }
}

/// The analysis of `program`, the main program of the analyzer's file, with what `files`
/// knows of the module files: the modules it imports come first, then the program itself.
#[verifier::opaque]
pub open spec fn sem_program(s: SemaView, files: Map<Seq<char>, ModuleFileView>, program: SpecProgram) -> (SemaView, Result<SpecTypedProgram, StopView>) {
    let (m, r) = register_main(loader_start(s.file, s.source), files, program, s.file, s.source);
    match r {
        Err(x) => (s, Err(x)),
        Ok(()) => {
            let s1 = SemaView { context: m.context, ..s };
            if m.context.func("main.main"@) is None {
                (s1, Err(sem_error(s1, Span { start: 0, end: 0 }, "Function 'main' is undefined"@, Some("Define a public function 'main'"@))))
            } else {
                let (s2, r2) = sem_modules(s1, m.modules, m.scopes, m.context.current, 0);
                (s2, match r2 {
                    Ok(items) => Ok(SpecTypedProgram { items }),
                    Err(x) => Err(x),
                })
            }
        },
    }
}

proof fn lemma_exprs_view_index(s: Seq<Spanned<Expression>>)
    ensures
        exprs_view(s).len() == s.len(),
        forall|i: int| 0 <= i < s.len() ==> #[trigger] exprs_view(s)[i] == sexpr_view(s[i]),
    decreases s.len(),
{
    if s.len() > 0 {
        lemma_exprs_view_index(s.subrange(0, s.len() - 1));
    }
}

proof fn lemma_stmts_view_index(s: Seq<Statement>)
    ensures
        stmts_view(s).len() == s.len(),
        forall|i: int| 0 <= i < s.len() ==> #[trigger] stmts_view(s)[i] == stmt_view(s[i]),
    decreases s.len(),
{
    if s.len() > 0 {
        lemma_stmts_view_index(s.subrange(0, s.len() - 1));
    }
}

proof fn lemma_texprs_view_push(s: Seq<Spanned<TypedExpression>>, e: Spanned<TypedExpression>)
    ensures
        texprs_view(s.push(e)) == texprs_view(s).push(stexpr_view(e)),
{
    assert(s.push(e).subrange(0, s.len() as int) =~= s);
}

proof fn lemma_tstmts_view_push(s: Seq<TypedStatement>, t: TypedStatement)
    ensures
        tstmts_view(s.push(t)) == tstmts_view(s).push(tstmt_view(t)),
{
    assert(s.push(t).subrange(0, s.len() as int) =~= s);
}

pub open spec fn function_view(f: Function) -> SpecFunction {
    SpecFunction {
        name: spanned_text(f.name),
        params: params_view(f.params@),
        ret_type: f.ret_type,
        body: block_view(f.body),
        visibility: f.visibility,
    }
}

pub open spec fn extern_view(e: Extern) -> SpecExtern {
    SpecExtern { name: e.name@, params: params_view(e.params@), ret_type: e.ret_type, visibility: e.visibility }
}

pub open spec fn tfunction_view(f: TypedFunction) -> SpecTypedFunction {
    SpecTypedFunction {
        name: spanned_text(f.name),
        mangled: f.mangled@,
        params: tparams_view(f.params@),
        ret_type: f.ret_type,
        body: tblock_view(f.body),
        symbol: f.symbol,
        visibility: f.visibility,
        file: f.file@,
        source: f.source@,
    }
}

pub open spec fn textern_view(e: TypedExtern) -> SpecTypedExtern {
    SpecTypedExtern {
        name: e.name@,
        mangled: e.mangled@,
        params: tparams_view(e.params@),
        ret_type: e.ret_type,
        symbol: e.symbol,
        visibility: e.visibility,
    }
}

/// The parameters of a function, as the analysis hands them on.
fn typed_params_of(params: &Vec<Spanned<Param>>) -> (v: Vec<Spanned<TypedParam>>)
    ensures
        tparams_view(v@) == typed_params(params_view(params@)),
{
    let mut v: Vec<Spanned<TypedParam>> = Vec::new();
    let mut i: usize = 0;
    while i < params.len()
        invariant
            i <= params@.len(),
            v@.len() == i,
            forall|j: int| 0 <= j < i ==> #[trigger] tparam_view(v@[j]) == typed_param(param_view(params@[j])),
        decreases params@.len() - i,
    {
        let p = &params[i];
        v.push(Spanned::new(TypedParam { name: p.node.name.clone(), ty: Spanned::new(p.node.ty.node, p.node.ty.span) }, p.span));
        i += 1;
    }
    proof {
        assert(tparams_view(v@) =~= typed_params(params_view(params@)));
    }
    v
}

// ---------------------------------------------------------------------------
// The analyzer.
// ---------------------------------------------------------------------------

/// Resolves the names of a program and gives each expression its type.
pub struct Sema {
    context: Context,
    current_func: Option<String>,
    current_module: Option<String>,
    current_file: String,
    current_source: String,
}

pub open spec fn opt_text(o: Option<String>) -> Option<Seq<char>> {
    match o {
        Some(s) => Some(s@),
        None => None,
    }
}

impl View for Sema {
    type V = SemaView;

    closed spec fn view(&self) -> SemaView {
        SemaView {
            context: self.context@,
            func: opt_text(self.current_func),
            module: opt_text(self.current_module),
            file: self.current_file@,
            source: self.current_source@,
        }
    }
}

impl Sema {
    /// The context is consistent.
    pub closed spec fn wf(&self) -> bool {
        self.context.wf()
    }

    /// An analyzer of the program in `file`, whose text is `source`.
    pub fn new(file: String, source: String) -> (s: Self)
        ensures
            s.wf(),
            s@.context == initial_context(),
            s@.func is None,
            s@.module is None,
            s@.file == file@,
            s@.source == source@,
    {
        Self { context: Context::new(), current_func: None, current_module: None, current_file: file, current_source: source }
    }

    fn error(&self, span: Span, message: &str, note: Option<&str>) -> (e: Error)
        ensures
            e@ == error_of(ErrorKind::Semantic, self@.file, self@.source, Diagnostic { span, message: message@, note: opt_str_view(note) }),
    {
        Error::new(ErrorKind::Semantic, self.current_file.as_str(), self.current_source.as_str(), span, message, note)
    }

    fn analyze_expr(&self, expr: &Spanned<Expression>, expected_ty: Option<Type>) -> (r: Result<Spanned<TypedExpression>, Stop>)
        requires
            self.wf(),
        ensures
            match sem_expr(self@, sexpr_view(*expr), expected_ty) {
                Ok(t) => r matches Ok(x) && stexpr_view(x) == t,
                Err(x) => r matches Err(y) && y@ == x,
            },
        decreases *expr, 0nat,
    {
        let typed_expr = match &expr.node {
            Expression::Integer(val) => {
                let ty = match expected_ty {
                    Some(Type::I64) => Type::I64,
                    Some(Type::U64) => Type::U64,
                    Some(Type::I32) => Type::I32,
                    Some(Type::U32) => Type::U32,
                    Some(Type::I16) => Type::I16,
                    Some(Type::U16) => Type::U16,
                    Some(Type::I8) => Type::I8,
                    Some(Type::U8) => Type::U8,
                    _ => Type::I32,
                };
                TypedExpression::Integer { val: *val, ty }
            },
            Expression::Float(val) => {
                let ty = match expected_ty {
                    Some(Type::F64) => Type::F64,
                    Some(Type::F32) => Type::F32,
                    _ => Type::F64,
                };
                TypedExpression::Float { val: val.clone(), ty }
            },
            Expression::Bool(val) => TypedExpression::Bool(*val),
            Expression::Char(val) => TypedExpression::Char(*val),
            Expression::String(val) => TypedExpression::String(val.clone()),
            Expression::Identifier(ident) => {
                match self.context.get_var(ident.as_str()) {
                    Some(symbol) => TypedExpression::Identifier { name: ident.clone(), ty: symbol.ty, symbol: symbol.id },
                    None => {
                        let mut message = "Undefined variable '".to_owned();
                        push_str(&mut message, ident.as_str());
                        push_str(&mut message, "'");
                        return Err(Stop::Report(self.error(expr.span, message.as_str(), None)));
                    },
                }
            },
            Expression::BinOp { left, op, right } => {
                let typed_left = self.analyze_expr(left, expected_ty)?;
                let left_ty = typed_left.node.infer_type();
                let typed_right = self.analyze_expr(right, Some(left_ty))?;
                let ty = match op {
                    BinOp::Plus | BinOp::Minus | BinOp::Multiply | BinOp::Divide => left_ty,
                    _ => Type::Bool,
                };
                TypedExpression::BinOp { left: Box::new(typed_left), op: *op, right: Box::new(typed_right), ty }
            },
            Expression::UnOp { op, operand } => {
                let typed_operand = self.analyze_expr(operand, expected_ty)?;
                let ty = typed_operand.node.infer_type();
                TypedExpression::UnOp { op: *op, operand: Box::new(typed_operand), ty }
            },
            Expression::Call { ident, args } => {
                let module = match &self.current_module {
                    Some(m) => m,
                    None => return Err(Stop::Abort),
                };
                let symbol = match self.context.find_func(ident.node.as_str(), module.as_str()) {
                    Some(s) => s,
                    None => {
                        let mut message = "Undefined function '".to_owned();
                        push_str(&mut message, ident.node.as_str());
                        push_str(&mut message, "'");
                        return Err(Stop::Report(self.error(ident.span, message.as_str(), None)));
                    },
                };
                let n = symbol.params.len();
                let is_var_args = n > 0 && symbol.params[n - 1] == Type::Ellipsis;
                let params_count = if is_var_args { n - 1 } else { n };
                if args.len() < params_count || (!is_var_args && args.len() > params_count) {
                    let mut message = "Function ".to_owned();
                    push_str(&mut message, ident.node.as_str());
                    push_str(&mut message, " takes ");
                    push_decimal(&mut message, params_count);
                    push_str(&mut message, " args, but gets ");
                    push_decimal(&mut message, args.len());
                    proof {
                        lemma_exprs_view_index(args@);
                        assert(message@ =~= "Function "@ + ident.node@ + " takes "@ + decimal(params_count as nat)
                            + " args, but gets "@ + decimal(args@.len()));
                    }
                    return Err(Stop::Report(self.error(ident.span, message.as_str(), None)));
                }
                let ghost v = exprs_view(args@);
                let ghost sv = self@;
                let ghost f = symbol@;
                proof {
                    lemma_exprs_view_index(args@);
                    assert(is_var_args == crate::frontend::sema::sema::is_var_args(f.params));
                }
                let mut typed_args: Vec<Spanned<TypedExpression>> = Vec::new();
                let mut i: usize = 0;
                #[verifier::loop_isolation(false)]
                while i < args.len()
                    invariant
                        self.wf(),
                        sv == self@,
                        i <= args@.len(),
                        v == exprs_view(args@),
                        v.len() == args@.len(),
                        forall|j: int| 0 <= j < v.len() ==> #[trigger] v[j] == sexpr_view(args@[j]),
                        params_count == param_count(f.params),
                        f.params == symbol.params@,
                        sem_args(sv, v, f.params, params_count as int, 0)
                            == prepend(texprs_view(typed_args@), sem_args(sv, v, f.params, params_count as int, i as int)),
                    decreases args@.len() - i,
                {
                    proof {
                        assert(decreases_to!(*expr => args@[i as int]));
                    }
                    let expected = if i < params_count { Some(symbol.params[i]) } else { None };
                    let t = self.analyze_expr(&args[i], expected)?;
                    proof {
                        lemma_texprs_view_push(typed_args@, t);
                        let rest = sem_args(sv, v, f.params, params_count as int, i + 1);
                        match rest {
                            Ok(q) => {
                                assert(texprs_view(typed_args@).push(stexpr_view(t)) + q
                                    =~= texprs_view(typed_args@) + (seq![stexpr_view(t)] + q));
                            },
                            Err(_) => {},
                        }
                    }
                    typed_args.push(t);
                    i += 1;
                }
                proof {
                    assert(texprs_view(typed_args@) + Seq::<Spanned<SpecTypedExpression>>::empty() =~= texprs_view(typed_args@));
                }
                TypedExpression::Call {
                    ident: Spanned::new(ident.node.clone(), ident.span),
                    mangled: symbol.mangled.clone(),
                    ty: symbol.ty,
                    symbol: symbol.id,
                    args: typed_args,
                }
            },
            Expression::As { expr: inner, ty } => {
                let typed_inner = self.analyze_expr(inner, expected_ty)?;
                TypedExpression::As { expr: Box::new(typed_inner), ty: Spanned::new(ty.node, ty.span) }
            },
        };
        Ok(Spanned::new(typed_expr, expr.span))
    }

    fn analyze_stmt(&mut self, stmt: &Statement) -> (r: Result<TypedStatement, Stop>)
        requires
            old(self).wf(),
        ensures
            final(self).wf(),
            final(self)@ == (SemaView { context: sem_stmt(old(self)@, stmt_view(*stmt)).0, ..old(self)@ }),
            match sem_stmt(old(self)@, stmt_view(*stmt)).1 {
                Ok(t) => r matches Ok(x) && tstmt_view(x) == t,
                Err(x) => r matches Err(y) && y@ == x,
            },
        decreases *stmt, 0nat,
    {
        match stmt {
            Statement::Expression(expr) => {
                let t = self.analyze_expr(expr, None)?;
                Ok(TypedStatement::Expression(t))
            },
            Statement::Var { ident, ty, val, is_const } => {
                let expected = match ty {
                    Some(t) => Some(t.node),
                    None => None,
                };
                let typed_val = self.analyze_expr(val, expected)?;
                let var_ty = match ty {
                    Some(t) => Spanned::new(t.node, t.span),
                    None => Spanned::new(typed_val.node.infer_type(), typed_val.span),
                };
                let is_const = *is_const;
                self.context.add_var(ident.as_str(), var_ty.node, !is_const);
                Ok(TypedStatement::Var { ident: ident.clone(), ty: var_ty, val: typed_val, is_const })
            },
            Statement::Assign { ident, val } => {
                let (sym_ty, sym_id, mutable) = match self.context.get_var(ident.node.as_str()) {
                    Some(symbol) => (symbol.ty, symbol.id, symbol.mutable),
                    None => {
                        let mut message = "Undefined variable '".to_owned();
                        push_str(&mut message, ident.node.as_str());
                        push_str(&mut message, "'");
                        return Err(Stop::Report(self.error(ident.span, message.as_str(), None)));
                    },
                };
                if !mutable {
                    let mut message = "Assign to const '".to_owned();
                    push_str(&mut message, ident.node.as_str());
                    push_str(&mut message, "'");
                    return Err(Stop::Report(self.error(ident.span, message.as_str(), None)));
                }
                let typed_val = self.analyze_expr(val, Some(sym_ty))?;
                Ok(TypedStatement::Assign { ident: Spanned::new(ident.node.clone(), ident.span), val: typed_val, symbol: sym_id, var_ty: sym_ty })
            },
            Statement::If { condition, then_br, else_br } => {
                let typed_else = match else_br {
                    Some(b) => Some(self.analyze_block(b)?),
                    None => None,
                };
                let typed_cond = self.analyze_expr(condition, None)?;
                let typed_then = self.analyze_block(then_br)?;
                Ok(TypedStatement::If { condition: typed_cond, then_br: typed_then, else_br: typed_else })
            },
            Statement::While { condition, body } => {
                self.context.push_scope(ScopeKind::Loop);
                let typed_body = self.analyze_block(body)?;
                self.context.pop_scope();
                let typed_cond = self.analyze_expr(condition, None)?;
                Ok(TypedStatement::While { condition: typed_cond, body: typed_body })
            },
            Statement::For { .. } => Err(Stop::Abort),
            Statement::Continue(span) => {
                if !self.context.in_loop() {
                    return Err(Stop::Report(self.error(*span, "Continue outside of loop", Some("Remove the continue statement"))));
                }
                Ok(TypedStatement::Continue(*span))
            },
            Statement::Break(span) => {
                if !self.context.in_loop() {
                    return Err(Stop::Report(self.error(*span, "Break outside of loop", Some("Remove the break statement"))));
                }
                Ok(TypedStatement::Break(*span))
            },
            Statement::Return(expr, span) => {
                let typed_expr = match expr {
                    Some(e) => {
                        let func = match &self.current_func {
                            Some(f) => f,
                            None => return Err(Stop::Abort),
                        };
                        let ty = match self.context.get_func(func.as_str()) {
                            Some(symbol) => symbol.ty,
                            None => return Err(Stop::Abort),
                        };
                        Some(self.analyze_expr(e, Some(ty))?)
                    },
                    None => None,
                };
                Ok(TypedStatement::Return(typed_expr, *span))
            },
        }
    }

    fn analyze_block(&mut self, block: &Block) -> (r: Result<TypedBlock, Stop>)
        requires
            old(self).wf(),
        ensures
            final(self).wf(),
            final(self)@ == (SemaView { context: sem_block(old(self)@, block_view(*block)).0, ..old(self)@ }),
            match sem_block(old(self)@, block_view(*block)).1 {
                Ok(b) => r matches Ok(x) && tblock_view(x) == b,
                Err(x) => r matches Err(y) && y@ == x,
            },
        decreases *block, 1nat,
    {
        let ghost s0 = self@;
        self.context.push_scope(ScopeKind::Local);
        let ghost s1 = self@;
        let ghost v = stmts_view(block.stmts@);
        proof {
            lemma_stmts_view_index(block.stmts@);
        }
        let mut body: Vec<TypedStatement> = Vec::new();
        let mut i: usize = 0;
        #[verifier::loop_isolation(false)]
        while i < block.stmts.len()
            invariant
                self.wf(),
                i <= block.stmts@.len(),
                self@ == (SemaView { context: self@.context, ..s0 }),
                sem_stmts(s1, v, 0).0 == sem_stmts(self@, v, i as int).0,
                sem_stmts(s1, v, 0).1 == prepend(tstmts_view(body@), sem_stmts(self@, v, i as int).1),
            decreases block.stmts@.len() - i,
        {
            proof {
                assert(decreases_to!(*block => block.stmts@[i as int]));
            }
            let t = self.analyze_stmt(&block.stmts[i])?;
            proof {
                lemma_tstmts_view_push(body@, t);
                match sem_stmts(self@, v, i + 1).1 {
                    Ok(q) => {
                        assert(tstmts_view(body@).push(tstmt_view(t)) + q =~= tstmts_view(body@) + (seq![tstmt_view(t)] + q));
                    },
                    Err(_) => {},
                }
            }
            body.push(t);
            i += 1;
        }
        proof {
            assert(tstmts_view(body@) + Seq::<SpecTypedStatement>::empty() =~= tstmts_view(body@));
        }
        self.context.pop_scope();
        Ok(TypedBlock { body })
    }

    fn analyze_function(&mut self, func: &Function, module_name: &str) -> (r: Result<TypedFunction, Stop>)
        requires
            old(self).wf(),
        ensures
            final(self).wf(),
            final(self)@ == sem_function(old(self)@, function_view(*func), module_name@).0,
            match sem_function(old(self)@, function_view(*func), module_name@).1 {
                Ok(f) => r matches Ok(x) && tfunction_view(x) == f,
                Err(x) => r matches Err(y) && y@ == x,
            },
    {
        proof {
            reveal(sem_function);
        }
        let ghost s0 = self@;
        self.context.push_scope(ScopeKind::Local);
        let mut mangled = module_name.to_owned();
        push_str(&mut mangled, ".");
        push_str(&mut mangled, func.name.node.as_str());
        self.current_func = Some(mangled.clone());
        if text_is(&mangled, "main.main") {
            if func.visibility != Visibility::Public {
                return Err(Stop::Report(self.error(func.name.span, "Function 'main' is private", Some("Make function 'main' public"))));
            }
            if func.params.len() > 0 {
                return Err(Stop::Report(self.error(func.params[0].span, "Function 'main' can't have any params", None)));
            }
        }
        let ghost pv = params_view(func.params@);
        let ghost c1 = self@.context;
        let mut i: usize = 0;
        while i < func.params.len()
            invariant
                self.wf(),
                i <= func.params@.len(),
                pv == params_view(func.params@),
                self@ == (SemaView { context: self@.context, func: Some(mangled@), ..s0 }),
                add_params(c1, pv, 0) == add_params(self@.context, pv, i as int),
            decreases func.params@.len() - i,
        {
            self.context.add_var(func.params[i].node.name.as_str(), func.params[i].node.ty.node, true);
            i += 1;
        }
        let body = self.analyze_block(&func.body)?;
        let symbol = match self.context.get_func(mangled.as_str()) {
            Some(s) => s.id,
            None => return Err(Stop::Abort),
        };
        self.context.pop_scope();
        self.current_func = None;
        let params = typed_params_of(&func.params);
        Ok(TypedFunction {
            name: Spanned::new(func.name.node.clone(), func.name.span),
            mangled,
            params,
            ret_type: Spanned::new(func.ret_type.node, func.ret_type.span),
            body,
            symbol,
            visibility: func.visibility,
            file: self.current_file.clone(),
            source: self.current_source.clone(),
        })
    }

    /// The analysis of extern function `ext` of module `module_name`, which must have been
    /// declared: else the analysis cannot go on.
    pub fn analyze_extern(&mut self, ext: &Extern, module_name: &str) -> (r: Result<TypedExtern, Stop>)
        requires
            old(self).wf(),
        ensures
            final(self).wf(),
            final(self)@ == old(self)@,
            match sem_extern(old(self)@, extern_view(*ext), module_name@) {
                Ok(e) => r matches Ok(x) && textern_view(x) == e,
                Err(x) => r matches Err(y) && y@ == x,
            },
    {
        proof {
            reveal(sem_extern);
        }
        let mut mangled = module_name.to_owned();
        push_str(&mut mangled, ".");
        push_str(&mut mangled, ext.name.as_str());
        let symbol = match self.context.get_func(mangled.as_str()) {
            Some(s) => s.id,
            None => return Err(Stop::Abort),
        };
        Ok(TypedExtern {
            name: ext.name.clone(),
            mangled,
            params: typed_params_of(&ext.params),
            ret_type: Spanned::new(ext.ret_type.node, ext.ret_type.span),
            symbol,
            visibility: ext.visibility,
        })
    }

    /// The analysis of the items of module `path`.
    fn analyze_items(&mut self, items: &Vec<Item>, path: &str) -> (r: Result<Vec<TypedItem>, Stop>)
        requires
            old(self).wf(),
        ensures
            final(self).wf(),
            final(self)@ == sem_items(old(self)@, items_view(items@), path@, 0).0,
            match sem_items(old(self)@, items_view(items@), path@, 0).1 {
                Ok(ts) => r matches Ok(v) && titems_view(v@) == ts,
                Err(x) => r matches Err(y) && y@ == x,
            },
    {
        let ghost iv = items_view(items@);
        let ghost s0 = self@;
        let mut out: Vec<TypedItem> = Vec::new();
        let mut i: usize = 0;
        proof {
            assert(titems_view(out@) =~= Seq::<SpecTypedItem>::empty());
        }
        while i < items.len()
            invariant
                self.wf(),
                s0 == old(self)@,
                i <= items@.len(),
                iv == items_view(items@),
                sem_items(s0, iv, path@, 0).0 == sem_items(self@, iv, path@, i as int).0,
                sem_items(s0, iv, path@, 0).1 == prepend(titems_view(out@), sem_items(self@, iv, path@, i as int).1),
            decreases items@.len() - i,
        {
            let ghost before = out@;
            match &items[i] {
                Item::Extern(ext) => {
                    let t = self.analyze_extern(ext, path)?;
                    out.push(TypedItem::Extern(t));
                },
                Item::Function(func) => {
                    let t = self.analyze_function(func, path)?;
                    out.push(TypedItem::Function(t));
                },
                Item::Import(_) => {},
            }
            proof {
                if out@.len() > before.len() {
                    assert(titems_view(out@) =~= titems_view(before).push(titem_view(out@.last())));
                    match sem_items(self@, iv, path@, i + 1).1 {
                        Ok(q) => {
                            assert(titems_view(out@) + q =~= titems_view(before) + (seq![titem_view(out@.last())] + q));
                        },
                        Err(_) => {},
                    }
                }
            }
            i += 1;
        }
        proof {
            assert(titems_view(out@) + Seq::<SpecTypedItem>::empty() =~= titems_view(out@));
        }
        Ok(out)
    }

    /// The analysis of module `path`, read from `file` whose text is `source`, in its scope.
    fn analyze_module(&mut self, program: &Program, path: &String, file: &String, source: &String, scopes: &NameMap, global: usize) -> (r: Result<Vec<TypedItem>, Stop>)
        requires
            old(self).wf(),
            scopes.wf(),
        ensures
            final(self).wf(),
            final(self)@ == sem_module(old(self)@, ModuleView { path: path@, program: program@, file: file@, source: source@ }, scopes@, global as int).0,
            match sem_module(old(self)@, ModuleView { path: path@, program: program@, file: file@, source: source@ }, scopes@, global as int).1 {
                Ok(ts) => r matches Ok(v) && titems_view(v@) == ts,
                Err(x) => r matches Err(y) && y@ == x,
            },
    {
        proof {
            reveal(sem_module);
        }
        let scope = match scopes.get(path.as_str()) {
            Some(s) => s,
            None => global,
        };
        if scope >= self.context.scopes.scopes.len() {
            return Err(Stop::Abort);
        }
        self.current_module = Some(path.clone());
        self.current_file = file.clone();
        self.current_source = source.clone();
        self.context.current_scope = scope;
        let out = self.analyze_items(&program.items, path.as_str())?;
        self.current_module = None;
        Ok(out)
    }

    /// The analysis of `program`, the main program of this analyzer's file, with what
    /// `files` knows of the module files: the items of the modules it imports come first,
    /// then its own.
    pub fn analyze(&mut self, program: &Program, files: &ModuleFiles) -> (r: Result<TypedProgram, Stop>)
        requires
            old(self).wf(),
            files.wf(),
        ensures
            final(self).wf(),
            final(self)@ == sem_program(old(self)@, files@, program@).0,
            match sem_program(old(self)@, files@, program@).1 {
                Ok(p) => r matches Ok(x) && x@ == p,
                Err(x) => r matches Err(y) && y@ == x,
            },
    {
        proof {
            reveal(sem_program);
        }
        let mut module_system = ModuleSystem::new(self.current_file.clone(), self.current_source.clone());
        module_system.register_main(program, self.current_file.clone(), self.current_source.clone(), files)?;
        let (context, modules, scopes) = module_system.into_parts();
        self.context = context;
        let global_scope = self.context.current_scope;
        if self.context.get_func("main.main").is_none() {
            return Err(Stop::Report(self.error(Span::short(0), "Function 'main' is undefined", Some("Define a public function 'main'"))));
        }
        let ghost mods = modules_view(modules@);
        let ghost s1 = self@;
        let mut items: Vec<TypedItem> = Vec::new();
        proof {
            assert(titems_view(items@) =~= Seq::<SpecTypedItem>::empty());
            assert(prepend(Seq::<SpecTypedItem>::empty(), sem_modules(s1, mods, scopes@, global_scope as int, 0).1)
                == sem_modules(s1, mods, scopes@, global_scope as int, 0).1) by {
                match sem_modules(s1, mods, scopes@, global_scope as int, 0).1 {
                    Ok(q) => {
                        assert(Seq::<SpecTypedItem>::empty() + q =~= q);
                    },
                    Err(_) => {},
                }
            }
        }
        let mut i: usize = 0;
        #[verifier::loop_isolation(false)]
        while i < modules.len()
            invariant
                self.wf(),
                scopes.wf(),
                i <= modules@.len(),
                mods.len() == modules@.len(),
                forall|j: int| 0 <= j < modules@.len() ==> #[trigger] mods[j] == modules@[j]@,
                sem_modules(s1, mods, scopes@, global_scope as int, 0).0 == sem_modules(self@, mods, scopes@, global_scope as int, i as int).0,
                sem_modules(s1, mods, scopes@, global_scope as int, 0).1
                    == prepend(titems_view(items@), sem_modules(self@, mods, scopes@, global_scope as int, i as int).1),
            decreases modules@.len() - i,
        {
            let module = &modules[i];
            let mut got = self.analyze_module(&module.program, &module.path, &module.file, &module.source, &scopes, global_scope)?;
            let ghost before = items@;
            let ghost g = got@;
            items.append(&mut got);
            proof {
                assert(titems_view(items@) =~= titems_view(before) + titems_view(g));
                match sem_modules(self@, mods, scopes@, global_scope as int, i + 1).1 {
                    Ok(q) => {
                        assert(titems_view(items@) + q =~= titems_view(before) + (titems_view(g) + q));
                    },
                    Err(_) => {},
                }
            }
            i += 1;
        }
        proof {
            assert(sem_modules(self@, mods, scopes@, global_scope as int, i as int) == (self@, Ok::<Seq<SpecTypedItem>, StopView>(Seq::empty())));
            assert(titems_view(items@) + Seq::<SpecTypedItem>::empty() =~= titems_view(items@));
        }
        Ok(TypedProgram { items })
    }
}

// ---------------------------------------------------------------------------
// Laws of the analysis.
// ---------------------------------------------------------------------------

/// Analysis keeps each expression where it was in the source.
pub proof fn law_analysis_keeps_spans(s: SemaView, e: Spanned<SpecExpression>, expected: Option<Type>)
    ensures
        sem_expr(s, e, expected) matches Ok(t) ==> t.span == e.span,
{
}

/// An integer literal takes the type that is wanted of it when that is an integer type.
pub proof fn law_integer_literal_type(s: SemaView, val: i64, span: Span, t: Type)
    requires
        matches!(t, Type::I64 | Type::U64 | Type::I32 | Type::U32 | Type::I16 | Type::U16 | Type::I8 | Type::U8),
    ensures
        sem_expr(s, Spanned { node: SpecExpression::Integer(val), span }, Some(t))
            == Ok::<Spanned<SpecTypedExpression>, StopView>(Spanned { node: SpecTypedExpression::Integer { val, ty: t }, span }),
{
}

/// A value returned from a function is analysed with the function's return type as the
/// type wanted of it: an integer literal returned from a function whose return type is
/// an integer type takes that type.
pub proof fn law_return_takes_function_type(s: SemaView, f: Seq<char>, v: i64, lit: Span, sp: Span)
    requires
        s.func == Some(f),
        s.context.func(f) matches Some(sym) && matches!(sym.ty, Type::I64 | Type::U64 | Type::I32 | Type::U32 | Type::I16 | Type::U16 | Type::I8 | Type::U8),
    ensures
        sem_stmt(s, SpecStatement::Return(Some(Spanned { node: SpecExpression::Integer(v), span: lit }), sp))
            == (s.context, Ok::<SpecTypedStatement, StopView>(SpecTypedStatement::Return(
                Some(Spanned { node: SpecTypedExpression::Integer { val: v, ty: s.context.func(f)->0.ty }, span: lit }),
                sp,
            ))),
{
    law_integer_literal_type(s, v, lit, s.context.func(f)->0.ty);
}

/// A variable declared with a type has its value analysed with that type wanted of it: an
/// integer literal given to a variable of an integer type takes that type.
pub proof fn law_declared_variable_type(s: SemaView, ident: Seq<char>, t: Spanned<Type>, v: i64, lit: Span, is_const: bool)
    requires
        matches!(t.node, Type::I64 | Type::U64 | Type::I32 | Type::U32 | Type::I16 | Type::U16 | Type::I8 | Type::U8),
    ensures
        sem_stmt(s, SpecStatement::Var { ident, ty: Some(t), val: Spanned { node: SpecExpression::Integer(v), span: lit }, is_const }).1
            == Ok::<SpecTypedStatement, StopView>(SpecTypedStatement::Var {
                ident,
                ty: t,
                val: Spanned { node: SpecTypedExpression::Integer { val: v, ty: t.node }, span: lit },
                is_const,
            }),
{
    law_integer_literal_type(s, v, lit, t.node);
}

/// Analysis gives each expression its type: a variable the type it was declared with, a
/// literal its kind's type, a comparison, `&&` or `||` the type `bool`, an arithmetic
/// operator and a negation or `!` the type of its operand, a cast the type cast to; and
/// an integer literal on the right of a binary operator takes the left operand's integer
/// type.
pub proof fn law_expression_types(s: SemaView, e: Spanned<SpecExpression>, expected: Option<Type>)
    ensures
        sem_expr(s, e, expected) matches Ok(t) ==> t.span == e.span && match e.node {
            SpecExpression::Identifier(n) => s.context.var(n) matches Some(sym) && type_of(t.node) == sym.ty,
            SpecExpression::Bool(_) => type_of(t.node) == Type::Bool,
            SpecExpression::Char(_) => type_of(t.node) == Type::Char,
            SpecExpression::String(_) => type_of(t.node) == Type::Str,
            SpecExpression::BinOp { op, right, .. } => t.node matches SpecTypedExpression::BinOp { left: tl, right: tr, .. } && {
                &&& (matches!(op, BinOp::Plus | BinOp::Minus | BinOp::Multiply | BinOp::Divide) ==> type_of(t.node) == type_of(tl.node))
                &&& (!matches!(op, BinOp::Plus | BinOp::Minus | BinOp::Multiply | BinOp::Divide) ==> type_of(t.node) == Type::Bool)
                &&& (right.node matches SpecExpression::Integer(v) ==> (matches!(type_of(tl.node),
                        Type::I64 | Type::U64 | Type::I32 | Type::U32 | Type::I16 | Type::U16 | Type::I8 | Type::U8)
                        ==> tr.node == SpecTypedExpression::Integer { val: v, ty: type_of(tl.node) }))
            },
            SpecExpression::UnOp { .. } => t.node matches SpecTypedExpression::UnOp { operand, .. } && type_of(t.node) == type_of(operand.node),
            SpecExpression::As { ty, .. } => type_of(t.node) == ty.node,
            _ => true,
        },
{
    match e.node {
        SpecExpression::BinOp { left, op, right } => {
            match sem_expr(s, *left, expected) {
                Ok(l) => {
                    match right.node {
                        SpecExpression::Integer(v) => {
                            let lt = type_of(l.node);
                            if matches!(lt, Type::I64 | Type::U64 | Type::I32 | Type::U32 | Type::I16 | Type::U16 | Type::I8 | Type::U8) {
                                law_integer_literal_type(s, v, right.span, lt);
                            }
                        },
                        _ => {},
                    }
                },
                Err(_) => {},
            }
        },
        _ => {},
    }
}

/// The rules a statement keeps: a variable declared is afterwards what its name stands
/// for, with the type declared (or that of its value) and mutable unless `const`; only a
/// declared, mutable variable is assigned, and its new value gets the variable's type
/// where it is an integer literal; `continue` and `break` stand only inside a loop; and
/// a value is returned only from within a function.
pub proof fn law_statement_rules(s: SemaView, st: SpecStatement)
    requires
        s.context.valid(),
    ensures
        sem_stmt(s, st).1 matches Ok(t) ==> match st {
            SpecStatement::Var { ident, is_const, .. } => {
                &&& t matches SpecTypedStatement::Var { ty, .. }
                &&& sem_stmt(s, st).0.var(ident) matches Some(sym)
                &&& sym.ty == ty.node
                &&& sym.mutable == !is_const
                &&& sym.kind == crate::frontend::sema::symbols::SymbolKind::Variable
            },
            SpecStatement::Assign { ident, val } => {
                &&& s.context.var(ident.node) matches Some(sym)
                &&& sym.mutable
                &&& t matches SpecTypedStatement::Assign { val: tv, var_ty, .. }
                &&& var_ty == sym.ty
                &&& (val.node matches SpecExpression::Integer(v) ==> (matches!(sym.ty,
                    Type::I64 | Type::U64 | Type::I32 | Type::U32 | Type::I16 | Type::U16 | Type::I8 | Type::U8)
                    ==> tv.node == SpecTypedExpression::Integer { val: v, ty: sym.ty }))
            },
            SpecStatement::Continue(_) | SpecStatement::Break(_) => s.context.in_loop(),
            SpecStatement::Return(Some(_), _) => s.func matches Some(f) && s.context.func(f) is Some,
            _ => true,
        },
{
    match st {
        SpecStatement::Var { ident, ty, val, is_const } => {
            match sem_expr(s, val, spanned_opt_node(ty)) {
                Ok(tv) => {
                    let vt = match ty {
                        Some(t) => t,
                        None => Spanned { node: type_of(tv.node), span: tv.span },
                    };
                    law_declared_visible(s.context, ident, vt.node, !is_const);
                },
                Err(_) => {},
            }
        },
        SpecStatement::Assign { ident, val } => {
            match s.context.var(ident.node) {
                Some(sym) => {
                    match val.node {
                        SpecExpression::Integer(v) => {
                            if matches!(sym.ty, Type::I64 | Type::U64 | Type::I32 | Type::U32 | Type::I16 | Type::U16 | Type::I8 | Type::U8) {
                                law_integer_literal_type(s, v, val.span, sym.ty);
                            }
                        },
                        _ => {},
                    }
                },
                None => {},
            }
        },
        _ => {},
    }
}

} // verus!
