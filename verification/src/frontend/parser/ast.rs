use vstd::prelude::*;
use crate::frontend::errors::span::{Span, Spanned};

verus! {

/// A type of the language.
#[derive(Debug, PartialEq, Eq, Structural, Clone, Copy)]
pub enum Type {
    I64,
    I32,
    I16,
    I8,
    U64,
    U32,
    U16,
    U8,
    F64,
    F32,
    Bool,
    Char,
    Str,
    Void,
    Ellipsis,
}

pub open spec fn type_text(t: Type) -> Seq<char> {
    match t {
        Type::I64 => "i64"@,
        Type::I32 => "i32"@,
        Type::I16 => "i16"@,
        Type::I8 => "i8"@,
        Type::U64 => "u64"@,
        Type::U32 => "u32"@,
        Type::U16 => "u16"@,
        Type::U8 => "u8"@,
        Type::F64 => "f64"@,
        Type::F32 => "f32"@,
        Type::Bool => "bool"@,
        Type::Char => "char"@,
        Type::Str => "str"@,
        Type::Void => "void"@,
        Type::Ellipsis => "..."@,
    }
}

impl Type {
    /// How this type is written.
    pub fn name(&self) -> (r: &'static str)
        ensures
            r@ == type_text(*self),
    {
        match self {
            Type::I64 => "i64",
            Type::I32 => "i32",
            Type::I16 => "i16",
            Type::I8 => "i8",
            Type::U64 => "u64",
            Type::U32 => "u32",
            Type::U16 => "u16",
            Type::U8 => "u8",
            Type::F64 => "f64",
            Type::F32 => "f32",
            Type::Bool => "bool",
            Type::Char => "char",
            Type::Str => "str",
            Type::Void => "void",
            Type::Ellipsis => "...",
        }
    }
}

#[derive(Debug, PartialEq, Eq, Structural, Clone, Copy)]
pub enum Visibility {
    Public,
    Private,
}

#[derive(Debug, PartialEq, Eq, Structural, Clone, Copy)]
pub enum BinOp {
    Plus,
    Minus,
    Multiply,
    Divide,
    Eq,
    Greater,
    Lower,
    GreaterEq,
    LowerEq,
    NotEq,
    And,
    Or,
}

/// How tightly an operator binds on its left and on its right.
/// How operator `op` is written in source.
pub open spec fn binop_symbol(op: BinOp) -> Seq<char> {
    match op {
        BinOp::Plus => seq!['+'],
        BinOp::Minus => seq!['-'],
        BinOp::Multiply => seq!['*'],
        BinOp::Divide => seq!['/'],
        BinOp::Eq => seq!['=', '='],
        BinOp::Greater => seq!['>'],
        BinOp::Lower => seq!['<'],
        BinOp::GreaterEq => seq!['>', '='],
        BinOp::LowerEq => seq!['<', '='],
        BinOp::NotEq => seq!['!', '='],
        BinOp::And => seq!['&', '&'],
        BinOp::Or => seq!['|', '|'],
    }
}

/// Whether `op` compares its operands.
pub open spec fn is_comparison(op: BinOp) -> bool {
    matches!(op, BinOp::Eq | BinOp::NotEq | BinOp::Greater | BinOp::Lower | BinOp::GreaterEq | BinOp::LowerEq)
}

/// Whether `op` computes a number from its operands.
pub open spec fn is_arithmetic(op: BinOp) -> bool {
    matches!(op, BinOp::Plus | BinOp::Minus | BinOp::Multiply | BinOp::Divide)
}

/// Whether comparison `op` holds of `a` and `b`.
pub open spec fn compares(op: BinOp, a: int, b: int) -> bool {
    match op {
        BinOp::Eq => a == b,
        BinOp::NotEq => a != b,
        BinOp::Greater => a > b,
        BinOp::Lower => a < b,
        BinOp::GreaterEq => a >= b,
        BinOp::LowerEq => a <= b,
        _ => false,
    }
}

/// The number that arithmetic operator `op` gives for `a` and `b`.
pub open spec fn arith_value(op: BinOp, a: int, b: int) -> int {
    match op {
        BinOp::Plus => a + b,
        BinOp::Minus => a - b,
        BinOp::Multiply => a * b,
        BinOp::Divide => a / b,
        _ => 0,
    }
}

pub open spec fn binding_power(op: BinOp) -> (u8, u8) {
    match op {
        BinOp::Or => (1, 2),
        BinOp::And => (3, 4),
        BinOp::Eq | BinOp::NotEq => (5, 6),
        BinOp::Greater | BinOp::GreaterEq | BinOp::Lower | BinOp::LowerEq => (7, 8),
        BinOp::Plus | BinOp::Minus => (9, 10),
        BinOp::Multiply | BinOp::Divide => (11, 12),
    }
}

/// Every binary operator associates to the left: it binds its right operand more
/// tightly than its left one.
pub proof fn law_left_associative(op: BinOp)
    ensures
        binding_power(op).0 < binding_power(op).1,
{
}

/// Precedence levels do not interleave: an operator of a lower level binds even its right
/// operand more loosely than one of a higher level binds its left operand.
pub proof fn law_precedence_levels(a: BinOp, b: BinOp)
    ensures
        binding_power(a).0 < binding_power(b).0 ==> binding_power(a).1 < binding_power(b).0,
{
}

/// Whether, between operands, `a` takes the operand it shares with `b`: `a` binds tighter
/// than `b` whichever of the two comes first.
pub open spec fn binds_tighter(a: BinOp, b: BinOp) -> bool {
    binding_power(a).0 > binding_power(b).1 && binding_power(b).0 < binding_power(a).1
}

/// The usual order of precedence: `* /` bind tighter than `+ -`, which bind tighter than
/// `< > <= >=`, then `== !=`, then `&&`, then `||`; operators of one level bind alike.
pub proof fn law_precedence_order(a: BinOp, b: BinOp)
    ensures
        matches!(a, BinOp::Multiply | BinOp::Divide) && matches!(b, BinOp::Plus | BinOp::Minus) ==> binds_tighter(a, b),
        matches!(a, BinOp::Plus | BinOp::Minus) && matches!(b, BinOp::Greater | BinOp::Lower | BinOp::GreaterEq | BinOp::LowerEq) ==> binds_tighter(a, b),
        matches!(a, BinOp::Greater | BinOp::Lower | BinOp::GreaterEq | BinOp::LowerEq) && matches!(b, BinOp::Eq | BinOp::NotEq) ==> binds_tighter(a, b),
        matches!(a, BinOp::Eq | BinOp::NotEq) && b == BinOp::And ==> binds_tighter(a, b),
        a == BinOp::And && b == BinOp::Or ==> binds_tighter(a, b),
        binds_tighter(a, b) ==> !binds_tighter(b, a),
        binding_power(a) == binding_power(b) <==> (
            (matches!(a, BinOp::Multiply | BinOp::Divide) && matches!(b, BinOp::Multiply | BinOp::Divide))
            || (matches!(a, BinOp::Plus | BinOp::Minus) && matches!(b, BinOp::Plus | BinOp::Minus))
            || (matches!(a, BinOp::Greater | BinOp::Lower | BinOp::GreaterEq | BinOp::LowerEq)
                && matches!(b, BinOp::Greater | BinOp::Lower | BinOp::GreaterEq | BinOp::LowerEq))
            || (matches!(a, BinOp::Eq | BinOp::NotEq) && matches!(b, BinOp::Eq | BinOp::NotEq))
            || (a == BinOp::And && b == BinOp::And)
            || (a == BinOp::Or && b == BinOp::Or)),
{
}

impl BinOp {
    pub fn binding_power(&self) -> (r: (u8, u8))
        ensures
            r == binding_power(*self),
    {
        match self {
            BinOp::Or => (1, 2),
            BinOp::And => (3, 4),
            BinOp::Eq | BinOp::NotEq => (5, 6),
            BinOp::Greater | BinOp::GreaterEq | BinOp::Lower | BinOp::LowerEq => (7, 8),
            BinOp::Plus | BinOp::Minus => (9, 10),
            BinOp::Multiply | BinOp::Divide => (11, 12),
        }
    }
}

#[derive(Debug, PartialEq, Eq, Structural, Clone, Copy)]
pub enum UnOp {
    Negate,
    Not,
}

#[derive(Debug)]
pub struct Block {
    pub stmts: Vec<Statement>,
}

#[derive(Debug)]
pub struct Param {
    pub name: String,
    pub ty: Spanned<Type>,
}

#[derive(Debug)]
pub struct ImportPath {
    pub path: Spanned<Vec<String>>,
    pub items: Vec<ImportPath>,
    pub alias: Option<String>,
}

#[derive(Debug)]
pub struct Program {
    pub items: Vec<Item>,
}

#[derive(Debug)]
pub enum Item {
    Function(Function),
    Import(Import),
    Extern(Extern),
}

#[derive(Debug)]
pub struct Function {
    pub name: Spanned<String>,
    pub params: Vec<Spanned<Param>>,
    pub ret_type: Spanned<Type>,
    pub body: Block,
    pub visibility: Visibility,
}

#[derive(Debug)]
pub struct Import {
    pub path: ImportPath,
    pub visibility: Visibility,
}

#[derive(Debug)]
pub struct Extern {
    pub name: String,
    pub params: Vec<Spanned<Param>>,
    pub ret_type: Spanned<Type>,
    pub visibility: Visibility,
}

#[derive(Debug)]
#[allow(inconsistent_fields)]
pub enum Statement {
    Expression(Spanned<Expression>),
    Var { ident: String, ty: Option<Spanned<Type>>, val: Spanned<Expression>, is_const: bool },
    Assign { ident: Spanned<String>, val: Spanned<Expression> },
    If { condition: Spanned<Expression>, then_br: Block, else_br: Option<Block> },
    While { condition: Spanned<Expression>, body: Block },
    For { ident: String, iterable: Spanned<Expression>, body: Block },
    Continue(Span),
    Break(Span),
    Return(Option<Spanned<Expression>>, Span),
}

/// An expression. A float literal keeps its digits as text.
#[derive(Debug)]
#[allow(inconsistent_fields)]
pub enum Expression {
    Integer(i64),
    Float(String),
    Bool(bool),
    Char(char),
    String(String),
    Identifier(String),
    BinOp { left: Box<Spanned<Expression>>, op: BinOp, right: Box<Spanned<Expression>> },
    UnOp { op: UnOp, operand: Box<Spanned<Expression>> },
    Call { ident: Spanned<String>, args: Vec<Spanned<Expression>> },
    As { expr: Box<Spanned<Expression>>, ty: Spanned<Type> },
}

// ---------------------------------------------------------------------------
// The mathematical model of the syntax tree: text becomes sequences of chars.
// ---------------------------------------------------------------------------

#[allow(inconsistent_fields)]
pub enum SpecExpression {
    Integer(i64),
    Float(Seq<char>),
    Bool(bool),
    Char(char),
    String(Seq<char>),
    Identifier(Seq<char>),
    BinOp { left: Box<Spanned<SpecExpression>>, op: BinOp, right: Box<Spanned<SpecExpression>> },
    UnOp { op: UnOp, operand: Box<Spanned<SpecExpression>> },
    Call { ident: Spanned<Seq<char>>, args: Seq<Spanned<SpecExpression>> },
    As { expr: Box<Spanned<SpecExpression>>, ty: Spanned<Type> },
}

pub struct SpecBlock {
    pub stmts: Seq<SpecStatement>,
}

#[allow(inconsistent_fields)]
pub enum SpecStatement {
    Expression(Spanned<SpecExpression>),
    Var { ident: Seq<char>, ty: Option<Spanned<Type>>, val: Spanned<SpecExpression>, is_const: bool },
    Assign { ident: Spanned<Seq<char>>, val: Spanned<SpecExpression> },
    If { condition: Spanned<SpecExpression>, then_br: SpecBlock, else_br: Option<SpecBlock> },
    While { condition: Spanned<SpecExpression>, body: SpecBlock },
    For { ident: Seq<char>, iterable: Spanned<SpecExpression>, body: SpecBlock },
    Continue(Span),
    Break(Span),
    Return(Option<Spanned<SpecExpression>>, Span),
}

pub struct SpecParam {
    pub name: Seq<char>,
    pub ty: Spanned<Type>,
}

pub struct SpecImportPath {
    pub path: Spanned<Seq<Seq<char>>>,
    pub items: Seq<SpecImportPath>,
    pub alias: Option<Seq<char>>,
}

pub struct SpecFunction {
    pub name: Spanned<Seq<char>>,
    pub params: Seq<Spanned<SpecParam>>,
    pub ret_type: Spanned<Type>,
    pub body: SpecBlock,
    pub visibility: Visibility,
}

pub struct SpecImport {
    pub path: SpecImportPath,
    pub visibility: Visibility,
}

pub struct SpecExtern {
    pub name: Seq<char>,
    pub params: Seq<Spanned<SpecParam>>,
    pub ret_type: Spanned<Type>,
    pub visibility: Visibility,
}

pub enum SpecItem {
    Function(SpecFunction),
    Import(SpecImport),
    Extern(SpecExtern),
}

pub struct SpecProgram {
    pub items: Seq<SpecItem>,
}

pub open spec fn spanned_text(s: Spanned<String>) -> Spanned<Seq<char>> {
    Spanned { node: s.node@, span: s.span }
}

pub open spec fn expr_view(e: Expression) -> SpecExpression
    decreases e, 0nat,
{
    match e {
        Expression::Integer(v) => SpecExpression::Integer(v),
        Expression::Float(s) => SpecExpression::Float(s@),
        Expression::Bool(b) => SpecExpression::Bool(b),
        Expression::Char(c) => SpecExpression::Char(c),
        Expression::String(s) => SpecExpression::String(s@),
        Expression::Identifier(s) => SpecExpression::Identifier(s@),
        Expression::BinOp { left, op, right } => SpecExpression::BinOp {
            left: Box::new(Spanned { node: expr_view(left.node), span: left.span }),
            op,
            right: Box::new(Spanned { node: expr_view(right.node), span: right.span }),
        },
        Expression::UnOp { op, operand } => SpecExpression::UnOp {
            op,
            operand: Box::new(Spanned { node: expr_view(operand.node), span: operand.span }),
        },
        Expression::Call { ident, args } => SpecExpression::Call {
            ident: spanned_text(ident),
            args: exprs_view(args@),
        },
        Expression::As { expr, ty } => SpecExpression::As {
            expr: Box::new(Spanned { node: expr_view(expr.node), span: expr.span }),
            ty,
        },
    }
}

pub open spec fn exprs_view(s: Seq<Spanned<Expression>>) -> Seq<Spanned<SpecExpression>>
    decreases s, 1nat,
{
    if s.len() == 0 {
        Seq::empty()
    } else {
        let last = s[s.len() - 1];
        exprs_view(s.subrange(0, s.len() - 1)).push(Spanned { node: expr_view(last.node), span: last.span })
    }
}

pub open spec fn sexpr_view(e: Spanned<Expression>) -> Spanned<SpecExpression> {
    Spanned { node: expr_view(e.node), span: e.span }
}

impl View for Expression {
    type V = SpecExpression;

    open spec fn view(&self) -> SpecExpression {
        expr_view(*self)
    }
}

pub open spec fn sexpr_opt_view(e: Option<Spanned<Expression>>) -> Option<Spanned<SpecExpression>> {
    match e {
        Some(e) => Some(sexpr_view(e)),
        None => None,
    }
}

pub open spec fn stmt_view(s: Statement) -> SpecStatement
    decreases s, 0nat,
{
    match s {
        Statement::Expression(e) => SpecStatement::Expression(sexpr_view(e)),
        Statement::Var { ident, ty, val, is_const } => SpecStatement::Var {
            ident: ident@,
            ty,
            val: sexpr_view(val),
            is_const,
        },
        Statement::Assign { ident, val } => SpecStatement::Assign {
            ident: spanned_text(ident),
            val: sexpr_view(val),
        },
        Statement::If { condition, then_br, else_br } => SpecStatement::If {
            condition: sexpr_view(condition),
            then_br: SpecBlock { stmts: stmts_view(then_br.stmts@) },
            else_br: match else_br {
                Some(b) => Some(SpecBlock { stmts: stmts_view(b.stmts@) }),
                None => None,
            },
        },
        Statement::While { condition, body } => SpecStatement::While {
            condition: sexpr_view(condition),
            body: SpecBlock { stmts: stmts_view(body.stmts@) },
        },
        Statement::For { ident, iterable, body } => SpecStatement::For {
            ident: ident@,
            iterable: sexpr_view(iterable),
            body: SpecBlock { stmts: stmts_view(body.stmts@) },
        },
        Statement::Continue(sp) => SpecStatement::Continue(sp),
        Statement::Break(sp) => SpecStatement::Break(sp),
        Statement::Return(e, sp) => SpecStatement::Return(sexpr_opt_view(e), sp),
    }
}

pub open spec fn stmts_view(s: Seq<Statement>) -> Seq<SpecStatement>
    decreases s, 1nat,
{
    if s.len() == 0 {
        Seq::empty()
    } else {
        stmts_view(s.subrange(0, s.len() - 1)).push(stmt_view(s[s.len() - 1]))
    }
}

pub open spec fn block_view(b: Block) -> SpecBlock {
    SpecBlock { stmts: stmts_view(b.stmts@) }
}

impl View for Statement {
    type V = SpecStatement;

    open spec fn view(&self) -> SpecStatement {
        stmt_view(*self)
    }
}

impl View for Block {
    type V = SpecBlock;

    open spec fn view(&self) -> SpecBlock {
        block_view(*self)
    }
}

pub open spec fn texts_view(s: Seq<String>) -> Seq<Seq<char>> {
    s.map_values(|t: String| t@)
}

pub open spec fn import_path_view(p: ImportPath) -> SpecImportPath
    decreases p, 0nat,
{
    SpecImportPath {
        path: Spanned { node: texts_view(p.path.node@), span: p.path.span },
        items: import_paths_view(p.items@),
        alias: match p.alias {
            Some(a) => Some(a@),
            None => None,
        },
    }
}

pub open spec fn import_paths_view(s: Seq<ImportPath>) -> Seq<SpecImportPath>
    decreases s, 1nat,
{
    if s.len() == 0 {
        Seq::empty()
    } else {
        import_paths_view(s.subrange(0, s.len() - 1)).push(import_path_view(s[s.len() - 1]))
    }
}

impl View for ImportPath {
    type V = SpecImportPath;

    open spec fn view(&self) -> SpecImportPath {
        import_path_view(*self)
    }
}

pub open spec fn param_view(p: Spanned<Param>) -> Spanned<SpecParam> {
    Spanned { node: SpecParam { name: p.node.name@, ty: p.node.ty }, span: p.span }
}

pub open spec fn params_view(s: Seq<Spanned<Param>>) -> Seq<Spanned<SpecParam>> {
    s.map_values(|p: Spanned<Param>| param_view(p))
}

pub open spec fn item_view(i: Item) -> SpecItem {
    match i {
        Item::Function(f) => SpecItem::Function(SpecFunction {
            name: spanned_text(f.name),
            params: params_view(f.params@),
            ret_type: f.ret_type,
            body: block_view(f.body),
            visibility: f.visibility,
        }),
        Item::Import(im) => SpecItem::Import(SpecImport {
            path: import_path_view(im.path),
            visibility: im.visibility,
        }),
        Item::Extern(e) => SpecItem::Extern(SpecExtern {
            name: e.name@,
            params: params_view(e.params@),
            ret_type: e.ret_type,
            visibility: e.visibility,
        }),
    }
}

pub open spec fn items_view(s: Seq<Item>) -> Seq<SpecItem> {
    s.map_values(|i: Item| item_view(i))
}

impl View for Item {
    type V = SpecItem;

    open spec fn view(&self) -> SpecItem {
        item_view(*self)
    }
}

impl View for Program {
    type V = SpecProgram;

    open spec fn view(&self) -> SpecProgram {
        SpecProgram { items: items_view(self.items@) }
    }
}

} // verus!
