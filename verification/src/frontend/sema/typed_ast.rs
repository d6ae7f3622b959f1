use vstd::prelude::*;
use crate::frontend::errors::span::{Span, Spanned};
use crate::frontend::parser::ast::{Type, Visibility, BinOp, UnOp, spanned_text};

verus! {

#[derive(Debug)]
pub struct TypedBlock {
    pub body: Vec<TypedStatement>,
}

#[derive(Debug)]
pub struct TypedParam {
    pub name: String,
    pub ty: Spanned<Type>,
}

#[derive(Debug)]
pub enum ImportKind {
    Item { name: String },
    Items,
}

#[derive(Debug)]
pub struct TypedProgram {
    pub items: Vec<TypedItem>,
}

#[derive(Debug)]
pub enum TypedItem {
    Extern(TypedExtern),
    Function(TypedFunction),
}

#[derive(Debug)]
pub struct TypedExtern {
    pub name: String,
    pub mangled: String,
    pub params: Vec<Spanned<TypedParam>>,
    pub ret_type: Spanned<Type>,
    pub symbol: usize,
    pub visibility: Visibility,
}

/// A function after analysis, with the file and source it was read from.
#[derive(Debug)]
pub struct TypedFunction {
    pub name: Spanned<String>,
    pub mangled: String,
    pub params: Vec<Spanned<TypedParam>>,
    pub ret_type: Spanned<Type>,
    pub body: TypedBlock,
    pub symbol: usize,
    pub visibility: Visibility,
    pub file: String,
    pub source: String,
}

#[derive(Debug)]
#[allow(inconsistent_fields)]
pub enum TypedStatement {
    Expression(Spanned<TypedExpression>),
    Var { ident: String, ty: Spanned<Type>, val: Spanned<TypedExpression>, is_const: bool },
    Assign { ident: Spanned<String>, val: Spanned<TypedExpression>, symbol: usize, var_ty: Type },
    If { condition: Spanned<TypedExpression>, then_br: TypedBlock, else_br: Option<TypedBlock> },
    While { condition: Spanned<TypedExpression>, body: TypedBlock },
    Continue(Span),
    Break(Span),
    Return(Option<Spanned<TypedExpression>>, Span),
}

/// An expression after analysis, each with its type. A float literal keeps its digits as text.
#[derive(Debug)]
#[allow(inconsistent_fields)]
pub enum TypedExpression {
    Integer { val: i64, ty: Type },
    Float { val: String, ty: Type },
    Bool(bool),
    Char(char),
    String(String),
    Identifier { name: String, ty: Type, symbol: usize },
    BinOp { left: Box<Spanned<TypedExpression>>, op: BinOp, right: Box<Spanned<TypedExpression>>, ty: Type },
    UnOp { op: UnOp, operand: Box<Spanned<TypedExpression>>, ty: Type },
    Call { ident: Spanned<String>, mangled: String, ty: Type, symbol: usize, args: Vec<Spanned<TypedExpression>> },
    As { expr: Box<Spanned<TypedExpression>>, ty: Spanned<Type> },
}

// ---------------------------------------------------------------------------
// The mathematical model of the typed tree.
// ---------------------------------------------------------------------------

#[allow(inconsistent_fields)]
pub enum SpecTypedExpression {
    Integer { val: i64, ty: Type },
    Float { val: Seq<char>, ty: Type },
    Bool(bool),
    Char(char),
    String(Seq<char>),
    Identifier { name: Seq<char>, ty: Type, symbol: usize },
    BinOp { left: Box<Spanned<SpecTypedExpression>>, op: BinOp, right: Box<Spanned<SpecTypedExpression>>, ty: Type },
    UnOp { op: UnOp, operand: Box<Spanned<SpecTypedExpression>>, ty: Type },
    Call { ident: Spanned<Seq<char>>, mangled: Seq<char>, ty: Type, symbol: usize, args: Seq<Spanned<SpecTypedExpression>> },
    As { expr: Box<Spanned<SpecTypedExpression>>, ty: Spanned<Type> },
}

pub struct SpecTypedBlock {
    pub body: Seq<SpecTypedStatement>,
}

#[allow(inconsistent_fields)]
pub enum SpecTypedStatement {
    Expression(Spanned<SpecTypedExpression>),
    Var { ident: Seq<char>, ty: Spanned<Type>, val: Spanned<SpecTypedExpression>, is_const: bool },
    Assign { ident: Spanned<Seq<char>>, val: Spanned<SpecTypedExpression>, symbol: usize, var_ty: Type },
    If { condition: Spanned<SpecTypedExpression>, then_br: SpecTypedBlock, else_br: Option<SpecTypedBlock> },
    While { condition: Spanned<SpecTypedExpression>, body: SpecTypedBlock },
    Continue(Span),
    Break(Span),
    Return(Option<Spanned<SpecTypedExpression>>, Span),
}

pub struct SpecTypedParam {
    pub name: Seq<char>,
    pub ty: Spanned<Type>,
}

pub struct SpecTypedExtern {
    pub name: Seq<char>,
    pub mangled: Seq<char>,
    pub params: Seq<Spanned<SpecTypedParam>>,
    pub ret_type: Spanned<Type>,
    pub symbol: usize,
    pub visibility: Visibility,
}

pub struct SpecTypedFunction {
    pub name: Spanned<Seq<char>>,
    pub mangled: Seq<char>,
    pub params: Seq<Spanned<SpecTypedParam>>,
    pub ret_type: Spanned<Type>,
    pub body: SpecTypedBlock,
    pub symbol: usize,
    pub visibility: Visibility,
    pub file: Seq<char>,
    pub source: Seq<char>,
}

pub enum SpecTypedItem {
    Extern(SpecTypedExtern),
    Function(SpecTypedFunction),
}

pub struct SpecTypedProgram {
    pub items: Seq<SpecTypedItem>,
}

pub open spec fn texpr_view(e: TypedExpression) -> SpecTypedExpression
    decreases e, 0nat,
{
    match e {
        TypedExpression::Integer { val, ty } => SpecTypedExpression::Integer { val, ty },
        TypedExpression::Float { val, ty } => SpecTypedExpression::Float { val: val@, ty },
        TypedExpression::Bool(b) => SpecTypedExpression::Bool(b),
        TypedExpression::Char(c) => SpecTypedExpression::Char(c),
        TypedExpression::String(s) => SpecTypedExpression::String(s@),
        TypedExpression::Identifier { name, ty, symbol } => SpecTypedExpression::Identifier { name: name@, ty, symbol },
        TypedExpression::BinOp { left, op, right, ty } => SpecTypedExpression::BinOp {
            left: Box::new(Spanned { node: texpr_view(left.node), span: left.span }),
            op,
            right: Box::new(Spanned { node: texpr_view(right.node), span: right.span }),
            ty,
        },
        TypedExpression::UnOp { op, operand, ty } => SpecTypedExpression::UnOp {
            op,
            operand: Box::new(Spanned { node: texpr_view(operand.node), span: operand.span }),
            ty,
        },
        TypedExpression::Call { ident, mangled, ty, symbol, args } => SpecTypedExpression::Call {
            ident: spanned_text(ident),
            mangled: mangled@,
            ty,
            symbol,
            args: texprs_view(args@),
        },
        TypedExpression::As { expr, ty } => SpecTypedExpression::As {
            expr: Box::new(Spanned { node: texpr_view(expr.node), span: expr.span }),
            ty,
        },
    }
}

pub open spec fn texprs_view(s: Seq<Spanned<TypedExpression>>) -> Seq<Spanned<SpecTypedExpression>>
    decreases s, 1nat,
{
    if s.len() == 0 {
        Seq::empty()
    } else {
        let last = s[s.len() - 1];
        texprs_view(s.subrange(0, s.len() - 1)).push(Spanned { node: texpr_view(last.node), span: last.span })
    }
}

pub open spec fn stexpr_view(e: Spanned<TypedExpression>) -> Spanned<SpecTypedExpression> {
    Spanned { node: texpr_view(e.node), span: e.span }
}

pub open spec fn stexpr_opt_view(e: Option<Spanned<TypedExpression>>) -> Option<Spanned<SpecTypedExpression>> {
    match e {
        Some(e) => Some(stexpr_view(e)),
        None => None,
    }
}

pub open spec fn tstmt_view(s: TypedStatement) -> SpecTypedStatement
    decreases s, 0nat,
{
    match s {
        TypedStatement::Expression(e) => SpecTypedStatement::Expression(stexpr_view(e)),
        TypedStatement::Var { ident, ty, val, is_const } => SpecTypedStatement::Var {
            ident: ident@,
            ty,
            val: stexpr_view(val),
            is_const,
        },
        TypedStatement::Assign { ident, val, symbol, var_ty } => SpecTypedStatement::Assign {
            ident: spanned_text(ident),
            val: stexpr_view(val),
            symbol,
            var_ty,
        },
        TypedStatement::If { condition, then_br, else_br } => SpecTypedStatement::If {
            condition: stexpr_view(condition),
            then_br: SpecTypedBlock { body: tstmts_view(then_br.body@) },
            else_br: match else_br {
                Some(b) => Some(SpecTypedBlock { body: tstmts_view(b.body@) }),
                None => None,
            },
        },
        TypedStatement::While { condition, body } => SpecTypedStatement::While {
            condition: stexpr_view(condition),
            body: SpecTypedBlock { body: tstmts_view(body.body@) },
        },
        TypedStatement::Continue(sp) => SpecTypedStatement::Continue(sp),
        TypedStatement::Break(sp) => SpecTypedStatement::Break(sp),
        TypedStatement::Return(e, sp) => SpecTypedStatement::Return(stexpr_opt_view(e), sp),
    }
}

pub open spec fn tstmts_view(s: Seq<TypedStatement>) -> Seq<SpecTypedStatement>
    decreases s, 1nat,
{
    if s.len() == 0 {
        Seq::empty()
    } else {
        tstmts_view(s.subrange(0, s.len() - 1)).push(tstmt_view(s[s.len() - 1]))
    }
}

pub open spec fn tblock_view(b: TypedBlock) -> SpecTypedBlock {
    SpecTypedBlock { body: tstmts_view(b.body@) }
}

pub open spec fn tparam_view(p: Spanned<TypedParam>) -> Spanned<SpecTypedParam> {
    Spanned { node: SpecTypedParam { name: p.node.name@, ty: p.node.ty }, span: p.span }
}

pub open spec fn tparams_view(s: Seq<Spanned<TypedParam>>) -> Seq<Spanned<SpecTypedParam>> {
    s.map_values(|p: Spanned<TypedParam>| tparam_view(p))
}

pub open spec fn titem_view(i: TypedItem) -> SpecTypedItem {
    match i {
        TypedItem::Extern(e) => SpecTypedItem::Extern(SpecTypedExtern {
            name: e.name@,
            mangled: e.mangled@,
            params: tparams_view(e.params@),
            ret_type: e.ret_type,
            symbol: e.symbol,
            visibility: e.visibility,
        }),
        TypedItem::Function(f) => SpecTypedItem::Function(SpecTypedFunction {
            name: spanned_text(f.name),
            mangled: f.mangled@,
            params: tparams_view(f.params@),
            ret_type: f.ret_type,
            body: tblock_view(f.body),
            symbol: f.symbol,
            visibility: f.visibility,
            file: f.file@,
            source: f.source@,
        }),
    }
}

pub open spec fn titems_view(s: Seq<TypedItem>) -> Seq<SpecTypedItem> {
    s.map_values(|i: TypedItem| titem_view(i))
}

impl View for TypedExpression {
    type V = SpecTypedExpression;

    open spec fn view(&self) -> SpecTypedExpression {
        texpr_view(*self)
    }
}

impl View for TypedStatement {
    type V = SpecTypedStatement;

    open spec fn view(&self) -> SpecTypedStatement {
        tstmt_view(*self)
    }
}

impl View for TypedBlock {
    type V = SpecTypedBlock;

    open spec fn view(&self) -> SpecTypedBlock {
        tblock_view(*self)
    }
}

impl View for TypedProgram {
    type V = SpecTypedProgram;

    open spec fn view(&self) -> SpecTypedProgram {
        SpecTypedProgram { items: titems_view(self.items@) }
    }
}

/// The type of an analyzed expression.
pub open spec fn type_of(e: SpecTypedExpression) -> Type {
    match e {
        SpecTypedExpression::Integer { ty, .. } => ty,
        SpecTypedExpression::Float { ty, .. } => ty,
        SpecTypedExpression::Bool(_) => Type::Bool,
        SpecTypedExpression::Char(_) => Type::Char,
        SpecTypedExpression::String(_) => Type::Str,
        SpecTypedExpression::Identifier { ty, .. } => ty,
        SpecTypedExpression::BinOp { ty, .. } => ty,
        SpecTypedExpression::UnOp { ty, .. } => ty,
        SpecTypedExpression::Call { ty, .. } => ty,
        SpecTypedExpression::As { ty, .. } => ty.node,
    }
}

impl TypedExpression {
    pub fn infer_type(&self) -> (t: Type)
        ensures
            t == type_of(self@),
    {
        match self {
            TypedExpression::Integer { ty, .. } => *ty,
            TypedExpression::Float { ty, .. } => *ty,
            TypedExpression::Bool(_) => Type::Bool,
            TypedExpression::Char(_) => Type::Char,
            TypedExpression::String(_) => Type::Str,
            TypedExpression::Identifier { ty, .. } => *ty,
            TypedExpression::BinOp { ty, .. } => *ty,
            TypedExpression::UnOp { ty, .. } => *ty,
            TypedExpression::Call { ty, .. } => *ty,
            TypedExpression::As { ty, .. } => ty.node,
        }
    }
}

} // verus!
