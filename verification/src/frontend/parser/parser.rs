use vstd::prelude::*;
use crate::frontend::errors::span::{Span, Spanned};
use crate::frontend::errors::errors::{Error, ErrorKind, ErrorView, Diagnostic, error_of};
use crate::frontend::lexer::tokens::{Token, TokenKind, SpecToken, SpecTokenKind, describe_kind, punct_text};
use crate::frontend::lexer::lexer::{view_tokens, word_kind, law_keywords_by_text};
use crate::frontend::parser::ast::{
    binop_symbol, type_text,
    Type, Visibility, BinOp, UnOp, Block, Param, ImportPath, Program, Item, Function, Import,
    Extern, Statement, Expression, SpecExpression, SpecStatement, SpecBlock, SpecParam,
    SpecImportPath, SpecFunction, SpecImport, SpecExtern, SpecItem, SpecProgram, binding_power,
    sexpr_view, exprs_view, stmts_view, stmt_view, block_view, import_path_view, import_paths_view,
    params_view, param_view, items_view, item_view, texts_view, spanned_text,
};
use crate::frontend::text::push_str;

verus! {

// ---------------------------------------------------------------------------
// The grammar, stated over token sequences. Each rule reads from a position and
// gives what it read and the position after it, or the diagnostic it stops with.
// ---------------------------------------------------------------------------

pub type PResult<T> = Result<(T, int), Diagnostic>;

pub open spec fn merge(a: Span, b: Span) -> Span {
    Span { start: a.start, end: b.end }
}

pub open spec fn pdiag(span: Span, message: Seq<char>) -> Diagnostic {
    Diagnostic { span, message, note: None }
}

/// Reading past the last token.
pub open spec fn eof_diag(toks: Seq<SpecToken>) -> Diagnostic {
    pdiag(toks.last().span, "Unexpected end of file"@)
}

pub open spec fn peek_kind(toks: Seq<SpecToken>, pos: int) -> Option<SpecTokenKind> {
    if 0 <= pos < toks.len() {
        Some(toks[pos].kind)
    } else {
        None
    }
}

pub open spec fn at_eof(toks: Seq<SpecToken>, pos: int) -> bool {
    match peek_kind(toks, pos) {
        Some(k) => k == SpecTokenKind::EOF,
        None => true,
    }
}

pub open spec fn check(toks: Seq<SpecToken>, pos: int, k: SpecTokenKind) -> bool {
    peek_kind(toks, pos) == Some(k)
}

pub open spec fn advance(toks: Seq<SpecToken>, pos: int) -> PResult<SpecToken> {
    if 0 <= pos < toks.len() {
        Ok((toks[pos], pos + 1))
    } else {
        Err(eof_diag(toks))
    }
}

pub open spec fn expect(toks: Seq<SpecToken>, pos: int, k: SpecTokenKind) -> PResult<SpecToken> {
    match advance(toks, pos) {
        Ok((t, p)) => if t.kind != k {
            Err(pdiag(t.span, "Expected "@ + describe_kind(k) + ", found "@ + describe_kind(t.kind)))
        } else {
            Ok((t, p))
        },
        Err(d) => Err(d),
    }
}

pub open spec fn expect_ident(toks: Seq<SpecToken>, pos: int) -> PResult<Spanned<Seq<char>>> {
    match advance(toks, pos) {
        Ok((t, p)) => match t.kind {
            SpecTokenKind::Identifier(i) => Ok((Spanned { node: i, span: t.span }, p)),
            _ => Err(pdiag(t.span, "Expected identifier, got '"@ + describe_kind(t.kind) + "'"@)),
        },
        Err(d) => Err(d),
    }
}

/// The type that a token names.
pub open spec fn type_of_kind(k: SpecTokenKind) -> Option<Type> {
    match k {
        SpecTokenKind::I64 => Some(Type::I64),
        SpecTokenKind::U64 => Some(Type::U64),
        SpecTokenKind::F64 => Some(Type::F64),
        SpecTokenKind::I32 => Some(Type::I32),
        SpecTokenKind::U32 => Some(Type::U32),
        SpecTokenKind::F32 => Some(Type::F32),
        SpecTokenKind::I16 => Some(Type::I16),
        SpecTokenKind::U16 => Some(Type::U16),
        SpecTokenKind::I8 => Some(Type::I8),
        SpecTokenKind::U8 => Some(Type::U8),
        SpecTokenKind::Bool => Some(Type::Bool),
        SpecTokenKind::Char => Some(Type::Char),
        SpecTokenKind::Str => Some(Type::Str),
        SpecTokenKind::Void => Some(Type::Void),
        _ => None,
    }
}

pub open spec fn expect_type(toks: Seq<SpecToken>, pos: int) -> PResult<Spanned<Type>> {
    match advance(toks, pos) {
        Ok((t, p)) => match type_of_kind(t.kind) {
            Some(ty) => Ok((Spanned { node: ty, span: t.span }, p)),
            None => Err(pdiag(t.span, "Expected type, got '"@ + describe_kind(t.kind) + "'"@)),
        },
        Err(d) => Err(d),
    }
}

/// The binary operator that a token stands for.
pub open spec fn binop_of_kind(k: SpecTokenKind) -> Option<BinOp> {
    match k {
        SpecTokenKind::Plus => Some(BinOp::Plus),
        SpecTokenKind::Minus => Some(BinOp::Minus),
        SpecTokenKind::Asterisk => Some(BinOp::Multiply),
        SpecTokenKind::Slash => Some(BinOp::Divide),
        SpecTokenKind::Greater => Some(BinOp::Greater),
        SpecTokenKind::Lower => Some(BinOp::Lower),
        SpecTokenKind::Eq => Some(BinOp::Eq),
        SpecTokenKind::NotEq => Some(BinOp::NotEq),
        SpecTokenKind::GreaterEq => Some(BinOp::GreaterEq),
        SpecTokenKind::LowerEq => Some(BinOp::LowerEq),
        SpecTokenKind::Or => Some(BinOp::Or),
        SpecTokenKind::And => Some(BinOp::And),
        _ => None,
    }
}

/// Names joined with dots.
pub open spec fn join_dotted(path: Seq<Seq<char>>) -> Seq<char>
    decreases path.len(),
{
    if path.len() == 0 {
        Seq::empty()
    } else if path.len() == 1 {
        path[0]
    } else {
        join_dotted(path.drop_last()) + "."@ + path.last()
    }
}

pub open spec fn spanned<T>(node: T, span: Span) -> Spanned<T> {
    Spanned { node, span }
}

/// The precedence that prefix operators bind with, and the left power of `as`.
pub open spec fn prefix_power() -> u8 {
    13
}

/// An expression whose operators all bind at least `min_bp` tightly.
pub open spec fn parse_expr(toks: Seq<SpecToken>, pos: int, min_bp: u8) -> PResult<Spanned<SpecExpression>>
    decreases toks.len() - pos, 1nat,
{
    match parse_prefix(toks, pos) {
        Ok((left, p1)) => if pos < p1 <= toks.len() {
            expr_loop(toks, left, left.span, p1, min_bp)
        } else {
            Err(eof_diag(toks))
        },
        Err(d) => Err(d),
    }
}

/// The operators and casts that follow `left` (covering `span`) from `pos` on.
pub open spec fn expr_loop(
    toks: Seq<SpecToken>,
    left: Spanned<SpecExpression>,
    span: Span,
    pos: int,
    min_bp: u8,
) -> PResult<Spanned<SpecExpression>>
    decreases toks.len() - pos, 0nat,
{
    if check(toks, pos, SpecTokenKind::As) {
        if prefix_power() < min_bp {
            Ok((left, pos))
        } else {
            match expect_type(toks, pos + 1) {
                Ok((ty, p)) => {
                    let span2 = merge(span, ty.span);
                    let left2 = spanned(SpecExpression::As { expr: Box::new(left), ty }, span2);
                    if pos < p <= toks.len() {
                        expr_loop(toks, left2, span2, p, min_bp)
                    } else {
                        Err(eof_diag(toks))
                    }
                },
                Err(d) => Err(d),
            }
        }
    } else {
        match peek_kind(toks, pos) {
            Some(k) => match binop_of_kind(k) {
                Some(op) => if binding_power(op).0 < min_bp {
                    Ok((left, pos))
                } else if pos + 1 <= toks.len() {
                    match parse_expr(toks, pos + 1, binding_power(op).1) {
                        Ok((right, p)) => {
                            let span2 = merge(span, right.span);
                            let left2 = spanned(
                                SpecExpression::BinOp { left: Box::new(left), op, right: Box::new(right) },
                                span2,
                            );
                            if pos < p <= toks.len() {
                                expr_loop(toks, left2, span2, p, min_bp)
                            } else {
                                Err(eof_diag(toks))
                            }
                        },
                        Err(d) => Err(d),
                    }
                } else {
                    Err(eof_diag(toks))
                },
                None => Ok((left, pos)),
            },
            None => Ok((left, pos)),
        }
    }
}

/// The dotted rest of a name, from `pos` on, with the parts and span read so far.
pub open spec fn dotted_rest(toks: Seq<SpecToken>, path: Seq<Seq<char>>, span: Span, pos: int) -> PResult<(Seq<Seq<char>>, Span)>
    decreases toks.len() - pos,
{
    if check(toks, pos, SpecTokenKind::Dot) {
        match expect_ident(toks, pos + 1) {
            Ok((next, p)) => if pos < p <= toks.len() {
                dotted_rest(toks, path.push(next.node), merge(span, next.span), p)
            } else {
                Err(eof_diag(toks))
            },
            Err(d) => Err(d),
        }
    } else {
        Ok(((path, span), pos))
    }
}

/// The first operand of an expression: a literal, a name, a call, a prefix operation or a
/// parenthesized expression.
pub open spec fn parse_prefix(toks: Seq<SpecToken>, pos: int) -> PResult<Spanned<SpecExpression>>
    decreases toks.len() - pos, 0nat,
{
    match advance(toks, pos) {
        Err(d) => Err(d),
        Ok((t, p1)) => {
            let span = t.span;
            match t.kind {
                SpecTokenKind::Integer(v) => Ok((spanned(SpecExpression::Integer(v), span), p1)),
                SpecTokenKind::Float(f) => Ok((spanned(SpecExpression::Float(f), span), p1)),
                SpecTokenKind::True => Ok((spanned(SpecExpression::Bool(true), span), p1)),
                SpecTokenKind::False => Ok((spanned(SpecExpression::Bool(false), span), p1)),
                SpecTokenKind::Character(c) => Ok((spanned(SpecExpression::Char(c), span), p1)),
                SpecTokenKind::String(s) => Ok((spanned(SpecExpression::String(s), span), p1)),
                SpecTokenKind::Identifier(i) => match dotted_rest(toks, seq![i], span, p1) {
                    Err(d) => Err(d),
                    Ok(((path, span2), p2)) => {
                        let ident = join_dotted(path);
                        if check(toks, p2, SpecTokenKind::LParen) {
                            if p2 + 1 <= toks.len() && p2 >= pos {
                                match parse_args(toks, p2 + 1) {
                                    Err(d) => Err(d),
                                    Ok((args, p3)) => match expect(toks, p3, SpecTokenKind::RParen) {
                                        Err(d) => Err(d),
                                        Ok((end, p4)) => Ok((
                                            spanned(
                                                SpecExpression::Call { ident: spanned(ident, span2), args },
                                                merge(span2, end.span),
                                            ),
                                            p4,
                                        )),
                                    },
                                }
                            } else {
                                Err(eof_diag(toks))
                            }
                        } else {
                            Ok((spanned(SpecExpression::Identifier(ident), span2), p2))
                        }
                    },
                },
                SpecTokenKind::Minus => match parse_expr(toks, p1, prefix_power()) {
                    Ok((operand, p2)) => Ok((
                        spanned(
                            SpecExpression::UnOp { op: UnOp::Negate, operand: Box::new(operand) },
                            merge(span, operand.span),
                        ),
                        p2,
                    )),
                    Err(d) => Err(d),
                },
                SpecTokenKind::Exclamation => match parse_expr(toks, p1, prefix_power()) {
                    Ok((operand, p2)) => Ok((
                        spanned(
                            SpecExpression::UnOp { op: UnOp::Not, operand: Box::new(operand) },
                            merge(span, operand.span),
                        ),
                        p2,
                    )),
                    Err(d) => Err(d),
                },
                SpecTokenKind::LParen => match parse_expr(toks, p1, 0) {
                    Ok((inner, p2)) => match expect(toks, p2, SpecTokenKind::RParen) {
                        Ok((close, p3)) => Ok((spanned(inner.node, merge(span, close.span)), p3)),
                        Err(d) => Err(d),
                    },
                    Err(d) => Err(d),
                },
                _ => Err(pdiag(t.span, "Expected expr, got "@ + describe_kind(t.kind))),
            }
        },
    }
}

/// The arguments of a call, up to (not including) the closing parenthesis.
pub open spec fn parse_args(toks: Seq<SpecToken>, pos: int) -> PResult<Seq<Spanned<SpecExpression>>>
    decreases toks.len() - pos, 3nat,
{
    if check(toks, pos, SpecTokenKind::RParen) {
        Ok((Seq::empty(), pos))
    } else {
        args_rest(toks, Seq::empty(), pos)
    }
}

pub open spec fn args_rest(
    toks: Seq<SpecToken>,
    args: Seq<Spanned<SpecExpression>>,
    pos: int,
) -> PResult<Seq<Spanned<SpecExpression>>>
    decreases toks.len() - pos, 2nat,
{
    match parse_expr(toks, pos, 0) {
        Err(d) => Err(d),
        Ok((arg, p1)) => {
            let args2 = args.push(arg);
            if check(toks, p1, SpecTokenKind::RParen) {
                Ok((args2, p1))
            } else {
                match expect(toks, p1, SpecTokenKind::Comma) {
                    Err(d) => Err(d),
                    Ok((_, p2)) => if pos < p2 <= toks.len() {
                        args_rest(toks, args2, p2)
                    } else {
                        Err(eof_diag(toks))
                    },
                }
            }
        },
    }
}

/// A block: statements between braces.
pub open spec fn parse_block(toks: Seq<SpecToken>, pos: int) -> PResult<SpecBlock>
    decreases toks.len() - pos, 0nat,
{
    match expect(toks, pos, SpecTokenKind::LBrace) {
        Err(d) => Err(d),
        Ok((_, p)) => if pos < p <= toks.len() {
            block_rest(toks, Seq::empty(), p)
        } else {
            Err(eof_diag(toks))
        },
    }
}

/// The statements of a block from `pos` on, after `stmts`, and its closing brace.
pub open spec fn block_rest(toks: Seq<SpecToken>, stmts: Seq<SpecStatement>, pos: int) -> PResult<SpecBlock>
    decreases toks.len() - pos, 4nat,
{
    if check(toks, pos, SpecTokenKind::RBrace) {
        match expect(toks, pos, SpecTokenKind::RBrace) {
            Ok((_, p)) => Ok((SpecBlock { stmts }, p)),
            Err(d) => Err(d),
        }
    } else {
        match parse_stmt(toks, pos) {
            Err(d) => Err(d),
            Ok((st, p)) => if pos < p <= toks.len() {
                block_rest(toks, stmts.push(st), p)
            } else {
                Err(eof_diag(toks))
            },
        }
    }
}

/// A statement ended by a semicolon.
pub open spec fn parse_stmt(toks: Seq<SpecToken>, pos: int) -> PResult<SpecStatement>
    decreases toks.len() - pos, 3nat,
{
    match peek_kind(toks, pos) {
        None => Err(eof_diag(toks)),
        Some(k) => if k == SpecTokenKind::Var || k == SpecTokenKind::Const {
            let is_const = k == SpecTokenKind::Const;
            match expect_ident(toks, pos + 1) {
                Err(d) => Err(d),
                Ok((ident, p2)) => {
                    let has_ty = 0 <= p2 < toks.len() && crate::frontend::lexer::tokens::is_type_kind(toks[p2].kind);
                    let ty_r: PResult<Option<Spanned<Type>>> = if has_ty {
                        match expect_type(toks, p2) {
                            Ok((ty, p3)) => Ok((Some(ty), p3)),
                            Err(d) => Err(d),
                        }
                    } else {
                        Ok((None, p2))
                    };
                    match ty_r {
                        Err(d) => Err(d),
                        Ok((ty, p3)) => match expect(toks, p3, SpecTokenKind::Assign) {
                            Err(d) => Err(d),
                            Ok((_, p4)) => match parse_expr(toks, p4, 0) {
                                Err(d) => Err(d),
                                Ok((val, p5)) => match expect(toks, p5, SpecTokenKind::Semicolon) {
                                    Err(d) => Err(d),
                                    Ok((_, p6)) => Ok((SpecStatement::Var { ident: ident.node, ty, val, is_const }, p6)),
                                },
                            },
                        },
                    }
                },
            }
        } else if k is Identifier && check(toks, pos + 1, SpecTokenKind::Assign) {
            match expect_ident(toks, pos) {
                Err(d) => Err(d),
                Ok((ident, p1)) => match parse_expr(toks, p1 + 1, 0) {
                    Err(d) => Err(d),
                    Ok((val, p3)) => match expect(toks, p3, SpecTokenKind::Semicolon) {
                        Err(d) => Err(d),
                        Ok((_, p4)) => Ok((SpecStatement::Assign { ident, val }, p4)),
                    },
                },
            }
        } else if k == SpecTokenKind::If {
            parse_if(toks, pos, true)
        } else if k == SpecTokenKind::While {
            match parse_expr(toks, pos + 1, 0) {
                Err(d) => Err(d),
                Ok((condition, p2)) => if pos < p2 <= toks.len() {
                    match parse_block(toks, p2) {
                        Err(d) => Err(d),
                        Ok((body, p3)) => match expect(toks, p3, SpecTokenKind::Semicolon) {
                            Err(d) => Err(d),
                            Ok((_, p4)) => Ok((SpecStatement::While { condition, body }, p4)),
                        },
                    }
                } else {
                    Err(eof_diag(toks))
                },
            }
        } else if k == SpecTokenKind::For {
            match expect_ident(toks, pos + 1) {
                Err(d) => Err(d),
                Ok((ident, p2)) => match expect(toks, p2, SpecTokenKind::In) {
                    Err(d) => Err(d),
                    Ok((_, p3)) => match parse_expr(toks, p3, 0) {
                        Err(d) => Err(d),
                        Ok((iterable, p4)) => if pos < p4 <= toks.len() {
                            match parse_block(toks, p4) {
                                Err(d) => Err(d),
                                Ok((body, p5)) => match expect(toks, p5, SpecTokenKind::Semicolon) {
                                    Err(d) => Err(d),
                                    Ok((_, p6)) => Ok((SpecStatement::For { ident: ident.node, iterable, body }, p6)),
                                },
                            }
                        } else {
                            Err(eof_diag(toks))
                        },
                    },
                },
            }
        } else if k == SpecTokenKind::Continue {
            match expect(toks, pos + 1, SpecTokenKind::Semicolon) {
                Err(d) => Err(d),
                Ok((_, p2)) => Ok((SpecStatement::Continue(toks[pos].span), p2)),
            }
        } else if k == SpecTokenKind::Break {
            match expect(toks, pos + 1, SpecTokenKind::Semicolon) {
                Err(d) => Err(d),
                Ok((_, p2)) => Ok((SpecStatement::Break(toks[pos].span), p2)),
            }
        } else if k == SpecTokenKind::Return {
            let span = toks[pos].span;
            if check(toks, pos + 1, SpecTokenKind::Semicolon) {
                Ok((SpecStatement::Return(None, span), pos + 2))
            } else {
                match parse_expr(toks, pos + 1, 0) {
                    Err(d) => Err(d),
                    Ok((e, p2)) => match expect(toks, p2, SpecTokenKind::Semicolon) {
                        Err(d) => Err(d),
                        Ok((_, p3)) => Ok((SpecStatement::Return(Some(e), merge(span, e.span)), p3)),
                    },
                }
            }
        } else {
            match parse_expr(toks, pos, 0) {
                Err(d) => Err(d),
                Ok((e, p1)) => match expect(toks, p1, SpecTokenKind::Semicolon) {
                    Err(d) => Err(d),
                    Ok((_, p2)) => Ok((SpecStatement::Expression(e), p2)),
                },
            }
        },
    }
}

/// An `if` statement, and its `else` branch; `else if` nests an `if` without a semicolon.
pub open spec fn parse_if(toks: Seq<SpecToken>, pos: int, expect_semi: bool) -> PResult<SpecStatement>
    decreases toks.len() - pos, 1nat,
{
    match expect(toks, pos, SpecTokenKind::If) {
        Err(d) => Err(d),
        Ok((_, p1)) => match parse_expr(toks, p1, 0) {
            Err(d) => Err(d),
            Ok((condition, p2)) => if pos < p2 <= toks.len() {
                match parse_block(toks, p2) {
                    Err(d) => Err(d),
                    Ok((then_br, p3)) => {
                        let else_r: PResult<Option<SpecBlock>> = if check(toks, p3, SpecTokenKind::Else) {
                            if pos < p3 + 1 <= toks.len() {
                                if check(toks, p3 + 1, SpecTokenKind::If) {
                                    match parse_if(toks, p3 + 1, false) {
                                        Ok((st, p5)) => Ok((Some(SpecBlock { stmts: seq![st] }), p5)),
                                        Err(d) => Err(d),
                                    }
                                } else {
                                    match parse_block(toks, p3 + 1) {
                                        Ok((b, p5)) => Ok((Some(b), p5)),
                                        Err(d) => Err(d),
                                    }
                                }
                            } else {
                                Err(eof_diag(toks))
                            }
                        } else {
                            Ok((None, p3))
                        };
                        match else_r {
                            Err(d) => Err(d),
                            Ok((else_br, p5)) => {
                                let st = SpecStatement::If { condition, then_br, else_br };
                                if expect_semi {
                                    match expect(toks, p5, SpecTokenKind::Semicolon) {
                                        Err(d) => Err(d),
                                        Ok((_, p6)) => Ok((st, p6)),
                                    }
                                } else {
                                    Ok((st, p5))
                                }
                            },
                        }
                    },
                }
            } else {
                Err(eof_diag(toks))
            },
        },
    }
}

/// The parameters of a declaration, up to (not including) the closing parenthesis.
pub open spec fn parse_params(toks: Seq<SpecToken>, pos: int) -> PResult<Seq<Spanned<SpecParam>>> {
    if check(toks, pos, SpecTokenKind::RParen) {
        Ok((Seq::empty(), pos))
    } else {
        params_rest(toks, Seq::empty(), pos)
    }
}

pub open spec fn params_rest(toks: Seq<SpecToken>, params: Seq<Spanned<SpecParam>>, pos: int) -> PResult<Seq<Spanned<SpecParam>>>
    decreases toks.len() - pos,
{
    if check(toks, pos, SpecTokenKind::Ellipsis) {
        let span = toks[pos].span;
        Ok((params.push(spanned(SpecParam { name: "..."@, ty: spanned(Type::Ellipsis, span) }, span)), pos + 1))
    } else {
        match expect_ident(toks, pos) {
            Err(d) => Err(d),
            Ok((name, p1)) => match expect_type(toks, p1) {
                Err(d) => Err(d),
                Ok((ty, p2)) => {
                    let params2 = params.push(spanned(SpecParam { name: name.node, ty }, merge(name.span, ty.span)));
                    if check(toks, p2, SpecTokenKind::RParen) {
                        Ok((params2, p2))
                    } else {
                        match expect(toks, p2, SpecTokenKind::Comma) {
                            Err(d) => Err(d),
                            Ok((_, p3)) => if pos < p3 <= toks.len() {
                                params_rest(toks, params2, p3)
                            } else {
                                Err(eof_diag(toks))
                            },
                        }
                    }
                },
            },
        }
    }
}

/// The dotted path of an import, or its parenthesized list of items, read from `pos` with
/// the names and span read so far.
pub open spec fn path_loop(toks: Seq<SpecToken>, path: Seq<Seq<char>>, span: Span, pos: int)
    -> PResult<(Seq<Seq<char>>, Seq<SpecImportPath>, Span)>
    decreases toks.len() - pos, 0nat,
{
    if at_eof(toks, pos) {
        Ok(((path, Seq::empty(), span), pos))
    } else if check(toks, pos, SpecTokenKind::LParen) {
        match items_loop(toks, Seq::empty(), pos + 1) {
            Err(d) => Err(d),
            Ok((items, p1)) => match advance(toks, p1) {
                Err(d) => Err(d),
                Ok((_, p2)) => Ok(((path, items, span), p2)),
            },
        }
    } else {
        match expect_ident(toks, pos) {
            Err(d) => Err(d),
            Ok((ident, p1)) => if !check(toks, p1, SpecTokenKind::Dot) {
                Ok(((path.push(ident.node), Seq::empty(), merge(span, ident.span)), p1))
            } else if pos < p1 + 1 <= toks.len() {
                path_loop(toks, path.push(ident.node), span, p1 + 1)
            } else {
                Err(eof_diag(toks))
            },
        }
    }
}

/// The items of a parenthesized import list from `pos` on, after `items`.
pub open spec fn items_loop(toks: Seq<SpecToken>, items: Seq<SpecImportPath>, pos: int) -> PResult<Seq<SpecImportPath>>
    decreases toks.len() - pos, 2nat,
{
    if at_eof(toks, pos) || check(toks, pos, SpecTokenKind::RParen) {
        Ok((items, pos))
    } else {
        match parse_import_path(toks, pos) {
            Err(d) => Err(d),
            Ok((item, p1)) => {
                let items2 = items.push(item);
                let sep: PResult<SpecToken> = if !check(toks, p1, SpecTokenKind::RParen) {
                    expect(toks, p1, SpecTokenKind::Comma)
                } else {
                    Ok((toks[p1], p1))
                };
                match sep {
                    Err(d) => Err(d),
                    Ok((_, p2)) => if pos < p2 <= toks.len() {
                        items_loop(toks, items2, p2)
                    } else {
                        Err(eof_diag(toks))
                    },
                }
            },
        }
    }
}

/// What an import names: a dotted path with an optional alias, or a path with a list of items.
pub open spec fn parse_import_path(toks: Seq<SpecToken>, pos: int) -> PResult<SpecImportPath>
    decreases toks.len() - pos, 1nat,
{
    if !(0 <= pos < toks.len()) {
        Err(eof_diag(toks))
    } else {
        match path_loop(toks, Seq::empty(), toks[pos].span, pos) {
            Err(d) => Err(d),
            Ok(((path, items, span), p1)) => {
                let alias_r: PResult<Option<Seq<char>>> = if items.len() == 0 && check(toks, p1, SpecTokenKind::As) {
                    match expect_ident(toks, p1 + 1) {
                        Ok((a, p2)) => Ok((Some(a.node), p2)),
                        Err(d) => Err(d),
                    }
                } else {
                    Ok((None, p1))
                };
                match alias_r {
                    Err(d) => Err(d),
                    Ok((alias, p2)) => Ok((SpecImportPath { path: spanned(path, span), items, alias }, p2)),
                }
            },
        }
    }
}

pub open spec fn parse_import(toks: Seq<SpecToken>, pos: int, visibility: Visibility) -> PResult<SpecItem> {
    match parse_import_path(toks, pos + 1) {
        Err(d) => Err(d),
        Ok((path, p2)) => match expect(toks, p2, SpecTokenKind::Semicolon) {
            Err(d) => Err(d),
            Ok((_, p3)) => Ok((SpecItem::Import(SpecImport { path, visibility }), p3)),
        },
    }
}

/// The parts that a function and an external function declaration share: a name, a
/// parameter list and a return type.
pub open spec fn parse_signature(toks: Seq<SpecToken>, pos: int)
    -> PResult<(Spanned<Seq<char>>, Seq<Spanned<SpecParam>>, Spanned<Type>)>
{
    match expect_ident(toks, pos) {
        Err(d) => Err(d),
        Ok((name, p1)) => match expect(toks, p1, SpecTokenKind::LParen) {
            Err(d) => Err(d),
            Ok((_, p2)) => match parse_params(toks, p2) {
                Err(d) => Err(d),
                Ok((params, p3)) => match expect(toks, p3, SpecTokenKind::RParen) {
                    Err(d) => Err(d),
                    Ok((_, p4)) => match expect_type(toks, p4) {
                        Err(d) => Err(d),
                        Ok((ret_type, p5)) => Ok(((name, params, ret_type), p5)),
                    },
                },
            },
        },
    }
}

pub open spec fn parse_extern(toks: Seq<SpecToken>, pos: int, visibility: Visibility) -> PResult<SpecItem> {
    match expect(toks, pos + 1, SpecTokenKind::Fn) {
        Err(d) => Err(d),
        Ok((_, p1)) => match parse_signature(toks, p1) {
            Err(d) => Err(d),
            Ok(((name, params, ret_type), p2)) => match expect(toks, p2, SpecTokenKind::Semicolon) {
                Err(d) => Err(d),
                Ok((_, p3)) => Ok((SpecItem::Extern(SpecExtern { name: name.node, params, ret_type, visibility }), p3)),
            },
        },
    }
}

pub open spec fn parse_function(toks: Seq<SpecToken>, pos: int, visibility: Visibility) -> PResult<SpecItem> {
    match parse_signature(toks, pos + 1) {
        Err(d) => Err(d),
        Ok(((name, params, ret_type), p1)) => match parse_block(toks, p1) {
            Err(d) => Err(d),
            Ok((body, p2)) => match expect(toks, p2, SpecTokenKind::Semicolon) {
                Err(d) => Err(d),
                Ok((_, p3)) => Ok((SpecItem::Function(SpecFunction { name, params, ret_type, body, visibility }), p3)),
            },
        },
    }
}

/// The item at `pos`: its visibility, then an import, an external function or a function.
pub open spec fn parse_item(toks: Seq<SpecToken>, pos: int) -> PResult<SpecItem> {
    let (visibility, p1) = if check(toks, pos, SpecTokenKind::Pub) {
        (Visibility::Public, pos + 1)
    } else {
        (Visibility::Private, pos)
    };
    match peek_kind(toks, p1) {
        None => Err(eof_diag(toks)),
        Some(SpecTokenKind::Import) => parse_import(toks, p1, visibility),
        Some(SpecTokenKind::Extern) => parse_extern(toks, p1, visibility),
        Some(SpecTokenKind::Fn) => parse_function(toks, p1, visibility),
        Some(k) => Err(pdiag(toks[p1].span, "Expected import, extern or fn, got "@ + describe_kind(k))),
    }
}

/// The items of a program from `pos` on, after `items`.
pub open spec fn program_rest(toks: Seq<SpecToken>, items: Seq<SpecItem>, pos: int) -> PResult<SpecProgram>
    decreases toks.len() - pos,
{
    if at_eof(toks, pos) {
        Ok((SpecProgram { items }, pos))
    } else {
        match parse_item(toks, pos) {
            Err(d) => Err(d),
            Ok((item, p)) => if pos < p <= toks.len() {
                program_rest(toks, items.push(item), p)
            } else {
                Err(eof_diag(toks))
            },
        }
    }
}

/// The program that `toks` read from `pos` make up.
pub open spec fn parse_program(toks: Seq<SpecToken>, pos: int) -> Result<SpecProgram, Diagnostic> {
    match program_rest(toks, Seq::empty(), pos) {
        Ok((prog, _)) => Ok(prog),
        Err(d) => Err(d),
    }
}

// ---------------------------------------------------------------------------
// Facts about the views.
// ---------------------------------------------------------------------------

pub proof fn lemma_exprs_view_push(s: Seq<Spanned<Expression>>, e: Spanned<Expression>)
    ensures
        exprs_view(s.push(e)) == exprs_view(s).push(sexpr_view(e)),
{
    assert(s.push(e).subrange(0, s.len() as int) =~= s);
}

pub proof fn lemma_stmts_view_push(s: Seq<Statement>, st: Statement)
    ensures
        stmts_view(s.push(st)) == stmts_view(s).push(stmt_view(st)),
{
    assert(s.push(st).subrange(0, s.len() as int) =~= s);
}

pub proof fn lemma_params_view_push(s: Seq<Spanned<Param>>, p: Spanned<Param>)
    ensures
        params_view(s.push(p)) == params_view(s).push(param_view(p)),
{
    assert(params_view(s.push(p)) =~= params_view(s).push(param_view(p)));
}

pub proof fn lemma_import_paths_view_push(s: Seq<ImportPath>, p: ImportPath)
    ensures
        import_paths_view(s.push(p)) == import_paths_view(s).push(import_path_view(p)),
{
    assert(s.push(p).subrange(0, s.len() as int) =~= s);
}

pub proof fn lemma_texts_view_push(s: Seq<String>, t: String)
    ensures
        texts_view(s.push(t)) == texts_view(s).push(t@),
{
    assert(texts_view(s.push(t)) =~= texts_view(s).push(t@));
}

proof fn lemma_join_step(s: Seq<Seq<char>>, i: int)
    requires
        1 <= i < s.len(),
    ensures
        join_dotted(s.take(i + 1)) == join_dotted(s.take(i)) + "."@ + s[i],
{
    assert(s.take(i + 1).drop_last() =~= s.take(i));
}

/// The names of `path` joined with dots.
pub(crate) fn join_path(path: &Vec<String>) -> (r: String)
    ensures
        r@ == join_dotted(texts_view(path@)),
{
    let ghost names = texts_view(path@);
    if path.len() == 0 {
        return String::new();
    }
    let mut acc = path[0].clone();
    proof {
        assert(names.take(1) =~= seq![names[0]]);
    }
    let mut i: usize = 1;
    while i < path.len()
        invariant
            1 <= i <= path@.len(),
            names == texts_view(path@),
            acc@ == join_dotted(names.take(i as int)),
        decreases path@.len() - i,
    {
        proof {
            lemma_join_step(names, i as int);
        }
        push_str(&mut acc, ".");
        push_str(&mut acc, path[i].as_str());
        i += 1;
    }
    proof {
        assert(names.take(path@.len() as int) =~= names);
    }
    acc
}

// ---------------------------------------------------------------------------
// The parser.
// ---------------------------------------------------------------------------

/// Turns tokens into a syntax tree.
pub struct Parser {
    tokens: Vec<Token>,
    pos: usize,
    file: String,
    source: String,
}

impl Parser {
    /// The tokens being read.
    pub closed spec fn toks(&self) -> Seq<SpecToken> {
        view_tokens(self.tokens@)
    }

    /// The position of the next token.
    pub closed spec fn position(&self) -> int {
        self.pos as int
    }

    pub closed spec fn file_name(&self) -> Seq<char> {
        self.file@
    }

    pub closed spec fn source_text(&self) -> Seq<char> {
        self.source@
    }

    /// The internal consistency of a parser: it never stands past the end.
    pub closed spec fn wf(&self) -> bool {
        self.pos <= self.tokens@.len()
    }

    /// The error this parser reports for `d`.
    pub open spec fn error_for(&self, d: Diagnostic) -> ErrorView {
        error_of(ErrorKind::Syntax, self.file_name(), self.source_text(), d)
    }

    /// What reading a rule with result `r` leaves: `r` read from here on, same tokens.
    pub open spec fn reads<T, V>(&self, old: &Parser, r: Result<T, Error>, expected: PResult<V>, view: spec_fn(T) -> V) -> bool {
        &&& self.wf()
        &&& self.toks() == old.toks()
        &&& self.file_name() == old.file_name()
        &&& self.source_text() == old.source_text()
        &&& match expected {
            Ok((v, p)) => r matches Ok(x) && view(x) == v && self.position() == p,
            Err(d) => r matches Err(e) && e@ == old.error_for(d),
        }
    }

    pub fn new(tokens: Vec<Token>, file: String, source: String) -> (p: Parser)
        ensures
            p.wf(),
            p.toks() == view_tokens(tokens@),
            p.position() == 0,
            p.file_name() == file@,
            p.source_text() == source@,
    {
        Parser { tokens, pos: 0, file, source }
    }

    fn error(&self, span: Span, message: &str, note: Option<&str>) -> (e: Error)
        ensures
            e@ == self.error_for(Diagnostic { span, message: message@, note: crate::frontend::errors::errors::opt_str_view(note) }),
    {
        Error::new(ErrorKind::Syntax, self.file.as_str(), self.source.as_str(), span, message, note)
    }

    fn eof_error(&self) -> (e: Error)
        requires
            self.tokens@.len() > 0,
        ensures
            e@ == self.error_for(eof_diag(self.toks())),
    {
        let span = self.tokens[self.tokens.len() - 1].span;
        self.error(span, "Unexpected end of file", None)
    }

    fn is_eof(&self) -> (r: bool)
        ensures
            r == at_eof(self.toks(), self.position()),
    {
        if self.pos < self.tokens.len() {
            matches!(self.tokens[self.pos].kind, TokenKind::EOF)
        } else {
            true
        }
    }

    fn advance(&mut self) -> (r: Result<Token, Error>)
        requires
            old(self).wf(),
            old(self).tokens@.len() > 0,
        ensures
            final(self).tokens == old(self).tokens,
            final(self).reads(old(self), r, advance(old(self).toks(), old(self).position()), |t: Token| t@),
    {
        if self.pos < self.tokens.len() {
            let token = self.tokens[self.pos].duplicate();
            self.pos += 1;
            Ok(token)
        } else {
            Err(self.eof_error())
        }
    }

    fn check(&self, expected: TokenKind) -> (r: bool)
        ensures
            r == check(self.toks(), self.position(), expected@),
    {
        if self.pos < self.tokens.len() {
            self.tokens[self.pos].kind.same_as(&expected)
        } else {
            false
        }
    }

    fn peek_binop(&self) -> (r: Option<BinOp>)
        ensures
            r == match peek_kind(self.toks(), self.position()) {
                Some(k) => binop_of_kind(k),
                None => None,
            },
    {
        if self.pos >= self.tokens.len() {
            return None;
        }
        match self.tokens[self.pos].kind {
            TokenKind::Plus => Some(BinOp::Plus),
            TokenKind::Minus => Some(BinOp::Minus),
            TokenKind::Asterisk => Some(BinOp::Multiply),
            TokenKind::Slash => Some(BinOp::Divide),
            TokenKind::Greater => Some(BinOp::Greater),
            TokenKind::Lower => Some(BinOp::Lower),
            TokenKind::Eq => Some(BinOp::Eq),
            TokenKind::NotEq => Some(BinOp::NotEq),
            TokenKind::GreaterEq => Some(BinOp::GreaterEq),
            TokenKind::LowerEq => Some(BinOp::LowerEq),
            TokenKind::Or => Some(BinOp::Or),
            TokenKind::And => Some(BinOp::And),
            _ => None,
        }
    }

    fn expect(&mut self, expected: TokenKind) -> (r: Result<Token, Error>)
        requires
            old(self).wf(),
            old(self).tokens@.len() > 0,
        ensures
            final(self).tokens == old(self).tokens,
            final(self).reads(old(self), r, expect(old(self).toks(), old(self).position(), expected@), |t: Token| t@),
    {
        let token = self.advance()?;
        if !token.kind.same_as(&expected) {
            let mut message = "Expected ".to_owned();
            push_str(&mut message, expected.describe());
            push_str(&mut message, ", found ");
            push_str(&mut message, token.kind.describe());
            return Err(self.error(token.span, message.as_str(), None));
        }
        Ok(token)
    }

    fn expect_ident(&mut self) -> (r: Result<Spanned<String>, Error>)
        requires
            old(self).wf(),
            old(self).tokens@.len() > 0,
        ensures
            final(self).tokens == old(self).tokens,
            final(self).reads(old(self), r, expect_ident(old(self).toks(), old(self).position()), |s: Spanned<String>| spanned_text(s)),
    {
        let token = self.advance()?;
        match token.kind {
            TokenKind::Identifier(i) => Ok(Spanned::new(i, token.span)),
            _ => {
                let mut message = "Expected identifier, got '".to_owned();
                push_str(&mut message, token.kind.describe());
                push_str(&mut message, "'");
                Err(self.error(token.span, message.as_str(), None))
            },
        }
    }

    fn expect_type(&mut self) -> (r: Result<Spanned<Type>, Error>)
        requires
            old(self).wf(),
            old(self).tokens@.len() > 0,
        ensures
            final(self).tokens == old(self).tokens,
            final(self).reads(old(self), r, expect_type(old(self).toks(), old(self).position()), |t: Spanned<Type>| t),
    {
        let token = self.advance()?;
        let span = token.span;
        let ty = match token.kind {
            TokenKind::I64 => Type::I64,
            TokenKind::U64 => Type::U64,
            TokenKind::F64 => Type::F64,
            TokenKind::I32 => Type::I32,
            TokenKind::U32 => Type::U32,
            TokenKind::F32 => Type::F32,
            TokenKind::I16 => Type::I16,
            TokenKind::U16 => Type::U16,
            TokenKind::I8 => Type::I8,
            TokenKind::U8 => Type::U8,
            TokenKind::Bool => Type::Bool,
            TokenKind::Char => Type::Char,
            TokenKind::Str => Type::Str,
            TokenKind::Void => Type::Void,
            _ => {
                let mut message = "Expected type, got '".to_owned();
                push_str(&mut message, token.kind.describe());
                push_str(&mut message, "'");
                return Err(self.error(span, message.as_str(), None));
            },
        };
        Ok(Spanned::new(ty, span))
    }

    fn parse_expr(&mut self, min_bp: u8) -> (r: Result<Spanned<Expression>, Error>)
        requires
            old(self).wf(),
            old(self).tokens@.len() > 0,
        ensures
            final(self).tokens == old(self).tokens,
            final(self).reads(old(self), r, parse_expr(old(self).toks(), old(self).position(), min_bp), |e: Spanned<Expression>| sexpr_view(e)),
            r is Ok ==> old(self).position() < final(self).position(),
        decreases old(self).tokens@.len() - old(self).pos, 1nat,
    {
        let ghost toks = self.toks();
        let ghost start = self.pos as int;
        let mut left = self.parse_prefix()?;
        let mut span = left.span;
        loop
            invariant
                self.wf(),
                self.tokens == old(self).tokens,
                toks == self.toks(),
                self.file_name() == old(self).file_name(),
                self.source_text() == old(self).source_text(),
                start == old(self).pos,
                start < self.pos <= self.tokens@.len(),
                self.tokens@.len() > 0,
                expr_loop(toks, sexpr_view(left), span, self.pos as int, min_bp) == parse_expr(toks, start, min_bp),
            ensures
                start < self.pos,
                parse_expr(toks, start, min_bp) == Ok::<(Spanned<SpecExpression>, int), Diagnostic>((sexpr_view(left), self.pos as int)),
            decreases self.tokens@.len() - self.pos,
        {
            if self.check(TokenKind::As) {
                if 13 < min_bp {
                    break;
                }
                self.advance()?;
                let ty = self.expect_type()?;
                span.merge(ty.span);
                left = Spanned::new(Expression::As { expr: Box::new(left), ty }, span);
                continue;
            }
            let op = match self.peek_binop() {
                Some(op) => op,
                None => break,
            };
            let (lbp, rbp) = op.binding_power();
            if lbp < min_bp {
                break;
            }
            self.advance()?;
            let right = self.parse_expr(rbp)?;
            span.merge(right.span);
            left = Spanned::new(Expression::BinOp { left: Box::new(left), op, right: Box::new(right) }, span);
        }
        Ok(left)
    }

    fn parse_prefix(&mut self) -> (r: Result<Spanned<Expression>, Error>)
        requires
            old(self).wf(),
            old(self).tokens@.len() > 0,
        ensures
            final(self).tokens == old(self).tokens,
            final(self).reads(old(self), r, parse_prefix(old(self).toks(), old(self).position()), |e: Spanned<Expression>| sexpr_view(e)),
            r is Ok ==> old(self).position() < final(self).position(),
        decreases old(self).tokens@.len() - old(self).pos, 0nat,
    {
        let ghost toks = self.toks();
        let ghost start = self.pos as int;
        let token = self.advance()?;
        let ghost tk = token@;
        let mut span = token.span;
        let expr = match token.kind {
            TokenKind::Integer(value) => Expression::Integer(value),
            TokenKind::Float(float) => Expression::Float(float),
            TokenKind::True => Expression::Bool(true),
            TokenKind::False => Expression::Bool(false),
            TokenKind::Character(c) => Expression::Char(c),
            TokenKind::String(string) => Expression::String(string),
            TokenKind::Identifier(i) => {
                let ghost p1 = self.pos as int;
                let mut path: Vec<String> = Vec::new();
                path.push(i);
                proof {
                    assert(texts_view(path@) =~= seq![tk.kind->Identifier_0]);
                }
                while self.check(TokenKind::Dot)
                    invariant
                        self.wf(),
                        self.tokens == old(self).tokens,
                        toks == self.toks(),
                        self.file_name() == old(self).file_name(),
                        self.source_text() == old(self).source_text(),
                        p1 <= self.pos <= self.tokens@.len(),
                        self.tokens@.len() > 0,
                        path@.len() >= 1,
                        0 <= start < toks.len(),
                        start == old(self).pos,
                        p1 == start + 1,
                        tk == toks[start],
                        tk.kind is Identifier,
                        dotted_rest(toks, texts_view(path@), span, self.pos as int)
                            == dotted_rest(toks, seq![tk.kind->Identifier_0], tk.span, p1),
                    decreases self.tokens@.len() - self.pos,
                {
                    self.advance()?;
                    let ghost before = self.pos as int;
                    let next = match self.expect_ident() {
                        Ok(next) => next,
                        Err(e) => {
                            assert(dotted_rest(toks, texts_view(path@), span, before - 1)
                                == Err::<((Seq<Seq<char>>, Span), int), Diagnostic>(expect_ident(toks, before)->Err_0));
                            return Err(e);
                        },
                    };
                    span.merge(next.span);
                    proof {
                        lemma_texts_view_push(path@, next.node);
                    }
                    path.push(next.node);
                }
                let ident = join_path(&path);
                if self.check(TokenKind::LParen) {
                    self.advance()?;
                    let args = self.parse_args()?;
                    let end = self.expect(TokenKind::RParen)?.span;
                    let call = Expression::Call { ident: Spanned::new(ident, span), args };
                    span.merge(end);
                    call
                } else {
                    Expression::Identifier(ident)
                }
            },
            TokenKind::Minus => {
                let operand = self.parse_expr(13)?;
                span.merge(operand.span);
                Expression::UnOp { op: UnOp::Negate, operand: Box::new(operand) }
            },
            TokenKind::Exclamation => {
                let operand = self.parse_expr(13)?;
                span.merge(operand.span);
                Expression::UnOp { op: UnOp::Not, operand: Box::new(operand) }
            },
            TokenKind::LParen => {
                let expr = self.parse_expr(0)?;
                span.merge(self.expect(TokenKind::RParen)?.span);
                expr.node
            },
            _ => {
                let mut message = "Expected expr, got ".to_owned();
                push_str(&mut message, token.kind.describe());
                return Err(self.error(token.span, message.as_str(), None));
            },
        };
        Ok(Spanned::new(expr, span))
    }

    fn parse_args(&mut self) -> (r: Result<Vec<Spanned<Expression>>, Error>)
        requires
            old(self).wf(),
            old(self).tokens@.len() > 0,
        ensures
            final(self).tokens == old(self).tokens,
            final(self).reads(old(self), r, parse_args(old(self).toks(), old(self).position()), |a: Vec<Spanned<Expression>>| exprs_view(a@)),
            r is Ok ==> old(self).position() <= final(self).position(),
        decreases old(self).tokens@.len() - old(self).pos, 3nat,
    {
        let ghost toks = self.toks();
        let ghost start = self.pos as int;
        let mut args: Vec<Spanned<Expression>> = Vec::new();
        if self.check(TokenKind::RParen) {
            return Ok(args);
        }
        proof {
            assert(exprs_view(args@) =~= Seq::<Spanned<SpecExpression>>::empty());
        }
        loop
            invariant_except_break
                args_rest(toks, exprs_view(args@), self.pos as int) == parse_args(toks, start),
            invariant
                self.wf(),
                self.tokens == old(self).tokens,
                toks == self.toks(),
                self.file_name() == old(self).file_name(),
                self.source_text() == old(self).source_text(),
                start == old(self).pos,
                start <= self.pos <= self.tokens@.len(),
                self.tokens@.len() > 0,
                !check(toks, start, SpecTokenKind::RParen),
            ensures
                start <= self.pos,
                parse_args(toks, start) == Ok::<(Seq<Spanned<SpecExpression>>, int), Diagnostic>((exprs_view(args@), self.pos as int)),
            decreases self.tokens@.len() - self.pos,
        {
            let arg = self.parse_expr(0)?;
            proof {
                lemma_exprs_view_push(args@, arg);
            }
            args.push(arg);
            if self.check(TokenKind::RParen) {
                break;
            }
            self.expect(TokenKind::Comma)?;
        }
        Ok(args)
    }

    fn parse_block(&mut self) -> (r: Result<Block, Error>)
        requires
            old(self).wf(),
            old(self).tokens@.len() > 0,
        ensures
            final(self).tokens == old(self).tokens,
            final(self).reads(old(self), r, parse_block(old(self).toks(), old(self).position()), |b: Block| block_view(b)),
            r is Ok ==> old(self).position() < final(self).position(),
        decreases old(self).tokens@.len() - old(self).pos, 0nat,
    {
        let ghost toks = self.toks();
        let ghost start = self.pos as int;
        self.expect(TokenKind::LBrace)?;
        let mut stmts: Vec<Statement> = Vec::new();
        proof {
            assert(stmts_view(stmts@) =~= Seq::<SpecStatement>::empty());
        }
        while !self.check(TokenKind::RBrace)
            invariant
                self.wf(),
                self.tokens == old(self).tokens,
                toks == self.toks(),
                self.file_name() == old(self).file_name(),
                self.source_text() == old(self).source_text(),
                start == old(self).pos,
                start < self.pos <= self.tokens@.len(),
                self.tokens@.len() > 0,
                block_rest(toks, stmts_view(stmts@), self.pos as int) == parse_block(toks, start),
            decreases self.tokens@.len() - self.pos,
        {
            let st = self.parse_stmt()?;
            proof {
                lemma_stmts_view_push(stmts@, st);
            }
            stmts.push(st);
        }
        self.expect(TokenKind::RBrace)?;
        Ok(Block { stmts })
    }

    fn parse_stmt(&mut self) -> (r: Result<Statement, Error>)
        requires
            old(self).wf(),
            old(self).tokens@.len() > 0,
        ensures
            final(self).tokens == old(self).tokens,
            final(self).reads(old(self), r, parse_stmt(old(self).toks(), old(self).position()), |st: Statement| stmt_view(st)),
            r is Ok ==> old(self).position() < final(self).position(),
        decreases old(self).tokens@.len() - old(self).pos, 3nat,
    {
        if self.pos >= self.tokens.len() {
            return Err(self.eof_error());
        }
        if self.check(TokenKind::Var) || self.check(TokenKind::Const) {
            self.parse_var()
        } else if matches!(self.tokens[self.pos].kind, TokenKind::Identifier(_))
            && self.pos + 1 < self.tokens.len()
            && self.tokens[self.pos + 1].kind.same_as(&TokenKind::Assign)
        {
            self.parse_assign()
        } else if self.check(TokenKind::If) {
            self.parse_if(true)
        } else if self.check(TokenKind::While) {
            self.parse_while()
        } else if self.check(TokenKind::For) {
            self.parse_for()
        } else if self.check(TokenKind::Continue) || self.check(TokenKind::Break) {
            self.parse_jump()
        } else if self.check(TokenKind::Return) {
            self.parse_return()
        } else {
            let expr = Statement::Expression(self.parse_expr(0)?);
            self.expect(TokenKind::Semicolon)?;
            Ok(expr)
        }
    }

    fn parse_var(&mut self) -> (r: Result<Statement, Error>)
        requires
            old(self).wf(),
            old(self).tokens@.len() > 0,
            check(old(self).toks(), old(self).position(), SpecTokenKind::Var) || check(old(self).toks(), old(self).position(), SpecTokenKind::Const),
        ensures
            final(self).tokens == old(self).tokens,
            final(self).reads(old(self), r, parse_stmt(old(self).toks(), old(self).position()), |st: Statement| stmt_view(st)),
            r is Ok ==> old(self).position() < final(self).position(),
    {
        let is_const = match self.advance()?.kind {
            TokenKind::Const => true,
            _ => false,
        };
        let ident = self.expect_ident()?.node;
        let ty = if self.pos < self.tokens.len() && self.tokens[self.pos].kind.is_type() {
            Some(self.expect_type()?)
        } else {
            None
        };
        self.expect(TokenKind::Assign)?;
        let val = self.parse_expr(0)?;
        self.expect(TokenKind::Semicolon)?;
        Ok(Statement::Var { ident, ty, val, is_const })
    }

    fn parse_assign(&mut self) -> (r: Result<Statement, Error>)
        requires
            old(self).wf(),
            old(self).tokens@.len() > 0,
            old(self).position() + 1 < old(self).toks().len(),
            old(self).toks()[old(self).position()].kind is Identifier,
            old(self).toks()[old(self).position() + 1].kind == SpecTokenKind::Assign,
        ensures
            final(self).tokens == old(self).tokens,
            final(self).reads(old(self), r, parse_stmt(old(self).toks(), old(self).position()), |st: Statement| stmt_view(st)),
            r is Ok ==> old(self).position() < final(self).position(),
    {
        let ident = self.expect_ident()?;
        self.advance()?;
        let val = self.parse_expr(0)?;
        self.expect(TokenKind::Semicolon)?;
        Ok(Statement::Assign { ident, val })
    }

    fn parse_while(&mut self) -> (r: Result<Statement, Error>)
        requires
            old(self).wf(),
            old(self).tokens@.len() > 0,
            check(old(self).toks(), old(self).position(), SpecTokenKind::While),
        ensures
            final(self).tokens == old(self).tokens,
            final(self).reads(old(self), r, parse_stmt(old(self).toks(), old(self).position()), |st: Statement| stmt_view(st)),
            r is Ok ==> old(self).position() < final(self).position(),
        decreases old(self).tokens@.len() - old(self).pos, 2nat,
    {
        self.advance()?;
        let condition = self.parse_expr(0)?;
        let body = self.parse_block()?;
        self.expect(TokenKind::Semicolon)?;
        Ok(Statement::While { condition, body })
    }

    fn parse_for(&mut self) -> (r: Result<Statement, Error>)
        requires
            old(self).wf(),
            old(self).tokens@.len() > 0,
            check(old(self).toks(), old(self).position(), SpecTokenKind::For),
        ensures
            final(self).tokens == old(self).tokens,
            final(self).reads(old(self), r, parse_stmt(old(self).toks(), old(self).position()), |st: Statement| stmt_view(st)),
            r is Ok ==> old(self).position() < final(self).position(),
        decreases old(self).tokens@.len() - old(self).pos, 2nat,
    {
        self.advance()?;
        let ident = self.expect_ident()?.node;
        self.expect(TokenKind::In)?;
        let iterable = self.parse_expr(0)?;
        let body = self.parse_block()?;
        self.expect(TokenKind::Semicolon)?;
        Ok(Statement::For { ident, iterable, body })
    }

    fn parse_jump(&mut self) -> (r: Result<Statement, Error>)
        requires
            old(self).wf(),
            old(self).tokens@.len() > 0,
            check(old(self).toks(), old(self).position(), SpecTokenKind::Continue) || check(old(self).toks(), old(self).position(), SpecTokenKind::Break),
        ensures
            final(self).tokens == old(self).tokens,
            final(self).reads(old(self), r, parse_stmt(old(self).toks(), old(self).position()), |st: Statement| stmt_view(st)),
            r is Ok ==> old(self).position() < final(self).position(),
    {
        let is_continue = self.check(TokenKind::Continue);
        let span = self.advance()?.span;
        self.expect(TokenKind::Semicolon)?;
        if is_continue {
            Ok(Statement::Continue(span))
        } else {
            Ok(Statement::Break(span))
        }
    }

    fn parse_return(&mut self) -> (r: Result<Statement, Error>)
        requires
            old(self).wf(),
            old(self).tokens@.len() > 0,
            check(old(self).toks(), old(self).position(), SpecTokenKind::Return),
        ensures
            final(self).tokens == old(self).tokens,
            final(self).reads(old(self), r, parse_stmt(old(self).toks(), old(self).position()), |st: Statement| stmt_view(st)),
            r is Ok ==> old(self).position() < final(self).position(),
    {
        let mut span = self.advance()?.span;
        if self.check(TokenKind::Semicolon) {
            self.advance()?;
            return Ok(Statement::Return(None, span));
        }
        let expr = self.parse_expr(0)?;
        span.merge(expr.span);
        self.expect(TokenKind::Semicolon)?;
        Ok(Statement::Return(Some(expr), span))
    }

    fn parse_if(&mut self, expect_semi: bool) -> (r: Result<Statement, Error>)
        requires
            old(self).wf(),
            old(self).tokens@.len() > 0,
        ensures
            final(self).tokens == old(self).tokens,
            final(self).reads(old(self), r, parse_if(old(self).toks(), old(self).position(), expect_semi), |st: Statement| stmt_view(st)),
            r is Ok ==> old(self).position() < final(self).position(),
        decreases old(self).tokens@.len() - old(self).pos, 1nat,
    {
        self.expect(TokenKind::If)?;
        let condition = self.parse_expr(0)?;
        let then_br = self.parse_block()?;
        let else_br = if self.check(TokenKind::Else) {
            self.advance()?;
            if self.check(TokenKind::If) {
                let nested = self.parse_if(false)?;
                let mut stmts: Vec<Statement> = Vec::new();
                proof {
                    lemma_stmts_view_push(stmts@, nested);
                    assert(stmts_view(stmts@) =~= Seq::<SpecStatement>::empty());
                }
                stmts.push(nested);
                Some(Block { stmts })
            } else {
                Some(self.parse_block()?)
            }
        } else {
            None
        };
        if expect_semi {
            self.expect(TokenKind::Semicolon)?;
        }
        Ok(Statement::If { condition, then_br, else_br })
    }

    fn parse_params(&mut self) -> (r: Result<Vec<Spanned<Param>>, Error>)
        requires
            old(self).wf(),
            old(self).tokens@.len() > 0,
        ensures
            final(self).tokens == old(self).tokens,
            final(self).reads(old(self), r, parse_params(old(self).toks(), old(self).position()), |ps: Vec<Spanned<Param>>| params_view(ps@)),
            r is Ok ==> old(self).position() <= final(self).position(),
    {
        let ghost toks = self.toks();
        let ghost start = self.pos as int;
        let mut params: Vec<Spanned<Param>> = Vec::new();
        if self.check(TokenKind::RParen) {
            return Ok(params);
        }
        proof {
            assert(params_view(params@) =~= Seq::<Spanned<SpecParam>>::empty());
        }
        loop
            invariant_except_break
                params_rest(toks, params_view(params@), self.pos as int) == parse_params(toks, start),
            invariant
                self.wf(),
                self.tokens == old(self).tokens,
                toks == self.toks(),
                self.file_name() == old(self).file_name(),
                self.source_text() == old(self).source_text(),
                start == old(self).pos,
                start <= self.pos <= self.tokens@.len(),
                self.tokens@.len() > 0,
                !check(toks, start, SpecTokenKind::RParen),
            ensures
                start <= self.pos,
                parse_params(toks, start) == Ok::<(Seq<Spanned<SpecParam>>, int), Diagnostic>((params_view(params@), self.pos as int)),
            decreases self.tokens@.len() - self.pos,
        {
            if self.check(TokenKind::Ellipsis) {
                let span = self.advance()?.span;
                let p = Spanned::new(Param { name: "...".to_owned(), ty: Spanned::new(Type::Ellipsis, span) }, span);
                proof {
                    lemma_params_view_push(params@, p);
                }
                params.push(p);
                break;
            }
            let name = self.expect_ident()?;
            let mut span = name.span;
            let ty = self.expect_type()?;
            span.merge(ty.span);
            let p = Spanned::new(Param { name: name.node, ty }, span);
            proof {
                lemma_params_view_push(params@, p);
            }
            params.push(p);
            if self.check(TokenKind::RParen) {
                break;
            }
            self.expect(TokenKind::Comma)?;
        }
        Ok(params)
    }

    fn parse_import_path(&mut self) -> (r: Result<ImportPath, Error>)
        requires
            old(self).wf(),
            old(self).tokens@.len() > 0,
        ensures
            final(self).tokens == old(self).tokens,
            final(self).reads(old(self), r, parse_import_path(old(self).toks(), old(self).position()), |ip: ImportPath| import_path_view(ip)),
            r is Ok && !at_eof(old(self).toks(), old(self).position()) ==> old(self).position() < final(self).position(),
        decreases old(self).tokens@.len() - old(self).pos, 1nat,
    {
        let ghost toks = self.toks();
        let ghost start = self.pos as int;
        let mut path: Vec<String> = Vec::new();
        let mut items: Vec<ImportPath> = Vec::new();
        let mut alias: Option<String> = None;
        if self.pos >= self.tokens.len() {
            return Err(self.eof_error());
        }
        let mut span = self.tokens[self.pos].span;
        proof {
            assert(texts_view(path@) =~= Seq::<Seq<char>>::empty());
            assert(import_paths_view(items@) =~= Seq::<SpecImportPath>::empty());
        }
        while !self.is_eof()
            invariant_except_break
                path_loop(toks, texts_view(path@), span, self.pos as int)
                    == path_loop(toks, Seq::empty(), toks[start].span, start),
                items@.len() == 0,
            invariant
                self.wf(),
                self.tokens == old(self).tokens,
                toks == self.toks(),
                self.file_name() == old(self).file_name(),
                self.source_text() == old(self).source_text(),
                start == old(self).pos,
                0 <= start < toks.len(),
                start <= self.pos <= self.tokens@.len(),
                self.tokens@.len() > 0,
                alias is None,
                self.pos == start ==> path@.len() == 0,
            ensures
                path_loop(toks, Seq::empty(), toks[start].span, start)
                    == Ok::<((Seq<Seq<char>>, Seq<SpecImportPath>, Span), int), Diagnostic>(
                        ((texts_view(path@), import_paths_view(items@), span), self.pos as int)),
                !at_eof(toks, start) ==> start < self.pos,
            decreases self.tokens@.len() - self.pos,
        {
            if self.check(TokenKind::LParen) {
                self.advance()?;
                let ghost p0 = self.pos as int;
                while !self.is_eof() && !self.check(TokenKind::RParen)
                    invariant
                        self.wf(),
                        self.tokens == old(self).tokens,
                        toks == self.toks(),
                        self.file_name() == old(self).file_name(),
                        self.source_text() == old(self).source_text(),
                        p0 <= self.pos <= self.tokens@.len(),
                        start < p0,
                        start == old(self).pos,
                        0 <= start < toks.len(),
                        self.tokens@.len() > 0,
                        alias is None,
                        check(toks, p0 - 1, SpecTokenKind::LParen),
                        path_loop(toks, texts_view(path@), span, p0 - 1)
                            == path_loop(toks, Seq::empty(), toks[start].span, start),
                        items_loop(toks, import_paths_view(items@), self.pos as int)
                            == items_loop(toks, Seq::empty(), p0),
                    decreases self.tokens@.len() - self.pos,
                {
                    let item = self.parse_import_path()?;
                    proof {
                        lemma_import_paths_view_push(items@, item);
                    }
                    items.push(item);
                    if !self.check(TokenKind::RParen) {
                        self.expect(TokenKind::Comma)?;
                    }
                }
                self.advance()?;
                break;
            }
            let ident = self.expect_ident()?;
            proof {
                lemma_texts_view_push(path@, ident.node);
            }
            path.push(ident.node);
            if !self.check(TokenKind::Dot) {
                span.merge(ident.span);
                break;
            }
            self.advance()?;
        }
        if items.len() == 0 && self.check(TokenKind::As) {
            self.advance()?;
            alias = Some(self.expect_ident()?.node);
        }
        Ok(ImportPath { path: Spanned::new(path, span), items, alias })
    }

    fn parse_import(&mut self, visibility: Visibility) -> (r: Result<Item, Error>)
        requires
            old(self).wf(),
            old(self).tokens@.len() > 0,
        ensures
            final(self).tokens == old(self).tokens,
            final(self).reads(old(self), r, parse_import(old(self).toks(), old(self).position(), visibility), |i: Item| item_view(i)),
            r is Ok ==> old(self).position() < final(self).position(),
    {
        self.advance()?;
        let path = self.parse_import_path()?;
        self.expect(TokenKind::Semicolon)?;
        Ok(Item::Import(Import { path, visibility }))
    }

    fn parse_signature(&mut self) -> (r: Result<(Spanned<String>, Vec<Spanned<Param>>, Spanned<Type>), Error>)
        requires
            old(self).wf(),
            old(self).tokens@.len() > 0,
        ensures
            final(self).tokens == old(self).tokens,
            final(self).reads(old(self), r, parse_signature(old(self).toks(), old(self).position()), |x: (Spanned<String>, Vec<Spanned<Param>>, Spanned<Type>)| (spanned_text(x.0), params_view(x.1@), x.2)),
            r is Ok ==> old(self).position() < final(self).position(),
    {
        let name = self.expect_ident()?;
        self.expect(TokenKind::LParen)?;
        let params = self.parse_params()?;
        self.expect(TokenKind::RParen)?;
        let ret_type = self.expect_type()?;
        Ok((name, params, ret_type))
    }

    fn parse_extern(&mut self, visibility: Visibility) -> (r: Result<Item, Error>)
        requires
            old(self).wf(),
            old(self).tokens@.len() > 0,
        ensures
            final(self).tokens == old(self).tokens,
            final(self).reads(old(self), r, parse_extern(old(self).toks(), old(self).position(), visibility), |i: Item| item_view(i)),
            r is Ok ==> old(self).position() < final(self).position(),
    {
        self.advance()?;
        self.expect(TokenKind::Fn)?;
        let (name, params, ret_type) = self.parse_signature()?;
        self.expect(TokenKind::Semicolon)?;
        Ok(Item::Extern(Extern { name: name.node, params, ret_type, visibility }))
    }

    fn parse_function(&mut self, visibility: Visibility) -> (r: Result<Item, Error>)
        requires
            old(self).wf(),
            old(self).tokens@.len() > 0,
        ensures
            final(self).tokens == old(self).tokens,
            final(self).reads(old(self), r, parse_function(old(self).toks(), old(self).position(), visibility), |i: Item| item_view(i)),
            r is Ok ==> old(self).position() < final(self).position(),
    {
        self.advance()?;
        let (name, params, ret_type) = self.parse_signature()?;
        let body = self.parse_block()?;
        self.expect(TokenKind::Semicolon)?;
        Ok(Item::Function(Function { name, params, ret_type, body, visibility }))
    }

    fn parse_item(&mut self) -> (r: Result<Item, Error>)
        requires
            old(self).wf(),
            old(self).tokens@.len() > 0,
        ensures
            final(self).tokens == old(self).tokens,
            final(self).reads(old(self), r, parse_item(old(self).toks(), old(self).position()), |i: Item| item_view(i)),
            r is Ok ==> old(self).position() < final(self).position(),
    {
        let visibility = if self.check(TokenKind::Pub) {
            self.advance()?;
            Visibility::Public
        } else {
            Visibility::Private
        };
        if self.pos >= self.tokens.len() {
            return Err(self.eof_error());
        }
        if self.check(TokenKind::Import) {
            self.parse_import(visibility)
        } else if self.check(TokenKind::Extern) {
            self.parse_extern(visibility)
        } else if self.check(TokenKind::Fn) {
            self.parse_function(visibility)
        } else {
            let token = &self.tokens[self.pos];
            let mut message = "Expected import, extern or fn, got ".to_owned();
            push_str(&mut message, token.kind.describe());
            Err(self.error(token.span, message.as_str(), None))
        }
    }

    /// Reads the whole program.
    pub fn parse_program(&mut self) -> (r: Result<Program, Error>)
        requires
            old(self).wf(),
        ensures
            final(self).wf(),
            final(self).toks() == old(self).toks(),
            final(self).file_name() == old(self).file_name(),
            final(self).source_text() == old(self).source_text(),
            program_rest(old(self).toks(), Seq::empty(), old(self).position()) matches Ok((_, p)) ==> final(self).position() == p,
            match parse_program(old(self).toks(), old(self).position()) {
                Ok(prog) => r matches Ok(p) && p@ == prog,
                Err(d) => r matches Err(e) && e@ == old(self).error_for(d),
            },
    {
        let ghost toks = self.toks();
        let ghost start = self.pos as int;
        let mut items: Vec<Item> = Vec::new();
        proof {
            assert(items_view(items@) =~= Seq::<SpecItem>::empty());
        }
        while !self.is_eof()
            invariant
                self.wf(),
                self.tokens == old(self).tokens,
                toks == self.toks(),
                self.file_name() == old(self).file_name(),
                self.source_text() == old(self).source_text(),
                start == old(self).pos,
                start <= self.pos <= self.tokens@.len(),
                program_rest(toks, items_view(items@), self.pos as int) == program_rest(toks, Seq::empty(), start),
            decreases self.tokens@.len() - self.pos,
        {
            let item = self.parse_item()?;
            proof {
                assert(items_view(items@.push(item)) =~= items_view(items@).push(item_view(item)));
            }
            items.push(item);
        }
        Ok(Program { items })
    }
}

/// A token is read as the binary operator that is written with the same characters, and
/// only as that one: `||` is `Or`, `&&` is `And`, and distinct tokens give distinct
/// operators.
pub proof fn law_operator_tokens(k: SpecTokenKind, op: BinOp)
    ensures
        binop_of_kind(k) == Some(op) <==> punct_text(k) == Some(binop_symbol(op)),
{
    match op {
        BinOp::Or => {
            assert(binop_symbol(op)[0] == '|');
        },
        BinOp::And => {
            assert(binop_symbol(op)[0] == '&');
        },
        _ => {},
    }
    match punct_text(k) {
        Some(t) => {
            if t == binop_symbol(op) {
                assert(t.len() == binop_symbol(op).len());
                assert(t[0] == binop_symbol(op)[0]);
                if t.len() > 1 {
                    assert(t[1] == binop_symbol(op)[1]);
                }
            }
        },
        None => {},
    }
}

/// Types are read by their names: a token read as a type is the word that names that
/// type, and the word naming any type is read as that type.
pub proof fn law_type_keywords(k: SpecTokenKind, t: Type)
    ensures
        type_of_kind(k) == Some(t) ==> describe_kind(k) == type_text(t),
        t != Type::Ellipsis ==> type_of_kind(word_kind(type_text(t))) == Some(t),
{
    match t {
        Type::I64 => law_keywords_by_text(type_text(t), SpecTokenKind::I64),
        Type::U64 => law_keywords_by_text(type_text(t), SpecTokenKind::U64),
        Type::F64 => law_keywords_by_text(type_text(t), SpecTokenKind::F64),
        Type::I32 => law_keywords_by_text(type_text(t), SpecTokenKind::I32),
        Type::U32 => law_keywords_by_text(type_text(t), SpecTokenKind::U32),
        Type::F32 => law_keywords_by_text(type_text(t), SpecTokenKind::F32),
        Type::I16 => law_keywords_by_text(type_text(t), SpecTokenKind::I16),
        Type::U16 => law_keywords_by_text(type_text(t), SpecTokenKind::U16),
        Type::I8 => law_keywords_by_text(type_text(t), SpecTokenKind::I8),
        Type::U8 => law_keywords_by_text(type_text(t), SpecTokenKind::U8),
        Type::Bool => law_keywords_by_text(type_text(t), SpecTokenKind::Bool),
        Type::Char => law_keywords_by_text(type_text(t), SpecTokenKind::Char),
        Type::Str => law_keywords_by_text(type_text(t), SpecTokenKind::Str),
        Type::Void => law_keywords_by_text(type_text(t), SpecTokenKind::Void),
        Type::Ellipsis => {},
    }
}

/// A literal is read as the value it writes, and `-` and `!` read a negation and a
/// logical not of the operand that follows.
pub proof fn law_prefix_expressions(toks: Seq<SpecToken>, pos: int)
    requires
        0 <= pos < toks.len(),
    ensures
        parse_prefix(toks, pos) matches Ok((e, _)) ==> match toks[pos].kind {
            SpecTokenKind::Integer(v) => e.node == SpecExpression::Integer(v),
            SpecTokenKind::Float(f) => e.node == SpecExpression::Float(f),
            SpecTokenKind::True => e.node == SpecExpression::Bool(true),
            SpecTokenKind::False => e.node == SpecExpression::Bool(false),
            SpecTokenKind::Character(c) => e.node == SpecExpression::Char(c),
            SpecTokenKind::String(x) => e.node == SpecExpression::String(x),
            SpecTokenKind::Identifier(_) => e.node is Identifier || e.node is Call,
            SpecTokenKind::Minus => e.node matches SpecExpression::UnOp { op: UnOp::Negate, .. },
            SpecTokenKind::Exclamation => e.node matches SpecExpression::UnOp { op: UnOp::Not, .. },
            _ => true,
        },
{
}

} // verus!
