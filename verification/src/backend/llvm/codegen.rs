use vstd::prelude::*;
use crate::backend::llvm::context::{
    CgView, CodegenContext, ir_type, terminated, put, new_value, constant, new_block, position, declare,
    value_type, initial_state,
};
use crate::backend::llvm::ir::{
    int_pred_holds, int_pred_signed, float_pred_holds, int_op_value, float_op_value,
    IrType, IntOp, FloatOp, IntPredicate, FloatPredicate, CastOp, BlockRole, Instr, InstrView, is_int, is_float,
    bit_width, instrs_view,
};
use crate::frontend::errors::span::{Span, Spanned};
use crate::frontend::parser::ast::{Type, BinOp, UnOp, is_comparison, is_arithmetic, compares, arith_value};
use crate::frontend::sema::typed_ast::{
    TypedExpression, TypedStatement, TypedBlock, TypedParam, TypedFunction, TypedExtern, TypedItem, TypedProgram,
    SpecTypedExpression, SpecTypedStatement, SpecTypedBlock, SpecTypedParam, SpecTypedFunction, SpecTypedExtern,
    SpecTypedItem, SpecTypedProgram, type_of, texprs_view, stexpr_view, tstmt_view, tstmts_view, tblock_view,
    tparams_view, titem_view, titems_view,
};
use crate::frontend::sema::type_checker::{lemma_texprs_view_index, lemma_tstmts_view_index};

verus! {

// ---------------------------------------------------------------------------
// What the generated code is, stated over views. `None` stands for an input that
// code generation cannot handle (a value that is not there, a type that has no
// representation, a jump outside any loop).
// ---------------------------------------------------------------------------

pub open spec fn is_signed(t: Type) -> bool {
    matches!(t, Type::I64 | Type::I32 | Type::I16 | Type::I8)
}

/// The type of an integer literal of type `t`.
pub open spec fn int_literal_type(t: Type) -> Option<IrType> {
    match t {
        Type::I64 | Type::U64 => Some(IrType::I64),
        Type::I32 | Type::U32 => Some(IrType::I32),
        Type::I16 | Type::U16 => Some(IrType::I16),
        Type::I8 | Type::U8 => Some(IrType::I8),
        _ => None,
    }
}

/// The type of a float literal of type `t`.
pub open spec fn float_literal_type(t: Type) -> Option<IrType> {
    match t {
        Type::F64 => Some(IrType::F64),
        Type::F32 => Some(IrType::F32),
        _ => None,
    }
}

/// The step for `op` on integer values `l` and `r` of type `t`, with the type of its result.
pub open spec fn int_binop(op: BinOp, signed: bool, l: usize, r: usize, t: IrType) -> Option<(InstrView, IrType)> {
    match op {
        BinOp::Plus => Some((InstrView::IntBinary { op: IntOp::Add, lhs: l, rhs: r }, t)),
        BinOp::Minus => Some((InstrView::IntBinary { op: IntOp::Sub, lhs: l, rhs: r }, t)),
        BinOp::Multiply => Some((InstrView::IntBinary { op: IntOp::Mul, lhs: l, rhs: r }, t)),
        BinOp::Divide => Some((
            InstrView::IntBinary { op: if signed { IntOp::SignedDiv } else { IntOp::UnsignedDiv }, lhs: l, rhs: r },
            t,
        )),
        BinOp::Eq => Some((InstrView::IntCompare { pred: IntPredicate::EQ, lhs: l, rhs: r }, IrType::I1)),
        BinOp::Greater => Some((
            InstrView::IntCompare { pred: if signed { IntPredicate::SGT } else { IntPredicate::UGT }, lhs: l, rhs: r },
            IrType::I1,
        )),
        BinOp::Lower => Some((
            InstrView::IntCompare { pred: if signed { IntPredicate::SLT } else { IntPredicate::ULT }, lhs: l, rhs: r },
            IrType::I1,
        )),
        BinOp::GreaterEq => Some((
            InstrView::IntCompare { pred: if signed { IntPredicate::SGE } else { IntPredicate::UGE }, lhs: l, rhs: r },
            IrType::I1,
        )),
        BinOp::LowerEq => Some((
            InstrView::IntCompare { pred: if signed { IntPredicate::SLE } else { IntPredicate::ULE }, lhs: l, rhs: r },
            IrType::I1,
        )),
        BinOp::NotEq => Some((InstrView::IntCompare { pred: IntPredicate::NE, lhs: l, rhs: r }, IrType::I1)),
        _ => None,
    }
}

/// The step for `op` on float values `l` and `r` of type `t`, with the type of its result.
pub open spec fn float_binop(op: BinOp, l: usize, r: usize, t: IrType) -> Option<(InstrView, IrType)> {
    match op {
        BinOp::Plus => Some((InstrView::FloatBinary { op: FloatOp::Add, lhs: l, rhs: r }, t)),
        BinOp::Minus => Some((InstrView::FloatBinary { op: FloatOp::Sub, lhs: l, rhs: r }, t)),
        BinOp::Multiply => Some((InstrView::FloatBinary { op: FloatOp::Mul, lhs: l, rhs: r }, t)),
        BinOp::Divide => Some((InstrView::FloatBinary { op: FloatOp::Div, lhs: l, rhs: r }, t)),
        BinOp::Eq => Some((InstrView::FloatCompare { pred: FloatPredicate::OEQ, lhs: l, rhs: r }, IrType::I1)),
        BinOp::Greater => Some((InstrView::FloatCompare { pred: FloatPredicate::OGT, lhs: l, rhs: r }, IrType::I1)),
        BinOp::Lower => Some((InstrView::FloatCompare { pred: FloatPredicate::OLT, lhs: l, rhs: r }, IrType::I1)),
        BinOp::GreaterEq => Some((InstrView::FloatCompare { pred: FloatPredicate::OGE, lhs: l, rhs: r }, IrType::I1)),
        BinOp::LowerEq => Some((InstrView::FloatCompare { pred: FloatPredicate::OLE, lhs: l, rhs: r }, IrType::I1)),
        BinOp::NotEq => Some((InstrView::FloatCompare { pred: FloatPredicate::ONE, lhs: l, rhs: r }, IrType::I1)),
        _ => None,
    }
}

/// The conversion of a value of type `from` to type `to`.
pub open spec fn cast_op(from: IrType, to: IrType, from_signed: bool, to_signed: bool) -> Option<CastOp> {
    if is_int(to) {
        if is_int(from) {
            Some(if bit_width(from) > bit_width(to) {
                CastOp::Truncate
            } else if from_signed {
                CastOp::SignExtend
            } else {
                CastOp::ZeroExtend
            })
        } else if is_float(from) {
            Some(if to_signed { CastOp::FloatToSigned } else { CastOp::FloatToUnsigned })
        } else {
            None
        }
    } else if is_float(to) {
        if is_int(from) {
            Some(if from_signed { CastOp::SignedToFloat } else { CastOp::UnsignedToFloat })
        } else if is_float(from) {
            Some(if bit_width(from) > bit_width(to) { CastOp::FloatTruncate } else { CastOp::FloatExtend })
        } else {
            None
        }
    } else {
        None
    }
}

/// The code of expression `e`: the state after it and the value it has, if any (a call
/// of a function that returns nothing has none).
pub open spec fn cg_expr(st: CgView, e: Spanned<SpecTypedExpression>) -> Option<(CgView, Option<usize>)>
    decreases e, 1int,
{
    match e.node {
        SpecTypedExpression::Integer { val, ty } => match int_literal_type(ty) {
            Some(t) => {
                let (s1, v) = constant(st, InstrView::ConstInt { ty: t, value: val as u64, sign_extend: is_signed(ty) }, t);
                Some((s1, Some(v)))
            },
            None => None,
        },
        SpecTypedExpression::Float { val, ty } => match float_literal_type(ty) {
            Some(t) => {
                let (s1, v) = constant(st, InstrView::ConstFloat { ty: t, text: val }, t);
                Some((s1, Some(v)))
            },
            None => None,
        },
        SpecTypedExpression::Bool(b) => {
            let (s1, v) = constant(st, InstrView::ConstInt { ty: IrType::I1, value: if b { 1 } else { 0 }, sign_extend: false }, IrType::I1);
            Some((s1, Some(v)))
        },
        SpecTypedExpression::Char(c) => {
            let (s1, v) = constant(st, InstrView::ConstInt { ty: IrType::I8, value: c as u64, sign_extend: false }, IrType::I8);
            Some((s1, Some(v)))
        },
        SpecTypedExpression::String(t) => match new_value(st, InstrView::GlobalString { text: t }, Some(IrType::Ptr)) {
            Some((s1, v)) => Some((s1, Some(v))),
            None => None,
        },
        SpecTypedExpression::Identifier { name, ty, .. } => match ir_type(ty) {
            Some(t) => if st.variables.contains_key(name) {
                match new_value(st, InstrView::Load { ty: t, ptr: st.variables[name] }, Some(t)) {
                    Some((s1, v)) => Some((s1, Some(v))),
                    None => None,
                }
            } else {
                None
            },
            None => None,
        },
        SpecTypedExpression::BinOp { .. } => cg_binop(st, e),
        SpecTypedExpression::UnOp { op, operand, .. } => match op {
            UnOp::Negate => match cg_expr(st, *operand) {
                Some((s1, Some(v))) => match value_type(s1, v) {
                    Some(Some(t)) => if is_int(t) {
                        match new_value(s1, InstrView::IntNeg { value: v }, Some(t)) {
                            Some((s2, n)) => Some((s2, Some(n))),
                            None => None,
                        }
                    } else if is_float(t) {
                        match new_value(s1, InstrView::FloatNeg { value: v }, Some(t)) {
                            Some((s2, n)) => Some((s2, Some(n))),
                            None => None,
                        }
                    } else {
                        None
                    },
                    _ => None,
                },
                _ => None,
            },
            UnOp::Not => match cg_bool(st, *operand) {
                Some((s1, c)) => match new_value(s1, InstrView::Not { value: c }, Some(IrType::I1)) {
                    Some((s2, n)) => Some((s2, Some(n))),
                    None => None,
                },
                None => None,
            },
        },
        SpecTypedExpression::Call { mangled, args, .. } => if st.functions.contains_key(mangled) {
            let f = st.functions[mangled];
            match cg_args(st, args, 0) {
                Some((s1, vs)) => if f < s1.funcs.len() {
                    let ret = s1.funcs[f as int].1;
                    match new_value(s1, InstrView::Call { func: f, args: vs }, ret) {
                        Some((s2, v)) => Some((s2, if ret is Some { Some(v) } else { None })),
                        None => None,
                    }
                } else {
                    None
                },
                None => None,
            }
        } else {
            None
        },
        SpecTypedExpression::As { .. } => cg_cast(st, e),
    }
}

/// The code of an expression whose value is needed.
pub open spec fn cg_value(st: CgView, e: Spanned<SpecTypedExpression>) -> Option<(CgView, usize)>
    decreases e, 2int,
{
    match cg_expr(st, e) {
        Some((s1, Some(v))) => Some((s1, v)),
        _ => None,
    }
}

/// The code of expression `e` as a condition: whether its value is not zero.
pub open spec fn cg_bool(st: CgView, e: Spanned<SpecTypedExpression>) -> Option<(CgView, usize)>
    decreases e, 3int,
{
    match cg_value(st, e) {
        Some((s1, v)) => match value_type(s1, v) {
            Some(Some(t)) => if is_int(t) {
                let (s2, z) = constant(s1, InstrView::ConstInt { ty: t, value: 0, sign_extend: false }, t);
                new_value(s2, InstrView::IntCompare { pred: IntPredicate::NE, lhs: v, rhs: z }, Some(IrType::I1))
            } else if is_float(t) {
                let (s2, z) = constant(s1, InstrView::ConstFloat { ty: t, text: "0.0"@ }, t);
                new_value(s2, InstrView::FloatCompare { pred: FloatPredicate::ONE, lhs: v, rhs: z }, Some(IrType::I1))
            } else {
                None
            },
            _ => None,
        },
        None => None,
    }
}

/// The code of the arguments from the `i`-th on, in order, and their values.
pub open spec fn cg_args(st: CgView, args: Seq<Spanned<SpecTypedExpression>>, i: int) -> Option<(CgView, Seq<usize>)>
    decreases args, args.len() - i,
{
    if i < 0 || i >= args.len() {
        Some((st, Seq::empty()))
    } else {
        match cg_value(st, args[i]) {
            Some((s1, v)) => match cg_args(s1, args, i + 1) {
                Some((s2, vs)) => Some((s2, seq![v] + vs)),
                None => None,
            },
            None => None,
        }
    }
}

/// The code of binary operation `e`. `&&` and `||` evaluate their right operand only
/// when the left does not decide, and join the two ways with a phi node.
pub open spec fn cg_binop(st: CgView, e: Spanned<SpecTypedExpression>) -> Option<(CgView, Option<usize>)>
    decreases e, 0int,
{
    match e.node {
        SpecTypedExpression::BinOp { left, op, right, ty } => if op == BinOp::And || op == BinOp::Or {
            match (st.current_func, st.current) {
                (Some(f), Some(cur)) => match cg_bool(st, *left) {
                    Some((s1, lc)) => {
                        let (s2, rb) = new_block(s1, f, BlockRole::LogicalRight);
                        let (s3, mb) = new_block(s2, f, BlockRole::LogicalMerge);
                        let branch = if op == BinOp::And {
                            InstrView::CondBr { cond: lc, then_block: rb, else_block: mb }
                        } else {
                            InstrView::CondBr { cond: lc, then_block: mb, else_block: rb }
                        };
                        match put(s3, branch, None, true) {
                            Some(s4) => match cg_bool(position(s4, rb), *right) {
                                Some((s5, rc)) => match s5.current {
                                    Some(rend) => match put(s5, InstrView::Br { block: mb }, None, true) {
                                        Some(s6) => {
                                            let (s7, k) = constant(
                                                position(s6, mb),
                                                InstrView::ConstInt { ty: IrType::I1, value: if op == BinOp::And { 0 } else { 1 }, sign_extend: false },
                                                IrType::I1,
                                            );
                                            match new_value(s7, InstrView::Phi { ty: IrType::I1, incoming: seq![(k, cur), (rc, rend)] }, Some(IrType::I1)) {
                                                Some((s8, p)) => Some((s8, Some(p))),
                                                None => None,
                                            }
                                        },
                                        None => None,
                                    },
                                    None => None,
                                },
                                None => None,
                            },
                            None => None,
                        }
                    },
                    None => None,
                },
                _ => None,
            }
        } else {
            match cg_value(st, *left) {
                Some((s1, lv)) => match cg_value(s1, *right) {
                    Some((s2, rv)) => match (value_type(s2, lv), value_type(s2, rv)) {
                        (Some(Some(a)), Some(Some(b))) => {
                            let step = if is_int(a) && is_int(b) {
                                int_binop(op, is_signed(ty), lv, rv, a)
                            } else if is_float(a) && is_float(b) {
                                float_binop(op, lv, rv, a)
                            } else {
                                None
                            };
                            match step {
                                Some((i, t)) => match new_value(s2, i, Some(t)) {
                                    Some((s3, v)) => Some((s3, Some(v))),
                                    None => None,
                                },
                                None => None,
                            }
                        },
                        _ => None,
                    },
                    None => None,
                },
                None => None,
            }
        },
        _ => None,
    }
}

/// The code of cast `e`: the value unchanged where its type already is the target type.
pub open spec fn cg_cast(st: CgView, e: Spanned<SpecTypedExpression>) -> Option<(CgView, Option<usize>)>
    decreases e, 0int,
{
    match e.node {
        SpecTypedExpression::As { expr, ty } => match cg_value(st, *expr) {
            Some((s1, v)) => match (ir_type(ty.node), value_type(s1, v)) {
                (Some(target), Some(Some(from))) => if from == target {
                    Some((s1, Some(v)))
                } else {
                    match cast_op(from, target, is_signed(type_of(expr.node)), is_signed(ty.node)) {
                        Some(c) => match new_value(s1, InstrView::Cast { op: c, value: v, ty: target }, Some(target)) {
                            Some((s2, r)) => Some((s2, Some(r))),
                            None => None,
                        },
                        None => None,
                    }
                },
                _ => None,
            },
            None => None,
        },
        _ => None,
    }
}

/// Steps go to block `b`, the code of `body` follows, and a jump to `merge` ends it
/// unless it already ends in a terminator; whether it did.
pub open spec fn cg_branch(st: CgView, b: usize, body: SpecTypedBlock, merge: usize) -> Option<(CgView, bool)>
    decreases body, 2int,
{
    match cg_block(position(st, b), body) {
        Some(s1) => if terminated(s1) {
            Some((s1, true))
        } else {
            match put(s1, InstrView::Br { block: merge }, None, true) {
                Some(s2) => Some((s2, false)),
                None => None,
            }
        },
        None => None,
    }
}

/// The code of statement `s`.
pub open spec fn cg_stmt(st: CgView, s: SpecTypedStatement) -> Option<CgView>
    decreases s, 0int,
{
    match s {
        SpecTypedStatement::Expression(e) => match cg_expr(st, e) {
            Some((s1, _)) => Some(s1),
            None => None,
        },
        SpecTypedStatement::Var { ident, ty, val, .. } => match cg_value(st, val) {
            Some((s1, v)) => match ir_type(ty.node) {
                Some(t) => match new_value(s1, InstrView::Alloca { ty: t }, Some(IrType::Ptr)) {
                    Some((s2, a)) => match put(s2, InstrView::Store { ptr: a, value: v }, None, false) {
                        Some(s3) => Some(CgView { variables: s3.variables.insert(ident, a), ..s3 }),
                        None => None,
                    },
                    None => None,
                },
                None => None,
            },
            None => None,
        },
        SpecTypedStatement::Assign { ident, val, .. } => if st.variables.contains_key(ident.node) {
            match cg_value(st, val) {
                Some((s1, v)) => put(s1, InstrView::Store { ptr: st.variables[ident.node], value: v }, None, false),
                None => None,
            }
        } else {
            None
        },
        SpecTypedStatement::If { condition, then_br, else_br } => match st.current_func {
            Some(f) => match cg_bool(st, condition) {
                Some((s1, c)) => {
                    let (s2, tb) = new_block(s1, f, BlockRole::IfThen);
                    let (s3, mb) = new_block(s2, f, BlockRole::IfMerge);
                    match else_br {
                        None => match put(s3, InstrView::CondBr { cond: c, then_block: tb, else_block: mb }, None, true) {
                            Some(s4) => match cg_branch(s4, tb, then_br, mb) {
                                Some((s5, _)) => Some(position(s5, mb)),
                                None => None,
                            },
                            None => None,
                        },
                        Some(eb_body) => {
                            let (s4, eb) = new_block(s3, f, BlockRole::IfElse);
                            match put(s4, InstrView::CondBr { cond: c, then_block: tb, else_block: eb }, None, true) {
                                Some(s5) => match cg_branch(s5, tb, then_br, mb) {
                                    Some((s6, then_ends)) => match cg_branch(s6, eb, eb_body, mb) {
                                        Some((s7, else_ends)) => if then_ends && else_ends {
                                            let (s8, ub) = new_block(s7, f, BlockRole::Unreachable);
                                            put(position(s8, ub), InstrView::Unreachable, None, true)
                                        } else {
                                            Some(position(s7, mb))
                                        },
                                        None => None,
                                    },
                                    None => None,
                                },
                                None => None,
                            }
                        },
                    }
                },
                None => None,
            },
            None => None,
        },
        SpecTypedStatement::While { condition, body } => match st.current_func {
            Some(f) => {
                let (s1, cb) = new_block(st, f, BlockRole::WhileCond);
                let (s2, bb) = new_block(s1, f, BlockRole::WhileBody);
                let (s3, mb) = new_block(s2, f, BlockRole::WhileMerge);
                let s4 = CgView { continue_block: Some(cb), break_block: Some(mb), ..s3 };
                match put(s4, InstrView::Br { block: cb }, None, true) {
                    Some(s5) => match cg_bool(position(s5, cb), condition) {
                        Some((s6, c)) => match put(s6, InstrView::CondBr { cond: c, then_block: bb, else_block: mb }, None, true) {
                            Some(s7) => match cg_branch(s7, bb, body, cb) {
                                Some((s8, _)) => Some(CgView {
                                    continue_block: st.continue_block,
                                    break_block: st.break_block,
                                    ..position(s8, mb)
                                }),
                                None => None,
                            },
                            None => None,
                        },
                        None => None,
                    },
                    None => None,
                }
            },
            None => None,
        },
        SpecTypedStatement::Continue(_) => match st.continue_block {
            Some(b) => put(st, InstrView::Br { block: b }, None, true),
            None => None,
        },
        SpecTypedStatement::Break(_) => match st.break_block {
            Some(b) => put(st, InstrView::Br { block: b }, None, true),
            None => None,
        },
        SpecTypedStatement::Return(e, _) => match e {
            None => put(st, InstrView::Ret { value: None }, None, true),
            Some(x) => match cg_value(st, x) {
                Some((s1, v)) => put(s1, InstrView::Ret { value: Some(v) }, None, true),
                None => None,
            },
        },
    }
}

/// The code of the statements from the `i`-th on, up to the first that ends its block.
pub open spec fn cg_stmts(st: CgView, stmts: Seq<SpecTypedStatement>, i: int) -> Option<CgView>
    decreases stmts, stmts.len() - i + 1,
{
    if i < 0 || i >= stmts.len() {
        Some(st)
    } else {
        match cg_stmt(st, stmts[i]) {
            Some(s1) => if terminated(s1) {
                Some(s1)
            } else {
                cg_stmts(s1, stmts, i + 1)
            },
            None => None,
        }
    }
}

pub open spec fn cg_block(st: CgView, b: SpecTypedBlock) -> Option<CgView>
    decreases b, 1int,
{
    cg_stmts(st, b.body, 0)
}

/// The types of the parameters from the `i`-th on, leaving out `...`; none if one has no type.
pub open spec fn param_types(params: Seq<Spanned<SpecTypedParam>>, i: int) -> Option<Seq<IrType>>
    decreases params.len() - i,
{
    if i < 0 || i >= params.len() {
        Some(Seq::empty())
    } else if params[i].node.ty.node == Type::Ellipsis {
        param_types(params, i + 1)
    } else {
        match (ir_type(params[i].node.ty.node), param_types(params, i + 1)) {
            (Some(t), Some(rest)) => Some(seq![t] + rest),
            _ => None,
        }
    }
}

/// Whether a parameter is `...`.
pub open spec fn has_var_args(params: Seq<Spanned<SpecTypedParam>>) -> bool {
    exists|i: int| 0 <= i < params.len() && #[trigger] params[i].node.ty.node == Type::Ellipsis
}

/// Declares extern `e`, unless an extern of its name is declared already; either way its
/// full name names the function.
pub open spec fn cg_declare_extern(st: CgView, e: SpecTypedExtern) -> Option<CgView> {
    if st.externs.contains_key(e.name) {
        Some(CgView { functions: st.functions.insert(e.mangled, st.externs[e.name]), ..st })
    } else {
        match param_types(e.params, 0) {
            Some(ps) => {
                let (s1, f) = declare(st, e.name, ps, ir_type(e.ret_type.node), has_var_args(e.params));
                Some(CgView { externs: s1.externs.insert(e.name, f), functions: s1.functions.insert(e.mangled, f), ..s1 })
            },
            None => None,
        }
    }
}

/// Declares function `f` under its full name.
pub open spec fn cg_declare_function(st: CgView, f: SpecTypedFunction) -> Option<CgView> {
    match param_types(f.params, 0) {
        Some(ps) => {
            let (s1, id) = declare(st, f.mangled, ps, ir_type(f.ret_type.node), has_var_args(f.params));
            Some(CgView { functions: s1.functions.insert(f.mangled, id), ..s1 })
        },
        None => None,
    }
}

/// Stores the parameters from the `i`-th on in variables of their own; `k` counts the
/// parameters before the `i`-th, leaving out `...`.
pub open spec fn cg_params(st: CgView, func: usize, params: Seq<Spanned<SpecTypedParam>>, i: int, k: int) -> Option<CgView>
    decreases params.len() - i,
{
    if i < 0 || i >= params.len() {
        Some(st)
    } else if params[i].node.ty.node == Type::Ellipsis {
        cg_params(st, func, params, i + 1, k)
    } else if func < st.funcs.len() && 0 <= k < st.funcs[func as int].0.len() {
        let t = st.funcs[func as int].0[k];
        let (s1, pv) = constant(st, InstrView::Param { func, index: k as usize }, t);
        match new_value(s1, InstrView::Alloca { ty: t }, Some(IrType::Ptr)) {
            Some((s2, a)) => match put(s2, InstrView::Store { ptr: a, value: pv }, None, false) {
                Some(s3) => cg_params(CgView { variables: s3.variables.insert(params[i].node.name, a), ..s3 }, func, params, i + 1, k + 1),
                None => None,
            },
            None => None,
        }
    } else {
        None
    }
}

/// The code of function `f`; a function that returns nothing returns at the end of its
/// body where the body does not end in a terminator.
pub open spec fn cg_function(st: CgView, f: SpecTypedFunction) -> Option<CgView> {
    if st.functions.contains_key(f.mangled) {
        let fv = st.functions[f.mangled];
        let (s1, entry) = new_block(st, fv, BlockRole::Entry);
        let s2 = CgView { current_func: Some(fv), ..position(s1, entry) };
        match cg_params(s2, fv, f.params, 0, 0) {
            Some(s3) => match cg_block(s3, f.body) {
                Some(s4) => {
                    let s5 = if f.ret_type.node == Type::Void && !terminated(s4) {
                        put(s4, InstrView::Ret { value: None }, None, true)
                    } else {
                        Some(s4)
                    };
                    match s5 {
                        Some(s6) => Some(CgView { current_func: None, ..s6 }),
                        None => None,
                    }
                },
                None => None,
            },
            None => None,
        }
    } else {
        None
    }
}

/// The `main` function of the generated code: it calls the program's `main` and returns 0.
pub open spec fn cg_main_wrapper(st: CgView) -> Option<CgView> {
    if st.functions.contains_key("main.main"@) {
        let m = st.functions["main.main"@];
        let (s1, w) = declare(st, "main"@, Seq::empty(), Some(IrType::I32), false);
        let (s2, entry) = new_block(s1, w, BlockRole::Entry);
        let s3 = position(s2, entry);
        if m < s3.funcs.len() {
            match new_value(s3, InstrView::Call { func: m, args: Seq::empty() }, s3.funcs[m as int].1) {
                Some((s4, _)) => {
                    let (s5, z) = constant(s4, InstrView::ConstInt { ty: IrType::I32, value: 0, sign_extend: false }, IrType::I32);
                    put(s5, InstrView::Ret { value: Some(z) }, None, true)
                },
                None => None,
            }
        } else {
            None
        }
    } else {
        None
    }
}

/// Declares the externs and functions of `items` from the `i`-th on.
pub open spec fn cg_declarations(st: CgView, items: Seq<SpecTypedItem>, i: int) -> Option<CgView>
    decreases items.len() - i,
{
    if i < 0 || i >= items.len() {
        Some(st)
    } else {
        let next = match items[i] {
            SpecTypedItem::Extern(e) => cg_declare_extern(st, e),
            SpecTypedItem::Function(f) => cg_declare_function(st, f),
        };
        match next {
            Some(s1) => cg_declarations(s1, items, i + 1),
            None => None,
        }
    }
}

/// The code of the functions of `items` from the `i`-th on.
pub open spec fn cg_functions(st: CgView, items: Seq<SpecTypedItem>, i: int) -> Option<CgView>
    decreases items.len() - i,
{
    if i < 0 || i >= items.len() {
        Some(st)
    } else {
        let next = match items[i] {
            SpecTypedItem::Function(f) => cg_function(st, f),
            SpecTypedItem::Extern(_) => Some(st),
        };
        match next {
            Some(s1) => cg_functions(s1, items, i + 1),
            None => None,
        }
    }
}

/// The code of a program: every extern and function declared first, then each function's
/// body, then the `main` that calls the program's.
pub open spec fn cg_program(st: CgView, p: SpecTypedProgram) -> Option<CgView> {
    match cg_declarations(st, p.items, 0) {
        Some(s1) => match cg_functions(s1, p.items, 0) {
            Some(s2) => cg_main_wrapper(s2),
            None => None,
        },
        None => None,
    }
}

// ---------------------------------------------------------------------------
// The code generator.
// ---------------------------------------------------------------------------

pub open spec fn prefix_values(p: Seq<usize>, r: Option<(CgView, Seq<usize>)>) -> Option<(CgView, Seq<usize>)> {
    match r {
        Some((s, rest)) => Some((s, p + rest)),
        None => None,
    }
}

pub open spec fn prefix_types(p: Seq<IrType>, r: Option<Seq<IrType>>) -> Option<Seq<IrType>> {
    match r {
        Some(rest) => Some(p + rest),
        None => None,
    }
}

fn int_binop_instr(op: BinOp, signed: bool, l: usize, r: usize, t: IrType) -> (res: Option<(Instr, IrType)>)
    ensures
        match int_binop(op, signed, l, r, t) {
            Some((iv, rt)) => res matches Some((i, t2)) && i@ == iv && t2 == rt,
            None => res is None,
        },
{
    match op {
        BinOp::Plus => Some((Instr::IntBinary { op: IntOp::Add, lhs: l, rhs: r }, t)),
        BinOp::Minus => Some((Instr::IntBinary { op: IntOp::Sub, lhs: l, rhs: r }, t)),
        BinOp::Multiply => Some((Instr::IntBinary { op: IntOp::Mul, lhs: l, rhs: r }, t)),
        BinOp::Divide => Some((
            Instr::IntBinary { op: if signed { IntOp::SignedDiv } else { IntOp::UnsignedDiv }, lhs: l, rhs: r },
            t,
        )),
        BinOp::Eq => Some((Instr::IntCompare { pred: IntPredicate::EQ, lhs: l, rhs: r }, IrType::I1)),
        BinOp::Greater => Some((
            Instr::IntCompare { pred: if signed { IntPredicate::SGT } else { IntPredicate::UGT }, lhs: l, rhs: r },
            IrType::I1,
        )),
        BinOp::Lower => Some((
            Instr::IntCompare { pred: if signed { IntPredicate::SLT } else { IntPredicate::ULT }, lhs: l, rhs: r },
            IrType::I1,
        )),
        BinOp::GreaterEq => Some((
            Instr::IntCompare { pred: if signed { IntPredicate::SGE } else { IntPredicate::UGE }, lhs: l, rhs: r },
            IrType::I1,
        )),
        BinOp::LowerEq => Some((
            Instr::IntCompare { pred: if signed { IntPredicate::SLE } else { IntPredicate::ULE }, lhs: l, rhs: r },
            IrType::I1,
        )),
        BinOp::NotEq => Some((Instr::IntCompare { pred: IntPredicate::NE, lhs: l, rhs: r }, IrType::I1)),
        _ => None,
    }
}

fn float_binop_instr(op: BinOp, l: usize, r: usize, t: IrType) -> (res: Option<(Instr, IrType)>)
    ensures
        match float_binop(op, l, r, t) {
            Some((iv, rt)) => res matches Some((i, t2)) && i@ == iv && t2 == rt,
            None => res is None,
        },
{
    match op {
        BinOp::Plus => Some((Instr::FloatBinary { op: FloatOp::Add, lhs: l, rhs: r }, t)),
        BinOp::Minus => Some((Instr::FloatBinary { op: FloatOp::Sub, lhs: l, rhs: r }, t)),
        BinOp::Multiply => Some((Instr::FloatBinary { op: FloatOp::Mul, lhs: l, rhs: r }, t)),
        BinOp::Divide => Some((Instr::FloatBinary { op: FloatOp::Div, lhs: l, rhs: r }, t)),
        BinOp::Eq => Some((Instr::FloatCompare { pred: FloatPredicate::OEQ, lhs: l, rhs: r }, IrType::I1)),
        BinOp::Greater => Some((Instr::FloatCompare { pred: FloatPredicate::OGT, lhs: l, rhs: r }, IrType::I1)),
        BinOp::Lower => Some((Instr::FloatCompare { pred: FloatPredicate::OLT, lhs: l, rhs: r }, IrType::I1)),
        BinOp::GreaterEq => Some((Instr::FloatCompare { pred: FloatPredicate::OGE, lhs: l, rhs: r }, IrType::I1)),
        BinOp::LowerEq => Some((Instr::FloatCompare { pred: FloatPredicate::OLE, lhs: l, rhs: r }, IrType::I1)),
        BinOp::NotEq => Some((Instr::FloatCompare { pred: FloatPredicate::ONE, lhs: l, rhs: r }, IrType::I1)),
        _ => None,
    }
}

fn cast_instr(from: IrType, to: IrType, from_signed: bool, to_signed: bool) -> (r: Option<CastOp>)
    ensures
        r == cast_op(from, to, from_signed, to_signed),
{
    if to.is_int() {
        if from.is_int() {
            Some(if from.bit_width() > to.bit_width() {
                CastOp::Truncate
            } else if from_signed {
                CastOp::SignExtend
            } else {
                CastOp::ZeroExtend
            })
        } else if from.is_float() {
            Some(if to_signed { CastOp::FloatToSigned } else { CastOp::FloatToUnsigned })
        } else {
            None
        }
    } else if to.is_float() {
        if from.is_int() {
            Some(if from_signed { CastOp::SignedToFloat } else { CastOp::UnsignedToFloat })
        } else if from.is_float() {
            Some(if from.bit_width() > to.bit_width() { CastOp::FloatTruncate } else { CastOp::FloatExtend })
        } else {
            None
        }
    } else {
        None
    }
}

fn is_signed_type(t: &Type) -> (r: bool)
    ensures
        r == is_signed(*t),
{
    matches!(t, Type::I64 | Type::I32 | Type::I16 | Type::I8)
}

/// Generates the code of a typed program.
pub struct Codegen {
    context: CodegenContext,
}

impl View for Codegen {
    type V = CgView;

    closed spec fn view(&self) -> CgView {
        self.context@
    }
}

impl Codegen {
    pub closed spec fn wf(&self) -> bool {
        self.context.wf()
    }

    pub fn new() -> (c: Self)
        ensures
            c.wf(),
            c@ == initial_state(),
    {
        Codegen { context: CodegenContext::new() }
    }

    /// The state of generation, with the code generated.
    pub fn into_context(self) -> (c: CodegenContext)
        requires
            self.wf(),
        ensures
            c.wf(),
            c@ == self@,
    {
        self.context
    }

    fn compile_value(&mut self, expr: &Spanned<TypedExpression>) -> (r: Option<usize>)
        requires
            old(self).wf(),
        ensures
            final(self).wf(),
            match cg_value(old(self)@, stexpr_view(*expr)) {
                Some((s, v)) => r == Some(v) && final(self)@ == s,
                None => r is None,
            },
        decreases *expr, 2nat,
    {
        match self.compile_expr(expr) {
            Some(Some(v)) => Some(v),
            _ => None,
        }
    }

    /// The code of `expr` as a condition: whether its value is not zero.
    pub fn expr_to_bool(&mut self, expr: &Spanned<TypedExpression>) -> (r: Option<usize>)
        requires
            old(self).wf(),
        ensures
            final(self).wf(),
            match cg_bool(old(self)@, stexpr_view(*expr)) {
                Some((s, v)) => r == Some(v) && final(self)@ == s,
                None => r is None,
            },
        decreases *expr, 3nat,
    {
        let v = self.compile_value(expr)?;
        let t = match self.context.value_type(v) {
            Some(Some(t)) => t,
            _ => return None,
        };
        if t.is_int() {
            let z = self.context.constant(Instr::ConstInt { ty: t, value: 0, sign_extend: false }, t);
            self.context.new_value(Instr::IntCompare { pred: IntPredicate::NE, lhs: v, rhs: z }, Some(IrType::I1))
        } else if t.is_float() {
            let z = self.context.constant(Instr::ConstFloat { ty: t, text: "0.0".to_owned() }, t);
            self.context.new_value(Instr::FloatCompare { pred: FloatPredicate::ONE, lhs: v, rhs: z }, Some(IrType::I1))
        } else {
            None
        }
    }

    fn compile_expr(&mut self, expr: &Spanned<TypedExpression>) -> (r: Option<Option<usize>>)
        requires
            old(self).wf(),
        ensures
            final(self).wf(),
            match cg_expr(old(self)@, stexpr_view(*expr)) {
                Some((s, v)) => r == Some(v) && final(self)@ == s,
                None => r is None,
            },
        decreases *expr, 1nat,
    {
        match &expr.node {
            TypedExpression::Integer { val, ty } => {
                let t = match ty {
                    Type::I64 | Type::U64 => IrType::I64,
                    Type::I32 | Type::U32 => IrType::I32,
                    Type::I16 | Type::U16 => IrType::I16,
                    Type::I8 | Type::U8 => IrType::I8,
                    _ => return None,
                };
                let sign_extend = is_signed_type(ty);
                let v = self.context.constant(Instr::ConstInt { ty: t, value: *val as u64, sign_extend }, t);
                Some(Some(v))
            },
            TypedExpression::Float { val, ty } => {
                let t = match ty {
                    Type::F64 => IrType::F64,
                    Type::F32 => IrType::F32,
                    _ => return None,
                };
                let v = self.context.constant(Instr::ConstFloat { ty: t, text: val.clone() }, t);
                Some(Some(v))
            },
            TypedExpression::Bool(b) => {
                let v = self.context.constant(Instr::ConstInt { ty: IrType::I1, value: if *b { 1 } else { 0 }, sign_extend: false }, IrType::I1);
                Some(Some(v))
            },
            TypedExpression::Char(c) => {
                let v = self.context.constant(Instr::ConstInt { ty: IrType::I8, value: *c as u64, sign_extend: false }, IrType::I8);
                Some(Some(v))
            },
            TypedExpression::String(t) => {
                let v = self.context.new_value(Instr::GlobalString { text: t.clone() }, Some(IrType::Ptr))?;
                Some(Some(v))
            },
            TypedExpression::Identifier { name, ty, .. } => {
                let t = self.context.type_to_llvm(ty)?;
                let p = self.context.variable(name.as_str())?;
                let v = self.context.new_value(Instr::Load { ty: t, ptr: p }, Some(t))?;
                Some(Some(v))
            },
            TypedExpression::BinOp { .. } => self.compile_binop(expr),
            TypedExpression::UnOp { op, operand, .. } => match op {
                UnOp::Negate => {
                    let v = self.compile_value(operand)?;
                    let t = match self.context.value_type(v) {
                        Some(Some(t)) => t,
                        _ => return None,
                    };
                    if t.is_int() {
                        let n = self.context.new_value(Instr::IntNeg { value: v }, Some(t))?;
                        Some(Some(n))
                    } else if t.is_float() {
                        let n = self.context.new_value(Instr::FloatNeg { value: v }, Some(t))?;
                        Some(Some(n))
                    } else {
                        None
                    }
                },
                UnOp::Not => {
                    let c = self.expr_to_bool(operand)?;
                    let n = self.context.new_value(Instr::Not { value: c }, Some(IrType::I1))?;
                    Some(Some(n))
                },
            },
            TypedExpression::Call { mangled, args, .. } => {
                let f = self.context.function(mangled.as_str())?;
                let ghost av = texprs_view(args@);
                let ghost s0 = self@;
                proof {
                    lemma_texprs_view_index(args@);
                }
                let mut vs: Vec<usize> = Vec::new();
                let mut i: usize = 0;
                #[verifier::loop_isolation(false)]
                while i < args.len()
                    invariant
                        self.wf(),
                        i <= args@.len(),
                        av == texprs_view(args@),
                        av.len() == args@.len(),
                        forall|j: int| 0 <= j < av.len() ==> #[trigger] av[j] == stexpr_view(args@[j]),
                        cg_args(s0, av, 0) == prefix_values(vs@, cg_args(self@, av, i as int)),
                    decreases args@.len() - i,
                {
                    proof {
                        assert(decreases_to!(*expr => args@[i as int]));
                    }
                    let v = self.compile_value(&args[i])?;
                    proof {
                        match cg_args(self@, av, i + 1) {
                            Some((s, rest)) => {
                                assert(vs@.push(v) + rest =~= vs@ + (seq![v] + rest));
                            },
                            None => {},
                        }
                    }
                    vs.push(v);
                    i += 1;
                }
                proof {
                    assert(vs@ + Seq::<usize>::empty() =~= vs@);
                }
                let ret = match self.context.signature(f) {
                    Some((_, t)) => t,
                    None => return None,
                };
                let v = self.context.new_value(Instr::Call { func: f, args: vs }, ret)?;
                Some(if ret.is_some() { Some(v) } else { None })
            },
            TypedExpression::As { .. } => self.compile_cast(expr),
        }
    }

    fn compile_binop(&mut self, expr: &Spanned<TypedExpression>) -> (r: Option<Option<usize>>)
        requires
            old(self).wf(),
        ensures
            final(self).wf(),
            match cg_binop(old(self)@, stexpr_view(*expr)) {
                Some((s, v)) => r == Some(v) && final(self)@ == s,
                None => r is None,
            },
        decreases *expr, 0nat,
    {
        match &expr.node {
            TypedExpression::BinOp { left, op, right, ty } => {
                if *op == BinOp::And || *op == BinOp::Or {
                    let f = self.context.current_func()?;
                    let cur = self.context.current_block()?;
                    let lc = self.expr_to_bool(left)?;
                    let rb = self.context.new_block(f, BlockRole::LogicalRight);
                    let mb = self.context.new_block(f, BlockRole::LogicalMerge);
                    let branch = if *op == BinOp::And {
                        Instr::CondBr { cond: lc, then_block: rb, else_block: mb }
                    } else {
                        Instr::CondBr { cond: lc, then_block: mb, else_block: rb }
                    };
                    if !self.context.put(branch, None, true) {
                        return None;
                    }
                    self.context.position(rb);
                    let rc = self.expr_to_bool(right)?;
                    let rend = self.context.current_block()?;
                    if !self.context.put(Instr::Br { block: mb }, None, true) {
                        return None;
                    }
                    self.context.position(mb);
                    let k = self.context.constant(
                        Instr::ConstInt { ty: IrType::I1, value: if *op == BinOp::And { 0 } else { 1 }, sign_extend: false },
                        IrType::I1,
                    );
                    let p = self.context.new_value(Instr::Phi { ty: IrType::I1, incoming: vec![(k, cur), (rc, rend)] }, Some(IrType::I1))?;
                    Some(Some(p))
                } else {
                    let lv = self.compile_value(left)?;
                    let rv = self.compile_value(right)?;
                    let a = match self.context.value_type(lv) {
                        Some(Some(t)) => t,
                        _ => return None,
                    };
                    let b = match self.context.value_type(rv) {
                        Some(Some(t)) => t,
                        _ => return None,
                    };
                    let step = if a.is_int() && b.is_int() {
                        int_binop_instr(*op, is_signed_type(ty), lv, rv, a)
                    } else if a.is_float() && b.is_float() {
                        float_binop_instr(*op, lv, rv, a)
                    } else {
                        None
                    };
                    let (i, t) = step?;
                    let v = self.context.new_value(i, Some(t))?;
                    Some(Some(v))
                }
            },
            _ => None,
        }
    }

    fn compile_cast(&mut self, expr: &Spanned<TypedExpression>) -> (r: Option<Option<usize>>)
        requires
            old(self).wf(),
        ensures
            final(self).wf(),
            match cg_cast(old(self)@, stexpr_view(*expr)) {
                Some((s, v)) => r == Some(v) && final(self)@ == s,
                None => r is None,
            },
        decreases *expr, 0nat,
    {
        match &expr.node {
            TypedExpression::As { expr: inner, ty } => {
                let v = self.compile_value(inner)?;
                let target = self.context.type_to_llvm(&ty.node)?;
                let from = match self.context.value_type(v) {
                    Some(Some(t)) => t,
                    _ => return None,
                };
                if from == target {
                    return Some(Some(v));
                }
                let from_signed = is_signed_type(&inner.node.infer_type());
                let to_signed = is_signed_type(&ty.node);
                let c = cast_instr(from, target, from_signed, to_signed)?;
                let r = self.context.new_value(Instr::Cast { op: c, value: v, ty: target }, Some(target))?;
                Some(Some(r))
            },
            _ => None,
        }
    }

    fn compile_branch(&mut self, b: usize, body: &TypedBlock, merge: usize) -> (r: Option<bool>)
        requires
            old(self).wf(),
        ensures
            final(self).wf(),
            match cg_branch(old(self)@, b, tblock_view(*body), merge) {
                Some((s, ends)) => r == Some(ends) && final(self)@ == s,
                None => r is None,
            },
        decreases *body, 2nat,
    {
        self.context.position(b);
        if !self.compile_block(body) {
            return None;
        }
        if self.context.is_block_terminated() {
            Some(true)
        } else if self.context.put(Instr::Br { block: merge }, None, true) {
            Some(false)
        } else {
            None
        }
    }

    fn compile_block(&mut self, block: &TypedBlock) -> (ok: bool)
        requires
            old(self).wf(),
        ensures
            final(self).wf(),
            match cg_block(old(self)@, tblock_view(*block)) {
                Some(s) => ok && final(self)@ == s,
                None => !ok,
            },
        decreases *block, 1nat,
    {
        let ghost v = tstmts_view(block.body@);
        let ghost s0 = self@;
        proof {
            lemma_tstmts_view_index(block.body@);
        }
        let mut i: usize = 0;
        #[verifier::loop_isolation(false)]
        while i < block.body.len()
            invariant
                self.wf(),
                i <= block.body@.len(),
                v == tstmts_view(block.body@),
                v.len() == block.body@.len(),
                forall|j: int| 0 <= j < v.len() ==> #[trigger] v[j] == tstmt_view(block.body@[j]),
                cg_stmts(s0, v, 0) == cg_stmts(self@, v, i as int),
            decreases block.body@.len() - i,
        {
            proof {
                assert(decreases_to!(*block => block.body@[i as int]));
            }
            if !self.compile_stmt(&block.body[i]) {
                return false;
            }
            if self.context.is_block_terminated() {
                return true;
            }
            i += 1;
        }
        true
    }

    fn compile_stmt(&mut self, stmt: &TypedStatement) -> (ok: bool)
        requires
            old(self).wf(),
        ensures
            final(self).wf(),
            match cg_stmt(old(self)@, tstmt_view(*stmt)) {
                Some(s) => ok && final(self)@ == s,
                None => !ok,
            },
        decreases *stmt, 0nat,
    {
        match stmt {
            TypedStatement::Expression(expr) => self.compile_expr(expr).is_some(),
            TypedStatement::Var { ident, ty, val, .. } => {
                let v = match self.compile_value(val) {
                    Some(v) => v,
                    None => return false,
                };
                let t = match self.context.type_to_llvm(&ty.node) {
                    Some(t) => t,
                    None => return false,
                };
                let a = match self.context.new_value(Instr::Alloca { ty: t }, Some(IrType::Ptr)) {
                    Some(a) => a,
                    None => return false,
                };
                if !self.context.put(Instr::Store { ptr: a, value: v }, None, false) {
                    return false;
                }
                self.context.set_variable(ident.clone(), a);
                true
            },
            TypedStatement::Assign { ident, val, .. } => {
                let p = match self.context.variable(ident.node.as_str()) {
                    Some(p) => p,
                    None => return false,
                };
                let v = match self.compile_value(val) {
                    Some(v) => v,
                    None => return false,
                };
                self.context.put(Instr::Store { ptr: p, value: v }, None, false)
            },
            TypedStatement::If { condition, then_br, else_br } => {
                let f = match self.context.current_func() {
                    Some(f) => f,
                    None => return false,
                };
                let c = match self.expr_to_bool(condition) {
                    Some(c) => c,
                    None => return false,
                };
                let tb = self.context.new_block(f, BlockRole::IfThen);
                let mb = self.context.new_block(f, BlockRole::IfMerge);
                match else_br {
                    None => {
                        if !self.context.put(Instr::CondBr { cond: c, then_block: tb, else_block: mb }, None, true) {
                            return false;
                        }
                        match self.compile_branch(tb, then_br, mb) {
                            Some(_) => {
                                self.context.position(mb);
                                true
                            },
                            None => false,
                        }
                    },
                    Some(eb_body) => {
                        let eb = self.context.new_block(f, BlockRole::IfElse);
                        if !self.context.put(Instr::CondBr { cond: c, then_block: tb, else_block: eb }, None, true) {
                            return false;
                        }
                        let then_ends = match self.compile_branch(tb, then_br, mb) {
                            Some(t) => t,
                            None => return false,
                        };
                        let else_ends = match self.compile_branch(eb, eb_body, mb) {
                            Some(t) => t,
                            None => return false,
                        };
                        if then_ends && else_ends {
                            let ub = self.context.new_block(f, BlockRole::Unreachable);
                            self.context.position(ub);
                            self.context.put(Instr::Unreachable, None, true)
                        } else {
                            self.context.position(mb);
                            true
                        }
                    },
                }
            },
            TypedStatement::While { condition, body } => {
                let f = match self.context.current_func() {
                    Some(f) => f,
                    None => return false,
                };
                let (old_continue, old_break) = self.context.loop_blocks();
                let cb = self.context.new_block(f, BlockRole::WhileCond);
                let bb = self.context.new_block(f, BlockRole::WhileBody);
                let mb = self.context.new_block(f, BlockRole::WhileMerge);
                self.context.set_loop_blocks(Some(cb), Some(mb));
                if !self.context.put(Instr::Br { block: cb }, None, true) {
                    return false;
                }
                self.context.position(cb);
                let c = match self.expr_to_bool(condition) {
                    Some(c) => c,
                    None => return false,
                };
                if !self.context.put(Instr::CondBr { cond: c, then_block: bb, else_block: mb }, None, true) {
                    return false;
                }
                if self.compile_branch(bb, body, cb).is_none() {
                    return false;
                }
                self.context.position(mb);
                self.context.set_loop_blocks(old_continue, old_break);
                true
            },
            TypedStatement::Continue(_) => match self.context.loop_blocks().0 {
                Some(b) => self.context.put(Instr::Br { block: b }, None, true),
                None => false,
            },
            TypedStatement::Break(_) => match self.context.loop_blocks().1 {
                Some(b) => self.context.put(Instr::Br { block: b }, None, true),
                None => false,
            },
            TypedStatement::Return(expr, _) => match expr {
                None => self.context.put(Instr::Ret { value: None }, None, true),
                Some(e) => match self.compile_value(e) {
                    Some(v) => self.context.put(Instr::Ret { value: Some(v) }, None, true),
                    None => false,
                },
            },
        }
    }

    /// The types of `params`, leaving out `...`, and whether one is `...`.
    fn signature_of(&self, params: &Vec<Spanned<TypedParam>>) -> (r: Option<(Vec<IrType>, bool)>)
        ensures
            match param_types(tparams_view(params@), 0) {
                Some(ps) => r matches Some((v, va)) && v@ == ps && va == has_var_args(tparams_view(params@)),
                None => r is None,
            },
    {
        let ghost pv = tparams_view(params@);
        let mut v: Vec<IrType> = Vec::new();
        let mut var_args = false;
        let mut i: usize = 0;
        while i < params.len()
            invariant
                i <= params@.len(),
                pv == tparams_view(params@),
                pv.len() == params@.len(),
                param_types(pv, 0) == prefix_types(v@, param_types(pv, i as int)),
                var_args == exists|j: int| 0 <= j < i && #[trigger] pv[j].node.ty.node == Type::Ellipsis,
            decreases params@.len() - i,
        {
            let t = params[i].node.ty.node;
            if t == Type::Ellipsis {
                var_args = true;
                proof {
                    assert(pv[i as int].node.ty.node == Type::Ellipsis);
                }
            } else {
                let it = match self.context.type_to_llvm(&t) {
                    Some(it) => it,
                    None => {
                        proof {
                            assert(param_types(pv, i as int) is None);
                        }
                        return None;
                    },
                };
                proof {
                    match param_types(pv, i + 1) {
                        Some(rest) => {
                            assert(v@.push(it) + rest =~= v@ + (seq![it] + rest));
                        },
                        None => {},
                    }
                }
                v.push(it);
            }
            proof {
                assert forall|j: int| 0 <= j < i + 1 && #[trigger] pv[j].node.ty.node == Type::Ellipsis implies
                    var_args by {}
            }
            i += 1;
        }
        proof {
            assert(v@ + Seq::<IrType>::empty() =~= v@);
        }
        Some((v, var_args))
    }

    fn declare_extern(&mut self, ext: &TypedExtern) -> (ok: bool)
        requires
            old(self).wf(),
        ensures
            final(self).wf(),
            match cg_declare_extern(old(self)@, titem_view(TypedItem::Extern(*ext))->Extern_0) {
                Some(s) => ok && final(self)@ == s,
                None => !ok,
            },
    {
        if let Some(f) = self.context.extern_fn(ext.name.as_str()) {
            self.context.set_function(ext.mangled.clone(), f);
            return true;
        }
        let (params, var_args) = match self.signature_of(&ext.params) {
            Some(x) => x,
            None => return false,
        };
        let ret = self.context.type_to_llvm(&ext.ret_type.node);
        let f = self.context.declare(ext.name.clone(), params, ret, var_args);
        self.context.set_extern(ext.name.clone(), f);
        self.context.set_function(ext.mangled.clone(), f);
        true
    }

    fn declare_function(&mut self, func: &TypedFunction) -> (ok: bool)
        requires
            old(self).wf(),
        ensures
            final(self).wf(),
            match cg_declare_function(old(self)@, titem_view(TypedItem::Function(*func))->Function_0) {
                Some(s) => ok && final(self)@ == s,
                None => !ok,
            },
    {
        let (params, var_args) = match self.signature_of(&func.params) {
            Some(x) => x,
            None => return false,
        };
        let ret = self.context.type_to_llvm(&func.ret_type.node);
        let f = self.context.declare(func.mangled.clone(), params, ret, var_args);
        self.context.set_function(func.mangled.clone(), f);
        true
    }

    fn compile_function(&mut self, func: &TypedFunction) -> (ok: bool)
        requires
            old(self).wf(),
        ensures
            final(self).wf(),
            match cg_function(old(self)@, titem_view(TypedItem::Function(*func))->Function_0) {
                Some(s) => ok && final(self)@ == s,
                None => !ok,
            },
    {
        let fv = match self.context.function(func.mangled.as_str()) {
            Some(f) => f,
            None => return false,
        };
        let entry = self.context.new_block(fv, BlockRole::Entry);
        self.context.position(entry);
        self.context.set_current_func(Some(fv));
        let ghost pv = tparams_view(func.params@);
        let ghost s2 = self@;
        let mut i: usize = 0;
        let mut k: usize = 0;
        #[verifier::loop_isolation(false)]
        while i < func.params.len()
            invariant
                self.wf(),
                i <= func.params@.len(),
                k <= i,
                pv == tparams_view(func.params@),
                pv.len() == func.params@.len(),
                cg_params(s2, fv, pv, 0, 0) == cg_params(self@, fv, pv, i as int, k as int),
            decreases func.params@.len() - i,
        {
            let param = &func.params[i];
            if param.node.ty.node != Type::Ellipsis {
                let t = match self.context.signature(fv) {
                    Some((ps, _)) => {
                        if k >= ps.len() {
                            return false;
                        }
                        ps[k]
                    },
                    None => return false,
                };
                let pval = self.context.constant(Instr::Param { func: fv, index: k }, t);
                let a = match self.context.new_value(Instr::Alloca { ty: t }, Some(IrType::Ptr)) {
                    Some(a) => a,
                    None => return false,
                };
                if !self.context.put(Instr::Store { ptr: a, value: pval }, None, false) {
                    return false;
                }
                self.context.set_variable(param.node.name.clone(), a);
                k += 1;
            }
            i += 1;
        }
        if !self.compile_block(&func.body) {
            return false;
        }
        if func.ret_type.node == Type::Void && !self.context.is_block_terminated() {
            if !self.context.put(Instr::Ret { value: None }, None, true) {
                return false;
            }
        }
        self.context.set_current_func(None);
        true
    }

    fn compile_main_wrapper(&mut self) -> (ok: bool)
        requires
            old(self).wf(),
        ensures
            final(self).wf(),
            match cg_main_wrapper(old(self)@) {
                Some(s) => ok && final(self)@ == s,
                None => !ok,
            },
    {
        let m = match self.context.function("main.main") {
            Some(m) => m,
            None => return false,
        };
        let w = self.context.declare("main".to_owned(), Vec::new(), Some(IrType::I32), false);
        let entry = self.context.new_block(w, BlockRole::Entry);
        self.context.position(entry);
        let ret = match self.context.signature(m) {
            Some((_, t)) => t,
            None => return false,
        };
        if self.context.new_value(Instr::Call { func: m, args: Vec::new() }, ret).is_none() {
            return false;
        }
        let z = self.context.constant(Instr::ConstInt { ty: IrType::I32, value: 0, sign_extend: false }, IrType::I32);
        self.context.put(Instr::Ret { value: Some(z) }, None, true)
    }

    /// Generates the code of `program`: every extern and function is declared first, then
    /// each function's body, then the `main` that calls the program's. False where the
    /// program holds what code generation cannot handle.
    pub fn compile_program(&mut self, program: &TypedProgram) -> (ok: bool)
        requires
            old(self).wf(),
        ensures
            final(self).wf(),
            match cg_program(old(self)@, program@) {
                Some(s) => ok && final(self)@ == s,
                None => !ok,
            },
    {
        let ghost items = program@.items;
        let ghost s0 = self@;
        let mut i: usize = 0;
        #[verifier::loop_isolation(false)]
        while i < program.items.len()
            invariant
                self.wf(),
                i <= program.items@.len(),
                items == titems_view(program.items@),
                items.len() == program.items@.len(),
                cg_declarations(s0, items, 0) == cg_declarations(self@, items, i as int),
            decreases program.items@.len() - i,
        {
            let ok = match &program.items[i] {
                TypedItem::Extern(ext) => self.declare_extern(ext),
                TypedItem::Function(func) => self.declare_function(func),
            };
            if !ok {
                return false;
            }
            i += 1;
        }
        let ghost s1 = self@;
        let mut j: usize = 0;
        #[verifier::loop_isolation(false)]
        while j < program.items.len()
            invariant
                self.wf(),
                j <= program.items@.len(),
                items == titems_view(program.items@),
                items.len() == program.items@.len(),
                cg_functions(s1, items, 0) == cg_functions(self@, items, j as int),
            decreases program.items@.len() - j,
        {
            match &program.items[j] {
                TypedItem::Function(func) => {
                    if !self.compile_function(func) {
                        return false;
                    }
                },
                TypedItem::Extern(_) => {},
            }
            j += 1;
        }
        self.compile_main_wrapper()
    }
}

// ---------------------------------------------------------------------------
// The law of code generation.
// ---------------------------------------------------------------------------

/// `b` comes from `a` by adding: the steps and the values of `a` come first in `b`, and no
/// block or function is gone.
pub open spec fn extends(a: CgView, b: CgView) -> bool {
    &&& a.code.len() <= b.code.len()
    &&& forall|k: int| 0 <= k < a.code.len() ==> #[trigger] b.code[k] == a.code[k]
    &&& a.values.len() <= b.values.len()
    &&& forall|k: int| 0 <= k < a.values.len() ==> #[trigger] b.values[k] == a.values[k]
    &&& a.blocks.len() <= b.blocks.len()
}

proof fn lemma_steps()
    ensures
        forall|st: CgView, i: InstrView, d: Option<Option<IrType>>, e: bool|
            #[trigger] put(st, i, d, e) matches Some(s) ==> extends(st, s),
        forall|st: CgView, i: InstrView, t: Option<IrType>|
            #[trigger] new_value(st, i, t) matches Some((s, v)) ==> extends(st, s) && v < s.values.len(),
        forall|st: CgView, i: InstrView, t: IrType|
            #[trigger] constant(st, i, t) matches (s, v) && extends(st, s) && v < s.values.len(),
        forall|st: CgView, f: usize, r: BlockRole| #[trigger] new_block(st, f, r) matches (s, _) && extends(st, s),
        forall|st: CgView, b: usize| extends(st, #[trigger] position(st, b)),
        forall|st: CgView| extends(st, st),
{
}

proof fn lemma_cg_expr(st: CgView, e: Spanned<SpecTypedExpression>)
    ensures
        cg_expr(st, e) matches Some((s, r)) ==> extends(st, s) && (r matches Some(v) ==> v < s.values.len()),
    decreases e, 1int,
{
    lemma_steps();
    match e.node {
        SpecTypedExpression::BinOp { .. } => lemma_cg_binop(st, e),
        SpecTypedExpression::UnOp { op, operand, .. } => match op {
            UnOp::Negate => lemma_cg_expr(st, *operand),
            UnOp::Not => lemma_cg_bool(st, *operand),
        },
        SpecTypedExpression::Call { args, .. } => lemma_cg_args(st, args, 0),
        SpecTypedExpression::As { .. } => lemma_cg_cast(st, e),
        _ => {},
    }
}

proof fn lemma_cg_value(st: CgView, e: Spanned<SpecTypedExpression>)
    ensures
        cg_value(st, e) matches Some((s, v)) ==> extends(st, s) && v < s.values.len(),
    decreases e, 2int,
{
    lemma_cg_expr(st, e);
}

proof fn lemma_cg_bool(st: CgView, e: Spanned<SpecTypedExpression>)
    ensures
        cg_bool(st, e) matches Some((s, v)) ==> extends(st, s) && v < s.values.len(),
    decreases e, 3int,
{
    lemma_steps();
    lemma_cg_value(st, e);
}

proof fn lemma_cg_args(st: CgView, args: Seq<Spanned<SpecTypedExpression>>, i: int)
    ensures
        cg_args(st, args, i) matches Some((s, vs)) ==> extends(st, s) && forall|j: int| 0 <= j < vs.len() ==> #[trigger] vs[j] < s.values.len(),
    decreases args, args.len() - i,
{
    lemma_steps();
    if 0 <= i < args.len() {
        lemma_cg_value(st, args[i]);
        match cg_value(st, args[i]) {
            Some((s1, v)) => {
                lemma_cg_args(s1, args, i + 1);
                match cg_args(s1, args, i + 1) {
                    Some((s2, vs)) => {
                        assert forall|j: int| 0 <= j < (seq![v] + vs).len() implies #[trigger] (seq![v] + vs)[j] < s2.values.len() by {
                            if j > 0 {
                                assert((seq![v] + vs)[j] == vs[j - 1]);
                            }
                        }
                    },
                    None => {},
                }
            },
            None => {},
        }
    }
}

proof fn lemma_cg_binop(st: CgView, e: Spanned<SpecTypedExpression>)
    ensures
        cg_binop(st, e) matches Some((s, r)) ==> extends(st, s) && (r matches Some(v) ==> v < s.values.len()),
    decreases e, 0int,
{
    lemma_steps();
    match e.node {
        SpecTypedExpression::BinOp { left, op, right, ty } => {
            if op == BinOp::And || op == BinOp::Or {
                lemma_cg_bool(st, *left);
                match (st.current_func, st.current) {
                    (Some(f), Some(cur)) => match cg_bool(st, *left) {
                        Some((s1, lc)) => {
                            let (s2, rb) = new_block(s1, f, BlockRole::LogicalRight);
                            let (s3, mb) = new_block(s2, f, BlockRole::LogicalMerge);
                            let branch = if op == BinOp::And {
                                InstrView::CondBr { cond: lc, then_block: rb, else_block: mb }
                            } else {
                                InstrView::CondBr { cond: lc, then_block: mb, else_block: rb }
                            };
                            match put(s3, branch, None, true) {
                                Some(s4) => lemma_cg_bool(position(s4, rb), *right),
                                None => {},
                            }
                        },
                        None => {},
                    },
                    _ => {},
                }
            } else {
                lemma_cg_value(st, *left);
                match cg_value(st, *left) {
                    Some((s1, _)) => lemma_cg_value(s1, *right),
                    None => {},
                }
            }
        },
        _ => {},
    }
}

proof fn lemma_cg_cast(st: CgView, e: Spanned<SpecTypedExpression>)
    ensures
        cg_cast(st, e) matches Some((s, r)) ==> extends(st, s) && (r matches Some(v) ==> v < s.values.len()),
    decreases e, 0int,
{
    lemma_steps();
    match e.node {
        SpecTypedExpression::As { expr, .. } => lemma_cg_value(st, *expr),
        _ => {},
    }
}

/// Generating the code of an expression only adds to what was generated, and the value it
/// gives is one that has been made.
pub proof fn law_expression_code_appends(st: CgView, e: Spanned<SpecTypedExpression>)
    ensures
        cg_expr(st, e) matches Some((s, r)) ==> extends(st, s) && (r matches Some(v) ==> v < s.values.len()),
{
    lemma_cg_expr(st, e);
}

proof fn lemma_cg_branch(st: CgView, b: usize, body: SpecTypedBlock, merge: usize)
    ensures
        cg_branch(st, b, body, merge) matches Some((s, _)) ==> extends(st, s),
    decreases body, 3int,
{
    lemma_steps();
    lemma_cg_block(position(st, b), body);
}

#[verifier::rlimit(40)]
proof fn lemma_cg_if(st: CgView, s: SpecTypedStatement)
    requires
        s is If,
    ensures
        cg_stmt(st, s) matches Some(x) ==> extends(st, x),
    decreases s, 0int,
{
    lemma_steps();
    match s {
        SpecTypedStatement::If { condition, then_br, else_br } => match st.current_func {
            Some(f) => {
                lemma_cg_bool(st, condition);
                match cg_bool(st, condition) {
                    Some((s1, c)) => {
                        let (s2, tb) = new_block(s1, f, BlockRole::IfThen);
                        let (s3, mb) = new_block(s2, f, BlockRole::IfMerge);
                        match else_br {
                            None => match put(s3, InstrView::CondBr { cond: c, then_block: tb, else_block: mb }, None, true) {
                                Some(s4) => lemma_cg_branch(s4, tb, then_br, mb),
                                None => {},
                            },
                            Some(eb_body) => {
                                let (s4, eb) = new_block(s3, f, BlockRole::IfElse);
                                match put(s4, InstrView::CondBr { cond: c, then_block: tb, else_block: eb }, None, true) {
                                    Some(s5) => {
                                        lemma_cg_branch(s5, tb, then_br, mb);
                                        match cg_branch(s5, tb, then_br, mb) {
                                            Some((s6, _)) => lemma_cg_branch(s6, eb, eb_body, mb),
                                            None => {},
                                        }
                                    },
                                    None => {},
                                }
                            },
                        }
                    },
                    None => {},
                }
            },
            None => {},
        },
        _ => {},
    }
}

#[verifier::rlimit(40)]
proof fn lemma_cg_while(st: CgView, s: SpecTypedStatement)
    requires
        s is While,
    ensures
        cg_stmt(st, s) matches Some(x) ==> extends(st, x),
    decreases s, 0int,
{
    lemma_steps();
    match s {
        SpecTypedStatement::While { condition, body } => match st.current_func {
            Some(f) => {
                let (s1, cb) = new_block(st, f, BlockRole::WhileCond);
                let (s2, bb) = new_block(s1, f, BlockRole::WhileBody);
                let (s3, mb) = new_block(s2, f, BlockRole::WhileMerge);
                let s4 = CgView { continue_block: Some(cb), break_block: Some(mb), ..s3 };
                match put(s4, InstrView::Br { block: cb }, None, true) {
                    Some(s5) => {
                        lemma_cg_bool(position(s5, cb), condition);
                        match cg_bool(position(s5, cb), condition) {
                            Some((s6, c)) => match put(s6, InstrView::CondBr { cond: c, then_block: bb, else_block: mb }, None, true) {
                                Some(s7) => lemma_cg_branch(s7, bb, body, cb),
                                None => {},
                            },
                            None => {},
                        }
                    },
                    None => {},
                }
            },
            None => {},
        },
        _ => {},
    }
}

proof fn lemma_cg_stmt(st: CgView, s: SpecTypedStatement)
    ensures
        cg_stmt(st, s) matches Some(x) ==> extends(st, x),
    decreases s, 1int,
{
    lemma_steps();
    match s {
        SpecTypedStatement::Expression(e) => lemma_cg_expr(st, e),
        SpecTypedStatement::Var { val, .. } => lemma_cg_value(st, val),
        SpecTypedStatement::Assign { val, .. } => lemma_cg_value(st, val),
        SpecTypedStatement::If { .. } => lemma_cg_if(st, s),
        SpecTypedStatement::While { .. } => lemma_cg_while(st, s),
        SpecTypedStatement::Return(e, _) => match e {
            Some(x) => lemma_cg_value(st, x),
            None => {},
        },
        _ => {},
    }
}

proof fn lemma_cg_stmts(st: CgView, stmts: Seq<SpecTypedStatement>, i: int)
    ensures
        cg_stmts(st, stmts, i) matches Some(x) ==> extends(st, x),
    decreases stmts, stmts.len() - i + 2,
{
    lemma_steps();
    if 0 <= i < stmts.len() {
        lemma_cg_stmt(st, stmts[i]);
        match cg_stmt(st, stmts[i]) {
            Some(s1) => lemma_cg_stmts(s1, stmts, i + 1),
            None => {},
        }
    }
}

proof fn lemma_cg_block(st: CgView, b: SpecTypedBlock)
    ensures
        cg_block(st, b) matches Some(x) ==> extends(st, x),
    decreases b, 2int,
{
    lemma_cg_stmts(st, b.body, 0);
}

/// Generating the code of a statement only adds to what was generated.
pub proof fn law_statement_code_appends(st: CgView, s: SpecTypedStatement)
    ensures
        cg_stmt(st, s) matches Some(x) ==> extends(st, x),
{
    lemma_cg_stmt(st, s);
}

/// The step for an operator on integers means what the operator means: an arithmetic
/// operator becomes the operation that gives the same number, and a division reads its
/// operands with the operands' signedness; a comparison becomes a predicate that holds
/// exactly when the comparison does, of any two numbers, read with the operands'
/// signedness where that matters; `&&` and `||` have no single step.
pub proof fn law_int_operator_meaning(op: BinOp, signed: bool, l: usize, r: usize, t: IrType, a: int, b: int)
    ensures
        is_arithmetic(op) ==> (int_binop(op, signed, l, r, t) matches Some((InstrView::IntBinary { op: iop, lhs, rhs }, rt))
            && lhs == l && rhs == r && rt == t && int_op_value(iop, a, b) == arith_value(op, a, b)
            && (op == BinOp::Divide ==> (iop == IntOp::SignedDiv) == signed)),
        is_comparison(op) ==> (int_binop(op, signed, l, r, t) matches Some((InstrView::IntCompare { pred, lhs, rhs }, rt))
            && lhs == l && rhs == r && rt == IrType::I1 && int_pred_holds(pred, a, b) == compares(op, a, b)
            && (int_pred_signed(pred) matches Some(sg) ==> sg == signed)),
        !is_arithmetic(op) && !is_comparison(op) ==> int_binop(op, signed, l, r, t) is None,
{
}

/// The step for an operator on floats means what the operator means: the operation that
/// gives the same number, or an ordered predicate that holds exactly when the comparison
/// does; `&&` and `||` have no single step.
pub proof fn law_float_operator_meaning(op: BinOp, l: usize, r: usize, t: IrType, a: int, b: int)
    ensures
        is_arithmetic(op) ==> (float_binop(op, l, r, t) matches Some((InstrView::FloatBinary { op: fop, lhs, rhs }, rt))
            && lhs == l && rhs == r && rt == t && float_op_value(fop, a, b) == arith_value(op, a, b)),
        is_comparison(op) ==> (float_binop(op, l, r, t) matches Some((InstrView::FloatCompare { pred, lhs, rhs }, rt))
            && lhs == l && rhs == r && rt == IrType::I1 && float_pred_holds(pred, a, b) == compares(op, a, b)),
        !is_arithmetic(op) && !is_comparison(op) ==> float_binop(op, l, r, t) is None,
{
}

/// Whether step `i` computes operator `op` of values `l` and `r`, in that order: an
/// operation that gives the operator's number, or a predicate that holds exactly when
/// the operator's comparison does, for any two numbers.
pub open spec fn step_computes(i: InstrView, op: BinOp, l: usize, r: usize) -> bool {
    match i {
        InstrView::IntBinary { op: iop, lhs, rhs } => lhs == l && rhs == r && is_arithmetic(op)
            && forall|a: int, b: int| #[trigger] int_op_value(iop, a, b) == arith_value(op, a, b),
        InstrView::IntCompare { pred, lhs, rhs } => lhs == l && rhs == r && is_comparison(op)
            && forall|a: int, b: int| #[trigger] int_pred_holds(pred, a, b) == compares(op, a, b),
        InstrView::FloatBinary { op: fop, lhs, rhs } => lhs == l && rhs == r && is_arithmetic(op)
            && forall|a: int, b: int| #[trigger] float_op_value(fop, a, b) == arith_value(op, a, b),
        InstrView::FloatCompare { pred, lhs, rhs } => lhs == l && rhs == r && is_comparison(op)
            && forall|a: int, b: int| #[trigger] float_pred_holds(pred, a, b) == compares(op, a, b),
        _ => false,
    }
}

/// An arithmetic or comparison operator is computed on the values of its operands: the
/// code of the left operand comes first, then that of the right one, then one step that
/// computes the operator with the left value first and the right value second; its
/// value is the newest one.
pub proof fn law_binary_operator_code(st: CgView, left: Spanned<SpecTypedExpression>, op: BinOp, right: Spanned<SpecTypedExpression>, ty: Type, span: Span)
    requires
        op != BinOp::And && op != BinOp::Or,
    ensures
        cg_binop(st, Spanned { node: SpecTypedExpression::BinOp { left: Box::new(left), op, right: Box::new(right), ty }, span })
            matches Some((s, v)) ==> {
                &&& cg_value(st, left) matches Some((s1, lv))
                &&& cg_value(s1, right) matches Some((s2, rv))
                &&& s.code.len() == s2.code.len() + 1
                &&& s.code.take(s2.code.len() as int) == s2.code
                &&& step_computes(s.code.last(), op, lv, rv)
                &&& v == Some(s2.values.len() as usize)
            },
{
    let e = Spanned { node: SpecTypedExpression::BinOp { left: Box::new(left), op, right: Box::new(right), ty }, span };
    match cg_binop(st, e) {
        Some((s, v)) => {
            let (s1, lv) = cg_value(st, left)->0;
            let (s2, rv) = cg_value(s1, right)->0;
            assert(s.code.take(s2.code.len() as int) =~= s2.code);
            let a = value_type(s2, lv)->0->0;
            if is_int(a) && is_int(value_type(s2, rv)->0->0) {
                law_int_operator_meaning(op, is_signed(ty), lv, rv, a, 0, 0);
            }
        },
        None => {},
    }
}

/// A cast between numbers uses a conversion that keeps what the value means: between
/// integers it truncates exactly when the target is narrower, and otherwise extends with
/// the sign exactly when the source is signed; a float becomes an integer read with the
/// target's signedness, an integer becomes a float read with its own; between floats it
/// truncates exactly when the target is narrower; pointers are not converted.
pub proof fn law_cast_conversion(from: IrType, to: IrType, from_signed: bool, to_signed: bool)
    ensures
        is_int(from) && is_int(to) ==> (cast_op(from, to, from_signed, to_signed) matches Some(c)
            && (c == CastOp::Truncate || c == CastOp::SignExtend || c == CastOp::ZeroExtend)
            && ((c == CastOp::Truncate) == (bit_width(from) > bit_width(to)))
            && (c == CastOp::SignExtend ==> from_signed)
            && (c == CastOp::ZeroExtend ==> !from_signed)),
        is_float(from) && is_int(to) ==> (cast_op(from, to, from_signed, to_signed) matches Some(c)
            && (c == CastOp::FloatToSigned || c == CastOp::FloatToUnsigned)
            && ((c == CastOp::FloatToSigned) == to_signed)),
        is_int(from) && is_float(to) ==> (cast_op(from, to, from_signed, to_signed) matches Some(c)
            && (c == CastOp::SignedToFloat || c == CastOp::UnsignedToFloat)
            && ((c == CastOp::SignedToFloat) == from_signed)),
        is_float(from) && is_float(to) ==> (cast_op(from, to, from_signed, to_signed) matches Some(c)
            && (c == CastOp::FloatTruncate || c == CastOp::FloatExtend)
            && ((c == CastOp::FloatTruncate) == (bit_width(from) > bit_width(to)))),
        from == IrType::Ptr || to == IrType::Ptr ==> cast_op(from, to, from_signed, to_signed) is None,
{
}

/// A value used as a condition counts as true exactly when it is not zero: its code is
/// the value's, then a zero of its type, then a predicate on the value and that zero
/// that holds of a number exactly when it is not zero.
pub proof fn law_condition_code(st: CgView, e: Spanned<SpecTypedExpression>)
    ensures
        cg_bool(st, e) matches Some((s, c)) ==> {
            &&& cg_value(st, e) matches Some((s1, v))
            &&& s.code.len() == s1.code.len() + 2
            &&& s.code.take(s1.code.len() as int) == s1.code
            &&& c == (s1.values.len() + 1) as usize
            &&& match s.code[s1.code.len() as int] {
                InstrView::ConstInt { value, .. } => {
                    &&& value == 0
                    &&& s.code.last() matches InstrView::IntCompare { pred, lhs, rhs }
                    &&& lhs == v && rhs == s1.values.len() as usize
                    &&& forall|a: int| #[trigger] int_pred_holds(pred, a, 0) == (a != 0)
                },
                InstrView::ConstFloat { text, .. } => {
                    &&& text == "0.0"@
                    &&& s.code.last() matches InstrView::FloatCompare { pred, lhs, rhs }
                    &&& lhs == v && rhs == s1.values.len() as usize
                    &&& forall|a: int| #[trigger] float_pred_holds(pred, a, 0) == (a != 0)
                },
                _ => false,
            }
        },
{
    match cg_value(st, e) {
        Some((s1, v)) => {
            match cg_bool(st, e) {
                Some((s, c)) => {
                    let t = value_type(s1, v)->0->0;
                    if is_int(t) {
                        let (s2, z) = constant(s1, InstrView::ConstInt { ty: t, value: 0, sign_extend: false }, t);
                        let i = InstrView::IntCompare { pred: IntPredicate::NE, lhs: v, rhs: z };
                        assert(s.code == s2.code.push(i));
                        assert(s.code =~= s1.code.push(InstrView::ConstInt { ty: t, value: 0, sign_extend: false }).push(i));
                    } else {
                        let (s2, z) = constant(s1, InstrView::ConstFloat { ty: t, text: "0.0"@ }, t);
                        let i = InstrView::FloatCompare { pred: FloatPredicate::ONE, lhs: v, rhs: z };
                        assert(s.code == s2.code.push(i));
                        assert(s.code =~= s1.code.push(InstrView::ConstFloat { ty: t, text: "0.0"@ }).push(i));
                    }
                    assert(s.code.take(s1.code.len() as int) =~= s1.code);
                },
                None => {},
            }
        },
        None => {},
    }
}

/// Negation and `!` are computed on their operand's value: `-` by a negation of the
/// operand's value that keeps its type, `!` by a logical not of the operand taken as a
/// condition.
pub proof fn law_unary_code(st: CgView, op: UnOp, operand: Spanned<SpecTypedExpression>, ty: Type, span: Span)
    ensures
        cg_expr(st, Spanned { node: SpecTypedExpression::UnOp { op, operand: Box::new(operand), ty }, span }) matches Some((s, r)) ==> {
            &&& op == UnOp::Negate ==> {
                &&& cg_expr(st, operand) matches Some((s1, Some(v)))
                &&& s.code == s1.code.push(s.code.last())
                &&& (s.code.last() == InstrView::IntNeg { value: v } || s.code.last() == InstrView::FloatNeg { value: v })
                &&& r == Some(s1.values.len() as usize)
                &&& s.values == s1.values.push(s1.values[v as int])
            }
            &&& op == UnOp::Not ==> {
                &&& cg_bool(st, operand) matches Some((s1, c))
                &&& s.code == s1.code.push(InstrView::Not { value: c })
                &&& r == Some(s1.values.len() as usize)
            }
        },
{
    let e = Spanned { node: SpecTypedExpression::UnOp { op, operand: Box::new(operand), ty }, span };
    match cg_expr(st, e) {
        Some((s, r)) => {
            if op == UnOp::Negate {
                let (s1, ov) = cg_expr(st, operand)->0;
                let v = ov->0;
                let t = value_type(s1, v)->0->0;
                let i = if is_int(t) { InstrView::IntNeg { value: v } } else { InstrView::FloatNeg { value: v } };
                assert(new_value(s1, i, Some(t)) == Some((s, s1.values.len() as usize)));
                assert(s.code == s1.code.push(i));
                assert(s.values == s1.values.push(Some(t)));
                assert(s1.values[v as int] == Some(t));
            } else {
                let (s1, c) = cg_bool(st, operand)->0;
                assert(s.code == s1.code.push(InstrView::Not { value: c }));
            }
        },
        None => {},
    }
}

} // verus!
