use vstd::prelude::*;

verus! {

/// A type of the generated code.
#[derive(Debug, PartialEq, Eq, Structural, Clone, Copy)]
pub enum IrType {
    I1,
    I8,
    I16,
    I32,
    I64,
    F32,
    F64,
    Ptr,
}

/// An integer operation.
#[derive(Debug, PartialEq, Eq, Structural, Clone, Copy)]
pub enum IntOp {
    Add,
    Sub,
    Mul,
    SignedDiv,
    UnsignedDiv,
}

/// A floating-point operation.
#[derive(Debug, PartialEq, Eq, Structural, Clone, Copy)]
pub enum FloatOp {
    Add,
    Sub,
    Mul,
    Div,
}

/// An integer comparison.
#[derive(Debug, PartialEq, Eq, Structural, Clone, Copy)]
pub enum IntPredicate {
    EQ,
    NE,
    SGT,
    UGT,
    SLT,
    ULT,
    SGE,
    UGE,
    SLE,
    ULE,
}

/// An ordered floating-point comparison.
#[derive(Debug, PartialEq, Eq, Structural, Clone, Copy)]
pub enum FloatPredicate {
    OEQ,
    ONE,
    OGT,
    OLT,
    OGE,
    OLE,
}

/// A conversion between numeric types.
#[derive(Debug, PartialEq, Eq, Structural, Clone, Copy)]
pub enum CastOp {
    Truncate,
    SignExtend,
    ZeroExtend,
    FloatToSigned,
    FloatToUnsigned,
    SignedToFloat,
    UnsignedToFloat,
    FloatTruncate,
    FloatExtend,
}

/// What a basic block is for; it gives the block its name.
#[derive(Debug, PartialEq, Eq, Structural, Clone, Copy)]
pub enum BlockRole {
    Entry,
    IfThen,
    IfMerge,
    IfElse,
    Unreachable,
    WhileCond,
    WhileBody,
    WhileMerge,
    LogicalRight,
    LogicalMerge,
}

/// One step of building the code of a module. Functions, blocks and values are known
/// by the order in which the steps that make them come: `Declare` makes a function;
/// `Block` a block; `Param`, `ConstInt`, `ConstFloat`, `GlobalString`, `Alloca`, `Load`,
/// the operations, `Call`, `Cast` and `Phi` each make a value.
#[derive(Debug)]
#[allow(inconsistent_fields)]
pub enum Instr {
    Declare { name: String, params: Vec<IrType>, ret: Option<IrType>, var_args: bool },
    Block { func: usize, role: BlockRole },
    Position { block: usize },
    Param { func: usize, index: usize },
    ConstInt { ty: IrType, value: u64, sign_extend: bool },
    /// A float constant, written in decimal.
    ConstFloat { ty: IrType, text: String },
    GlobalString { text: String },
    Alloca { ty: IrType },
    Store { ptr: usize, value: usize },
    Load { ty: IrType, ptr: usize },
    IntBinary { op: IntOp, lhs: usize, rhs: usize },
    FloatBinary { op: FloatOp, lhs: usize, rhs: usize },
    IntCompare { pred: IntPredicate, lhs: usize, rhs: usize },
    FloatCompare { pred: FloatPredicate, lhs: usize, rhs: usize },
    IntNeg { value: usize },
    FloatNeg { value: usize },
    Not { value: usize },
    Call { func: usize, args: Vec<usize> },
    Cast { op: CastOp, value: usize, ty: IrType },
    /// A phi node, with each incoming value and the block it comes from.
    Phi { ty: IrType, incoming: Vec<(usize, usize)> },
    Br { block: usize },
    CondBr { cond: usize, then_block: usize, else_block: usize },
    Ret { value: Option<usize> },
    Unreachable,
}

/// The mathematical model of an [`Instr`].
#[allow(inconsistent_fields)]
pub enum InstrView {
    Declare { name: Seq<char>, params: Seq<IrType>, ret: Option<IrType>, var_args: bool },
    Block { func: usize, role: BlockRole },
    Position { block: usize },
    Param { func: usize, index: usize },
    ConstInt { ty: IrType, value: u64, sign_extend: bool },
    ConstFloat { ty: IrType, text: Seq<char> },
    GlobalString { text: Seq<char> },
    Alloca { ty: IrType },
    Store { ptr: usize, value: usize },
    Load { ty: IrType, ptr: usize },
    IntBinary { op: IntOp, lhs: usize, rhs: usize },
    FloatBinary { op: FloatOp, lhs: usize, rhs: usize },
    IntCompare { pred: IntPredicate, lhs: usize, rhs: usize },
    FloatCompare { pred: FloatPredicate, lhs: usize, rhs: usize },
    IntNeg { value: usize },
    FloatNeg { value: usize },
    Not { value: usize },
    Call { func: usize, args: Seq<usize> },
    Cast { op: CastOp, value: usize, ty: IrType },
    Phi { ty: IrType, incoming: Seq<(usize, usize)> },
    Br { block: usize },
    CondBr { cond: usize, then_block: usize, else_block: usize },
    Ret { value: Option<usize> },
    Unreachable,
}

impl View for Instr {
    type V = InstrView;

    open spec fn view(&self) -> InstrView {
        match *self {
            Instr::Declare { name, params, ret, var_args } => InstrView::Declare { name: name@, params: params@, ret, var_args },
            Instr::Block { func, role } => InstrView::Block { func, role },
            Instr::Position { block } => InstrView::Position { block },
            Instr::Param { func, index } => InstrView::Param { func, index },
            Instr::ConstInt { ty, value, sign_extend } => InstrView::ConstInt { ty, value, sign_extend },
            Instr::ConstFloat { ty, text } => InstrView::ConstFloat { ty, text: text@ },
            Instr::GlobalString { text } => InstrView::GlobalString { text: text@ },
            Instr::Alloca { ty } => InstrView::Alloca { ty },
            Instr::Store { ptr, value } => InstrView::Store { ptr, value },
            Instr::Load { ty, ptr } => InstrView::Load { ty, ptr },
            Instr::IntBinary { op, lhs, rhs } => InstrView::IntBinary { op, lhs, rhs },
            Instr::FloatBinary { op, lhs, rhs } => InstrView::FloatBinary { op, lhs, rhs },
            Instr::IntCompare { pred, lhs, rhs } => InstrView::IntCompare { pred, lhs, rhs },
            Instr::FloatCompare { pred, lhs, rhs } => InstrView::FloatCompare { pred, lhs, rhs },
            Instr::IntNeg { value } => InstrView::IntNeg { value },
            Instr::FloatNeg { value } => InstrView::FloatNeg { value },
            Instr::Not { value } => InstrView::Not { value },
            Instr::Call { func, args } => InstrView::Call { func, args: args@ },
            Instr::Cast { op, value, ty } => InstrView::Cast { op, value, ty },
            Instr::Phi { ty, incoming } => InstrView::Phi { ty, incoming: incoming@ },
            Instr::Br { block } => InstrView::Br { block },
            Instr::CondBr { cond, then_block, else_block } => InstrView::CondBr { cond, then_block, else_block },
            Instr::Ret { value } => InstrView::Ret { value },
            Instr::Unreachable => InstrView::Unreachable,
        }
    }
}

/// Whether integer predicate `pred` holds of `a` and `b`, each read as a number in the
/// signedness that the predicate names.
pub open spec fn int_pred_holds(pred: IntPredicate, a: int, b: int) -> bool {
    match pred {
        IntPredicate::EQ => a == b,
        IntPredicate::NE => a != b,
        IntPredicate::SGT | IntPredicate::UGT => a > b,
        IntPredicate::SLT | IntPredicate::ULT => a < b,
        IntPredicate::SGE | IntPredicate::UGE => a >= b,
        IntPredicate::SLE | IntPredicate::ULE => a <= b,
    }
}

/// Whether `pred` reads its operands as signed numbers; none for the equalities, which
/// do not depend on it.
pub open spec fn int_pred_signed(pred: IntPredicate) -> Option<bool> {
    match pred {
        IntPredicate::EQ | IntPredicate::NE => None,
        IntPredicate::SGT | IntPredicate::SLT | IntPredicate::SGE | IntPredicate::SLE => Some(true),
        _ => Some(false),
    }
}

/// Whether ordered float predicate `pred` holds of two numbers `a` and `b`.
pub open spec fn float_pred_holds(pred: FloatPredicate, a: int, b: int) -> bool {
    match pred {
        FloatPredicate::OEQ => a == b,
        FloatPredicate::ONE => a != b,
        FloatPredicate::OGT => a > b,
        FloatPredicate::OLT => a < b,
        FloatPredicate::OGE => a >= b,
        FloatPredicate::OLE => a <= b,
    }
}

/// The number integer operation `op` gives for `a` and `b`, read in its signedness.
pub open spec fn int_op_value(op: IntOp, a: int, b: int) -> int {
    match op {
        IntOp::Add => a + b,
        IntOp::Sub => a - b,
        IntOp::Mul => a * b,
        IntOp::SignedDiv | IntOp::UnsignedDiv => a / b,
    }
}

/// The number float operation `op` gives for `a` and `b`.
pub open spec fn float_op_value(op: FloatOp, a: int, b: int) -> int {
    match op {
        FloatOp::Add => a + b,
        FloatOp::Sub => a - b,
        FloatOp::Mul => a * b,
        FloatOp::Div => a / b,
    }
}

pub open spec fn instrs_view(s: Seq<Instr>) -> Seq<InstrView> {
    s.map_values(|i: Instr| i@)
}

pub open spec fn is_int(t: IrType) -> bool {
    matches!(t, IrType::I1 | IrType::I8 | IrType::I16 | IrType::I32 | IrType::I64)
}

pub open spec fn is_float(t: IrType) -> bool {
    matches!(t, IrType::F32 | IrType::F64)
}

/// The number of bits of a value of type `t`.
pub open spec fn bit_width(t: IrType) -> nat {
    match t {
        IrType::I1 => 1,
        IrType::I8 => 8,
        IrType::I16 => 16,
        IrType::I32 => 32,
        IrType::I64 => 64,
        IrType::F32 => 32,
        IrType::F64 => 64,
        IrType::Ptr => 64,
    }
}

impl IrType {
    pub fn is_int(&self) -> (r: bool)
        ensures
            r == is_int(*self),
    {
        matches!(self, IrType::I1 | IrType::I8 | IrType::I16 | IrType::I32 | IrType::I64)
    }

    pub fn is_float(&self) -> (r: bool)
        ensures
            r == is_float(*self),
    {
        matches!(self, IrType::F32 | IrType::F64)
    }

    pub fn bit_width(&self) -> (r: u32)
        ensures
            r == bit_width(*self),
    {
        match self {
            IrType::I1 => 1,
            IrType::I8 => 8,
            IrType::I16 => 16,
            IrType::I32 => 32,
            IrType::I64 => 64,
            IrType::F32 => 32,
            IrType::F64 => 64,
            IrType::Ptr => 64,
        }
    }
}

} // verus!
