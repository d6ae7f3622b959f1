use mus::backend::llvm::codegen::Codegen;
use mus::backend::llvm::context::CodegenContext;
use mus::backend::llvm::ir::{BlockRole, CastOp, FloatPredicate, Instr, IntOp, IntPredicate, IrType};
use mus::cli::driver::Driver;
use mus::frontend::parser::ast::Type;
use mus::frontend::sema::modules::ModuleFiles;
use mus::frontend::sema::sema::Stop;

fn compile(src: &str) -> Vec<Instr> {
    let files = ModuleFiles::new();
    let mut d = Driver::new();
    match d.compile(src, "main.mus", &files) {
        Ok(()) => d.into_code().unwrap(),
        Err(e) => panic!("compilation failed: {:?}", e),
    }
}

fn main_of(body: &str) -> String {
    format!("pub fn main() void {{\n{}}}\n", body)
}

#[test]
fn types_in_generated_code() {
    let c = CodegenContext::new();
    assert_eq!(c.type_to_llvm(&Type::U64), Some(IrType::I64));
    assert_eq!(c.type_to_llvm(&Type::I32), Some(IrType::I32));
    assert_eq!(c.type_to_llvm(&Type::U16), Some(IrType::I16));
    assert_eq!(c.type_to_llvm(&Type::Char), Some(IrType::I8));
    assert_eq!(c.type_to_llvm(&Type::Bool), Some(IrType::I1));
    assert_eq!(c.type_to_llvm(&Type::F32), Some(IrType::F32));
    assert_eq!(c.type_to_llvm(&Type::Str), Some(IrType::Ptr));
    assert_eq!(c.type_to_llvm(&Type::Void), None);
    assert!(!c.is_block_terminated());
}

#[test]
fn empty_main() {
    let code = compile(&main_of(""));
    assert!(matches!(&code[0], Instr::Declare { name, params, ret: None, var_args: false } if name == "main.main" && params.is_empty()));
    assert!(matches!(&code[1], Instr::Block { func: 0, role: BlockRole::Entry }));
    assert!(matches!(&code[2], Instr::Position { block: 0 }));
    assert!(matches!(&code[3], Instr::Ret { value: None }));
    assert!(matches!(&code[4], Instr::Declare { name, ret: Some(IrType::I32), .. } if name == "main"));
    assert!(matches!(&code[5], Instr::Block { func: 1, role: BlockRole::Entry }));
    assert!(matches!(&code[6], Instr::Position { block: 1 }));
    assert!(matches!(&code[7], Instr::Call { func: 0, args } if args.is_empty()));
    assert!(matches!(&code[8], Instr::ConstInt { ty: IrType::I32, value: 0, sign_extend: false }));
    assert!(matches!(&code[9], Instr::Ret { value: Some(1) }));
    assert_eq!(code.len(), 10);
}

#[test]
fn variable_is_stored_in_its_slot() {
    let code = compile(&main_of("    var x i32 = -3\n"));
    assert!(code.iter().any(|i| matches!(i, Instr::ConstInt { ty: IrType::I32, value: 3, sign_extend: true })));
    assert!(code.iter().any(|i| matches!(i, Instr::IntNeg { value: 0 })));
    assert!(code.iter().any(|i| matches!(i, Instr::Alloca { ty: IrType::I32 })));
    assert!(code.iter().any(|i| matches!(i, Instr::Store { ptr: 2, value: 1 })));
}

#[test]
fn negative_literal_bits() {
    let code = compile(&main_of("    var x i64 = 5 - 7\n"));
    assert!(code.iter().any(|i| matches!(i, Instr::IntBinary { op: IntOp::Sub, lhs: 0, rhs: 1 })));
}

#[test]
fn signed_and_unsigned_division() {
    let s = compile(&main_of("    var x i32 = 7 / 2\n"));
    assert!(s.iter().any(|i| matches!(i, Instr::IntBinary { op: IntOp::SignedDiv, .. })));
    let u = compile(&main_of("    var x u32 = 7 / 2\n"));
    assert!(u.iter().any(|i| matches!(i, Instr::IntBinary { op: IntOp::UnsignedDiv, .. })));
}

#[test]
fn integer_comparison_of_bool_type_is_unsigned() {
    let code = compile(&main_of("    var a i32 = 1\n    var b bool = a < 2\n"));
    assert!(code.iter().any(|i| matches!(i, Instr::IntCompare { pred: IntPredicate::ULT, .. })));
}

#[test]
fn float_operations() {
    let code = compile(&main_of("    var a f64 = 1.5\n    var b bool = a == 2.0\n    var c f64 = a * 2.0\n"));
    assert!(code.iter().any(|i| matches!(i, Instr::ConstFloat { ty: IrType::F64, text } if text == "1.5")));
    assert!(code.iter().any(|i| matches!(i, Instr::FloatCompare { pred: FloatPredicate::OEQ, .. })));
    assert!(code.iter().any(|i| matches!(i, Instr::FloatBinary { .. })));
}

#[test]
fn casts() {
    let code = compile(&main_of("    var a i32 = 1\n    var b i64 = a as i64\n    var c u8 = a as u8\n    var d f64 = a as f64\n    var e u32 = d as u32\n    var f i32 = a as i32\n"));
    assert!(code.iter().any(|i| matches!(i, Instr::Cast { op: CastOp::SignExtend, ty: IrType::I64, .. })));
    assert!(code.iter().any(|i| matches!(i, Instr::Cast { op: CastOp::Truncate, ty: IrType::I8, .. })));
    assert!(code.iter().any(|i| matches!(i, Instr::Cast { op: CastOp::SignedToFloat, ty: IrType::F64, .. })));
    assert!(code.iter().any(|i| matches!(i, Instr::Cast { op: CastOp::FloatToUnsigned, ty: IrType::I32, .. })));
    let casts = code.iter().filter(|i| matches!(i, Instr::Cast { .. })).count();
    assert_eq!(casts, 4);
}

#[test]
fn if_else_blocks() {
    let code = compile(&main_of("    if true {\n        var a i32 = 1\n    } else {\n        var b i32 = 2\n    }\n"));
    let roles: Vec<BlockRole> = code.iter().filter_map(|i| match i {
        Instr::Block { role, .. } => Some(*role),
        _ => None,
    }).collect();
    assert_eq!(roles, vec![BlockRole::Entry, BlockRole::IfThen, BlockRole::IfMerge, BlockRole::IfElse, BlockRole::Entry]);
    assert!(code.iter().any(|i| matches!(i, Instr::CondBr { then_block: 1, else_block: 3, .. })));
    let jumps_to_merge = code.iter().filter(|i| matches!(i, Instr::Br { block: 2 })).count();
    assert_eq!(jumps_to_merge, 2);
}

#[test]
fn both_branches_return() {
    let code = compile("fn f() i32 {\n    if true {\n        return 1\n    } else {\n        return 2\n    }\n}\npub fn main() void {\n}\n");
    assert!(code.iter().any(|i| matches!(i, Instr::Block { role: BlockRole::Unreachable, .. })));
    assert!(code.iter().any(|i| matches!(i, Instr::Unreachable)));
}

#[test]
fn while_loop_blocks() {
    let code = compile(&main_of("    var i i32 = 0\n    while i < 3 {\n        i = i + 1\n        continue\n    }\n"));
    let roles: Vec<BlockRole> = code.iter().filter_map(|i| match i {
        Instr::Block { role, .. } => Some(*role),
        _ => None,
    }).collect();
    assert_eq!(roles, vec![BlockRole::Entry, BlockRole::WhileCond, BlockRole::WhileBody, BlockRole::WhileMerge, BlockRole::Entry]);
    let back_edges = code.iter().filter(|i| matches!(i, Instr::Br { block: 1 })).count();
    assert_eq!(back_edges, 2);
}

#[test]
fn logical_and_joins_with_phi() {
    let code = compile(&main_of("    var a bool = true && false\n"));
    assert!(code.iter().any(|i| matches!(i, Instr::Block { role: BlockRole::LogicalRight, .. })));
    assert!(code.iter().any(|i| matches!(i, Instr::Phi { ty: IrType::I1, incoming } if incoming.len() == 2 && incoming[0].1 == 0)));
    assert!(code.iter().any(|i| matches!(i, Instr::ConstInt { ty: IrType::I1, value: 0, sign_extend: false })));
}

#[test]
fn condition_compares_with_zero() {
    let code = compile(&main_of("    var a i32 = 1\n    if a {\n    }\n"));
    assert!(code.iter().any(|i| matches!(i, Instr::IntCompare { pred: IntPredicate::NE, .. })));
}

#[test]
fn calls_and_parameters() {
    let code = compile("extern fn puts(s str) i32\nfn twice(a i32) i32 {\n    return a * 2\n}\npub fn main() void {\n    puts(\"hi\")\n    var x i32 = twice(4)\n}\n");
    assert!(matches!(&code[0], Instr::Declare { name, var_args: false, .. } if name == "puts"));
    assert!(matches!(&code[1], Instr::Declare { name, .. } if name == "main.twice"));
    assert!(code.iter().any(|i| matches!(i, Instr::Param { func: 1, index: 0 })));
    assert!(code.iter().any(|i| matches!(i, Instr::GlobalString { text } if text == "hi")));
    assert!(code.iter().any(|i| matches!(i, Instr::Call { func: 0, args } if args.len() == 1)));
}

#[test]
fn codegen_directly() {
    let mut g = Codegen::new();
    let prog = mus::frontend::sema::typed_ast::TypedProgram { items: Vec::new() };
    assert!(!g.compile_program(&prog));
}

#[test]
fn driver_reports_errors() {
    let files = ModuleFiles::new();
    let mut d = Driver::new();
    match d.compile("pub fn main() void {\n    x = 1\n}\n", "main.mus", &files) {
        Err(Stop::Report(e)) => assert_eq!(e.message, "Undefined variable 'x'"),
        _ => panic!("expected an error"),
    }
    assert!(d.into_code().is_none());
}
