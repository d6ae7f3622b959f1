use vstd::prelude::*;
use crate::backend::llvm::ir::{IrType, Instr, InstrView, BlockRole, instrs_view, is_int, is_float, bit_width};
use crate::frontend::parser::ast::Type;
use crate::frontend::sema::names::NameMap;

verus! {

/// The state of code generation: the steps taken so far, the type of each value made
/// (none for a call of a function that returns nothing), the signature of each function,
/// whether each block ends in a terminator, the block that steps go to, and the names
/// that generation keeps track of.
pub struct CgView {
    pub code: Seq<InstrView>,
    pub values: Seq<Option<IrType>>,
    pub funcs: Seq<(Seq<IrType>, Option<IrType>)>,
    pub blocks: Seq<bool>,
    pub current: Option<usize>,
    pub functions: Map<Seq<char>, usize>,
    pub externs: Map<Seq<char>, usize>,
    pub current_func: Option<usize>,
    pub continue_block: Option<usize>,
    pub break_block: Option<usize>,
    pub variables: Map<Seq<char>, usize>,
}

/// The type that values of type `t` have in the generated code, if they have one.
pub open spec fn ir_type(t: Type) -> Option<IrType> {
    match t {
        Type::I64 | Type::U64 => Some(IrType::I64),
        Type::I32 | Type::U32 => Some(IrType::I32),
        Type::I16 | Type::U16 => Some(IrType::I16),
        Type::I8 | Type::U8 | Type::Char => Some(IrType::I8),
        Type::F64 => Some(IrType::F64),
        Type::F32 => Some(IrType::F32),
        Type::Bool => Some(IrType::I1),
        Type::Str => Some(IrType::Ptr),
        _ => None,
    }
}

/// Each type is held in a value of its own size: integers (and `char`) in integers of
/// their width, `bool` in one bit, floats in floats of their width, `str` in a pointer;
/// `void` and `...` have no values.
pub proof fn law_type_sizes(t: Type)
    ensures
        matches!(t, Type::I64 | Type::U64) ==> (ir_type(t) matches Some(it) && is_int(it) && bit_width(it) == 64),
        matches!(t, Type::I32 | Type::U32) ==> (ir_type(t) matches Some(it) && is_int(it) && bit_width(it) == 32),
        matches!(t, Type::I16 | Type::U16) ==> (ir_type(t) matches Some(it) && is_int(it) && bit_width(it) == 16),
        matches!(t, Type::I8 | Type::U8 | Type::Char) ==> (ir_type(t) matches Some(it) && is_int(it) && bit_width(it) == 8),
        t == Type::Bool ==> (ir_type(t) matches Some(it) && is_int(it) && bit_width(it) == 1),
        t == Type::F64 ==> (ir_type(t) matches Some(it) && is_float(it) && bit_width(it) == 64),
        t == Type::F32 ==> (ir_type(t) matches Some(it) && is_float(it) && bit_width(it) == 32),
        t == Type::Str ==> ir_type(t) == Some(IrType::Ptr),
        matches!(t, Type::Void | Type::Ellipsis) ==> ir_type(t) is None,
{
}

/// Whether the block that steps go to ends in a terminator.
pub open spec fn terminated(st: CgView) -> bool {
    match st.current {
        Some(b) => b < st.blocks.len() && st.blocks[b as int],
        None => false,
    }
}

/// Instruction `i` added to the current block, making a value of type `defines` if that
/// is given, and ending the block if `ends`; nothing if no block is current.
pub open spec fn put(st: CgView, i: InstrView, defines: Option<Option<IrType>>, ends: bool) -> Option<CgView> {
    match st.current {
        Some(b) => if b < st.blocks.len() {
            Some(CgView {
                code: st.code.push(i),
                values: match defines {
                    Some(t) => st.values.push(t),
                    None => st.values,
                },
                blocks: st.blocks.update(b as int, ends),
                ..st
            })
        } else {
            None
        },
        None => None,
    }
}

/// Instruction `i`, which makes a value of type `t`, added to the current block; the value.
pub open spec fn new_value(st: CgView, i: InstrView, t: Option<IrType>) -> Option<(CgView, usize)> {
    match put(st, i, Some(t), false) {
        Some(s) => Some((s, st.values.len() as usize)),
        None => None,
    }
}

/// A step that makes a value of type `t` outside any block; the value.
pub open spec fn constant(st: CgView, i: InstrView, t: IrType) -> (CgView, usize) {
    (CgView { code: st.code.push(i), values: st.values.push(Some(t)), ..st }, st.values.len() as usize)
}

/// A new block of function `func`; the block.
pub open spec fn new_block(st: CgView, func: usize, role: BlockRole) -> (CgView, usize) {
    (CgView { code: st.code.push(InstrView::Block { func, role }), blocks: st.blocks.push(false), ..st }, st.blocks.len() as usize)
}

/// Steps go to the end of block `b` from now on.
pub open spec fn position(st: CgView, b: usize) -> CgView {
    CgView { code: st.code.push(InstrView::Position { block: b }), current: Some(b), ..st }
}

/// A new function; the function.
pub open spec fn declare(st: CgView, name: Seq<char>, params: Seq<IrType>, ret: Option<IrType>, var_args: bool) -> (CgView, usize) {
    (
        CgView {
            code: st.code.push(InstrView::Declare { name, params, ret, var_args }),
            funcs: st.funcs.push((params, ret)),
            ..st
        },
        st.funcs.len() as usize,
    )
}

/// The type of value `v`, if `v` names a value.
pub open spec fn value_type(st: CgView, v: usize) -> Option<Option<IrType>> {
    if v < st.values.len() {
        Some(st.values[v as int])
    } else {
        None
    }
}

/// The code generation state, together with the builder's position.
#[derive(Debug)]
pub struct CodegenContext {
    code: Vec<Instr>,
    values: Vec<Option<IrType>>,
    funcs: Vec<(Vec<IrType>, Option<IrType>)>,
    blocks: Vec<bool>,
    current_block: Option<usize>,
    functions: NameMap,
    externs: NameMap,
    current_func: Option<usize>,
    continue_block: Option<usize>,
    break_block: Option<usize>,
    variables: NameMap,
}

pub open spec fn sigs_view(s: Seq<(Vec<IrType>, Option<IrType>)>) -> Seq<(Seq<IrType>, Option<IrType>)> {
    s.map_values(|f: (Vec<IrType>, Option<IrType>)| (f.0@, f.1))
}

/// The code generation state before anything is generated.
pub open spec fn initial_state() -> CgView {
    CgView {
        code: Seq::empty(),
        values: Seq::empty(),
        funcs: Seq::empty(),
        blocks: Seq::empty(),
        current: None,
        functions: Map::empty(),
        externs: Map::empty(),
        current_func: None,
        continue_block: None,
        break_block: None,
        variables: Map::empty(),
    }
}

impl View for CodegenContext {
    type V = CgView;

    closed spec fn view(&self) -> CgView {
        CgView {
            code: instrs_view(self.code@),
            values: self.values@,
            funcs: sigs_view(self.funcs@),
            blocks: self.blocks@,
            current: self.current_block,
            functions: self.functions@,
            externs: self.externs@,
            current_func: self.current_func,
            continue_block: self.continue_block,
            break_block: self.break_block,
            variables: self.variables@,
        }
    }
}

impl CodegenContext {
    pub closed spec fn wf(&self) -> bool {
        &&& self.functions.wf()
        &&& self.externs.wf()
        &&& self.variables.wf()
    }

    pub fn new() -> (c: Self)
        ensures
            c.wf(),
            c@ == initial_state(),
    {
        let c = CodegenContext {
            code: Vec::new(),
            values: Vec::new(),
            funcs: Vec::new(),
            blocks: Vec::new(),
            current_block: None,
            functions: NameMap::new(),
            externs: NameMap::new(),
            current_func: None,
            continue_block: None,
            break_block: None,
            variables: NameMap::new(),
        };
        proof {
            assert(instrs_view(c.code@) =~= Seq::<InstrView>::empty());
            assert(sigs_view(c.funcs@) =~= Seq::<(Seq<IrType>, Option<IrType>)>::empty());
        }
        c
    }

    /// The steps generated.
    pub fn into_code(self) -> (v: Vec<Instr>)
        ensures
            instrs_view(v@) == self@.code,
    {
        self.code
    }

    pub fn is_block_terminated(&self) -> (r: bool)
        ensures
            r == terminated(self@),
    {
        match self.current_block {
            Some(b) => b < self.blocks.len() && self.blocks[b],
            None => false,
        }
    }

    /// The type that values of type `ty` have in the generated code.
    pub fn type_to_llvm(&self, ty: &Type) -> (r: Option<IrType>)
        ensures
            r == ir_type(*ty),
    {
        match ty {
            Type::I64 | Type::U64 => Some(IrType::I64),
            Type::I32 | Type::U32 => Some(IrType::I32),
            Type::I16 | Type::U16 => Some(IrType::I16),
            Type::I8 | Type::U8 | Type::Char => Some(IrType::I8),
            Type::F64 => Some(IrType::F64),
            Type::F32 => Some(IrType::F32),
            Type::Bool => Some(IrType::I1),
            Type::Str => Some(IrType::Ptr),
            _ => None,
        }
    }

    fn push_code(&mut self, i: Instr)
        ensures
            final(self)@ == (CgView { code: old(self)@.code.push(i@), ..old(self)@ }),
            final(self).wf() == old(self).wf(),
    {
        let ghost iv = i@;
        self.code.push(i);
        proof {
            assert(instrs_view(self.code@) =~= instrs_view(old(self).code@).push(iv));
        }
    }

    /// Adds `i` to the current block; false if no block is current.
    pub fn put(&mut self, i: Instr, defines: Option<Option<IrType>>, ends: bool) -> (ok: bool)
        ensures
            final(self).wf() == old(self).wf(),
            match put(old(self)@, i@, defines, ends) {
                Some(s) => ok && final(self)@ == s,
                None => !ok && final(self)@ == old(self)@,
            },
    {
        match self.current_block {
            Some(b) => {
                if b < self.blocks.len() {
                    self.push_code(i);
                    if let Some(t) = defines {
                        self.values.push(t);
                    }
                    self.blocks.set(b, ends);
                    true
                } else {
                    false
                }
            },
            None => false,
        }
    }

    /// Adds `i`, which makes a value of type `t`, to the current block; the value.
    pub fn new_value(&mut self, i: Instr, t: Option<IrType>) -> (r: Option<usize>)
        ensures
            final(self).wf() == old(self).wf(),
            match new_value(old(self)@, i@, t) {
                Some((s, v)) => r == Some(v) && final(self)@ == s,
                None => r is None && final(self)@ == old(self)@,
            },
    {
        let v = self.values.len();
        if self.put(i, Some(t), false) {
            Some(v)
        } else {
            None
        }
    }

    /// Adds `i`, which makes a value of type `t` outside any block; the value.
    pub fn constant(&mut self, i: Instr, t: IrType) -> (v: usize)
        ensures
            final(self).wf() == old(self).wf(),
            (final(self)@, v) == constant(old(self)@, i@, t),
    {
        let v = self.values.len();
        self.push_code(i);
        self.values.push(Some(t));
        v
    }

    /// Adds a block to function `func`; the block.
    pub fn new_block(&mut self, func: usize, role: BlockRole) -> (b: usize)
        ensures
            final(self).wf() == old(self).wf(),
            (final(self)@, b) == new_block(old(self)@, func, role),
    {
        let b = self.blocks.len();
        self.push_code(Instr::Block { func, role });
        self.blocks.push(false);
        b
    }

    /// Steps go to the end of block `b` from now on.
    pub fn position(&mut self, b: usize)
        ensures
            final(self).wf() == old(self).wf(),
            final(self)@ == position(old(self)@, b),
    {
        self.push_code(Instr::Position { block: b });
        self.current_block = Some(b);
    }

    /// Declares a function; the function.
    pub fn declare(&mut self, name: String, params: Vec<IrType>, ret: Option<IrType>, var_args: bool) -> (f: usize)
        ensures
            final(self).wf() == old(self).wf(),
            (final(self)@, f) == declare(old(self)@, name@, params@, ret, var_args),
    {
        let f = self.funcs.len();
        let ps = params.clone();
        self.push_code(Instr::Declare { name, params, ret, var_args });
        let ghost before = self.funcs@;
        self.funcs.push((ps, ret));
        proof {
            assert(sigs_view(self.funcs@) =~= sigs_view(before).push((params@, ret)));
        }
        f
    }

    /// The type of value `v`, if `v` names a value.
    pub fn value_type(&self, v: usize) -> (r: Option<Option<IrType>>)
        ensures
            r == value_type(self@, v),
    {
        if v < self.values.len() {
            Some(self.values[v])
        } else {
            None
        }
    }

    /// The signature of function `f`, if `f` names a function.
    pub fn signature(&self, f: usize) -> (r: Option<(&Vec<IrType>, Option<IrType>)>)
        ensures
            match r {
                Some((p, t)) => f < self@.funcs.len() && self@.funcs[f as int] == (p@, t),
                None => f >= self@.funcs.len(),
            },
    {
        if f < self.funcs.len() {
            Some((&self.funcs[f].0, self.funcs[f].1))
        } else {
            None
        }
    }

    pub fn function(&self, mangled: &str) -> (r: Option<usize>)
        requires
            self.wf(),
        ensures
            r == (if self@.functions.contains_key(mangled@) { Some(self@.functions[mangled@]) } else { None }),
    {
        self.functions.get(mangled)
    }

    pub fn set_function(&mut self, mangled: String, f: usize)
        requires
            old(self).wf(),
        ensures
            final(self).wf(),
            final(self)@ == (CgView { functions: old(self)@.functions.insert(mangled@, f), ..old(self)@ }),
    {
        self.functions.insert(mangled, f);
    }

    pub fn extern_fn(&self, name: &str) -> (r: Option<usize>)
        requires
            self.wf(),
        ensures
            r == (if self@.externs.contains_key(name@) { Some(self@.externs[name@]) } else { None }),
    {
        self.externs.get(name)
    }

    pub fn set_extern(&mut self, name: String, f: usize)
        requires
            old(self).wf(),
        ensures
            final(self).wf(),
            final(self)@ == (CgView { externs: old(self)@.externs.insert(name@, f), ..old(self)@ }),
    {
        self.externs.insert(name, f);
    }

    pub fn variable(&self, name: &str) -> (r: Option<usize>)
        requires
            self.wf(),
        ensures
            r == (if self@.variables.contains_key(name@) { Some(self@.variables[name@]) } else { None }),
    {
        self.variables.get(name)
    }

    pub fn set_variable(&mut self, name: String, ptr: usize)
        requires
            old(self).wf(),
        ensures
            final(self).wf(),
            final(self)@ == (CgView { variables: old(self)@.variables.insert(name@, ptr), ..old(self)@ }),
    {
        self.variables.insert(name, ptr);
    }

    pub fn current_block(&self) -> (r: Option<usize>)
        ensures
            r == self@.current,
    {
        self.current_block
    }

    pub fn current_func(&self) -> (r: Option<usize>)
        ensures
            r == self@.current_func,
    {
        self.current_func
    }

    pub fn set_current_func(&mut self, f: Option<usize>)
        ensures
            final(self).wf() == old(self).wf(),
            final(self)@ == (CgView { current_func: f, ..old(self)@ }),
    {
        self.current_func = f;
    }

    /// The blocks that `continue` and `break` go to.
    pub fn loop_blocks(&self) -> (r: (Option<usize>, Option<usize>))
        ensures
            r == (self@.continue_block, self@.break_block),
    {
        (self.continue_block, self.break_block)
    }

    pub fn set_loop_blocks(&mut self, continue_block: Option<usize>, break_block: Option<usize>)
        ensures
            final(self).wf() == old(self).wf(),
            final(self)@ == (CgView { continue_block, break_block, ..old(self)@ }),
    {
        self.continue_block = continue_block;
        self.break_block = break_block;
    }
}

} // verus!
