use vstd::prelude::*;
use crate::frontend::errors::span::{Span, Spanned};
use crate::frontend::errors::errors::{Error, ErrorKind, ErrorView, Diagnostic, error_of};
use crate::frontend::parser::ast::{Type, BinOp, UnOp, type_text};
use crate::frontend::sema::typed_ast::{
    TypedBlock, TypedExpression, TypedStatement, TypedProgram, TypedItem, TypedParam,
    SpecTypedExpression, SpecTypedStatement, SpecTypedBlock, SpecTypedItem, SpecTypedProgram,
    SpecTypedParam, type_of, texpr_view, texprs_view, stexpr_view, tstmt_view, tstmts_view,
    tblock_view, titem_view, titems_view, tparams_view, tparam_view,
};
use crate::frontend::text::push_str;

verus! {

// ---------------------------------------------------------------------------
// The typing rules, stated over the typed tree. Each check gives the first
// violation it meets, in the order of the program text.
// ---------------------------------------------------------------------------

pub open spec fn tdiag(span: Span, message: Seq<char>, note: Option<Seq<char>>) -> Diagnostic {
    Diagnostic { span, message, note }
}

pub open spec fn mismatch(span: Span, expected: Type, got: Type) -> Diagnostic {
    tdiag(span, "Expected type "@ + type_text(expected) + ", got "@ + type_text(got), None)
}

pub open spec fn is_arithmetic(op: BinOp) -> bool {
    op == BinOp::Plus || op == BinOp::Minus || op == BinOp::Multiply || op == BinOp::Divide
}

/// The types that arithmetic applies to.
pub open spec fn is_numeric(t: Type) -> bool {
    match t {
        Type::I64 | Type::U64 | Type::F64 | Type::I32 | Type::U32 | Type::F32 | Type::I16
        | Type::U16 | Type::I8 | Type::U8 => true,
        _ => false,
    }
}

/// The types that can be negated.
pub open spec fn is_negatable(t: Type) -> bool {
    match t {
        Type::I64 | Type::F64 | Type::I32 | Type::F32 | Type::I16 | Type::I8 => true,
        _ => false,
    }
}

pub open spec fn check_expr(e: Spanned<SpecTypedExpression>) -> Result<(), Diagnostic>
    decreases e, 0nat,
{
    match e.node {
        SpecTypedExpression::BinOp { left, op, right, .. } => {
            let left_ty = type_of(left.node);
            let right_ty = type_of(right.node);
            if left_ty != right_ty {
                Err(mismatch(right.span, left_ty, right_ty))
            } else if left_ty == Type::Str {
                Err(tdiag(left.span, "Can't append binary operation to str"@,
                    Some("You can append binary operation to any type literal except str"@)))
            } else if is_arithmetic(op) && !is_numeric(left_ty) {
                Err(tdiag(left.span, "Can't append arithmetic operation to "@ + type_text(left_ty),
                    Some("You can append arithmetic operation only to i64, u64, f64, i32, u32, f32, i16, u16, i8 and u8 literals"@)))
            } else {
                match check_expr(*left) {
                    Err(d) => Err(d),
                    Ok(()) => check_expr(*right),
                }
            }
        },
        SpecTypedExpression::UnOp { op, operand, .. } => {
            let t = type_of(operand.node);
            if op == UnOp::Negate && !is_negatable(t) {
                Err(tdiag(operand.span, "Can't negate "@ + type_text(t) + " expr"@,
                    Some("You can negate only i64, i32, i16, i8, f64 and f32 literals"@)))
            } else if (op == UnOp::Not && t == Type::Char) || t == Type::Str {
                Err(tdiag(operand.span, "Can't append not to "@ + type_text(t),
                    Some("You can append not on any type literal except char and str"@)))
            } else {
                check_expr(*operand)
            }
        },
        SpecTypedExpression::Call { args, .. } => check_exprs(args, 0),
        SpecTypedExpression::As { expr, ty } => {
            let t = type_of(expr.node);
            if t == Type::Str || t == Type::Void {
                Err(tdiag(expr.span, "Can't cast from "@ + type_text(t), None))
            } else if ty.node == Type::Str || ty.node == Type::Void {
                Err(tdiag(ty.span, "Can't cast to "@ + type_text(ty.node), None))
            } else {
                check_expr(*expr)
            }
        },
        _ => Ok(()),
    }
}

/// The arguments from index `i` on, in order.
pub open spec fn check_exprs(args: Seq<Spanned<SpecTypedExpression>>, i: int) -> Result<(), Diagnostic>
    decreases args, args.len() - i + 1,
{
    if i < 0 || i >= args.len() {
        Ok(())
    } else {
        match check_expr(args[i]) {
            Err(d) => Err(d),
            Ok(()) => check_exprs(args, i + 1),
        }
    }
}

pub open spec fn is_condition_type(t: Type) -> bool {
    t != Type::Str && t != Type::Void
}

pub open spec fn check_stmt(ret: Type, s: SpecTypedStatement) -> Result<(), Diagnostic>
    decreases s, 0nat,
{
    match s {
        SpecTypedStatement::Expression(e) => check_expr(e),
        SpecTypedStatement::Var { ident, ty, val, .. } => {
            let t = type_of(val.node);
            if t != ty.node {
                Err(mismatch(val.span, ty.node, t))
            } else if t == Type::Void {
                Err(tdiag(val.span, "Variable '"@ + ident + "' can't be void"@,
                    if val.node is Call {
                        Some("Just call void function without defining a variable"@)
                    } else {
                        None
                    }))
            } else {
                check_expr(val)
            }
        },
        SpecTypedStatement::Assign { val, var_ty, .. } => {
            let t = type_of(val.node);
            if t != var_ty {
                Err(mismatch(val.span, var_ty, t))
            } else {
                check_expr(val)
            }
        },
        SpecTypedStatement::If { condition, then_br, else_br } => match check_expr(condition) {
            Err(d) => Err(d),
            Ok(()) => {
                let t = type_of(condition.node);
                if !is_condition_type(t) {
                    Err(tdiag(condition.span, "If condition can't be "@ + type_text(t), None))
                } else {
                    match check_stmts(ret, then_br.body, 0) {
                        Err(d) => Err(d),
                        Ok(()) => match else_br {
                            Some(b) => check_stmts(ret, b.body, 0),
                            None => Ok(()),
                        },
                    }
                }
            },
        },
        SpecTypedStatement::While { condition, body } => match check_expr(condition) {
            Err(d) => Err(d),
            Ok(()) => {
                let t = type_of(condition.node);
                if !is_condition_type(t) {
                    Err(tdiag(condition.span, "While condition can't be "@ + type_text(t), None))
                } else {
                    check_stmts(ret, body.body, 0)
                }
            },
        },
        SpecTypedStatement::Return(e, span) => {
            let r: Result<Type, Diagnostic> = match e {
                Some(e) => match check_expr(e) {
                    Err(d) => Err(d),
                    Ok(()) => Ok(type_of(e.node)),
                },
                None => Ok(Type::Void),
            };
            match r {
                Err(d) => Err(d),
                Ok(t) => if t != ret {
                    Err(mismatch(span, ret, t))
                } else {
                    Ok(())
                },
            }
        },
        _ => Ok(()),
    }
}

/// The statements from index `i` on, in order.
pub open spec fn check_stmts(ret: Type, stmts: Seq<SpecTypedStatement>, i: int) -> Result<(), Diagnostic>
    decreases stmts, stmts.len() - i + 1,
{
    if i < 0 || i >= stmts.len() {
        Ok(())
    } else {
        match check_stmt(ret, stmts[i]) {
            Err(d) => Err(d),
            Ok(()) => check_stmts(ret, stmts, i + 1),
        }
    }
}

/// Whether control never leaves `s` normally: it returns on every path.
pub open spec fn is_noreturn(s: SpecTypedStatement) -> bool
    decreases s, 0nat,
{
    match s {
        SpecTypedStatement::Return(..) => true,
        SpecTypedStatement::If { then_br, else_br, .. } => any_noreturn(then_br.body, 0) && match else_br {
            Some(b) => any_noreturn(b.body, 0),
            None => false,
        },
        _ => false,
    }
}

/// Whether some statement from index `i` on never lets control leave it normally.
pub open spec fn any_noreturn(stmts: Seq<SpecTypedStatement>, i: int) -> bool
    decreases stmts, stmts.len() - i + 1,
{
    if i < 0 || i >= stmts.len() {
        false
    } else {
        is_noreturn(stmts[i]) || any_noreturn(stmts, i + 1)
    }
}

pub open spec fn block_noreturn(b: SpecTypedBlock) -> bool {
    any_noreturn(b.body, 0)
}

/// The first void parameter from index `i` on.
pub open spec fn void_param(params: Seq<Spanned<SpecTypedParam>>, i: int) -> Option<Spanned<SpecTypedParam>>
    decreases params.len() - i,
{
    if i < 0 || i >= params.len() {
        None
    } else if params[i].node.ty.node == Type::Void {
        Some(params[i])
    } else {
        void_param(params, i + 1)
    }
}

/// The first violation in the items of a program from index `i` on, with the file and
/// source of the function it is in.
/// The file and text of the last function among the first `n` of `items`, or `cur` where
/// there is none.
pub open spec fn last_function_file(items: Seq<SpecTypedItem>, n: int, cur: (Seq<char>, Seq<char>)) -> (Seq<char>, Seq<char>)
    decreases n,
{
    if n <= 0 || n > items.len() {
        cur
    } else {
        match items[n - 1] {
            SpecTypedItem::Function(f) => (f.file, f.source),
            _ => last_function_file(items, n - 1, cur),
        }
    }
}

pub open spec fn check_items(items: Seq<SpecTypedItem>, i: int) -> Result<(), (Seq<char>, Seq<char>, Diagnostic)>
    decreases items.len() - i,
{
    if i < 0 || i >= items.len() {
        Ok(())
    } else {
        match items[i] {
            SpecTypedItem::Function(f) => {
                let r = match void_param(f.params, 0) {
                    Some(p) => Err(tdiag(p.node.ty.span, "Parameter '"@ + p.node.name + "' can't be void"@,
                        Some("Remove parameter '"@ + p.node.name + "'"@))),
                    None => if f.ret_type.node != Type::Void && !block_noreturn(f.body) {
                        Err(tdiag(f.ret_type.span, "Missing return in non-void function '"@ + f.name.node + "'"@, None))
                    } else {
                        check_stmts(f.ret_type.node, f.body.body, 0)
                    },
                };
                match r {
                    Err(d) => Err((f.file, f.source, d)),
                    Ok(()) => check_items(items, i + 1),
                }
            },
            _ => check_items(items, i + 1),
        }
    }
}

// ---------------------------------------------------------------------------
// Facts about the views.
// ---------------------------------------------------------------------------

pub proof fn lemma_texprs_view_index(s: Seq<Spanned<TypedExpression>>)
    ensures
        texprs_view(s).len() == s.len(),
        forall|i: int| 0 <= i < s.len() ==> #[trigger] texprs_view(s)[i] == stexpr_view(s[i]),
    decreases s.len(),
{
    if s.len() > 0 {
        lemma_texprs_view_index(s.subrange(0, s.len() - 1));
    }
}

pub proof fn lemma_tstmts_view_index(s: Seq<TypedStatement>)
    ensures
        tstmts_view(s).len() == s.len(),
        forall|i: int| 0 <= i < s.len() ==> #[trigger] tstmts_view(s)[i] == tstmt_view(s[i]),
    decreases s.len(),
{
    if s.len() > 0 {
        lemma_tstmts_view_index(s.subrange(0, s.len() - 1));
    }
}

// ---------------------------------------------------------------------------
// The type checker.
// ---------------------------------------------------------------------------

/// Checks the types of an analyzed program.
pub struct TypeChecker {
    ret_type: Option<Type>,
    current_file: String,
    current_source: String,
}

impl TypeChecker {
    pub closed spec fn file_name(&self) -> Seq<char> {
        self.current_file@
    }

    pub closed spec fn source_text(&self) -> Seq<char> {
        self.current_source@
    }

    pub open spec fn error_for(&self, d: Diagnostic) -> ErrorView {
        error_of(ErrorKind::Semantic, self.file_name(), self.source_text(), d)
    }

    pub fn new(file: String, source: String) -> (t: Self)
        ensures
            t.file_name() == file@,
            t.source_text() == source@,
    {
        Self { ret_type: None, current_file: file, current_source: source }
    }

    fn error(&self, span: Span, message: &str, note: Option<&str>) -> (e: Error)
        ensures
            e@ == self.error_for(Diagnostic { span, message: message@, note: crate::frontend::errors::errors::opt_str_view(note) }),
    {
        Error::new(ErrorKind::Semantic, self.current_file.as_str(), self.current_source.as_str(), span, message, note)
    }

    fn mismatch_error(&self, span: Span, expected: Type, got: Type) -> (e: Error)
        ensures
            e@ == self.error_for(mismatch(span, expected, got)),
    {
        let mut message = "Expected type ".to_owned();
        push_str(&mut message, expected.name());
        push_str(&mut message, ", got ");
        push_str(&mut message, got.name());
        self.error(span, message.as_str(), None)
    }

    fn is_noreturn(stmt: &TypedStatement) -> (r: bool)
        ensures
            r == is_noreturn(tstmt_view(*stmt)),
        decreases *stmt, 0nat,
    {
        match stmt {
            TypedStatement::Return(..) => true,
            TypedStatement::If { then_br, else_br, .. } => Self::is_block_noreturn(then_br) && match else_br {
                Some(b) => Self::is_block_noreturn(b),
                None => false,
            },
            _ => false,
        }
    }

    fn is_block_noreturn(block: &TypedBlock) -> (r: bool)
        ensures
            r == block_noreturn(tblock_view(*block)),
        decreases *block, 1nat,
    {
        let ghost v = tstmts_view(block.body@);
        proof {
            lemma_tstmts_view_index(block.body@);
        }
        let mut i: usize = block.body.len();
        let mut found = false;
        while i > 0
            invariant
                i <= block.body@.len(),
                v == tstmts_view(block.body@),
                v.len() == block.body@.len(),
                forall|j: int| 0 <= j < v.len() ==> #[trigger] v[j] == tstmt_view(block.body@[j]),
                found == any_noreturn(v, i as int),
            decreases i,
        {
            i -= 1;
            let r = Self::is_noreturn(&block.body[i]);
            found = r || found;
        }
        found
    }

    fn check_expr(&self, expr: &Spanned<TypedExpression>) -> (r: Result<(), Error>)
        ensures
            match check_expr(stexpr_view(*expr)) {
                Ok(()) => r is Ok,
                Err(d) => r matches Err(e) && e@ == self.error_for(d),
            },
        decreases *expr, 0nat,
    {
        match &expr.node {
            TypedExpression::BinOp { left, op, right, .. } => {
                let left_ty = left.node.infer_type();
                let right_ty = right.node.infer_type();
                if left_ty != right_ty {
                    return Err(self.mismatch_error(right.span, left_ty, right_ty));
                }
                if left_ty == Type::Str {
                    return Err(self.error(
                        left.span,
                        "Can't append binary operation to str",
                        Some("You can append binary operation to any type literal except str"),
                    ));
                }
                if matches!(op, BinOp::Plus | BinOp::Minus | BinOp::Multiply | BinOp::Divide) && !matches!(
                    left_ty,
                    Type::I64 | Type::U64 | Type::F64 |
                    Type::I32 | Type::U32 | Type::F32 |
                    Type::I16 | Type::U16 |
                    Type::I8 | Type::U8
                ) {
                    let mut message = "Can't append arithmetic operation to ".to_owned();
                    push_str(&mut message, left_ty.name());
                    return Err(self.error(
                        left.span,
                        message.as_str(),
                        Some("You can append arithmetic operation only to i64, u64, f64, i32, u32, f32, i16, u16, i8 and u8 literals"),
                    ));
                }
                self.check_expr(left)?;
                self.check_expr(right)?;
            },
            TypedExpression::UnOp { op, operand, .. } => {
                let operand_ty = operand.node.infer_type();
                if *op == UnOp::Negate && !matches!(
                    operand_ty,
                    Type::I64 | Type::F64 |
                    Type::I32 | Type::F32 |
                    Type::I16 |
                    Type::I8
                ) {
                    let mut message = "Can't negate ".to_owned();
                    push_str(&mut message, operand_ty.name());
                    push_str(&mut message, " expr");
                    return Err(self.error(
                        operand.span,
                        message.as_str(),
                        Some("You can negate only i64, i32, i16, i8, f64 and f32 literals"),
                    ));
                }
                if *op == UnOp::Not && operand_ty == Type::Char || operand_ty == Type::Str {
                    let mut message = "Can't append not to ".to_owned();
                    push_str(&mut message, operand_ty.name());
                    return Err(self.error(
                        operand.span,
                        message.as_str(),
                        Some("You can append not on any type literal except char and str"),
                    ));
                }
                self.check_expr(operand)?;
            },
            TypedExpression::Call { args, .. } => {
                let ghost v = texprs_view(args@);
                proof {
                    lemma_texprs_view_index(args@);
                }
                let mut i: usize = 0;
                #[verifier::loop_isolation(false)]
                while i < args.len()
                    invariant
                        i <= args@.len(),
                        v == texprs_view(args@),
                        v.len() == args@.len(),
                        forall|j: int| 0 <= j < v.len() ==> #[trigger] v[j] == stexpr_view(args@[j]),
                        check_exprs(v, 0) == check_exprs(v, i as int),
                    decreases args@.len() - i,
                {
                    proof {
                        assert(decreases_to!(*expr => args@[i as int]));
                    }
                    self.check_expr(&args[i])?;
                    i += 1;
                }
            },
            TypedExpression::As { expr, ty } => {
                let expr_ty = expr.node.infer_type();
                if expr_ty == Type::Str || expr_ty == Type::Void {
                    let mut message = "Can't cast from ".to_owned();
                    push_str(&mut message, expr_ty.name());
                    return Err(self.error(expr.span, message.as_str(), None));
                }
                if ty.node == Type::Str || ty.node == Type::Void {
                    let mut message = "Can't cast to ".to_owned();
                    push_str(&mut message, ty.node.name());
                    return Err(self.error(ty.span, message.as_str(), None));
                }
                self.check_expr(expr)?;
            },
            _ => (),
        }
        Ok(())
    }

    /// The return type of the function being checked.
    pub closed spec fn ret(&self) -> Option<Type> {
        self.ret_type
    }

    fn check_block(&self, block: &TypedBlock) -> (r: Result<(), Error>)
        requires
            self.ret() is Some,
        ensures
            match check_stmts(self.ret()->Some_0, tstmts_view(block.body@), 0) {
                Ok(()) => r is Ok,
                Err(d) => r matches Err(e) && e@ == self.error_for(d),
            },
        decreases *block, 1nat,
    {
        let ghost v = tstmts_view(block.body@);
        proof {
            lemma_tstmts_view_index(block.body@);
        }
        let mut i: usize = 0;
        #[verifier::loop_isolation(false)]
        while i < block.body.len()
            invariant
                i <= block.body@.len(),
                check_stmts(self.ret()->Some_0, v, 0) == check_stmts(self.ret()->Some_0, v, i as int),
            decreases block.body@.len() - i,
        {
            proof {
                assert(decreases_to!(*block => block.body@[i as int]));
            }
            self.check_stmt(&block.body[i])?;
            i += 1;
        }
        Ok(())
    }

    fn check_stmt(&self, stmt: &TypedStatement) -> (r: Result<(), Error>)
        requires
            self.ret() is Some,
        ensures
            match check_stmt(self.ret()->Some_0, tstmt_view(*stmt)) {
                Ok(()) => r is Ok,
                Err(d) => r matches Err(e) && e@ == self.error_for(d),
            },
        decreases *stmt, 0nat,
    {
        match stmt {
            TypedStatement::Expression(expr) => self.check_expr(expr)?,
            TypedStatement::Var { ident, ty, val, .. } => {
                let val_ty = val.node.infer_type();
                if val_ty != ty.node {
                    return Err(self.mismatch_error(val.span, ty.node, val_ty));
                }
                if val_ty == Type::Void {
                    let mut message = "Variable '".to_owned();
                    push_str(&mut message, ident.as_str());
                    push_str(&mut message, "' can't be void");
                    let note = if matches!(val.node, TypedExpression::Call { .. }) {
                        Some("Just call void function without defining a variable")
                    } else {
                        None
                    };
                    return Err(self.error(val.span, message.as_str(), note));
                }
                self.check_expr(val)?;
            },
            TypedStatement::Assign { val, var_ty, .. } => {
                let ty = val.node.infer_type();
                if ty != *var_ty {
                    return Err(self.mismatch_error(val.span, *var_ty, ty));
                }
                self.check_expr(val)?;
            },
            TypedStatement::If { condition, then_br, else_br } => {
                self.check_expr(condition)?;
                let ty = condition.node.infer_type();
                if ty == Type::Str || ty == Type::Void {
                    let mut message = "If condition can't be ".to_owned();
                    push_str(&mut message, ty.name());
                    return Err(self.error(condition.span, message.as_str(), None));
                }
                self.check_block(then_br)?;
                if let Some(e) = else_br {
                    self.check_block(e)?;
                }
            },
            TypedStatement::While { condition, body } => {
                self.check_expr(condition)?;
                let ty = condition.node.infer_type();
                if ty == Type::Str || ty == Type::Void {
                    let mut message = "While condition can't be ".to_owned();
                    push_str(&mut message, ty.name());
                    return Err(self.error(condition.span, message.as_str(), None));
                }
                self.check_block(body)?;
            },
            TypedStatement::Return(expr, span) => {
                let ty = if let Some(e) = expr {
                    self.check_expr(e)?;
                    e.node.infer_type()
                } else {
                    Type::Void
                };
                let ret_type = self.ret_type.unwrap();
                if ty != ret_type {
                    return Err(self.mismatch_error(*span, ret_type, ty));
                }
            },
            _ => (),
        }
        Ok(())
    }

    /// Checks every function of `program`, stopping at the first violation.
    pub fn check(&mut self, program: &TypedProgram) -> (r: Result<(), Error>)
        ensures
            match check_items(program@.items, 0) {
                Ok(()) => r is Ok && (final(self).file_name(), final(self).source_text())
                    == last_function_file(program@.items, program@.items.len() as int, (old(self).file_name(), old(self).source_text())),
                Err((file, source, d)) => r matches Err(e) && e@ == error_of(ErrorKind::Semantic, file, source, d)
                    && final(self).file_name() == file && final(self).source_text() == source,
            },
    {
        let ghost items = program@.items;
        let ghost start = (self.file_name(), self.source_text());
        let mut i: usize = 0;
        while i < program.items.len()
            invariant
                i <= program.items@.len(),
                items == program@.items,
                items == titems_view(program.items@),
                check_items(items, 0) == check_items(items, i as int),
                (self.file_name(), self.source_text()) == last_function_file(items, i as int, start),
            decreases program.items@.len() - i,
        {
            match &program.items[i] {
                TypedItem::Function(func) => {
                    self.current_file = func.file.clone();
                    self.current_source = func.source.clone();
                    self.ret_type = Some(func.ret_type.node);
                    let ghost params = tparams_view(func.params@);
                    let mut j: usize = 0;
                    #[verifier::loop_isolation(false)]
                    while j < func.params.len()
                        invariant
                            j <= func.params@.len(),
                            params == tparams_view(func.params@),
                            void_param(params, 0) == void_param(params, j as int),
                        decreases func.params@.len() - j,
                    {
                        let param = &func.params[j];
                        if param.node.ty.node == Type::Void {
                            let mut message = "Parameter '".to_owned();
                            push_str(&mut message, param.node.name.as_str());
                            push_str(&mut message, "' can't be void");
                            let mut note = "Remove parameter '".to_owned();
                            push_str(&mut note, param.node.name.as_str());
                            push_str(&mut note, "'");
                            return Err(self.error(param.node.ty.span, message.as_str(), Some(note.as_str())));
                        }
                        j += 1;
                    }
                    if func.ret_type.node != Type::Void && !Self::is_block_noreturn(&func.body) {
                        let mut message = "Missing return in non-void function '".to_owned();
                        push_str(&mut message, func.name.node.as_str());
                        push_str(&mut message, "'");
                        return Err(self.error(func.ret_type.span, message.as_str(), None));
                    }
                    self.check_block(&func.body)?;
                    self.ret_type = None;
                },
                _ => (),
            }
            i += 1;
        }
        Ok(())
    }
}

/// A statement passes the checker only if every value it stores or returns has the type
/// it is stored or returned as: a variable's value has the variable's declared type and
/// is not void, an assigned value has the variable's type, a returned value (or its
/// absence) has the function's return type, and a condition is neither `str` nor void.
pub proof fn law_checked_statement_types(ret: Type, s: SpecTypedStatement)
    ensures
        check_stmt(ret, s) is Ok ==> match s {
            SpecTypedStatement::Var { ty, val, .. } => type_of(val.node) == ty.node && ty.node != Type::Void,
            SpecTypedStatement::Assign { val, var_ty, .. } => type_of(val.node) == var_ty,
            SpecTypedStatement::Return(Some(e), _) => type_of(e.node) == ret,
            SpecTypedStatement::Return(None, _) => ret == Type::Void,
            SpecTypedStatement::If { condition, .. } => type_of(condition.node) != Type::Str && type_of(condition.node) != Type::Void,
            SpecTypedStatement::While { condition, .. } => type_of(condition.node) != Type::Str && type_of(condition.node) != Type::Void,
            _ => true,
        },
{
}

/// Statements pass the checker only if each of them, from the `i`-th on, does.
pub proof fn law_checked_statements(ret: Type, stmts: Seq<SpecTypedStatement>, i: int)
    requires
        0 <= i,
    ensures
        check_stmts(ret, stmts, i) is Ok ==> forall|j: int| i <= j < stmts.len() ==> #[trigger] check_stmt(ret, stmts[j]) is Ok,
    decreases stmts.len() - i,
{
    if i < stmts.len() {
        law_checked_statements(ret, stmts, i + 1);
    }
}

/// A program passes the checker only if, in every function, each statement of the body
/// passes it with the function's return type, no parameter is void, and a function that
/// returns a value returns on every path.
pub proof fn law_checked_functions(items: Seq<SpecTypedItem>, i: int, k: int)
    requires
        0 <= i <= k < items.len(),
        check_items(items, i) is Ok,
    ensures
        items[k] matches SpecTypedItem::Function(f) ==> {
            &&& check_stmts(f.ret_type.node, f.body.body, 0) is Ok
            &&& void_param(f.params, 0) is None
            &&& (f.ret_type.node != Type::Void ==> block_noreturn(f.body))
        },
    decreases k - i,
{
    if i < k {
        law_checked_functions(items, i + 1, k);
    }
}

/// An expression passes the checker only if its operators apply to what they are given:
/// both operands of a binary operator have one type, which is not `str`, and a number
/// type for `+ - * /`; only signed integers and floats are negated; `!` takes neither a
/// `char` nor a `str`; a cast goes neither from nor to `str` or void; and the operands
/// pass the checker too.
pub proof fn law_checked_expression_types(e: Spanned<SpecTypedExpression>)
    ensures
        check_expr(e) is Ok ==> match e.node {
            SpecTypedExpression::BinOp { left, op, right, .. } => {
                &&& type_of(left.node) == type_of(right.node)
                &&& type_of(left.node) != Type::Str
                &&& (matches!(op, BinOp::Plus | BinOp::Minus | BinOp::Multiply | BinOp::Divide) ==> matches!(type_of(left.node),
                    Type::I64 | Type::U64 | Type::F64 | Type::I32 | Type::U32 | Type::F32 | Type::I16 | Type::U16 | Type::I8 | Type::U8))
                &&& check_expr(*left) is Ok
                &&& check_expr(*right) is Ok
            },
            SpecTypedExpression::UnOp { op, operand, .. } => {
                &&& (op == UnOp::Negate ==> matches!(type_of(operand.node), Type::I64 | Type::F64 | Type::I32 | Type::F32 | Type::I16 | Type::I8))
                &&& (op == UnOp::Not ==> type_of(operand.node) != Type::Char)
                &&& type_of(operand.node) != Type::Str
                &&& check_expr(*operand) is Ok
            },
            SpecTypedExpression::As { expr, ty } => {
                &&& type_of(expr.node) != Type::Str && type_of(expr.node) != Type::Void
                &&& ty.node != Type::Str && ty.node != Type::Void
                &&& check_expr(*expr) is Ok
            },
            _ => true,
        },
{
}

} // verus!
