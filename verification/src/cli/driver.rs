use vstd::prelude::*;
use crate::backend::llvm::codegen::{Codegen, cg_program};
use crate::backend::llvm::context::{CgView, CodegenContext, initial_state};
use crate::backend::llvm::ir::{Instr, instrs_view};
use crate::frontend::errors::errors::{ErrorKind, error_of};
use crate::frontend::lexer::lexer::{Lexer, LexOutcome, lex};
use crate::frontend::parser::parser::{Parser, parse_program};
use crate::frontend::sema::context::initial_context;
use crate::frontend::sema::modules::{ModuleFiles, ModuleFileView};
use crate::frontend::sema::sema::{Sema, SemaView, Stop, StopView, sem_program};
use crate::frontend::sema::type_checker::{TypeChecker, check_items};
use crate::frontend::text::chars_of;

verus! {

/// What compiling the program `source` of `file` gives, with what `files` knows of the
/// module files: it is read into tokens, parsed, analyzed, checked, and lowered to code.
pub open spec fn compiled(source: Seq<char>, file: Seq<char>, files: Map<Seq<char>, ModuleFileView>) -> Result<CgView, StopView> {
    if source.len() + 2 >= usize::MAX {
        Err(StopView::Abort)
    } else {
        match lex(source) {
            LexOutcome::Done(ts) => match parse_program(ts, 0) {
                Ok(prog) => {
                    let s = SemaView { context: initial_context(), func: None, module: None, file, source };
                    match sem_program(s, files, prog).1 {
                        Ok(tp) => match check_items(tp.items, 0) {
                            Ok(()) => match cg_program(initial_state(), tp) {
                                Some(cg) => Ok(cg),
                                None => Err(StopView::Abort),
                            },
                            Err((f, t, d)) => Err(StopView::Report(error_of(ErrorKind::Semantic, f, t, d))),
                        },
                        Err(x) => Err(x),
                    }
                },
                Err(d) => Err(StopView::Report(error_of(ErrorKind::Syntax, file, source, d))),
            },
            LexOutcome::Failed(d) => Err(StopView::Report(error_of(ErrorKind::Lexical, file, source, d))),
            LexOutcome::Overflow => Err(StopView::Abort),
        }
    }
}

/// Compiles a program and keeps its code.
pub struct Driver {
    codegen_ctx: Option<CodegenContext>,
}

impl Driver {
    /// The code kept, if a program was compiled.
    pub closed spec fn compiled_code(&self) -> Option<CgView> {
        match self.codegen_ctx {
            Some(c) => Some(c@),
            None => None,
        }
    }

    pub fn new() -> (d: Self)
        ensures
            d.compiled_code() is None,
    {
        Driver { codegen_ctx: None }
    }

    /// Compiles the program `source` of `file`, with what `files` knows of the module files,
    /// and keeps its code.
    pub fn compile(&mut self, source: &str, file: &str, files: &ModuleFiles) -> (r: Result<(), Stop>)
        requires
            files.wf(),
        ensures
            match compiled(source@, file@, files@) {
                Ok(cg) => r is Ok && final(self).compiled_code() == Some(cg),
                Err(x) => r matches Err(y) && y@ == x && final(self).compiled_code() == old(self).compiled_code(),
            },
    {
        let n = chars_of(&source.to_owned()).len();
        if n >= usize::MAX - 2 {
            return Err(Stop::Abort);
        }
        let mut lex = Lexer::new(source.to_owned(), file.to_owned());
        proof {
            assert(lex.read() =~= Seq::<crate::frontend::lexer::tokens::SpecToken>::empty());
        }
        match lex.tokenize_checked() {
            None => return Err(Stop::Abort),
            Some(Err(e)) => return Err(Stop::Report(e)),
            Some(Ok(())) => {},
        }
        let mut parse = Parser::new(lex.into_tokens(), file.to_owned(), source.to_owned());
        let ast = match parse.parse_program() {
            Ok(a) => a,
            Err(e) => return Err(Stop::Report(e)),
        };
        let mut semantic = Sema::new(file.to_owned(), source.to_owned());
        let typed = semantic.analyze(&ast, files)?;
        let mut checker = TypeChecker::new(file.to_owned(), source.to_owned());
        match checker.check(&typed) {
            Ok(()) => {},
            Err(e) => return Err(Stop::Report(e)),
        }
        let mut codegen = Codegen::new();
        if !codegen.compile_program(&typed) {
            return Err(Stop::Abort);
        }
        self.codegen_ctx = Some(codegen.into_context());
        Ok(())
    }

    /// The code of the program compiled last, if any.
    pub fn into_code(self) -> (r: Option<Vec<Instr>>)
        ensures
            match self.compiled_code() {
                Some(s) => r matches Some(v) && instrs_view(v@) == s.code,
                None => r is None,
            },
    {
        match self.codegen_ctx {
            Some(c) => Some(c.into_code()),
            None => None,
        }
    }
}

} // verus!
