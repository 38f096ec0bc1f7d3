pub mod ast;
pub mod codegen;
pub mod lexer;
pub mod machine;
pub mod numfmt;
pub mod parser;
pub mod token;

use vstd::prelude::*;
use crate::ast::Stmt;
use crate::codegen::{asm_of_program, CodeGen};
use crate::lexer::Lexer;
use crate::parser::{lex_from, spec_program, spec_start, Parser};
use crate::token::CompileError;

verus! {

/// What parsing a whole source text yields: its statements in order, or the
/// first lexical or syntactic error met.
pub open spec fn spec_parse(s: Seq<char>) -> Result<Seq<Stmt>, CompileError> {
    match spec_start(lex_from(s, 0)) {
        Err(e) => Err(e),
        Ok((t, ts)) => spec_program(t, ts),
    }
}

/// What compiling a whole source text yields: the complete output text for
/// its statements, or the first error met — in which case no output exists
/// at all.
pub open spec fn spec_compile(s: Seq<char>) -> Result<Seq<char>, CompileError> {
    match spec_parse(s) {
        Err(e) => Err(e),
        Ok(ss) => Ok(asm_of_program(ss)),
    }
}

/// Runs the whole pipeline on one source text: lexing, parsing, and code
/// generation, exactly as `spec_compile` describes. Errors abort the run
/// before any output text exists.
pub fn compile(source: String) -> (r: Result<String, CompileError>)
    ensures
        match spec_compile(source@) {
            Ok(text) => r matches Ok(out) && out@ == text,
            Err(e) => r matches Err(e2) && e2 == e,
        },
{
    let lexer = Lexer::new(source);
    let mut parser = match Parser::new(lexer) {
        Ok(p) => p,
        Err(e) => {
            return Err(e);
        },
    };
    let program = match parser.program() {
        Ok(p) => p,
        Err(e) => {
            return Err(e);
        },
    };
    let gen = CodeGen::new();
    let out = gen.generate(program);
    proof {
        assert(Seq::<char>::empty() + asm_of_program(program.stmts@) =~= asm_of_program(
            program.stmts@,
        ));
    }
    Ok(out)
}

} // verus!
