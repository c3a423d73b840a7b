//! Compiler for a small scripting language with a fixed keyword vocabulary:
//! tokenization, recursive-descent parsing into an AST, scope-aware
//! validation, and syntax-directed generation of JavaScript text.

use vstd::prelude::*;

pub mod ast;
pub mod lexer;
pub mod parser;
pub mod compiler;
pub mod text;
pub mod generator;
pub mod validator;

pub use ast::Expression;
pub use ast::Statement;
pub use compiler::compile;
pub use generator::generate_expression;
pub use generator::generate_statement;
pub use parser::parse_program;
pub use validator::validate_program;

verus! {

/// Compile source text to JavaScript: the one-call form of the pipeline.
pub fn compile_tfi_to_js(source: &str) -> (r: Result<String, compiler::CompilationError>)
    ensures
        compiler::spec_compile_ok(source@) ==> (r matches Ok(js) && js@
            == generator::spec_gen_program(compiler::spec_ast(source@))),
        !compiler::spec_compile_ok(source@) ==> r is Err,
{
    compiler::compile(source)
}

} // verus!
