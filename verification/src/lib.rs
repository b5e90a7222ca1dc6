//! The compiler for F750, a state machine scripting language for fighting
//! games: source text is tokenized, parsed into semantic lines, compiler
//! constructs are expanded, bindings and labels are tabled, and bytecode
//! is written.
use vstd::prelude::*;

pub mod text;
pub mod opcode;
pub mod value;
pub mod semantic;
pub mod error;
pub mod parser;
pub mod token;
pub mod util;
pub mod tokenizer;
pub mod bytecode;
pub mod construct;
pub mod compiler;
pub mod pipeline;

use crate::error::CompilerResult;

verus! {

/// Compiles the source text of a script. No step of the compilation is
/// run yet: every source is accepted.
pub fn compile(source: &str) -> (r: CompilerResult<()>)
    ensures
        r is Ok,
{
    Ok(())
}

} // verus!
