//! The errors of the whole compilation: those of its table-building steps.
pub use crate::compiler::CompilerError;
use vstd::prelude::*;

verus! {

/// The result of a compilation step.
pub type CompilerResult<T> = Result<T, CompilerError>;

} // verus!
