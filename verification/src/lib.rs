pub mod code;
pub mod comments;
pub mod impls;
pub mod module;
pub mod output;
pub mod scan;
pub mod signature;
pub mod token;

use vstd::prelude::*;

verus! {

/// Errors that can abort an extraction run.
#[derive(Debug, Clone, Copy, PartialEq, Eq, Structural)]
pub enum DocError {
    /// A referenced module file could not be read.
    IoError,
    /// A referenced module file could not be tokenized.
    TokenizeError,
    /// The token stream ended while a scan was still inside a scope.
    StructuralError,
}

} // verus!
