//! The boundary that turns source text into a chunk.
use crate::chunk::Chunk;
use crate::scanner::{scan_fails_with, scans_to_end, tokenize, ScanningError};
use vstd::prelude::*;

verus! {

/// Turns source text into a chunk.
pub struct Compiler;

/// Why source text could not be compiled.
#[derive(Copy, Clone, PartialEq, Eq, Debug, Structural)]
pub enum CompileError {
    /// The text is not a sequence of tokens.
    Lexical(ScanningError),
}

impl Compiler {
    /// Reads every token of `source`. No code is generated yet: a text that
    /// scans to its end gives an empty chunk.
    pub fn compile<V>(source: &str) -> (r: Result<Chunk<V>, CompileError>)
        ensures
            match r {
                Ok(chunk) => {
                    &&& scans_to_end(source@)
                    &&& chunk.wf()
                    &&& chunk.code_view().len() == 0
                    &&& chunk.constants_view().len() == 0
                },
                Err(CompileError::Lexical(e)) => scan_fails_with(source@, e),
            },
    {
        match tokenize(source) {
            Ok(_) => Ok(Chunk::new()),
            Err(e) => Err(CompileError::Lexical(e)),
        }
    }
}

} // verus!
