//! The kinds of failure a run can end in, and what each maps to.
use crate::compiler::CompileError;
use crate::scanner::ScanningError;
use crate::vm::RuntimeError;
use vstd::prelude::*;

verus! {

/// A failure of a run, tagged with its kind.
#[derive(Copy, Clone, PartialEq, Eq, Debug, Structural)]
pub enum LoxError {
    Scanning(ScanningError),
    Compile(CompileError),
    Runtime(RuntimeError),
    /// Anything else, such as input that could not be read.
    Other,
}

/// Lexical and compile failures.
pub open spec fn is_compile_err_spec(err: LoxError) -> bool {
    err is Scanning || err is Compile
}

pub fn is_compile_err(err: &LoxError) -> (r: bool)
    ensures
        r == is_compile_err_spec(*err),
{
    match err {
        LoxError::Scanning(_) | LoxError::Compile(_) => true,
        _ => false,
    }
}

/// The name of the kind of `err`, shown before its message.
pub fn error_type(err: &LoxError) -> (r: &'static str)
    ensures
        r == if is_compile_err_spec(*err) {
            "CompileError"
        } else if *err is Runtime {
            "RuntimeError"
        } else {
            "Error"
        },
{
    if is_compile_err(err) {
        "CompileError"
    } else if let LoxError::Runtime(_) = err {
        "RuntimeError"
    } else {
        "Error"
    }
}

/// The process exit code for `err`: 65 for lexical and compile failures,
/// 70 for runtime failures, 1 for the rest.
pub fn exit_code(err: &LoxError) -> (r: i32)
    ensures
        r == if is_compile_err_spec(*err) {
            65i32
        } else if *err is Runtime {
            70i32
        } else {
            1i32
        },
{
    if is_compile_err(err) {
        65
    } else if let LoxError::Runtime(_) = err {
        70
    } else {
        1
    }
}

} // verus!
