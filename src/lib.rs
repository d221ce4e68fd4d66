//! A scanner, a bytecode container and a stack machine for a small dynamic language.

pub mod location;
pub mod utils;
pub mod syntax;
pub mod scanner;
pub mod chunk;
pub mod vm;
pub mod compiler;
pub mod error;
