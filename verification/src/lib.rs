use vstd::prelude::*;

pub mod text;
pub mod error;
pub mod analysis;
pub mod builtins;
pub mod token;
pub mod lexer;
pub mod ast;
pub mod grammar;
pub mod parser;
pub mod transpiler;
pub mod pipeline;
pub mod docs;
pub mod codegen;

verus! {
} // verus!
