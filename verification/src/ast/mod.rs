//! The abstract syntax tree.

pub mod debug;
pub mod decl;
pub mod expr;
pub mod stmt;

pub use decl::{Declaration, Enum, EnumVariant, Function, ImplBlock, Import, Interface, Program, Struct};
pub use debug::expression_debug;
pub use expr::Expression;
pub use stmt::{MatchArm, Statement};

use vstd::prelude::*;
use crate::token::Token;

verus! {

/// Source position of a syntax node (1-based line and column; `0` when unknown).
#[derive(Debug, Clone, Copy, PartialEq, Eq, Structural)]
pub struct Span {
    pub line: usize,
    pub col: usize,
}

impl Span {
    /// The unknown position.
    pub fn zero() -> (s: Span)
        ensures
            s.line == 0,
            s.col == 0,
    {
        Span { line: 0, col: 0 }
    }

    /// The position of a token.
    pub fn from_token(tok: &Token) -> (s: Span)
        ensures
            s.line == tok.line,
            s.col == tok.col,
    {
        Span { line: tok.line, col: tok.col }
    }
}

} // verus!
