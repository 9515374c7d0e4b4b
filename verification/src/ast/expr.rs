//! Expressions.

use vstd::prelude::*;
use super::{MatchArm, Span, Statement};
use crate::token::{DurationUnit, Token};

verus! {

/// An expression. Numeric literals with a fraction or a unit keep their
/// source digits.
#[derive(Debug)]
pub enum Expression {
    Integer(i64, Span),
    Float(String, Span),
    Char(char, Span),
    String(String, Span),
    Duration(String, DurationUnit, Span),
    Date(i64, Span),
    Identifier(String, Span),
    Boolean(bool, Span),
    Infix { left: Box<Expression>, operator: Token, right: Box<Expression>, span: Span },
    Call { function: String, generic_args: Vec<String>, arguments: Vec<Expression>, span: Span },
    StructInst { name: String, generic_args: Vec<String>, fields: Vec<(String, Expression)>, span: Span },
    Range { start: Box<Expression>, end: Box<Expression>, span: Span },
    Block { statements: Vec<Statement>, is_unsafe: bool, span: Span },
    If { condition: Box<Expression>, then_branch: Vec<Statement>, else_branch: Option<Vec<Statement>>, span: Span },
    Deref { expr: Box<Expression>, span: Span },
    Cast { expr: Box<Expression>, target: String, span: Span },
    Intrinsic { name: String, arguments: Vec<Expression>, span: Span },
    EnumInst { name: String, variant: String, generic_args: Vec<String>, arguments: Vec<Expression>, span: Span },
    MemberAccess { receiver: Box<Expression>, member: String, span: Span },
    MethodCall {
        receiver: Box<Expression>,
        method: String,
        generic_args: Vec<String>,
        arguments: Vec<Expression>,
        span: Span,
    },
    TypeRef { name: String, generic_args: Vec<String>, span: Span },
    Match { condition: Box<Expression>, arms: Vec<MatchArm>, span: Span },
}

impl Expression {
    /// The position an expression reports.
    pub open spec fn span_spec(self) -> Span {
        match self {
            Expression::Integer(_, s) => s,
            Expression::Float(_, s) => s,
            Expression::Char(_, s) => s,
            Expression::String(_, s) => s,
            Expression::Duration(_, _, s) => s,
            Expression::Date(_, s) => s,
            Expression::Identifier(_, s) => s,
            Expression::Boolean(_, s) => s,
            Expression::Infix { span, .. } => span,
            Expression::Call { span, .. } => span,
            Expression::StructInst { span, .. } => span,
            Expression::Range { span, .. } => span,
            Expression::Block { span, .. } => span,
            Expression::If { span, .. } => span,
            Expression::Deref { span, .. } => span,
            Expression::Cast { span, .. } => span,
            Expression::Intrinsic { span, .. } => span,
            Expression::EnumInst { span, .. } => span,
            Expression::MemberAccess { span, .. } => span,
            Expression::MethodCall { span, .. } => span,
            Expression::TypeRef { span, .. } => span,
            Expression::Match { span, .. } => span,
        }
    }

    /// The position of the expression.
    pub fn span(&self) -> (s: Span)
        ensures
            s == self.span_spec(),
    {
        match self {
            Expression::Integer(_, s)
            | Expression::Float(_, s)
            | Expression::Char(_, s)
            | Expression::String(_, s)
            | Expression::Duration(_, _, s)
            | Expression::Date(_, s)
            | Expression::Identifier(_, s)
            | Expression::Boolean(_, s)
            | Expression::Infix { span: s, .. }
            | Expression::Call { span: s, .. }
            | Expression::StructInst { span: s, .. }
            | Expression::Range { span: s, .. }
            | Expression::Block { span: s, .. }
            | Expression::If { span: s, .. }
            | Expression::Deref { span: s, .. }
            | Expression::Cast { span: s, .. }
            | Expression::Intrinsic { span: s, .. }
            | Expression::EnumInst { span: s, .. }
            | Expression::MemberAccess { span: s, .. }
            | Expression::MethodCall { span: s, .. }
            | Expression::TypeRef { span: s, .. }
            | Expression::Match { span: s, .. } => *s,
        }
    }
}

} // verus!
