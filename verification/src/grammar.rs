//! The grammar the parser follows, stated over token sequences.
//!
//! A *reading* gives, for a fragment of the language, what the parser
//! builds from the tokens at an index and the index it stops at. The
//! fragment covers expressions made of literals, negated numbers, `!`,
//! `*`, intrinsic calls `@f(..)`, (dotted) names, parentheses, calls,
//! method calls, field accesses, enum variants `E::V(..)`, struct literals
//! `S { f: e, .. }`, the infix operators, casts `e as T` to a plain type
//! name and pipelines `e |> f`; `let`, `return`, assignment, expression,
//! `if`, `while`, `unsafe` and `spawn` statements, and `match` statements
//! whose arms have a name, path, integer or string pattern with no
//! alternatives, bindings or guard; functions with plain parameter types,
//! structs with plain field types and enums with plain payload types. Left
//! out: generic arguments, casts to pointer or generic types, `if` and block
//! expressions, intents (`::intent`) and richer match patterns. Outside the
//! fragment a reading is `None`. Readings take `fuel`, a bound on their
//! depth of nesting; any two fuels that reach an answer give the same one.

use vstd::prelude::*;
use crate::ast::{Declaration, EnumVariant, Expression, Function, Import, MatchArm, Span, Statement};
use crate::parser::binding_name_spec;
use crate::token::{DurationUnit, Token, TokenKind};
use crate::text::{int_text, join_seqs};

verus! {

// ---------------------------------------------------------------------------
// Tokens
// ---------------------------------------------------------------------------

/// Binding strength of an infix operator (0 for tokens that are not one).
pub open spec fn precedence_of(k: TokenKind) -> i32 {
    match k {
        TokenKind::Star | TokenKind::Slash | TokenKind::Percent => 8,
        TokenKind::As => 7,
        TokenKind::Plus | TokenKind::Minus => 6,
        TokenKind::Range | TokenKind::Caret => 5,
        TokenKind::Gt | TokenKind::Lt | TokenKind::GtEq | TokenKind::LtEq | TokenKind::EqEq
        | TokenKind::NotEq | TokenKind::Inside => 4,
        TokenKind::And => 3,
        TokenKind::Or => 2,
        TokenKind::Pipeline => 1,
        _ => 0,
    }
}

/// How tightly the infix operators bind, for any two tokens `a` and `b`:
/// `* / %` bind alike and most tightly, then `as`, then `+ -` (alike), then
/// `.. ^`, then the comparisons and `inside` (alike), then `&&`, then `||`,
/// then `|>`; every operator binds, and no other token does.
pub proof fn lemma_binding_order(a: TokenKind, b: TokenKind)
    ensures
        (a is Star || a is Slash || a is Percent) && (b is Star || b is Slash || b is Percent)
            ==> precedence_of(a) == precedence_of(b),
        (a is Star || a is Slash || a is Percent) && b is As ==> precedence_of(a) > precedence_of(b),
        a is As && (b is Plus || b is Minus) ==> precedence_of(a) > precedence_of(b),
        (a is Plus || a is Minus) && (b is Plus || b is Minus) ==> precedence_of(a) == precedence_of(b),
        (a is Plus || a is Minus) && (b is Range || b is Caret) ==> precedence_of(a) > precedence_of(b),
        (a is Range || a is Caret) && (b is Range || b is Caret) ==> precedence_of(a) == precedence_of(b),
        (a is Range || a is Caret) && (b is Gt || b is Lt || b is GtEq || b is LtEq || b is EqEq || b is NotEq
            || b is Inside) ==> precedence_of(a) > precedence_of(b),
        (a is Gt || a is Lt || a is GtEq || a is LtEq || a is EqEq || a is NotEq || a is Inside)
            && (b is Gt || b is Lt || b is GtEq || b is LtEq || b is EqEq || b is NotEq || b is Inside)
            ==> precedence_of(a) == precedence_of(b),
        (a is Gt || a is Lt || a is GtEq || a is LtEq || a is EqEq || a is NotEq || a is Inside) && b is And
            ==> precedence_of(a) > precedence_of(b),
        a is And && b is Or ==> precedence_of(a) > precedence_of(b),
        a is Or && b is Pipeline ==> precedence_of(a) > precedence_of(b),
        a is Pipeline ==> precedence_of(a) > 0,
        !(a is Star || a is Slash || a is Percent || a is As || a is Plus || a is Minus || a is Range
            || a is Caret || a is Gt || a is Lt || a is GtEq || a is LtEq || a is EqEq || a is NotEq
            || a is Inside || a is And || a is Or || a is Pipeline) ==> precedence_of(a) == 0,
{
}

/// The position of a token, as a span.
pub open spec fn span_of(t: Token) -> Span {
    Span { line: t.line, col: t.col }
}

/// The token `n + 1` places after index `k` (the last token past the end).
pub open spec fn peek_spec(toks: Seq<Token>, k: int, n: int) -> Token {
    if k + 1 + n < toks.len() {
        toks[k + 1 + n]
    } else {
        toks.last()
    }
}

/// A token that cannot occur inside generic arguments.
pub open spec fn stops_generics(k: TokenKind) -> bool {
    k is EOF || k is LBrace || k is Semicolon || k is Eq || k is Or || k is And || k is Plus || k is Minus
        || k is RParen || k is Comma
}

/// Scanning the tokens after the `<` at `k`, `i` of them already seen with
/// `count` angle brackets open: the brackets close within 50 tokens,
/// before any token that cannot occur in generic arguments.
pub open spec fn angle_scan(toks: Seq<Token>, k: int, i: int, count: int) -> bool
    decreases 51 - i,
{
    if i < 0 || i > 50 {
        false
    } else {
        let t = peek_spec(toks, k, i).kind;
        if stops_generics(t) {
            false
        } else {
            let c = if t is Lt { count + 1 } else if t is Gt { count - 1 } else { count };
            if i + 1 > 50 {
                false
            } else if c == 0 {
                true
            } else {
                angle_scan(toks, k, i + 1, c)
            }
        }
    }
}

/// The `<` at `k` opens generic arguments rather than a comparison.
pub open spec fn generic_ahead(toks: Seq<Token>, k: int) -> bool {
    0 <= k < toks.len() && toks[k].kind is Lt && angle_scan(toks, k, 0, 1)
}

/// The `{` at `k` opens the fields of a struct literal: `}` or `name:` follows.
pub open spec fn struct_body_ahead(toks: Seq<Token>, k: int) -> bool {
    peek_spec(toks, k, 0).kind is RBrace
        || (peek_spec(toks, k, 0).kind is Identifier && peek_spec(toks, k, 1).kind is Colon)
}

/// The index after an optional `;` at `k`.
pub open spec fn skip_semicolon(toks: Seq<Token>, k: int) -> int {
    if 0 <= k < toks.len() && toks[k].kind is Semicolon {
        k + 1
    } else {
        k
    }
}

// ---------------------------------------------------------------------------
// Shapes of what the parser builds
// ---------------------------------------------------------------------------

/// An expression as the parser builds it, with names as character sequences.
pub enum ExprShape {
    /// A literal, as the syntax tree holds it.
    Lit(Expression),
    /// A (dotted) name at a position.
    Name(Seq<char>, Span),
    /// An infix operator with its operands.
    Binary(Box<ExprShape>, Token, Box<ExprShape>, Span),
    /// A call of a name with its arguments, at the `(`.
    Call(Seq<char>, Seq<ExprShape>, Span),
    /// A method call on a receiver, at the `.`.
    Method(Box<ExprShape>, Seq<char>, Seq<ExprShape>, Span),
    /// A field of a receiver that is not a name, at the `.`.
    Member(Box<ExprShape>, Seq<char>, Span),
    /// A dereference, at the `*`.
    Deref(Box<ExprShape>, Span),
    /// An intrinsic `@name(args)`, at the `@`.
    Intrinsic(Seq<char>, Seq<ExprShape>, Span),
    /// An enum variant `E::V` or `E::V(args)` of a named enum, at the name.
    Variant(Seq<char>, Seq<char>, Seq<ExprShape>, Span),
    /// A struct literal `S { f: e, ... }` of a named struct, at the name.
    StructLit(Seq<char>, Seq<(Seq<char>, ExprShape)>, Span),
    /// A cast `e as T` to a plain type name, at the `as`.
    Cast(Box<ExprShape>, Seq<char>, Span),
}

/// `e` is the expression `s` describes (no generic arguments anywhere).
pub open spec fn expr_matches(e: Expression, s: ExprShape) -> bool
    decreases s,
{
    match s {
        ExprShape::Lit(x) => e == x && !(x is Identifier || x is TypeRef || x is Call),
        ExprShape::Name(n, sp) => e matches Expression::Identifier(m, sp2) && m@ == n && sp2 == sp,
        ExprShape::Binary(l, op, r, sp) => match e {
            Expression::Infix { left, operator, right, span } => expr_matches(*left, *l) && operator == op
                && expr_matches(*right, *r) && span == sp,
            _ => false,
        },
        ExprShape::Call(n, args, sp) => match e {
            Expression::Call { function, generic_args, arguments, span } => function@ == n && generic_args@.len() == 0
                && exprs_match(arguments@, args) && span == sp,
            _ => false,
        },
        ExprShape::Method(recv, m, args, sp) => match e {
            Expression::MethodCall { receiver, method, generic_args, arguments, span } => expr_matches(*receiver, *recv)
                && method@ == m && generic_args@.len() == 0 && exprs_match(arguments@, args) && span == sp,
            _ => false,
        },
        ExprShape::Member(recv, m, sp) => match e {
            Expression::MemberAccess { receiver, member, span } => expr_matches(*receiver, *recv) && member@ == m
                && span == sp,
            _ => false,
        },
        ExprShape::Deref(inner, sp) => match e {
            Expression::Deref { expr, span } => expr_matches(*expr, *inner) && span == sp,
            _ => false,
        },
        ExprShape::Intrinsic(n, args, sp) => match e {
            Expression::Intrinsic { name, arguments, span } => name@ == n && exprs_match(arguments@, args) && span == sp,
            _ => false,
        },
        ExprShape::StructLit(n, fs, sp) => match e {
            Expression::StructInst { name, generic_args, fields, span } => name@ == n && generic_args@.len() == 0
                && fields_match(fields@, fs) && span == sp,
            _ => false,
        },
        ExprShape::Cast(inner, t, sp) => match e {
            Expression::Cast { expr, target, span } => expr_matches(*expr, *inner) && target@ == t && span == sp,
            _ => false,
        },
        ExprShape::Variant(n, v, args, sp) => match e {
            Expression::EnumInst { name, variant, generic_args, arguments, span } => name@ == n && variant@ == v
                && generic_args@.len() == 0 && exprs_match(arguments@, args) && span == sp,
            _ => false,
        },
    }
}

/// The fields of a struct literal are those `fs` describe, in order: the
/// same names, and the values the shapes describe.
pub open spec fn fields_match(fields: Seq<(String, Expression)>, fs: Seq<(Seq<char>, ExprShape)>) -> bool
    decreases fs,
{
    &&& fields.len() == fs.len()
    &&& forall|i: int| 0 <= i < fs.len() ==> (#[trigger] fields[i]).0@ == fs[i].0 && expr_matches(fields[i].1, fs[i].1)
}

/// `es` are the expressions `ss` describe, in order.
pub open spec fn exprs_match(es: Seq<Expression>, ss: Seq<ExprShape>) -> bool
    decreases ss,
{
    &&& es.len() == ss.len()
    &&& forall|i: int| 0 <= i < ss.len() ==> expr_matches(#[trigger] es[i], ss[i])
}

/// A statement as the parser builds it.
pub enum StmtShape {
    Let { name: Seq<char>, value: ExprShape, is_mut: bool, span: Span },
    Return { value: ExprShape, span: Span },
    Assign { target: ExprShape, value: ExprShape, span: Span },
    Expr(ExprShape, Span),
    If { cond: ExprShape, then_body: Seq<StmtShape>, else_body: Option<Seq<StmtShape>>, span: Span },
    While { cond: ExprShape, body: Seq<StmtShape>, span: Span },
    Unsafe { body: Seq<StmtShape>, span: Span },
    Spawn { body: Seq<StmtShape>, span: Span },
    /// A `match` with its arms, each a pattern's text and a body.
    Match { cond: ExprShape, arms: Seq<(Seq<char>, Seq<StmtShape>)>, span: Span },
}

/// `st` is the statement `s` describes (no type annotation or intent).
pub open spec fn stmt_matches(st: Statement, s: StmtShape) -> bool
    decreases s,
{
    match s {
        StmtShape::Let { name: n, value: v, is_mut: m, span: sp } => match st {
            Statement::Let { name, value, explicit_type, intent, is_mut, span } => name@ == n && expr_matches(value, v)
                && explicit_type is None && intent is None && is_mut == m && span == sp,
            _ => false,
        },
        StmtShape::Return { value: v, span: sp } => match st {
            Statement::Return { value, intent, span } => expr_matches(value, v) && intent is None && span == sp,
            _ => false,
        },
        StmtShape::Assign { target: t, value: v, span: sp } => match st {
            Statement::Assignment { target, value, span } => expr_matches(target, t) && expr_matches(value, v)
                && span == sp,
            _ => false,
        },
        StmtShape::Expr(x, sp) => match st {
            Statement::ExpressionStmt(e, span) => expr_matches(e, x) && span == sp,
            _ => false,
        },
        StmtShape::If { cond, then_body, else_body, span: sp } => match st {
            Statement::If { condition, then_branch, else_branch, span } => expr_matches(condition, cond)
                && stmts_match(then_branch@, then_body) && span == sp && match else_body {
                    Some(eb) => else_branch matches Some(v) && stmts_match(v@, eb),
                    None => else_branch is None,
                },
            _ => false,
        },
        StmtShape::While { cond, body: b, span: sp } => match st {
            Statement::While { condition, body, span } => expr_matches(condition, cond) && stmts_match(body@, b)
                && span == sp,
            _ => false,
        },
        StmtShape::Unsafe { body: b, span: sp } => match st {
            Statement::UnsafeBlock(body, span) => stmts_match(body@, b) && span == sp,
            _ => false,
        },
        StmtShape::Spawn { body: b, span: sp } => match st {
            Statement::Spawn(body, span) => stmts_match(body@, b) && span == sp,
            _ => false,
        },
        StmtShape::Match { cond, arms: a, span: sp } => match st {
            Statement::Match { condition, arms, span } => expr_matches(condition, cond) && arms_match(arms@, a)
                && span == sp,
            _ => false,
        },
    }
}

/// `v` are the arms `ss` describe, in order.
pub open spec fn arms_match(v: Seq<MatchArm>, ss: Seq<(Seq<char>, Seq<StmtShape>)>) -> bool
    decreases ss,
{
    &&& v.len() == ss.len()
    &&& forall|i: int| 0 <= i < ss.len() ==> arm_matches(#[trigger] v[i], ss[i])
}

/// `a` is the arm with pattern text `s.0` and body `s.1`, without a guard:
/// a lone lower-case name binds the value (a parameter, no pattern to
/// compare), any other pattern is the arm's one alternative.
pub open spec fn arm_matches(a: MatchArm, s: (Seq<char>, Seq<StmtShape>)) -> bool
    decreases s,
{
    &&& a.pattern@ == s.0
    &&& a.guard is None
    &&& if binding_name_spec(s.0) {
        a.patterns@.len() == 0 && a.params@.len() == 1 && a.params@[0]@ == s.0
    } else {
        a.patterns@.len() == 1 && a.patterns@[0]@ == s.0 && a.params@.len() == 0
    }
    &&& stmts_match(a.body@, s.1)
}

/// `v` are the statements `ss` describe, in order.
pub open spec fn stmts_match(v: Seq<Statement>, ss: Seq<StmtShape>) -> bool
    decreases ss,
{
    &&& v.len() == ss.len()
    &&& forall|i: int| 0 <= i < ss.len() ==> stmt_matches(#[trigger] v[i], ss[i])
}

// ---------------------------------------------------------------------------
// Expressions
// ---------------------------------------------------------------------------

/// The expression a literal token stands for.
pub open spec fn lit_of(t: Token) -> Option<Expression> {
    match t.kind {
        TokenKind::IntLiteral(n) => Some(Expression::Integer(n, span_of(t))),
        TokenKind::FloatLiteral(f) => Some(Expression::Float(f, span_of(t))),
        TokenKind::StringLiteral(s) => Some(Expression::String(s, span_of(t))),
        TokenKind::FString(s) => Some(Expression::String(s, span_of(t))),
        TokenKind::DurationLiteral(d, u) => Some(Expression::Duration(d, u, span_of(t))),
        TokenKind::DateLiteral(ts) => Some(Expression::Date(ts, span_of(t))),
        TokenKind::True => Some(Expression::Boolean(true, span_of(t))),
        TokenKind::False => Some(Expression::Boolean(false, span_of(t))),
        _ => None,
    }
}

/// The literal each literal token stands for, for any token `t`: an
/// integer, float, string, duration or date literal keeps its value, a
/// format string is a string, `true` and `false` are booleans, each at the
/// token's position; names and operators are no literals.
pub proof fn lemma_literal_tokens(t: Token, n: i64, text: String, u: DurationUnit)
    ensures
        t.kind == TokenKind::IntLiteral(n) ==> lit_of(t) == Some(Expression::Integer(n, span_of(t))),
        t.kind == TokenKind::FloatLiteral(text) ==> lit_of(t) == Some(Expression::Float(text, span_of(t))),
        t.kind == TokenKind::StringLiteral(text) ==> lit_of(t) == Some(Expression::String(text, span_of(t))),
        t.kind == TokenKind::FString(text) ==> lit_of(t) == Some(Expression::String(text, span_of(t))),
        t.kind == TokenKind::DurationLiteral(text, u) ==> lit_of(t) == Some(Expression::Duration(text, u, span_of(t))),
        t.kind == TokenKind::DateLiteral(n) ==> lit_of(t) == Some(Expression::Date(n, span_of(t))),
        t.kind is True ==> lit_of(t) == Some(Expression::Boolean(true, span_of(t))),
        t.kind is False ==> lit_of(t) == Some(Expression::Boolean(false, span_of(t))),
        (t.kind is Identifier || t.kind is Plus || t.kind is Minus || t.kind is LParen) ==> lit_of(t) is None,
        span_of(t).line == t.line && span_of(t).col == t.col,
{
}

/// The dotted name whose segment `name` is the identifier at `i`: the
/// name with every `.segment` that follows, and the index after it.
pub open spec fn name_reading(toks: Seq<Token>, i: int, name: Seq<char>) -> (Seq<char>, int)
    decreases toks.len() - i,
{
    if 0 <= i && i + 2 < toks.len() && toks[i + 1].kind is Dot {
        match toks[i + 2].kind {
            TokenKind::Identifier(sub) => name_reading(toks, i + 2, name + seq!['.'] + sub@),
            _ => (name, i + 1),
        }
    } else {
        (name, i + 1)
    }
}

/// The reading of an expression from `i` on, taking only the operators
/// that bind more strongly than `prec`: the expression and the index of
/// the first token after it.
pub open spec fn infix_reading(toks: Seq<Token>, i: int, prec: i32, fuel: nat) -> Option<(ExprShape, int)>
    decreases fuel, 4nat,
{
    match primary_reading(toks, i, fuel) {
        Some(pk) => operand_chain(toks, pk.1, prec, pk.0, fuel),
        None => None,
    }
}

/// `-n` on a 64-bit integer, wrapping at the minimum.
pub open spec fn neg_i64(n: i64) -> i64 {
    if n == i64::MIN { i64::MIN } else { (0 - n) as i64 }
}

/// The reading of a primary expression at `i`: a literal, a dotted name,
/// a parenthesised expression, a negated integer literal, `-x` (read as
/// `0 - x`), `!x` (read as `x == false`), a dereference `*x` or an
/// intrinsic `@name(args)`, with the calls, method calls and field accesses
/// that follow it.
pub open spec fn primary_reading(toks: Seq<Token>, i: int, fuel: nat) -> Option<(ExprShape, int)>
    decreases fuel, 3nat,
{
    if !(0 <= i < toks.len()) {
        None
    } else if toks[i].kind is LParen {
        if fuel == 0 {
            None
        } else {
            match infix_reading(toks, i + 1, 0, (fuel - 1) as nat) {
                Some(xk) => if 0 <= xk.1 < toks.len() && toks[xk.1].kind is RParen {
                    postfix_reading(toks, xk.1 + 1, xk.0, fuel)
                } else {
                    None
                },
                None => None,
            }
        }
    } else if toks[i].kind is Minus {
        if fuel == 0 || !(i + 1 < toks.len()) {
            None
        } else {
            match toks[i + 1].kind {
                TokenKind::IntLiteral(n) => postfix_reading(
                    toks,
                    i + 2,
                    ExprShape::Lit(Expression::Integer(neg_i64(n), span_of(toks[i]))),
                    fuel,
                ),
                TokenKind::FloatLiteral(_) => None,
                _ => match primary_reading(toks, i + 1, (fuel - 1) as nat) {
                    Some(rk) => postfix_reading(
                        toks,
                        rk.1,
                        ExprShape::Binary(
                            Box::new(ExprShape::Lit(Expression::Integer(0, span_of(toks[i])))),
                            Token { kind: TokenKind::Minus, line: toks[i + 1].line, col: toks[i + 1].col },
                            Box::new(rk.0),
                            span_of(toks[i]),
                        ),
                        fuel,
                    ),
                    None => None,
                },
            }
        }
    } else if toks[i].kind is Star {
        if fuel == 0 {
            None
        } else {
            match primary_reading(toks, i + 1, (fuel - 1) as nat) {
                Some(rk) => postfix_reading(toks, rk.1, ExprShape::Deref(Box::new(rk.0), span_of(toks[i])), fuel),
                None => None,
            }
        }
    } else if toks[i].kind is At {
        if fuel == 0 || !(i + 2 < toks.len()) || !(toks[i + 2].kind is LParen) {
            None
        } else {
            match toks[i + 1].kind {
                TokenKind::Identifier(n) => match args_reading(toks, i + 3, (fuel - 1) as nat) {
                    Some(ak) => postfix_reading(toks, ak.1, ExprShape::Intrinsic(n@, ak.0, span_of(toks[i])), fuel),
                    None => None,
                },
                _ => None,
            }
        }
    } else if toks[i].kind is Bang {
        if fuel == 0 {
            None
        } else {
            match primary_reading(toks, i + 1, (fuel - 1) as nat) {
                Some(rk) => if 0 <= rk.1 < toks.len() {
                    postfix_reading(
                        toks,
                        rk.1,
                        ExprShape::Binary(
                            Box::new(rk.0),
                            Token { kind: TokenKind::EqEq, line: toks[rk.1].line, col: toks[rk.1].col },
                            Box::new(ExprShape::Lit(Expression::Boolean(false, span_of(toks[i])))),
                            span_of(toks[i]),
                        ),
                        fuel,
                    )
                } else {
                    None
                },
                None => None,
            }
        }
    } else {
        match toks[i].kind {
            TokenKind::Identifier(n) => {
                let nk = name_reading(toks, i, n@);
                if generic_ahead(toks, nk.1) {
                    None
                } else {
                    postfix_reading(toks, nk.1, ExprShape::Name(nk.0, span_of(toks[i])), fuel)
                }
            },
            _ => match lit_of(toks[i]) {
                Some(x) => postfix_reading(toks, i + 1, ExprShape::Lit(x), fuel),
                None => None,
            },
        }
    }
}

/// The calls, method calls, field accesses and enum variants (`E::V`,
/// `E::V(args)`) after the expression `e`, from `k` on; a field of a name
/// extends the name.
pub open spec fn postfix_reading(toks: Seq<Token>, k: int, e: ExprShape, fuel: nat) -> Option<(ExprShape, int)>
    decreases fuel, 2nat,
{
    if !(0 <= k < toks.len()) {
        None
    } else if toks[k].kind is Dot {
        if fuel == 0 || !(k + 2 < toks.len()) {
            None
        } else {
            match toks[k + 1].kind {
                TokenKind::Identifier(m) => if generic_ahead(toks, k + 2) {
                    None
                } else if toks[k + 2].kind is LParen {
                    match args_reading(toks, k + 3, (fuel - 1) as nat) {
                        Some(ak) => postfix_reading(
                            toks,
                            ak.1,
                            ExprShape::Method(Box::new(e), m@, ak.0, span_of(toks[k])),
                            (fuel - 1) as nat,
                        ),
                        None => None,
                    }
                } else {
                    let e2 = match e {
                        ExprShape::Name(n, sp) => ExprShape::Name(n + seq!['.'] + m@, sp),
                        _ => ExprShape::Member(Box::new(e), m@, span_of(toks[k])),
                    };
                    postfix_reading(toks, k + 2, e2, (fuel - 1) as nat)
                },
                _ => None,
            }
        }
    } else if toks[k].kind is LParen {
        match e {
            ExprShape::Name(n, _) => if fuel == 0 {
                None
            } else {
                match args_reading(toks, k + 1, (fuel - 1) as nat) {
                    Some(ak) => postfix_reading(toks, ak.1, ExprShape::Call(n, ak.0, span_of(toks[k])), (fuel - 1) as nat),
                    None => None,
                }
            },
            _ => None,
        }
    } else if toks[k].kind is DoubleColon {
        if peek_spec(toks, k, 0).kind is Intent {
            Some((e, k))
        } else if fuel == 0 || !(k + 2 < toks.len()) {
            None
        } else {
            match e {
                ExprShape::Name(n, sp) => match toks[k + 1].kind {
                    TokenKind::Identifier(v) => if toks[k + 2].kind is LParen {
                        match args_reading(toks, k + 3, (fuel - 1) as nat) {
                            Some(ak) => postfix_reading(toks, ak.1, ExprShape::Variant(n, v@, ak.0, sp), (fuel - 1) as nat),
                            None => None,
                        }
                    } else if toks[k + 2].kind is Lt {
                        None
                    } else {
                        postfix_reading(toks, k + 2, ExprShape::Variant(n, v@, Seq::empty(), sp), (fuel - 1) as nat)
                    },
                    _ => None,
                },
                _ => None,
            }
        }
    } else if toks[k].kind is LBrace {
        if e is Name && struct_body_ahead(toks, k) {
            if fuel == 0 {
                None
            } else {
                match fields_lit_reading(toks, k + 1, (fuel - 1) as nat) {
                    Some(fk) => postfix_reading(toks, fk.1, ExprShape::StructLit(e->Name_0, fk.0, e->Name_1), (fuel - 1) as nat),
                    None => None,
                }
            }
        } else {
            Some((e, k))
        }
    } else if toks[k].kind is Lt {
        if e is Name && generic_ahead(toks, k) {
            None
        } else {
            Some((e, k))
        }
    } else {
        Some((e, k))
    }
}

/// The reading of call arguments `expr, ...)` from `j`: the arguments and
/// the index after the `)`.
pub open spec fn args_reading(toks: Seq<Token>, j: int, fuel: nat) -> Option<(Seq<ExprShape>, int)>
    decreases fuel, 1nat,
{
    if !(0 <= j < toks.len()) {
        None
    } else if toks[j].kind is RParen {
        Some((Seq::empty(), j + 1))
    } else if fuel == 0 {
        None
    } else {
        match infix_reading(toks, j, 0, (fuel - 1) as nat) {
            Some(xk) => {
                let k2 = if 0 <= xk.1 < toks.len() && toks[xk.1].kind is Comma { xk.1 + 1 } else { xk.1 };
                match args_reading(toks, k2, (fuel - 1) as nat) {
                    Some(rest) => Some((seq![xk.0] + rest.0, rest.1)),
                    None => None,
                }
            },
            None => None,
        }
    }
}

/// The reading of the fields of a struct literal from `j` (just after its
/// `{`): `name: expr` pairs separated by commas (one may end the list), up
/// to and including `}`; the fields and the index after the `}`.
pub open spec fn fields_lit_reading(toks: Seq<Token>, j: int, fuel: nat) -> Option<(Seq<(Seq<char>, ExprShape)>, int)>
    decreases fuel, 1nat,
{
    if !(0 <= j < toks.len()) {
        None
    } else if toks[j].kind is RBrace {
        Some((Seq::empty(), j + 1))
    } else if fuel == 0 || !(j + 1 < toks.len()) || !(toks[j + 1].kind is Colon) {
        None
    } else {
        match toks[j].kind {
            TokenKind::Identifier(f) => match infix_reading(toks, j + 2, 0, (fuel - 1) as nat) {
                Some(xk) => if 0 <= xk.1 < toks.len() && toks[xk.1].kind is Comma {
                    match fields_lit_reading(toks, xk.1 + 1, (fuel - 1) as nat) {
                        Some(rest) => Some((seq![(f@, xk.0)] + rest.0, rest.1)),
                        None => None,
                    }
                } else if 0 <= xk.1 < toks.len() && toks[xk.1].kind is RBrace {
                    Some((seq![(f@, xk.0)], xk.1 + 1))
                } else {
                    None
                },
                None => None,
            },
            _ => None,
        }
    }
}

/// The reading that continues after the operand `left`, whose last token
/// is just before `j`: each operator stronger than `prec` takes the
/// reading of what follows at its own strength as its right operand, so
/// equal strengths group to the left.
pub open spec fn operand_chain(toks: Seq<Token>, j: int, prec: i32, left: ExprShape, fuel: nat) -> Option<(ExprShape, int)>
    decreases fuel, 0nat,
{
    if !(0 <= j < toks.len()) {
        None
    } else if toks[j].kind is EOF || precedence_of(toks[j].kind) <= prec {
        Some((left, j))
    } else if fuel == 0 {
        None
    } else if toks[j].kind is Pipeline {
        match infix_reading(toks, j + 1, 1, (fuel - 1) as nat) {
            Some(rk) => operand_chain(toks, rk.1, prec, pipe_shape(left, toks[j], rk.0), (fuel - 1) as nat),
            None => None,
        }
    } else if toks[j].kind is As {
        match simple_type(toks, j + 1) {
            Some(tn) => operand_chain(
                toks,
                j + 2,
                prec,
                ExprShape::Cast(Box::new(left), tn, span_of(toks[j])),
                (fuel - 1) as nat,
            ),
            None => None,
        }
    } else {
        match infix_reading(toks, j + 1, precedence_of(toks[j].kind), (fuel - 1) as nat) {
            Some(rk) => operand_chain(
                toks,
                rk.1,
                prec,
                ExprShape::Binary(Box::new(left), toks[j], Box::new(rk.0), span_of(toks[j])),
                (fuel - 1) as nat,
            ),
            None => None,
        }
    }
}

/// `left |> right` at the operator `op`: a call of `right` with `left`
/// put first among its arguments, or of the name `right` with `left`
/// alone; any other `right` stays an infix operation.
pub open spec fn pipe_shape(left: ExprShape, op: Token, right: ExprShape) -> ExprShape {
    match right {
        ExprShape::Call(n, args, _) => ExprShape::Call(n, seq![left] + args, span_of(op)),
        ExprShape::Name(n, _) => ExprShape::Call(n, seq![left], span_of(op)),
        _ => ExprShape::Binary(Box::new(left), op, Box::new(right), span_of(op)),
    }
}

/// An arithmetic operator: `+ - * / %`.
pub open spec fn arith_token(k: TokenKind) -> bool {
    k is Plus || k is Minus || k is Star || k is Slash || k is Percent
}

/// A lone name followed by an arithmetic operator or the end is read as
/// that name.
proof fn lemma_name_operand(toks: Seq<Token>, i: int, f: nat)
    requires
        0 <= i,
        i + 1 < toks.len(),
        toks[i].kind is Identifier,
        arith_token(toks[i + 1].kind) || toks[i + 1].kind is EOF,
    ensures
        primary_reading(toks, i, f) == Some((ExprShape::Name(toks[i].kind->Identifier_0@, span_of(toks[i])), i + 1)),
{
    let n = toks[i].kind->Identifier_0@;
    assert(name_reading(toks, i, n) == (n, i + 1));
    assert(!generic_ahead(toks, i + 1));
    assert(postfix_reading(toks, i + 1, ExprShape::Name(n, span_of(toks[i])), f)
        == Some((ExprShape::Name(n, span_of(toks[i])), i + 1)));
}

/// How `a op1 b op2 c` groups, for any three names and any two arithmetic
/// operators: when `op2` binds more tightly than `op1` (as `/` does than
/// `+`), `b op2 c` is the right operand of `op1`; otherwise `a op1 b` is the
/// left operand of `op2`. So `a + b / c` is `a + (b / c)` and `a - b + c`
/// is `(a - b) + c`.
pub proof fn lemma_operator_grouping(toks: Seq<Token>, fuel: nat)
    requires
        toks.len() == 6,
        toks[0].kind is Identifier,
        toks[2].kind is Identifier,
        toks[4].kind is Identifier,
        arith_token(toks[1].kind),
        arith_token(toks[3].kind),
        toks[5].kind is EOF,
        fuel >= 3,
    ensures
        ({
            let a = ExprShape::Name(toks[0].kind->Identifier_0@, span_of(toks[0]));
            let b = ExprShape::Name(toks[2].kind->Identifier_0@, span_of(toks[2]));
            let c = ExprShape::Name(toks[4].kind->Identifier_0@, span_of(toks[4]));
            infix_reading(toks, 0, 0, fuel) == Some((
                if precedence_of(toks[3].kind) > precedence_of(toks[1].kind) {
                    ExprShape::Binary(Box::new(a), toks[1], Box::new(ExprShape::Binary(Box::new(b), toks[3], Box::new(c),
                        span_of(toks[3]))), span_of(toks[1]))
                } else {
                    ExprShape::Binary(Box::new(ExprShape::Binary(Box::new(a), toks[1], Box::new(b), span_of(toks[1]))),
                        toks[3], Box::new(c), span_of(toks[3]))
                },
                5int,
            ))
        }),
        (toks[1].kind is Plus || toks[1].kind is Minus) && (toks[3].kind is Star || toks[3].kind is Slash
            || toks[3].kind is Percent) ==> (infix_reading(toks, 0, 0, fuel).unwrap().0 matches
            ExprShape::Binary(_, _, r, _) && *r is Binary),
        !((toks[1].kind is Plus || toks[1].kind is Minus) && (toks[3].kind is Star || toks[3].kind is Slash
            || toks[3].kind is Percent)) ==> (infix_reading(toks, 0, 0, fuel).unwrap().0 matches
            ExprShape::Binary(l, _, _, _) && *l is Binary),
{
    let p1 = precedence_of(toks[1].kind);
    let p2 = precedence_of(toks[3].kind);
    let a = ExprShape::Name(toks[0].kind->Identifier_0@, span_of(toks[0]));
    let b = ExprShape::Name(toks[2].kind->Identifier_0@, span_of(toks[2]));
    let c = ExprShape::Name(toks[4].kind->Identifier_0@, span_of(toks[4]));
    lemma_name_operand(toks, 0, fuel);
    lemma_name_operand(toks, 2, (fuel - 1) as nat);
    lemma_name_operand(toks, 4, (fuel - 2) as nat);
    lemma_name_operand(toks, 4, (fuel - 1) as nat);
    assert(p1 > 0 && p2 > 0);
    assert(infix_reading(toks, 4, p2, (fuel - 2) as nat) == Some((c, 5int)));
    assert(infix_reading(toks, 4, p2, (fuel - 1) as nat) == Some((c, 5int)));
    if p2 > p1 {
        let bc = ExprShape::Binary(Box::new(b), toks[3], Box::new(c), span_of(toks[3]));
        assert(operand_chain(toks, 5, p1, bc, (fuel - 2) as nat) == Some((bc, 5int)));
        assert(infix_reading(toks, 2, p1, (fuel - 1) as nat) == Some((bc, 5int)));
        let abc = ExprShape::Binary(Box::new(a), toks[1], Box::new(bc), span_of(toks[1]));
        assert(operand_chain(toks, 5, 0, abc, (fuel - 1) as nat) == Some((abc, 5int)));
    } else {
        assert(infix_reading(toks, 2, p1, (fuel - 1) as nat) == Some((b, 3int)));
        let ab = ExprShape::Binary(Box::new(a), toks[1], Box::new(b), span_of(toks[1]));
        let abc = ExprShape::Binary(Box::new(ab), toks[3], Box::new(c), span_of(toks[3]));
        assert(operand_chain(toks, 5, 0, abc, (fuel - 2) as nat) == Some((abc, 5int)));
        assert(operand_chain(toks, 3, 0, ab, (fuel - 1) as nat) == Some((abc, 5int)));
    }
}

/// A reading that exists with some fuel is the reading with more fuel.
pub(crate) proof fn lemma_reading_fuel(toks: Seq<Token>, i: int, prec: i32, f: nat, g: nat)
    requires
        f <= g,
        infix_reading(toks, i, prec, f) is Some,
    ensures
        infix_reading(toks, i, prec, g) == infix_reading(toks, i, prec, f),
    decreases f, 4nat,
{
    lemma_primary_fuel(toks, i, f, g);
    let pk = primary_reading(toks, i, f).unwrap();
    lemma_chain_fuel(toks, pk.1, prec, pk.0, f, g);
}

/// A primary reading that exists with some fuel is the one with more fuel.
pub(crate) proof fn lemma_primary_fuel(toks: Seq<Token>, i: int, f: nat, g: nat)
    requires
        f <= g,
        primary_reading(toks, i, f) is Some,
    ensures
        primary_reading(toks, i, g) == primary_reading(toks, i, f),
    decreases f, 3nat,
{
    if toks[i].kind is LParen {
        lemma_reading_fuel(toks, i + 1, 0, (f - 1) as nat, (g - 1) as nat);
        let xk = infix_reading(toks, i + 1, 0, (f - 1) as nat).unwrap();
        lemma_postfix_fuel(toks, xk.1 + 1, xk.0, f, g);
    } else if toks[i].kind is Minus {
        match toks[i + 1].kind {
            TokenKind::IntLiteral(n) => {
                lemma_postfix_fuel(toks, i + 2, ExprShape::Lit(Expression::Integer(neg_i64(n), span_of(toks[i]))), f, g);
            },
            TokenKind::FloatLiteral(_) => {},
            _ => {
                lemma_primary_fuel(toks, i + 1, (f - 1) as nat, (g - 1) as nat);
                let rk = primary_reading(toks, i + 1, (f - 1) as nat).unwrap();
                lemma_postfix_fuel(toks, rk.1, ExprShape::Binary(
                    Box::new(ExprShape::Lit(Expression::Integer(0, span_of(toks[i])))),
                    Token { kind: TokenKind::Minus, line: toks[i + 1].line, col: toks[i + 1].col },
                    Box::new(rk.0),
                    span_of(toks[i]),
                ), f, g);
            },
        }
    } else if toks[i].kind is Star {
        lemma_primary_fuel(toks, i + 1, (f - 1) as nat, (g - 1) as nat);
        let rk = primary_reading(toks, i + 1, (f - 1) as nat).unwrap();
        lemma_postfix_fuel(toks, rk.1, ExprShape::Deref(Box::new(rk.0), span_of(toks[i])), f, g);
    } else if toks[i].kind is At {
        if let TokenKind::Identifier(n) = toks[i + 1].kind {
            lemma_args_fuel(toks, i + 3, (f - 1) as nat, (g - 1) as nat);
            let ak = args_reading(toks, i + 3, (f - 1) as nat).unwrap();
            lemma_postfix_fuel(toks, ak.1, ExprShape::Intrinsic(n@, ak.0, span_of(toks[i])), f, g);
        }
    } else if toks[i].kind is Bang {
        lemma_primary_fuel(toks, i + 1, (f - 1) as nat, (g - 1) as nat);
        let rk = primary_reading(toks, i + 1, (f - 1) as nat).unwrap();
        lemma_postfix_fuel(toks, rk.1, ExprShape::Binary(
            Box::new(rk.0),
            Token { kind: TokenKind::EqEq, line: toks[rk.1].line, col: toks[rk.1].col },
            Box::new(ExprShape::Lit(Expression::Boolean(false, span_of(toks[i])))),
            span_of(toks[i]),
        ), f, g);
    } else {
        match toks[i].kind {
            TokenKind::Identifier(n) => {
                let nk = name_reading(toks, i, n@);
                lemma_postfix_fuel(toks, nk.1, ExprShape::Name(nk.0, span_of(toks[i])), f, g);
            },
            _ => {
                lemma_postfix_fuel(toks, i + 1, ExprShape::Lit(lit_of(toks[i]).unwrap()), f, g);
            },
        }
    }
}

/// A postfix reading that exists with some fuel is the one with more fuel.
pub(crate) proof fn lemma_postfix_fuel(toks: Seq<Token>, k: int, e: ExprShape, f: nat, g: nat)
    requires
        f <= g,
        postfix_reading(toks, k, e, f) is Some,
    ensures
        postfix_reading(toks, k, e, g) == postfix_reading(toks, k, e, f),
    decreases f, 2nat,
{
    if toks[k].kind is Dot {
        match toks[k + 1].kind {
            TokenKind::Identifier(m) => {
                if toks[k + 2].kind is LParen {
                    lemma_args_fuel(toks, k + 3, (f - 1) as nat, (g - 1) as nat);
                    let ak = args_reading(toks, k + 3, (f - 1) as nat).unwrap();
                    lemma_postfix_fuel(toks, ak.1, ExprShape::Method(Box::new(e), m@, ak.0, span_of(toks[k])),
                        (f - 1) as nat, (g - 1) as nat);
                } else {
                    let e2 = match e {
                        ExprShape::Name(n, sp) => ExprShape::Name(n + seq!['.'] + m@, sp),
                        _ => ExprShape::Member(Box::new(e), m@, span_of(toks[k])),
                    };
                    lemma_postfix_fuel(toks, k + 2, e2, (f - 1) as nat, (g - 1) as nat);
                }
            },
            _ => {},
        }
    } else if toks[k].kind is DoubleColon && !(peek_spec(toks, k, 0).kind is Intent) {
        if let ExprShape::Name(n, sp) = e {
            if let TokenKind::Identifier(v) = toks[k + 1].kind {
                if toks[k + 2].kind is LParen {
                    lemma_args_fuel(toks, k + 3, (f - 1) as nat, (g - 1) as nat);
                    let ak = args_reading(toks, k + 3, (f - 1) as nat).unwrap();
                    lemma_postfix_fuel(toks, ak.1, ExprShape::Variant(n, v@, ak.0, sp), (f - 1) as nat, (g - 1) as nat);
                } else if !(toks[k + 2].kind is Lt) {
                    lemma_postfix_fuel(toks, k + 2, ExprShape::Variant(n, v@, Seq::empty(), sp), (f - 1) as nat, (g - 1) as nat);
                }
            }
        }
    } else if toks[k].kind is LBrace {
        if e is Name && struct_body_ahead(toks, k) {
            lemma_fields_lit_fuel(toks, k + 1, (f - 1) as nat, (g - 1) as nat);
            let fk = fields_lit_reading(toks, k + 1, (f - 1) as nat).unwrap();
            lemma_postfix_fuel(toks, fk.1, ExprShape::StructLit(e->Name_0, fk.0, e->Name_1), (f - 1) as nat, (g - 1) as nat);
        }
    } else if toks[k].kind is LParen {
        match e {
            ExprShape::Name(n, _) => {
                lemma_args_fuel(toks, k + 1, (f - 1) as nat, (g - 1) as nat);
                let ak = args_reading(toks, k + 1, (f - 1) as nat).unwrap();
                lemma_postfix_fuel(toks, ak.1, ExprShape::Call(n, ak.0, span_of(toks[k])), (f - 1) as nat, (g - 1) as nat);
            },
            _ => {},
        }
    }
}

/// A struct-literal field reading that exists with some fuel is the one with
/// more fuel.
pub(crate) proof fn lemma_fields_lit_fuel(toks: Seq<Token>, j: int, f: nat, g: nat)
    requires
        f <= g,
        fields_lit_reading(toks, j, f) is Some,
    ensures
        fields_lit_reading(toks, j, g) == fields_lit_reading(toks, j, f),
    decreases f, 1nat,
{
    if !(toks[j].kind is RBrace) {
        lemma_reading_fuel(toks, j + 2, 0, (f - 1) as nat, (g - 1) as nat);
        let xk = infix_reading(toks, j + 2, 0, (f - 1) as nat).unwrap();
        if toks[xk.1].kind is Comma {
            lemma_fields_lit_fuel(toks, xk.1 + 1, (f - 1) as nat, (g - 1) as nat);
        }
    }
}

/// Two fuels that both give a struct-literal field reading give the same one.
pub(crate) proof fn lemma_fields_lit_unique(toks: Seq<Token>, j: int, f: nat, g: nat)
    requires
        fields_lit_reading(toks, j, f) is Some,
        fields_lit_reading(toks, j, g) is Some,
    ensures
        fields_lit_reading(toks, j, g) == fields_lit_reading(toks, j, f),
{
    if f <= g {
        lemma_fields_lit_fuel(toks, j, f, g);
    } else {
        lemma_fields_lit_fuel(toks, j, g, f);
    }
}

/// An argument reading that exists with some fuel is the one with more fuel.
pub(crate) proof fn lemma_args_fuel(toks: Seq<Token>, j: int, f: nat, g: nat)
    requires
        f <= g,
        args_reading(toks, j, f) is Some,
    ensures
        args_reading(toks, j, g) == args_reading(toks, j, f),
    decreases f, 1nat,
{
    if !(toks[j].kind is RParen) {
        lemma_reading_fuel(toks, j, 0, (f - 1) as nat, (g - 1) as nat);
        let xk = infix_reading(toks, j, 0, (f - 1) as nat).unwrap();
        let k2 = if 0 <= xk.1 < toks.len() && toks[xk.1].kind is Comma { xk.1 + 1 } else { xk.1 };
        lemma_args_fuel(toks, k2, (f - 1) as nat, (g - 1) as nat);
    }
}

/// An operand chain that exists with some fuel is the one with more fuel.
pub(crate) proof fn lemma_chain_fuel(toks: Seq<Token>, j: int, prec: i32, left: ExprShape, f: nat, g: nat)
    requires
        f <= g,
        operand_chain(toks, j, prec, left, f) is Some,
    ensures
        operand_chain(toks, j, prec, left, g) == operand_chain(toks, j, prec, left, f),
    decreases f, 0nat,
{
    if 0 <= j < toks.len() && !(toks[j].kind is EOF || precedence_of(toks[j].kind) <= prec) && toks[j].kind is Pipeline {
        lemma_reading_fuel(toks, j + 1, 1, (f - 1) as nat, (g - 1) as nat);
        let rk = infix_reading(toks, j + 1, 1, (f - 1) as nat).unwrap();
        lemma_chain_fuel(toks, rk.1, prec, pipe_shape(left, toks[j], rk.0), (f - 1) as nat, (g - 1) as nat);
    } else if 0 <= j < toks.len() && !(toks[j].kind is EOF || precedence_of(toks[j].kind) <= prec) && toks[j].kind is As {
        let l2 = ExprShape::Cast(Box::new(left), simple_type(toks, j + 1).unwrap(), span_of(toks[j]));
        lemma_chain_fuel(toks, j + 2, prec, l2, (f - 1) as nat, (g - 1) as nat);
    } else if 0 <= j < toks.len() && !(toks[j].kind is EOF || precedence_of(toks[j].kind) <= prec) {
        let p = precedence_of(toks[j].kind);
        lemma_reading_fuel(toks, j + 1, p, (f - 1) as nat, (g - 1) as nat);
        let rk = infix_reading(toks, j + 1, p, (f - 1) as nat).unwrap();
        let l2 = ExprShape::Binary(Box::new(left), toks[j], Box::new(rk.0), span_of(toks[j]));
        lemma_chain_fuel(toks, rk.1, prec, l2, (f - 1) as nat, (g - 1) as nat);
    }
}

/// Two fuels that both reach the end give the same reading.
pub(crate) proof fn lemma_reading_unique(toks: Seq<Token>, i: int, prec: i32, f: nat, g: nat)
    requires
        infix_reading(toks, i, prec, f) is Some,
        infix_reading(toks, i, prec, g) is Some,
    ensures
        infix_reading(toks, i, prec, g) == infix_reading(toks, i, prec, f),
{
    if f <= g {
        lemma_reading_fuel(toks, i, prec, f, g);
    } else {
        lemma_reading_fuel(toks, i, prec, g, f);
    }
}

/// Two fuels that both give a primary reading give the same one.
pub(crate) proof fn lemma_primary_unique(toks: Seq<Token>, i: int, f: nat, g: nat)
    requires
        primary_reading(toks, i, f) is Some,
        primary_reading(toks, i, g) is Some,
    ensures
        primary_reading(toks, i, g) == primary_reading(toks, i, f),
{
    if f <= g {
        lemma_primary_fuel(toks, i, f, g);
    } else {
        lemma_primary_fuel(toks, i, g, f);
    }
}

/// Two fuels that both give an argument reading give the same one.
pub(crate) proof fn lemma_args_unique(toks: Seq<Token>, j: int, f: nat, g: nat)
    requires
        args_reading(toks, j, f) is Some,
        args_reading(toks, j, g) is Some,
    ensures
        args_reading(toks, j, g) == args_reading(toks, j, f),
{
    if f <= g {
        lemma_args_fuel(toks, j, f, g);
    } else {
        lemma_args_fuel(toks, j, g, f);
    }
}

// ---------------------------------------------------------------------------
// Statements
// ---------------------------------------------------------------------------

/// The reading of a statement at `i`: `let`, `return` (`return;` returns
/// `0`), an assignment or an expression, each with an optional closing
/// `;`; an `if` (with `else` and `else if`) or `while` with a block, an
/// `unsafe` or `spawn` block, or a `match` whose arms are plain patterns.
pub open spec fn stmt_reading(toks: Seq<Token>, i: int, fuel: nat) -> Option<(StmtShape, int)>
    decreases fuel, 1nat,
{
    if !(0 <= i && i + 1 < toks.len()) {
        None
    } else if toks[i].kind is Let {
        let m: int = if toks[i + 1].kind is Mut { 1 } else { 0 };
        if i + 2 + m < toks.len() && toks[i + 2 + m].kind is Eq {
            match toks[i + 1 + m].kind {
                TokenKind::Identifier(name) => match infix_reading(toks, i + 3 + m, 0, fuel) {
                    Some(vk) => Some((
                        StmtShape::Let { name: name@, value: vk.0, is_mut: m == 1, span: span_of(toks[i]) },
                        skip_semicolon(toks, vk.1),
                    )),
                    None => None,
                },
                _ => None,
            }
        } else {
            None
        }
    } else if toks[i].kind is Return {
        if toks[i + 1].kind is Semicolon || toks[i + 1].kind is RBrace {
            Some((
                StmtShape::Return {
                    value: ExprShape::Lit(Expression::Integer(0, span_of(toks[i]))),
                    span: span_of(toks[i]),
                },
                skip_semicolon(toks, i + 1),
            ))
        } else {
            match infix_reading(toks, i + 1, 0, fuel) {
                Some(vk) => Some((StmtShape::Return { value: vk.0, span: span_of(toks[i]) }, skip_semicolon(toks, vk.1))),
                None => None,
            }
        }
    } else if toks[i].kind is If {
        if fuel == 0 {
            None
        } else {
            match infix_reading(toks, i + 1, 0, fuel) {
                Some(ck) => match block_reading(toks, ck.1, (fuel - 1) as nat) {
                    Some(tb) => {
                        let k2 = tb.1;
                        if 0 <= k2 && k2 + 1 < toks.len() && toks[k2].kind is Else {
                            if toks[k2 + 1].kind is If {
                                match stmt_reading(toks, k2 + 1, (fuel - 1) as nat) {
                                    Some(sk) => Some((
                                        StmtShape::If { cond: ck.0, then_body: tb.0, else_body: Some(seq![sk.0]), span: span_of(toks[i]) },
                                        sk.1,
                                    )),
                                    None => None,
                                }
                            } else {
                                match block_reading(toks, k2 + 1, (fuel - 1) as nat) {
                                    Some(eb) => Some((
                                        StmtShape::If { cond: ck.0, then_body: tb.0, else_body: Some(eb.0), span: span_of(toks[i]) },
                                        eb.1,
                                    )),
                                    None => None,
                                }
                            }
                        } else {
                            Some((StmtShape::If { cond: ck.0, then_body: tb.0, else_body: None, span: span_of(toks[i]) }, k2))
                        }
                    },
                    None => None,
                },
                None => None,
            }
        }
    } else if toks[i].kind is While {
        if fuel == 0 {
            None
        } else {
            match infix_reading(toks, i + 1, 0, fuel) {
                Some(ck) => match block_reading(toks, ck.1, (fuel - 1) as nat) {
                    Some(bk) => Some((StmtShape::While { cond: ck.0, body: bk.0, span: span_of(toks[i]) }, bk.1)),
                    None => None,
                },
                None => None,
            }
        }
    } else if toks[i].kind is Match {
        if fuel == 0 {
            None
        } else {
            match infix_reading(toks, i + 1, 0, fuel) {
                Some(ck) => if 0 <= ck.1 < toks.len() && toks[ck.1].kind is LBrace {
                    match arms_reading(toks, ck.1 + 1, (fuel - 1) as nat) {
                        Some(ak) => Some((StmtShape::Match { cond: ck.0, arms: ak.0, span: span_of(toks[i]) }, ak.1 + 1)),
                        None => None,
                    }
                } else {
                    None
                },
                None => None,
            }
        }
    } else if toks[i].kind is Unsafe || toks[i].kind is Spawn {
        if fuel == 0 || !(toks[i + 1].kind is LBrace) {
            None
        } else {
            match block_reading(toks, i + 1, (fuel - 1) as nat) {
                Some(bk) => Some((
                    if toks[i].kind is Unsafe {
                        StmtShape::Unsafe { body: bk.0, span: span_of(toks[i]) }
                    } else {
                        StmtShape::Spawn { body: bk.0, span: span_of(toks[i]) }
                    },
                    bk.1,
                )),
                None => None,
            }
        }
    } else {
        match infix_reading(toks, i, 0, fuel) {
            Some(ek) => if 0 <= ek.1 < toks.len() && toks[ek.1].kind is Eq {
                match infix_reading(toks, ek.1 + 1, 0, fuel) {
                    Some(vk) => Some((
                        StmtShape::Assign { target: ek.0, value: vk.0, span: span_of(toks[i]) },
                        skip_semicolon(toks, vk.1),
                    )),
                    None => None,
                }
            } else {
                Some((StmtShape::Expr(ek.0, span_of(toks[i])), skip_semicolon(toks, ek.1)))
            },
            None => None,
        }
    }
}

/// The reading of the statements from `j` up to and including a closing
/// `}` (or up to the end of the tokens), each optionally followed by `;`;
/// stray `;` and documentation comments between them are skipped.
pub open spec fn stmts_reading(toks: Seq<Token>, j: int, fuel: nat) -> Option<(Seq<StmtShape>, int)>
    decreases fuel, 0nat,
{
    if !(0 <= j < toks.len()) {
        None
    } else if toks[j].kind is RBrace {
        Some((Seq::empty(), j + 1))
    } else if toks[j].kind is EOF {
        Some((Seq::empty(), j))
    } else if fuel == 0 {
        None
    } else if toks[j].kind is Semicolon || toks[j].kind is DocComment {
        stmts_reading(toks, j + 1, (fuel - 1) as nat)
    } else {
        match stmt_reading(toks, j, (fuel - 1) as nat) {
            Some(sk) => match stmts_reading(toks, skip_semicolon(toks, sk.1), (fuel - 1) as nat) {
                Some(rest) => Some((seq![sk.0] + rest.0, rest.1)),
                None => None,
            },
            None => None,
        }
    }
}

/// The reading of a block `{ ... }` at `i` (see [`stmts_reading`]).
pub open spec fn block_reading(toks: Seq<Token>, i: int, fuel: nat) -> Option<(Seq<StmtShape>, int)>
    decreases fuel, 2nat,
{
    if 0 <= i < toks.len() && toks[i].kind is LBrace {
        stmts_reading(toks, i + 1, fuel)
    } else {
        None
    }
}

/// The text of a pattern path: `acc` with every `::name` or `.name` that
/// follows from `k`, and the index after it.
pub open spec fn pattern_path(toks: Seq<Token>, k: int, acc: Seq<char>) -> (Seq<char>, int)
    decreases toks.len() - k,
{
    if 0 <= k && k + 1 < toks.len() && (toks[k].kind is DoubleColon || toks[k].kind is Dot) {
        match toks[k + 1].kind {
            TokenKind::Identifier(sub) => pattern_path(
                toks,
                k + 2,
                acc + (if toks[k].kind is DoubleColon { seq![':', ':'] } else { seq!['.'] }) + sub@,
            ),
            _ => (acc, k),
        }
    } else {
        (acc, k)
    }
}

/// The text of the pattern at `j` (a name or path, an integer or a string
/// literal in quotes) and the index after it.
pub open spec fn pattern_reading(toks: Seq<Token>, j: int) -> Option<(Seq<char>, int)> {
    if !(0 <= j < toks.len()) {
        None
    } else {
        match toks[j].kind {
            TokenKind::Identifier(p) => Some(pattern_path(toks, j + 1, p@)),
            TokenKind::IntLiteral(n) => Some((int_text(n as int), j + 1)),
            TokenKind::StringLiteral(sl) => Some(("\""@ + sl@ + "\""@, j + 1)),
            _ => None,
        }
    }
}

/// The pattern at `j` (see [`pattern_reading`]) when `=>` follows it.
pub open spec fn arrow_pattern(toks: Seq<Token>, j: int) -> Option<(Seq<char>, int)> {
    match pattern_reading(toks, j) {
        Some(pk) => if 0 <= pk.1 < toks.len() && toks[pk.1].kind is Arrow {
            Some(pk)
        } else {
            None
        },
        None => None,
    }
}

/// The reading of one arm at `j`: a pattern, `=>`, and a block or a single
/// statement as the body.
pub open spec fn arm_reading(toks: Seq<Token>, j: int, fuel: nat) -> Option<((Seq<char>, Seq<StmtShape>), int)>
    decreases fuel, 4nat,
{
    match pattern_reading(toks, j) {
        Some(pk) => if 0 <= pk.1 && pk.1 + 1 < toks.len() && toks[pk.1].kind is Arrow {
            if toks[pk.1 + 1].kind is LBrace {
                match block_reading(toks, pk.1 + 1, fuel) {
                    Some(bk) => Some(((pk.0, bk.0), bk.1)),
                    None => None,
                }
            } else {
                match stmt_reading(toks, pk.1 + 1, fuel) {
                    Some(sk) => Some(((pk.0, seq![sk.0]), sk.1)),
                    None => None,
                }
            }
        } else {
            None
        },
        None => None,
    }
}

/// Where the reading after an arm ending at `k` goes on: past a `,`.
pub open spec fn skip_comma(toks: Seq<Token>, k: int) -> int {
    if 0 <= k < toks.len() && toks[k].kind is Comma {
        k + 1
    } else {
        k
    }
}

/// The reading of the arms of a `match` from `j` up to its closing `}`
/// (whose index it gives), each arm optionally followed by `,`.
pub open spec fn arms_reading(toks: Seq<Token>, j: int, fuel: nat) -> Option<(Seq<(Seq<char>, Seq<StmtShape>)>, int)>
    decreases fuel, 3nat,
{
    if !(0 <= j < toks.len()) {
        None
    } else if toks[j].kind is RBrace {
        Some((Seq::empty(), j))
    } else if fuel == 0 {
        None
    } else {
        match arm_reading(toks, j, (fuel - 1) as nat) {
            Some(ak) => match arms_reading(toks, skip_comma(toks, ak.1), (fuel - 1) as nat) {
                Some(rest) => Some((seq![ak.0] + rest.0, rest.1)),
                None => None,
            },
            None => None,
        }
    }
}

/// An arm reading that exists with some fuel is the one with more fuel.
pub(crate) proof fn lemma_arm_fuel(toks: Seq<Token>, j: int, f: nat, g: nat)
    requires
        f <= g,
        arm_reading(toks, j, f) is Some,
    ensures
        arm_reading(toks, j, g) == arm_reading(toks, j, f),
    decreases f, 4nat,
{
    let pk = pattern_reading(toks, j).unwrap();
    if toks[pk.1 + 1].kind is LBrace {
        lemma_block_fuel(toks, pk.1 + 1, f, g);
    } else {
        lemma_stmt_fuel(toks, pk.1 + 1, f, g);
    }
}

/// A reading of arms that exists with some fuel is the one with more fuel.
pub(crate) proof fn lemma_arms_fuel(toks: Seq<Token>, j: int, f: nat, g: nat)
    requires
        f <= g,
        arms_reading(toks, j, f) is Some,
    ensures
        arms_reading(toks, j, g) == arms_reading(toks, j, f),
    decreases f, 3nat,
{
    if 0 <= j < toks.len() && !(toks[j].kind is RBrace) {
        lemma_arm_fuel(toks, j, (f - 1) as nat, (g - 1) as nat);
        let ak = arm_reading(toks, j, (f - 1) as nat).unwrap();
        lemma_arms_fuel(toks, skip_comma(toks, ak.1), (f - 1) as nat, (g - 1) as nat);
    }
}

/// Any two fuels that give a reading of arms give the same one.
pub(crate) proof fn lemma_arms_unique(toks: Seq<Token>, j: int, f: nat)
    requires
        arms_reading(toks, j, f) is Some,
    ensures
        forall|g: nat| #[trigger] arms_reading(toks, j, g) is Some ==> arms_reading(toks, j, g) == arms_reading(toks, j, f),
{
    assert forall|g: nat| #[trigger] arms_reading(toks, j, g) is Some implies arms_reading(toks, j, g) == arms_reading(toks, j, f) by {
        if f <= g {
            lemma_arms_fuel(toks, j, f, g);
        } else {
            lemma_arms_fuel(toks, j, g, f);
        }
    }
}

/// A reading of arms ends at a `}`.
pub(crate) proof fn lemma_arms_end(toks: Seq<Token>, j: int, f: nat)
    requires
        arms_reading(toks, j, f) is Some,
    ensures
        0 <= arms_reading(toks, j, f).unwrap().1 < toks.len(),
        toks[arms_reading(toks, j, f).unwrap().1].kind is RBrace,
    decreases f,
{
    if !(toks[j].kind is RBrace) {
        let ak = arm_reading(toks, j, (f - 1) as nat).unwrap();
        lemma_arms_end(toks, skip_comma(toks, ak.1), (f - 1) as nat);
    }
}

/// A statement reading that exists with some fuel is the one with more fuel.
pub(crate) proof fn lemma_stmt_fuel(toks: Seq<Token>, i: int, f: nat, g: nat)
    requires
        f <= g,
        stmt_reading(toks, i, f) is Some,
    ensures
        stmt_reading(toks, i, g) == stmt_reading(toks, i, f),
    decreases f, 1nat,
{
    if toks[i].kind is Let {
        let m: int = if toks[i + 1].kind is Mut { 1 } else { 0 };
        lemma_reading_fuel(toks, i + 3 + m, 0, f, g);
    } else if toks[i].kind is Return {
        if !(toks[i + 1].kind is Semicolon || toks[i + 1].kind is RBrace) {
            lemma_reading_fuel(toks, i + 1, 0, f, g);
        }
    } else if toks[i].kind is If || toks[i].kind is While {
        lemma_reading_fuel(toks, i + 1, 0, f, g);
        let ck = infix_reading(toks, i + 1, 0, f).unwrap();
        lemma_block_fuel(toks, ck.1, (f - 1) as nat, (g - 1) as nat);
        if toks[i].kind is If {
            let k2 = block_reading(toks, ck.1, (f - 1) as nat).unwrap().1;
            if 0 <= k2 && k2 + 1 < toks.len() && toks[k2].kind is Else {
                if toks[k2 + 1].kind is If {
                    lemma_stmt_fuel(toks, k2 + 1, (f - 1) as nat, (g - 1) as nat);
                } else {
                    lemma_block_fuel(toks, k2 + 1, (f - 1) as nat, (g - 1) as nat);
                }
            }
        }
    } else if toks[i].kind is Match {
        lemma_reading_fuel(toks, i + 1, 0, f, g);
        let ck = infix_reading(toks, i + 1, 0, f).unwrap();
        lemma_arms_fuel(toks, ck.1 + 1, (f - 1) as nat, (g - 1) as nat);
    } else if toks[i].kind is Unsafe || toks[i].kind is Spawn {
        lemma_block_fuel(toks, i + 1, (f - 1) as nat, (g - 1) as nat);
    } else {
        lemma_reading_fuel(toks, i, 0, f, g);
        let ek = infix_reading(toks, i, 0, f).unwrap();
        if 0 <= ek.1 < toks.len() && toks[ek.1].kind is Eq {
            lemma_reading_fuel(toks, ek.1 + 1, 0, f, g);
        }
    }
}

/// A block reading that exists with some fuel is the one with more fuel.
pub(crate) proof fn lemma_block_fuel(toks: Seq<Token>, i: int, f: nat, g: nat)
    requires
        f <= g,
        block_reading(toks, i, f) is Some,
    ensures
        block_reading(toks, i, g) == block_reading(toks, i, f),
    decreases f, 2nat,
{
    lemma_stmts_fuel(toks, i + 1, f, g);
}

/// A reading of statements that exists with some fuel is the one with more fuel.
pub(crate) proof fn lemma_stmts_fuel(toks: Seq<Token>, j: int, f: nat, g: nat)
    requires
        f <= g,
        stmts_reading(toks, j, f) is Some,
    ensures
        stmts_reading(toks, j, g) == stmts_reading(toks, j, f),
    decreases f, 0nat,
{
    if 0 <= j < toks.len() && !(toks[j].kind is RBrace) && !(toks[j].kind is EOF) {
        if toks[j].kind is Semicolon || toks[j].kind is DocComment {
            lemma_stmts_fuel(toks, j + 1, (f - 1) as nat, (g - 1) as nat);
        } else {
            lemma_stmt_fuel(toks, j, (f - 1) as nat, (g - 1) as nat);
            let sk = stmt_reading(toks, j, (f - 1) as nat).unwrap();
            lemma_stmts_fuel(toks, skip_semicolon(toks, sk.1), (f - 1) as nat, (g - 1) as nat);
        }
    }
}

/// Any two fuels that give a statement reading give the same one.
pub(crate) proof fn lemma_stmt_unique(toks: Seq<Token>, i: int, f: nat)
    requires
        stmt_reading(toks, i, f) is Some,
    ensures
        forall|g: nat| #[trigger] stmt_reading(toks, i, g) is Some ==> stmt_reading(toks, i, g) == stmt_reading(toks, i, f),
{
    assert forall|g: nat| #[trigger] stmt_reading(toks, i, g) is Some implies stmt_reading(toks, i, g) == stmt_reading(toks, i, f) by {
        if f <= g {
            lemma_stmt_fuel(toks, i, f, g);
        } else {
            lemma_stmt_fuel(toks, i, g, f);
        }
    }
}

/// Any two fuels that give a reading of statements give the same one.
pub(crate) proof fn lemma_stmts_unique(toks: Seq<Token>, j: int, f: nat)
    requires
        stmts_reading(toks, j, f) is Some,
    ensures
        forall|g: nat| #[trigger] stmts_reading(toks, j, g) is Some ==> stmts_reading(toks, j, g) == stmts_reading(toks, j, f),
{
    assert forall|g: nat| #[trigger] stmts_reading(toks, j, g) is Some implies stmts_reading(toks, j, g) == stmts_reading(toks, j, f) by {
        if f <= g {
            lemma_stmts_fuel(toks, j, f, g);
        } else {
            lemma_stmts_fuel(toks, j, g, f);
        }
    }
}

// ---------------------------------------------------------------------------
// Declarations
// ---------------------------------------------------------------------------

/// The name of a plain type at `i`: a lone identifier that no path,
/// generic arguments or `?` continue.
pub open spec fn simple_type(toks: Seq<Token>, i: int) -> Option<Seq<char>> {
    if 0 <= i && i + 1 < toks.len() {
        match toks[i].kind {
            TokenKind::Identifier(id) => {
                let k = toks[i + 1].kind;
                if k is Dot || k is DoubleColon || k is Lt || k is Question {
                    None
                } else {
                    Some(id@)
                }
            },
            _ => None,
        }
    } else {
        None
    }
}

/// The reading of parameters `name: Type, ...)` from `j`, each with a
/// plain type and no default value: the (name, type) pairs and the index
/// after the `)`.
pub open spec fn params_reading(toks: Seq<Token>, j: int) -> Option<(Seq<(Seq<char>, Seq<char>)>, int)>
    decreases toks.len() - j,
{
    if !(0 <= j && j + 3 < toks.len()) {
        if 0 <= j < toks.len() && toks[j].kind is RParen {
            Some((Seq::empty(), j + 1))
        } else {
            None
        }
    } else if toks[j].kind is RParen {
        Some((Seq::empty(), j + 1))
    } else {
        match toks[j].kind {
            TokenKind::Identifier(p) => if toks[j + 1].kind is Colon && simple_type(toks, j + 2) is Some
                && !(toks[j + 3].kind is Eq) {
                let k = if toks[j + 3].kind is Comma { j + 4 } else { j + 3 };
                match params_reading(toks, k) {
                    Some(rest) => Some((seq![(p@, simple_type(toks, j + 2).unwrap())] + rest.0, rest.1)),
                    None => None,
                }
            } else {
                None
            },
            _ => None,
        }
    }
}

/// The shape of a function read from the tokens: name, (name, type)
/// parameters, return type name, body and the index after it.
pub struct FnShape {
    pub name: Seq<char>,
    pub params: Seq<(Seq<char>, Seq<char>)>,
    pub ret: Seq<char>,
    pub body: Seq<StmtShape>,
    pub end: int,
}

/// The reading of `fn name(params) -> Type { body }` at `i` (the return
/// type `void` when no arrow is written), with plain types, no generic
/// parameters and a body that has a [`block_reading`].
pub open spec fn fn_reading(toks: Seq<Token>, i: int, fuel: nat) -> Option<FnShape> {
    if 0 <= i && i + 2 < toks.len() && toks[i].kind is Fn && toks[i + 2].kind is LParen {
        match toks[i + 1].kind {
            TokenKind::Identifier(name) => match params_reading(toks, i + 3) {
                Some(pk) => {
                    let k = pk.1;
                    let arrow = 0 <= k < toks.len() && toks[k].kind is Arrow;
                    let ret = if arrow { simple_type(toks, k + 1) } else { Some("void"@) };
                    let b = if arrow { k + 2 } else { k };
                    if ret is Some && 0 <= b < toks.len() && toks[b].kind is LBrace {
                        match block_reading(toks, b, fuel) {
                            Some(body) => Some(FnShape { name: name@, params: pk.0, ret: ret.unwrap(), body: body.0, end: body.1 }),
                            None => None,
                        }
                    } else {
                        None
                    }
                },
                None => None,
            },
            _ => None,
        }
    } else {
        None
    }
}

/// The (name, type) views of parsed parameters.
pub open spec fn param_views(ps: Seq<(String, String, Option<Box<Expression>>)>) -> Seq<(Seq<char>, Seq<char>)> {
    ps.map_values(|p: (String, String, Option<Box<Expression>>)| (p.0@, p.1@))
}

/// The reading of struct fields `name: Type, ...}` from `j`, each with a
/// plain type: the (name, type) pairs and the index after the `}`.
pub open spec fn fields_reading(toks: Seq<Token>, j: int) -> Option<(Seq<(Seq<char>, Seq<char>)>, int)>
    decreases toks.len() - j,
{
    if !(0 <= j < toks.len()) {
        None
    } else if toks[j].kind is RBrace {
        Some((Seq::empty(), j + 1))
    } else if j + 3 < toks.len() && toks[j + 1].kind is Colon && simple_type(toks, j + 2) is Some {
        match toks[j].kind {
            TokenKind::Identifier(f) => {
                let k = if toks[j + 3].kind is Comma { j + 4 } else { j + 3 };
                match fields_reading(toks, k) {
                    Some(rest) => Some((seq![(f@, simple_type(toks, j + 2).unwrap())] + rest.0, rest.1)),
                    None => None,
                }
            },
            _ => None,
        }
    } else {
        None
    }
}

/// The views of (name, type) pairs.
pub open spec fn pair_views(ps: Seq<(String, String)>) -> Seq<(Seq<char>, Seq<char>)> {
    ps.map_values(|p: (String, String)| (p.0@, p.1@))
}

/// The shape of a declaration read from the tokens.
pub enum DeclShape {
    /// A function.
    Func(FnShape),
    /// A struct: its name, its (field, type) pairs and the index after it.
    Record { name: Seq<char>, fields: Seq<(Seq<char>, Seq<char>)>, end: int },
    /// An enum: its name, its (variant, payload type names) pairs and the
    /// index after it.
    Variants { name: Seq<char>, variants: Seq<(Seq<char>, Seq<Seq<char>>)>, end: int },
}

impl DeclShape {
    /// The index after the declaration.
    pub open spec fn end(self) -> int {
        match self {
            DeclShape::Func(f) => f.end,
            DeclShape::Record { end, .. } => end,
            DeclShape::Variants { end, .. } => end,
        }
    }
}

/// The reading of plain type names `T, U, ...)` from `j`: the names and
/// the index after the `)`.
pub open spec fn types_reading(toks: Seq<Token>, j: int) -> Option<(Seq<Seq<char>>, int)>
    decreases toks.len() - j,
{
    if !(0 <= j < toks.len()) {
        None
    } else if toks[j].kind is RParen {
        Some((Seq::empty(), j + 1))
    } else {
        match simple_type(toks, j) {
            Some(t) => {
                let k = if toks[j + 1].kind is Comma { j + 2 } else { j + 1 };
                match types_reading(toks, k) {
                    Some(rest) => Some((seq![t] + rest.0, rest.1)),
                    None => None,
                }
            },
            None => None,
        }
    }
}

/// The reading of enum variants `A, B(T, U), ...}` from `j`, their payload
/// types plain: the (variant, payload type names) pairs and the index
/// after the `}`.
pub open spec fn variants_reading(toks: Seq<Token>, j: int) -> Option<(Seq<(Seq<char>, Seq<Seq<char>>)>, int)>
    decreases toks.len() - j,
{
    if !(0 <= j < toks.len()) {
        None
    } else if toks[j].kind is RBrace {
        Some((Seq::empty(), j + 1))
    } else {
        match toks[j].kind {
            TokenKind::Identifier(v) => {
                let tk = if j + 1 < toks.len() && toks[j + 1].kind is LParen {
                    types_reading(toks, j + 2)
                } else {
                    Some((Seq::<Seq<char>>::empty(), j + 1))
                };
                match tk {
                    Some(tk) => {
                        let k = if 0 <= tk.1 < toks.len() && toks[tk.1].kind is Comma { tk.1 + 1 } else { tk.1 };
                        if j < k && k <= toks.len() {
                            match variants_reading(toks, k) {
                                Some(rest) => Some((seq![(v@, tk.0)] + rest.0, rest.1)),
                                None => None,
                            }
                        } else {
                            None
                        }
                    },
                    None => None,
                }
            },
            _ => None,
        }
    }
}

/// The reading of `enum Name { Variant, Variant(Type, ...), ... }` at `i`,
/// with plain payload types and no generic parameters.
pub open spec fn enum_reading(toks: Seq<Token>, i: int) -> Option<DeclShape> {
    if 0 <= i && i + 2 < toks.len() && toks[i].kind is Enum && toks[i + 2].kind is LBrace {
        match toks[i + 1].kind {
            TokenKind::Identifier(name) => match variants_reading(toks, i + 3) {
                Some(ve) => Some(DeclShape::Variants { name: name@, variants: ve.0, end: ve.1 }),
                None => None,
            },
            _ => None,
        }
    } else {
        None
    }
}

/// The (name, payload type names) views of parsed enum variants.
pub open spec fn variant_views(vs: Seq<EnumVariant>) -> Seq<(Seq<char>, Seq<Seq<char>>)> {
    vs.map_values(|v: EnumVariant| (v.name@, crate::text::string_views(v.data_types@)))
}

/// The reading of `struct Name { field: Type, ... }` at `i`, with plain
/// field types and no generic parameters.
pub open spec fn struct_reading(toks: Seq<Token>, i: int) -> Option<DeclShape> {
    if 0 <= i && i + 2 < toks.len() && toks[i].kind is Struct && toks[i + 2].kind is LBrace {
        match toks[i + 1].kind {
            TokenKind::Identifier(name) => match fields_reading(toks, i + 3) {
                Some(fe) => Some(DeclShape::Record { name: name@, fields: fe.0, end: fe.1 }),
                None => None,
            },
            _ => None,
        }
    } else {
        None
    }
}

/// The reading of a function, struct or enum declaration at `i` (see
/// [`fn_reading`], [`struct_reading`] and [`enum_reading`]).
pub open spec fn decl_reading(toks: Seq<Token>, i: int, fuel: nat) -> Option<DeclShape> {
    match fn_reading(toks, i, fuel) {
        Some(f) => Some(DeclShape::Func(f)),
        None => match struct_reading(toks, i) {
            Some(st) => Some(st),
            None => enum_reading(toks, i),
        },
    }
}

/// `d` is the declaration `shape` describes, without documentation or
/// attributes.
pub open spec fn decl_matches(d: Declaration, shape: DeclShape) -> bool {
    match shape {
        DeclShape::Func(fs) => d matches Declaration::Function(f) && fn_matches(f, fs) && f.doc_comment is None,
        DeclShape::Record { name, fields, .. } => d matches Declaration::Struct(st) && st.name@ == name
            && st.generic_params@.len() == 0 && pair_views(st.fields@) == fields
            && st.attributes@.len() == 0 && st.doc_comment is None,
        DeclShape::Variants { name, variants, .. } => d matches Declaration::Enum(e) && e.name@ == name
            && e.generic_params@.len() == 0 && variant_views(e.variants@) == variants && e.doc_comment is None,
    }
}

/// A dotted path starting at `i` (a name, then `.name` pairs), and the
/// position after it; an empty path where no name stands at `i`.
pub open spec fn path_at(toks: Seq<Token>, i: int) -> (Seq<Seq<char>>, int) {
    if 0 <= i < toks.len() && crate::parser::ident_of(toks[i]) is Some {
        let (r, e) = crate::parser::path_rest(toks, i + 1);
        (seq![crate::parser::ident_of(toks[i]).unwrap()] + r, e)
    } else {
        (Seq::empty(), i)
    }
}

/// The paths of a list of imports.
pub open spec fn import_paths(imps: Seq<Import>) -> Seq<Seq<Seq<char>>> {
    imps.map_values(|i: Import| crate::text::string_views(i.path@))
}

/// Whether `t` is the word `module`.
pub open spec fn is_module_word(t: Token) -> bool {
    t.kind matches TokenKind::Identifier(id) && id@ == "module"@
}

/// What a program spells out from `j` to the end: the shape of each
/// declaration in order, the last `module a.b;` name (joined with `.`),
/// and the path of each `use a.b.c;`, in order.
pub open spec fn program_items(toks: Seq<Token>, j: int, fuel: nat)
    -> Option<(Seq<DeclShape>, Option<Seq<char>>, Seq<Seq<Seq<char>>>)>
    decreases fuel,
{
    if !(0 <= j < toks.len()) || fuel == 0 {
        None
    } else if toks[j].kind is EOF {
        Some((Seq::empty(), None, Seq::empty()))
    } else if is_module_word(toks[j]) {
        let pe = path_at(toks, j + 1);
        let e = skip_semicolon(toks, pe.1);
        if e > j {
            match program_items(toks, e, (fuel - 1) as nat) {
                Some(rest) => Some((rest.0, if rest.1 is Some { rest.1 } else { Some(join_seqs(pe.0, "."@)) }, rest.2)),
                None => None,
            }
        } else {
            None
        }
    } else if toks[j].kind is Use {
        let pe = path_at(toks, j + 1);
        let e = skip_semicolon(toks, pe.1);
        if e > j {
            match program_items(toks, e, (fuel - 1) as nat) {
                Some(rest) => Some((rest.0, rest.1, seq![pe.0] + rest.2)),
                None => None,
            }
        } else {
            None
        }
    } else {
        match decl_reading(toks, j, (fuel - 1) as nat) {
            Some(sh) => if sh.end() > j {
                match program_items(toks, sh.end(), (fuel - 1) as nat) {
                    Some(rest) => Some((seq![sh] + rest.0, rest.1, rest.2)),
                    None => None,
                }
            } else {
                None
            },
            None => None,
        }
    }
}

/// A program reading that exists with some fuel is the one with more fuel.
pub(crate) proof fn lemma_program_fuel(toks: Seq<Token>, j: int, f: nat, g: nat)
    requires
        f <= g,
        program_items(toks, j, f) is Some,
    ensures
        program_items(toks, j, g) == program_items(toks, j, f),
    decreases f,
{
    if !(toks[j].kind is EOF) {
        if is_module_word(toks[j]) || toks[j].kind is Use {
            let e = skip_semicolon(toks, path_at(toks, j + 1).1);
            lemma_program_fuel(toks, e, (f - 1) as nat, (g - 1) as nat);
        } else {
            lemma_decl_fuel(toks, j, (f - 1) as nat, (g - 1) as nat);
            let sh = decl_reading(toks, j, (f - 1) as nat).unwrap();
            lemma_program_fuel(toks, sh.end(), (f - 1) as nat, (g - 1) as nat);
        }
    }
}

/// `decls` are the declarations `shapes` describe, in order.
pub open spec fn decls_match(decls: Seq<Declaration>, shapes: Seq<DeclShape>) -> bool {
    &&& decls.len() == shapes.len()
    &&& forall|i: int| 0 <= i < decls.len() ==> decl_matches(#[trigger] decls[i], shapes[i])
}

/// A declaration reading that exists with some fuel is the one with more fuel.
pub(crate) proof fn lemma_decl_fuel(toks: Seq<Token>, i: int, f: nat, g: nat)
    requires
        f <= g,
        decl_reading(toks, i, f) is Some,
    ensures
        decl_reading(toks, i, g) == decl_reading(toks, i, f),
{
    if fn_reading(toks, i, f) is Some {
        lemma_fn_fuel(toks, i, f, g);
    } else {
        assert(toks[i].kind is Struct || toks[i].kind is Enum);
        assert(fn_reading(toks, i, g) is None);
    }
}

/// A function reading that exists with some fuel is the one with more fuel.
pub(crate) proof fn lemma_fn_fuel(toks: Seq<Token>, i: int, f: nat, g: nat)
    requires
        f <= g,
        fn_reading(toks, i, f) is Some,
    ensures
        fn_reading(toks, i, g) == fn_reading(toks, i, f),
{
    let pk = params_reading(toks, i + 3).unwrap();
    let k = pk.1;
    let arrow = 0 <= k < toks.len() && toks[k].kind is Arrow;
    let b = if arrow { k + 2 } else { k };
    lemma_block_fuel(toks, b, f, g);
}

/// Any two fuels that give a function reading give the same one.
pub(crate) proof fn lemma_fn_unique(toks: Seq<Token>, i: int, f: nat)
    requires
        fn_reading(toks, i, f) is Some,
    ensures
        forall|g: nat| #[trigger] fn_reading(toks, i, g) is Some ==> fn_reading(toks, i, g) == fn_reading(toks, i, f),
{
    assert forall|g: nat| #[trigger] fn_reading(toks, i, g) is Some implies fn_reading(toks, i, g) == fn_reading(toks, i, f) by {
        if f <= g {
            lemma_fn_fuel(toks, i, f, g);
        } else {
            lemma_fn_fuel(toks, i, g, f);
        }
    }
}

/// `f` is the function `shape` describes.
pub open spec fn fn_matches(f: Function, shape: FnShape) -> bool {
    &&& f.name@ == shape.name
    &&& f.generic_params@.len() == 0
    &&& param_views(f.params@) == shape.params
    &&& forall|i: int| 0 <= i < f.params@.len() ==> (#[trigger] f.params@[i]).2 is None
    &&& f.return_type@ == shape.ret
    &&& f.body matches Some(b) && stmts_match(b@, shape.body)
}

} // verus!
