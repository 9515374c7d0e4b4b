//! Debug notation of syntax trees, as `{:?}` writes them.

use vstd::prelude::*;
use super::{Expression, MatchArm, Span, Statement};
use crate::text::{int_text, join_seqs, lemma_join_take, nat_text, push_slice, push_str_chars, string_from_chars, i64_text, usize_text};
use crate::token::{char_debug, char_debug_text, push_unit_name, str_debug, str_debug_text, token_debug_text, unit_name};

verus! {

/// `true` or `false`.
pub open spec fn bool_debug(b: bool) -> Seq<char> {
    if b {
        "true"@
    } else {
        "false"@
    }
}

/// Debug notation of a position.
pub open spec fn span_debug(s: Span) -> Seq<char> {
    "Span { line: "@ + nat_text(s.line as nat) + ", col: "@ + nat_text(s.col as nat) + " }"@
}

/// Debug notation of a list of strings: `["a", "b"]`.
pub open spec fn strings_debug(v: Seq<String>) -> Seq<char> {
    "["@ + join_seqs(v.map_values(|s: String| str_debug_text(s@)), ", "@) + "]"@
}

/// Debug notation of an optional string.
pub open spec fn opt_string_debug(o: Option<String>) -> Seq<char> {
    match o {
        Some(s) => "Some("@ + str_debug_text(s@) + ")"@,
        None => "None"@,
    }
}

/// Debug notation of an expression.
pub open spec fn expr_debug(e: Expression) -> Seq<char>
    decreases e, 0nat,
{
    match e {
        Expression::Integer(n, sp) => "Integer("@ + int_text(n as int) + ", "@ + span_debug(sp) + ")"@,
        Expression::Float(t, sp) => "Float("@ + str_debug_text(t@) + ", "@ + span_debug(sp) + ")"@,
        Expression::Char(c, sp) => "Char("@ + char_debug_text(c) + ", "@ + span_debug(sp) + ")"@,
        Expression::String(s, sp) => "String("@ + str_debug_text(s@) + ", "@ + span_debug(sp) + ")"@,
        Expression::Duration(t, u, sp) => "Duration("@ + str_debug_text(t@) + ", "@ + unit_name(u) + ", "@ + span_debug(sp)
            + ")"@,
        Expression::Date(n, sp) => "Date("@ + int_text(n as int) + ", "@ + span_debug(sp) + ")"@,
        Expression::Identifier(s, sp) => "Identifier("@ + str_debug_text(s@) + ", "@ + span_debug(sp) + ")"@,
        Expression::Boolean(b, sp) => "Boolean("@ + bool_debug(b) + ", "@ + span_debug(sp) + ")"@,
        Expression::Infix { left, operator, right, span } => "Infix { left: "@ + expr_debug(*left) + ", operator: "@
            + token_debug_text(operator) + ", right: "@ + expr_debug(*right) + ", span: "@ + span_debug(span) + " }"@,
        Expression::Call { function, generic_args, arguments, span } => "Call { function: "@ + str_debug_text(function@)
            + ", generic_args: "@ + strings_debug(generic_args@) + ", arguments: "@ + exprs_debug(arguments@) + ", span: "@
            + span_debug(span) + " }"@,
        Expression::StructInst { name, generic_args, fields, span } => "StructInst { name: "@ + str_debug_text(name@)
            + ", generic_args: "@ + strings_debug(generic_args@) + ", fields: "@ + fields_debug(fields@) + ", span: "@
            + span_debug(span) + " }"@,
        Expression::Range { start, end, span } => "Range { start: "@ + expr_debug(*start) + ", end: "@ + expr_debug(*end)
            + ", span: "@ + span_debug(span) + " }"@,
        Expression::Block { statements, is_unsafe, span } => "Block { statements: "@ + stmts_debug(statements@)
            + ", is_unsafe: "@ + bool_debug(is_unsafe) + ", span: "@ + span_debug(span) + " }"@,
        Expression::If { condition, then_branch, else_branch, span } => "If { condition: "@ + expr_debug(*condition)
            + ", then_branch: "@ + stmts_debug(then_branch@) + ", else_branch: "@ + match else_branch {
            Some(eb) => "Some("@ + stmts_debug(eb@) + ")"@,
            None => "None"@,
        } + ", span: "@ + span_debug(span) + " }"@,
        Expression::Deref { expr, span } => "Deref { expr: "@ + expr_debug(*expr) + ", span: "@ + span_debug(span) + " }"@,
        Expression::Cast { expr, target, span } => "Cast { expr: "@ + expr_debug(*expr) + ", target: "@ + str_debug_text(target@)
            + ", span: "@ + span_debug(span) + " }"@,
        Expression::Intrinsic { name, arguments, span } => "Intrinsic { name: "@ + str_debug_text(name@) + ", arguments: "@
            + exprs_debug(arguments@) + ", span: "@ + span_debug(span) + " }"@,
        Expression::EnumInst { name, variant, generic_args, arguments, span } => "EnumInst { name: "@ + str_debug_text(name@)
            + ", variant: "@ + str_debug_text(variant@) + ", generic_args: "@ + strings_debug(generic_args@)
            + ", arguments: "@ + exprs_debug(arguments@) + ", span: "@ + span_debug(span) + " }"@,
        Expression::MemberAccess { receiver, member, span } => "MemberAccess { receiver: "@ + expr_debug(*receiver)
            + ", member: "@ + str_debug_text(member@) + ", span: "@ + span_debug(span) + " }"@,
        Expression::MethodCall { receiver, method, generic_args, arguments, span } => "MethodCall { receiver: "@
            + expr_debug(*receiver) + ", method: "@ + str_debug_text(method@) + ", generic_args: "@ + strings_debug(generic_args@)
            + ", arguments: "@ + exprs_debug(arguments@) + ", span: "@ + span_debug(span) + " }"@,
        Expression::TypeRef { name, generic_args, span } => "TypeRef { name: "@ + str_debug_text(name@) + ", generic_args: "@
            + strings_debug(generic_args@) + ", span: "@ + span_debug(span) + " }"@,
        Expression::Match { condition, arms, span } => "Match { condition: "@ + expr_debug(*condition) + ", arms: "@
            + arms_debug(arms@) + ", span: "@ + span_debug(span) + " }"@,
    }
}

/// Debug notation of each expression of a sequence.
pub open spec fn expr_parts(es: Seq<Expression>) -> Seq<Seq<char>>
    decreases es, 0nat,
{
    Seq::new(es.len(), |i: int| if 0 <= i < es.len() { expr_debug(es[i]) } else { Seq::empty() })
}

/// Debug notation of a list of expressions.
pub open spec fn exprs_debug(es: Seq<Expression>) -> Seq<char>
    decreases es, 1nat,
{
    "["@ + join_seqs(expr_parts(es), ", "@) + "]"@
}

/// Debug notation of each (name, value) field of a struct literal.
pub open spec fn field_parts(fs: Seq<(String, Expression)>) -> Seq<Seq<char>>
    decreases fs, 0nat,
{
    Seq::new(fs.len(), |i: int| if 0 <= i < fs.len() {
        "("@ + str_debug_text(fs[i].0@) + ", "@ + expr_debug(fs[i].1) + ")"@
    } else {
        Seq::empty()
    })
}

/// Debug notation of the fields of a struct literal.
pub open spec fn fields_debug(fs: Seq<(String, Expression)>) -> Seq<char>
    decreases fs, 1nat,
{
    "["@ + join_seqs(field_parts(fs), ", "@) + "]"@
}

/// Debug notation of a statement.
pub open spec fn stmt_debug(s: Statement) -> Seq<char>
    decreases s, 0nat,
{
    match s {
        Statement::Let { name, value, explicit_type, intent, is_mut, span } => "Let { name: "@ + str_debug_text(name@)
            + ", value: "@ + expr_debug(value) + ", explicit_type: "@ + opt_string_debug(explicit_type) + ", intent: "@
            + opt_string_debug(intent) + ", is_mut: "@ + bool_debug(is_mut) + ", span: "@ + span_debug(span) + " }"@,
        Statement::Return { value, intent, span } => "Return { value: "@ + expr_debug(value) + ", intent: "@
            + opt_string_debug(intent) + ", span: "@ + span_debug(span) + " }"@,
        Statement::ExpressionStmt(e, sp) => "ExpressionStmt("@ + expr_debug(e) + ", "@ + span_debug(sp) + ")"@,
        Statement::If { condition, then_branch, else_branch, span } => "If { condition: "@ + expr_debug(condition)
            + ", then_branch: "@ + stmts_debug(then_branch@) + ", else_branch: "@ + match else_branch {
            Some(eb) => "Some("@ + stmts_debug(eb@) + ")"@,
            None => "None"@,
        } + ", span: "@ + span_debug(span) + " }"@,
        Statement::Assignment { target, value, span } => "Assignment { target: "@ + expr_debug(target) + ", value: "@
            + expr_debug(value) + ", span: "@ + span_debug(span) + " }"@,
        Statement::While { condition, body, span } => "While { condition: "@ + expr_debug(condition) + ", body: "@
            + stmts_debug(body@) + ", span: "@ + span_debug(span) + " }"@,
        Statement::For { var, range, body, span } => "For { var: "@ + str_debug_text(var@) + ", range: "@ + expr_debug(range)
            + ", body: "@ + stmts_debug(body@) + ", span: "@ + span_debug(span) + " }"@,
        Statement::Spawn(b, sp) => "Spawn("@ + stmts_debug(b@) + ", "@ + span_debug(sp) + ")"@,
        Statement::Match { condition, arms, span } => "Match { condition: "@ + expr_debug(condition) + ", arms: "@
            + arms_debug(arms@) + ", span: "@ + span_debug(span) + " }"@,
        Statement::UnsafeBlock(b, sp) => "UnsafeBlock("@ + stmts_debug(b@) + ", "@ + span_debug(sp) + ")"@,
        Statement::Break(sp) => "Break("@ + span_debug(sp) + ")"@,
        Statement::Continue(sp) => "Continue("@ + span_debug(sp) + ")"@,
        Statement::NoOp => "NoOp"@,
    }
}

/// Debug notation of each statement of a sequence.
pub open spec fn stmt_parts(ss: Seq<Statement>) -> Seq<Seq<char>>
    decreases ss, 0nat,
{
    Seq::new(ss.len(), |i: int| if 0 <= i < ss.len() { stmt_debug(ss[i]) } else { Seq::empty() })
}

/// Debug notation of a list of statements.
pub open spec fn stmts_debug(ss: Seq<Statement>) -> Seq<char>
    decreases ss, 1nat,
{
    "["@ + join_seqs(stmt_parts(ss), ", "@) + "]"@
}

/// Debug notation of a match arm.
pub open spec fn arm_debug(a: MatchArm) -> Seq<char>
    decreases a, 0nat,
{
    "MatchArm { pattern: "@ + str_debug_text(a.pattern@) + ", patterns: "@ + strings_debug(a.patterns@) + ", guard: "@
        + match a.guard {
        Some(g) => "Some("@ + expr_debug(*g) + ")"@,
        None => "None"@,
    } + ", params: "@ + strings_debug(a.params@) + ", body: "@ + stmts_debug(a.body@) + " }"@
}

/// Debug notation of each arm of a sequence.
pub open spec fn arm_parts(arms: Seq<MatchArm>) -> Seq<Seq<char>>
    decreases arms, 0nat,
{
    Seq::new(arms.len(), |i: int| if 0 <= i < arms.len() { arm_debug(arms[i]) } else { Seq::empty() })
}

/// Debug notation of a list of match arms.
pub open spec fn arms_debug(arms: Seq<MatchArm>) -> Seq<char>
    decreases arms, 1nat,
{
    "["@ + join_seqs(arm_parts(arms), ", "@) + "]"@
}

// ---------------------------------------------------------------------------
// Writing the notation
// ---------------------------------------------------------------------------

fn push_bool(v: &mut Vec<char>, b: bool)
    ensures
        final(v)@ == old(v)@ + bool_debug(b),
{
    if b {
        push_str_chars(v, "true");
    } else {
        push_str_chars(v, "false");
    }
}

fn push_str_debug(v: &mut Vec<char>, s: &String)
    ensures
        final(v)@ == old(v)@ + str_debug_text(s@),
{
    let d = str_debug(s.as_str());
    push_str_chars(v, d.as_str());
}

fn push_span(v: &mut Vec<char>, s: Span)
    ensures
        final(v)@ == old(v)@ + span_debug(s),
{
    let ghost start = v@;
    push_str_chars(v, "Span { line: ");
    let l = usize_text(s.line);
    push_slice(v, &l);
    push_str_chars(v, ", col: ");
    let c = usize_text(s.col);
    push_slice(v, &c);
    push_str_chars(v, " }");
    assert(v@ =~= start + span_debug(s));
}

fn push_strings(v: &mut Vec<char>, ss: &Vec<String>)
    ensures
        final(v)@ == old(v)@ + strings_debug(ss@),
{
    let ghost start = v@;
    let ghost parts = ss@.map_values(|s: String| str_debug_text(s@));
    push_str_chars(v, "[");
    let ghost head = v@;
    let mut i: usize = 0;
    while i < ss.len()
        invariant
            i <= ss@.len(),
            parts == ss@.map_values(|s: String| str_debug_text(s@)),
            v@ == head + join_seqs(parts.take(i as int), ", "@),
        decreases ss@.len() - i,
    {
        proof { lemma_join_take(parts, ", "@, i as int); }
        if i > 0 {
            push_str_chars(v, ", ");
        }
        push_str_debug(v, &ss[i]);
        i = i + 1;
        proof {
            assert(v@ =~= head + join_seqs(parts.take(i as int), ", "@));
        }
    }
    assert(parts.take(ss@.len() as int) =~= parts);
    push_str_chars(v, "]");
    assert(v@ =~= start + strings_debug(ss@));
}

fn push_opt_string(v: &mut Vec<char>, o: &Option<String>)
    ensures
        final(v)@ == old(v)@ + opt_string_debug(*o),
{
    match o {
        Some(s) => {
            let ghost start = v@;
            push_str_chars(v, "Some(");
            push_str_debug(v, s);
            push_str_chars(v, ")");
            assert(v@ =~= start + opt_string_debug(*o));
        },
        None => push_str_chars(v, "None"),
    }
}

fn push_exprs(v: &mut Vec<char>, es: &Vec<Expression>)
    ensures
        final(v)@ == old(v)@ + exprs_debug(es@),
    decreases es@, 1nat,
{
    let ghost start = v@;
    let ghost parts = expr_parts(es@);
    push_str_chars(v, "[");
    let ghost head = v@;
    let mut i: usize = 0;
    while i < es.len()
        invariant
            i <= es@.len(),
            parts == expr_parts(es@),
            v@ == head + join_seqs(parts.take(i as int), ", "@),
        decreases es@.len() - i,
    {
        proof { lemma_join_take(parts, ", "@, i as int); }
        if i > 0 {
            push_str_chars(v, ", ");
        }
        push_expr(v, &es[i]);
        i = i + 1;
        proof {
            assert(v@ =~= head + join_seqs(parts.take(i as int), ", "@));
        }
    }
    assert(parts.take(es@.len() as int) =~= parts);
    push_str_chars(v, "]");
    assert(v@ =~= start + exprs_debug(es@));
}

fn push_fields(v: &mut Vec<char>, fs: &Vec<(String, Expression)>)
    ensures
        final(v)@ == old(v)@ + fields_debug(fs@),
    decreases fs@, 1nat,
{
    let ghost start = v@;
    let ghost parts = field_parts(fs@);
    push_str_chars(v, "[");
    let ghost head = v@;
    let mut i: usize = 0;
    while i < fs.len()
        invariant
            i <= fs@.len(),
            parts == field_parts(fs@),
            v@ == head + join_seqs(parts.take(i as int), ", "@),
        decreases fs@.len() - i,
    {
        proof { lemma_join_take(parts, ", "@, i as int); }
        if i > 0 {
            push_str_chars(v, ", ");
        }
        let ghost before = v@;
        push_str_chars(v, "(");
        push_str_debug(v, &fs[i].0);
        push_str_chars(v, ", ");
        push_expr(v, &fs[i].1);
        push_str_chars(v, ")");
        assert(v@ =~= before + parts[i as int]);
        i = i + 1;
        proof {
            assert(v@ =~= head + join_seqs(parts.take(i as int), ", "@));
        }
    }
    assert(parts.take(fs@.len() as int) =~= parts);
    push_str_chars(v, "]");
    assert(v@ =~= start + fields_debug(fs@));
}

fn push_stmts(v: &mut Vec<char>, ss: &Vec<Statement>)
    ensures
        final(v)@ == old(v)@ + stmts_debug(ss@),
    decreases ss@, 1nat,
{
    let ghost start = v@;
    let ghost parts = stmt_parts(ss@);
    push_str_chars(v, "[");
    let ghost head = v@;
    let mut i: usize = 0;
    while i < ss.len()
        invariant
            i <= ss@.len(),
            parts == stmt_parts(ss@),
            v@ == head + join_seqs(parts.take(i as int), ", "@),
        decreases ss@.len() - i,
    {
        proof { lemma_join_take(parts, ", "@, i as int); }
        if i > 0 {
            push_str_chars(v, ", ");
        }
        push_stmt(v, &ss[i]);
        i = i + 1;
        proof {
            assert(v@ =~= head + join_seqs(parts.take(i as int), ", "@));
        }
    }
    assert(parts.take(ss@.len() as int) =~= parts);
    push_str_chars(v, "]");
    assert(v@ =~= start + stmts_debug(ss@));
}

fn push_arms(v: &mut Vec<char>, arms: &Vec<MatchArm>)
    ensures
        final(v)@ == old(v)@ + arms_debug(arms@),
    decreases arms@, 1nat,
{
    let ghost start = v@;
    let ghost parts = arm_parts(arms@);
    push_str_chars(v, "[");
    let ghost head = v@;
    let mut i: usize = 0;
    while i < arms.len()
        invariant
            i <= arms@.len(),
            parts == arm_parts(arms@),
            v@ == head + join_seqs(parts.take(i as int), ", "@),
        decreases arms@.len() - i,
    {
        proof { lemma_join_take(parts, ", "@, i as int); }
        if i > 0 {
            push_str_chars(v, ", ");
        }
        push_arm(v, &arms[i]);
        i = i + 1;
        proof {
            assert(v@ =~= head + join_seqs(parts.take(i as int), ", "@));
        }
    }
    assert(parts.take(arms@.len() as int) =~= parts);
    push_str_chars(v, "]");
    assert(v@ =~= start + arms_debug(arms@));
}

fn push_opt_block(v: &mut Vec<char>, o: &Option<Vec<Statement>>)
    ensures
        final(v)@ == old(v)@ + match *o {
            Some(eb) => "Some("@ + stmts_debug(eb@) + ")"@,
            None => "None"@,
        },
    decreases *o, 2nat,
{
    let ghost start = v@;
    match o {
        Some(eb) => {
            push_str_chars(v, "Some(");
            push_stmts(v, eb);
            push_str_chars(v, ")");
        },
        None => push_str_chars(v, "None"),
    }
    assert(v@ =~= start + match *o {
        Some(eb) => "Some("@ + stmts_debug(eb@) + ")"@,
        None => "None"@,
    });
}

fn push_arm(v: &mut Vec<char>, a: &MatchArm)
    ensures
        final(v)@ == old(v)@ + arm_debug(*a),
    decreases *a, 0nat,
{
    let ghost start = v@;
    push_str_chars(v, "MatchArm { pattern: ");
    push_str_debug(v, &a.pattern);
    push_str_chars(v, ", patterns: ");
    push_strings(v, &a.patterns);
    push_str_chars(v, ", guard: ");
    match &a.guard {
        Some(g) => {
            push_str_chars(v, "Some(");
            push_expr(v, g);
            push_str_chars(v, ")");
        },
        None => push_str_chars(v, "None"),
    }
    push_str_chars(v, ", params: ");
    push_strings(v, &a.params);
    push_str_chars(v, ", body: ");
    push_stmts(v, &a.body);
    push_str_chars(v, " }");
    assert(v@ =~= start + arm_debug(*a));
}

#[verifier::rlimit(100)]
fn push_let_stmt(v: &mut Vec<char>, s: &Statement)
    requires
        *s is Let,
    ensures
        final(v)@ == old(v)@ + stmt_debug(*s),
    decreases *s, 0nat,
{
    let ghost start = v@;
    match s {
        Statement::Let { name, value, explicit_type, intent, is_mut, span } => {
            push_str_chars(v, "Let { name: ");
            push_str_debug(v, name);
            push_str_chars(v, ", value: ");
            push_expr(v, value);
            push_str_chars(v, ", explicit_type: ");
            push_opt_string(v, explicit_type);
            push_str_chars(v, ", intent: ");
            push_opt_string(v, intent);
            push_str_chars(v, ", is_mut: ");
            push_bool(v, *is_mut);
            push_str_chars(v, ", span: ");
            push_span(v, *span);
            push_str_chars(v, " }");
            assert(v@ =~= start + stmt_debug(*s));
        },
        _ => {},
    }
}

#[verifier::rlimit(100)]
fn push_return_stmt(v: &mut Vec<char>, s: &Statement)
    requires
        *s is Return,
    ensures
        final(v)@ == old(v)@ + stmt_debug(*s),
    decreases *s, 0nat,
{
    let ghost start = v@;
    match s {
        Statement::Return { value, intent, span } => {
            push_str_chars(v, "Return { value: ");
            push_expr(v, value);
            push_str_chars(v, ", intent: ");
            push_opt_string(v, intent);
            push_str_chars(v, ", span: ");
            push_span(v, *span);
            push_str_chars(v, " }");
            assert(v@ =~= start + stmt_debug(*s));
        },
        _ => {},
    }
}

#[verifier::rlimit(100)]
fn push_expression_stmt_stmt(v: &mut Vec<char>, s: &Statement)
    requires
        *s is ExpressionStmt,
    ensures
        final(v)@ == old(v)@ + stmt_debug(*s),
    decreases *s, 0nat,
{
    let ghost start = v@;
    match s {
        Statement::ExpressionStmt(e, sp) => {
            push_str_chars(v, "ExpressionStmt(");
            push_expr(v, e);
            push_str_chars(v, ", ");
            push_span(v, *sp);
            push_str_chars(v, ")");
            assert(v@ =~= start + stmt_debug(*s));
        },
        _ => {},
    }
}

#[verifier::rlimit(100)]
fn push_if_stmt(v: &mut Vec<char>, s: &Statement)
    requires
        *s is If,
    ensures
        final(v)@ == old(v)@ + stmt_debug(*s),
    decreases *s, 0nat,
{
    let ghost start = v@;
    match s {
        Statement::If { condition, then_branch, else_branch, span } => {
            push_str_chars(v, "If { condition: ");
            push_expr(v, condition);
            push_str_chars(v, ", then_branch: ");
            push_stmts(v, then_branch);
            push_str_chars(v, ", else_branch: ");
            push_opt_block(v, else_branch);
            push_str_chars(v, ", span: ");
            push_span(v, *span);
            push_str_chars(v, " }");
            assert(v@ =~= start + stmt_debug(*s));
        },
        _ => {},
    }
}

#[verifier::rlimit(100)]
fn push_assignment_stmt(v: &mut Vec<char>, s: &Statement)
    requires
        *s is Assignment,
    ensures
        final(v)@ == old(v)@ + stmt_debug(*s),
    decreases *s, 0nat,
{
    let ghost start = v@;
    match s {
        Statement::Assignment { target, value, span } => {
            push_str_chars(v, "Assignment { target: ");
            push_expr(v, target);
            push_str_chars(v, ", value: ");
            push_expr(v, value);
            push_str_chars(v, ", span: ");
            push_span(v, *span);
            push_str_chars(v, " }");
            assert(v@ =~= start + stmt_debug(*s));
        },
        _ => {},
    }
}

#[verifier::rlimit(100)]
fn push_while_stmt(v: &mut Vec<char>, s: &Statement)
    requires
        *s is While,
    ensures
        final(v)@ == old(v)@ + stmt_debug(*s),
    decreases *s, 0nat,
{
    let ghost start = v@;
    match s {
        Statement::While { condition, body, span } => {
            push_str_chars(v, "While { condition: ");
            push_expr(v, condition);
            push_str_chars(v, ", body: ");
            push_stmts(v, body);
            push_str_chars(v, ", span: ");
            push_span(v, *span);
            push_str_chars(v, " }");
            assert(v@ =~= start + stmt_debug(*s));
        },
        _ => {},
    }
}

#[verifier::rlimit(100)]
fn push_for_stmt(v: &mut Vec<char>, s: &Statement)
    requires
        *s is For,
    ensures
        final(v)@ == old(v)@ + stmt_debug(*s),
    decreases *s, 0nat,
{
    let ghost start = v@;
    match s {
        Statement::For { var, range, body, span } => {
            push_str_chars(v, "For { var: ");
            push_str_debug(v, var);
            push_str_chars(v, ", range: ");
            push_expr(v, range);
            push_str_chars(v, ", body: ");
            push_stmts(v, body);
            push_str_chars(v, ", span: ");
            push_span(v, *span);
            push_str_chars(v, " }");
            assert(v@ =~= start + stmt_debug(*s));
        },
        _ => {},
    }
}

#[verifier::rlimit(100)]
fn push_spawn_stmt(v: &mut Vec<char>, s: &Statement)
    requires
        *s is Spawn,
    ensures
        final(v)@ == old(v)@ + stmt_debug(*s),
    decreases *s, 0nat,
{
    let ghost start = v@;
    match s {
        Statement::Spawn(b, sp) => {
            push_str_chars(v, "Spawn(");
            push_stmts(v, b);
            push_str_chars(v, ", ");
            push_span(v, *sp);
            push_str_chars(v, ")");
            assert(v@ =~= start + stmt_debug(*s));
        },
        _ => {},
    }
}

#[verifier::rlimit(100)]
fn push_match_stmt(v: &mut Vec<char>, s: &Statement)
    requires
        *s is Match,
    ensures
        final(v)@ == old(v)@ + stmt_debug(*s),
    decreases *s, 0nat,
{
    let ghost start = v@;
    match s {
        Statement::Match { condition, arms, span } => {
            push_str_chars(v, "Match { condition: ");
            push_expr(v, condition);
            push_str_chars(v, ", arms: ");
            push_arms(v, arms);
            push_str_chars(v, ", span: ");
            push_span(v, *span);
            push_str_chars(v, " }");
            assert(v@ =~= start + stmt_debug(*s));
        },
        _ => {},
    }
}

#[verifier::rlimit(100)]
fn push_unsafe_block_stmt(v: &mut Vec<char>, s: &Statement)
    requires
        *s is UnsafeBlock,
    ensures
        final(v)@ == old(v)@ + stmt_debug(*s),
    decreases *s, 0nat,
{
    let ghost start = v@;
    match s {
        Statement::UnsafeBlock(b, sp) => {
            push_str_chars(v, "UnsafeBlock(");
            push_stmts(v, b);
            push_str_chars(v, ", ");
            push_span(v, *sp);
            push_str_chars(v, ")");
            assert(v@ =~= start + stmt_debug(*s));
        },
        _ => {},
    }
}

#[verifier::rlimit(100)]
fn push_jump_stmt(v: &mut Vec<char>, s: &Statement)
    requires
        *s is Break || *s is Continue || *s is NoOp,
    ensures
        final(v)@ == old(v)@ + stmt_debug(*s),
    decreases *s, 0nat,
{
    let ghost start = v@;
    match s {
        Statement::Break(sp) => {
            push_str_chars(v, "Break(");
            push_span(v, *sp);
            push_str_chars(v, ")");
            assert(v@ =~= start + stmt_debug(*s));
        },
        Statement::Continue(sp) => {
            push_str_chars(v, "Continue(");
            push_span(v, *sp);
            push_str_chars(v, ")");
            assert(v@ =~= start + stmt_debug(*s));
        },
        Statement::NoOp => push_str_chars(v, "NoOp"),
        _ => {},
    }
}

fn push_stmt(v: &mut Vec<char>, s: &Statement)
    ensures
        final(v)@ == old(v)@ + stmt_debug(*s),
    decreases *s, 1nat,
{
    match s {
        Statement::Let { .. } => push_let_stmt(v, s),
        Statement::Return { .. } => push_return_stmt(v, s),
        Statement::ExpressionStmt { .. } => push_expression_stmt_stmt(v, s),
        Statement::If { .. } => push_if_stmt(v, s),
        Statement::Assignment { .. } => push_assignment_stmt(v, s),
        Statement::While { .. } => push_while_stmt(v, s),
        Statement::For { .. } => push_for_stmt(v, s),
        Statement::Spawn { .. } => push_spawn_stmt(v, s),
        Statement::Match { .. } => push_match_stmt(v, s),
        Statement::UnsafeBlock { .. } => push_unsafe_block_stmt(v, s),
        Statement::Break { .. } | Statement::Continue { .. } | Statement::NoOp => push_jump_stmt(v, s),
    }
}

#[verifier::rlimit(100)]
fn push_literal_expr(v: &mut Vec<char>, e: &Expression)
    requires
        *e is Integer || *e is Float || *e is Char || *e is String,
    ensures
        final(v)@ == old(v)@ + expr_debug(*e),
    decreases *e, 0nat,
{
    let ghost start = v@;
    match e {
        Expression::Integer(n, sp) => {
            push_str_chars(v, "Integer(");
            let d = i64_text(*n);
            push_slice(v, &d);
            push_str_chars(v, ", ");
            push_span(v, *sp);
            push_str_chars(v, ")");
            assert(v@ =~= start + expr_debug(*e));
        },
        Expression::Float(t, sp) => {
            push_str_chars(v, "Float(");
            push_str_debug(v, t);
            push_str_chars(v, ", ");
            push_span(v, *sp);
            push_str_chars(v, ")");
            assert(v@ =~= start + expr_debug(*e));
        },
        Expression::Char(c, sp) => {
            push_str_chars(v, "Char(");
            let d = char_debug(*c);
            push_str_chars(v, d.as_str());
            push_str_chars(v, ", ");
            push_span(v, *sp);
            push_str_chars(v, ")");
            assert(v@ =~= start + expr_debug(*e));
        },
        Expression::String(s, sp) => {
            push_str_chars(v, "String(");
            push_str_debug(v, s);
            push_str_chars(v, ", ");
            push_span(v, *sp);
            push_str_chars(v, ")");
            assert(v@ =~= start + expr_debug(*e));
        },
        _ => {},
    }
}

#[verifier::rlimit(100)]
fn push_atom_expr(v: &mut Vec<char>, e: &Expression)
    requires
        *e is Duration || *e is Date || *e is Identifier || *e is Boolean,
    ensures
        final(v)@ == old(v)@ + expr_debug(*e),
    decreases *e, 0nat,
{
    let ghost start = v@;
    match e {
        Expression::Duration(t, u, sp) => {
            push_str_chars(v, "Duration(");
            push_str_debug(v, t);
            push_str_chars(v, ", ");
            push_unit_name(v, *u);
            push_str_chars(v, ", ");
            push_span(v, *sp);
            push_str_chars(v, ")");
            assert(v@ =~= start + expr_debug(*e));
        },
        Expression::Date(n, sp) => {
            push_str_chars(v, "Date(");
            let d = i64_text(*n);
            push_slice(v, &d);
            push_str_chars(v, ", ");
            push_span(v, *sp);
            push_str_chars(v, ")");
            assert(v@ =~= start + expr_debug(*e));
        },
        Expression::Identifier(s, sp) => {
            push_str_chars(v, "Identifier(");
            push_str_debug(v, s);
            push_str_chars(v, ", ");
            push_span(v, *sp);
            push_str_chars(v, ")");
            assert(v@ =~= start + expr_debug(*e));
        },
        Expression::Boolean(b, sp) => {
            push_str_chars(v, "Boolean(");
            push_bool(v, *b);
            push_str_chars(v, ", ");
            push_span(v, *sp);
            push_str_chars(v, ")");
            assert(v@ =~= start + expr_debug(*e));
        },
        _ => {},
    }
}

#[verifier::rlimit(100)]
fn push_infix_expr(v: &mut Vec<char>, e: &Expression)
    requires
        *e is Infix,
    ensures
        final(v)@ == old(v)@ + expr_debug(*e),
    decreases *e, 0nat,
{
    let ghost start = v@;
    match e {
        Expression::Infix { left, operator, right, span } => {
            push_str_chars(v, "Infix { left: ");
            push_expr(v, left);
            push_str_chars(v, ", operator: ");
            let d = operator.debug_text();
            push_slice(v, &d);
            push_str_chars(v, ", right: ");
            push_expr(v, right);
            push_str_chars(v, ", span: ");
            push_span(v, *span);
            push_str_chars(v, " }");
            assert(v@ =~= start + expr_debug(*e));
        },
        _ => {},
    }
}

#[verifier::rlimit(100)]
fn push_call_expr(v: &mut Vec<char>, e: &Expression)
    requires
        *e is Call,
    ensures
        final(v)@ == old(v)@ + expr_debug(*e),
    decreases *e, 0nat,
{
    let ghost start = v@;
    match e {
        Expression::Call { function, generic_args, arguments, span } => {
            push_str_chars(v, "Call { function: ");
            push_str_debug(v, function);
            push_str_chars(v, ", generic_args: ");
            push_strings(v, generic_args);
            push_str_chars(v, ", arguments: ");
            push_exprs(v, arguments);
            push_str_chars(v, ", span: ");
            push_span(v, *span);
            push_str_chars(v, " }");
            assert(v@ =~= start + expr_debug(*e));
        },
        _ => {},
    }
}

#[verifier::rlimit(100)]
fn push_struct_inst_expr(v: &mut Vec<char>, e: &Expression)
    requires
        *e is StructInst,
    ensures
        final(v)@ == old(v)@ + expr_debug(*e),
    decreases *e, 0nat,
{
    let ghost start = v@;
    match e {
        Expression::StructInst { name, generic_args, fields, span } => {
            push_str_chars(v, "StructInst { name: ");
            push_str_debug(v, name);
            push_str_chars(v, ", generic_args: ");
            push_strings(v, generic_args);
            push_str_chars(v, ", fields: ");
            push_fields(v, fields);
            push_str_chars(v, ", span: ");
            push_span(v, *span);
            push_str_chars(v, " }");
            assert(v@ =~= start + expr_debug(*e));
        },
        _ => {},
    }
}

#[verifier::rlimit(100)]
fn push_range_expr(v: &mut Vec<char>, e: &Expression)
    requires
        *e is Range,
    ensures
        final(v)@ == old(v)@ + expr_debug(*e),
    decreases *e, 0nat,
{
    let ghost start = v@;
    match e {
        Expression::Range { start: a, end: b, span } => {
            push_str_chars(v, "Range { start: ");
            push_expr(v, a);
            push_str_chars(v, ", end: ");
            push_expr(v, b);
            push_str_chars(v, ", span: ");
            push_span(v, *span);
            push_str_chars(v, " }");
            assert(v@ =~= start + expr_debug(*e));
        },
        _ => {},
    }
}

#[verifier::rlimit(100)]
fn push_block_expr(v: &mut Vec<char>, e: &Expression)
    requires
        *e is Block,
    ensures
        final(v)@ == old(v)@ + expr_debug(*e),
    decreases *e, 0nat,
{
    let ghost start = v@;
    match e {
        Expression::Block { statements, is_unsafe, span } => {
            push_str_chars(v, "Block { statements: ");
            push_stmts(v, statements);
            push_str_chars(v, ", is_unsafe: ");
            push_bool(v, *is_unsafe);
            push_str_chars(v, ", span: ");
            push_span(v, *span);
            push_str_chars(v, " }");
            assert(v@ =~= start + expr_debug(*e));
        },
        _ => {},
    }
}

#[verifier::rlimit(100)]
fn push_if_expr(v: &mut Vec<char>, e: &Expression)
    requires
        *e is If,
    ensures
        final(v)@ == old(v)@ + expr_debug(*e),
    decreases *e, 0nat,
{
    let ghost start = v@;
    match e {
        Expression::If { condition, then_branch, else_branch, span } => {
            push_str_chars(v, "If { condition: ");
            push_expr(v, condition);
            push_str_chars(v, ", then_branch: ");
            push_stmts(v, then_branch);
            push_str_chars(v, ", else_branch: ");
            push_opt_block(v, else_branch);
            push_str_chars(v, ", span: ");
            push_span(v, *span);
            push_str_chars(v, " }");
            assert(v@ =~= start + expr_debug(*e));
        },
        _ => {},
    }
}

#[verifier::rlimit(100)]
fn push_deref_expr(v: &mut Vec<char>, e: &Expression)
    requires
        *e is Deref,
    ensures
        final(v)@ == old(v)@ + expr_debug(*e),
    decreases *e, 0nat,
{
    let ghost start = v@;
    match e {
        Expression::Deref { expr, span } => {
            push_str_chars(v, "Deref { expr: ");
            push_expr(v, expr);
            push_str_chars(v, ", span: ");
            push_span(v, *span);
            push_str_chars(v, " }");
            assert(v@ =~= start + expr_debug(*e));
        },
        _ => {},
    }
}

#[verifier::rlimit(100)]
fn push_cast_expr(v: &mut Vec<char>, e: &Expression)
    requires
        *e is Cast,
    ensures
        final(v)@ == old(v)@ + expr_debug(*e),
    decreases *e, 0nat,
{
    let ghost start = v@;
    match e {
        Expression::Cast { expr, target, span } => {
            push_str_chars(v, "Cast { expr: ");
            push_expr(v, expr);
            push_str_chars(v, ", target: ");
            push_str_debug(v, target);
            push_str_chars(v, ", span: ");
            push_span(v, *span);
            push_str_chars(v, " }");
            assert(v@ =~= start + expr_debug(*e));
        },
        _ => {},
    }
}

#[verifier::rlimit(100)]
fn push_intrinsic_expr(v: &mut Vec<char>, e: &Expression)
    requires
        *e is Intrinsic,
    ensures
        final(v)@ == old(v)@ + expr_debug(*e),
    decreases *e, 0nat,
{
    let ghost start = v@;
    match e {
        Expression::Intrinsic { name, arguments, span } => {
            push_str_chars(v, "Intrinsic { name: ");
            push_str_debug(v, name);
            push_str_chars(v, ", arguments: ");
            push_exprs(v, arguments);
            push_str_chars(v, ", span: ");
            push_span(v, *span);
            push_str_chars(v, " }");
            assert(v@ =~= start + expr_debug(*e));
        },
        _ => {},
    }
}

#[verifier::rlimit(100)]
fn push_enum_inst_expr(v: &mut Vec<char>, e: &Expression)
    requires
        *e is EnumInst,
    ensures
        final(v)@ == old(v)@ + expr_debug(*e),
    decreases *e, 0nat,
{
    let ghost start = v@;
    match e {
        Expression::EnumInst { name, variant, generic_args, arguments, span } => {
            push_str_chars(v, "EnumInst { name: ");
            push_str_debug(v, name);
            push_str_chars(v, ", variant: ");
            push_str_debug(v, variant);
            push_str_chars(v, ", generic_args: ");
            push_strings(v, generic_args);
            push_str_chars(v, ", arguments: ");
            push_exprs(v, arguments);
            push_str_chars(v, ", span: ");
            push_span(v, *span);
            push_str_chars(v, " }");
            assert(v@ =~= start + expr_debug(*e));
        },
        _ => {},
    }
}

#[verifier::rlimit(100)]
fn push_member_access_expr(v: &mut Vec<char>, e: &Expression)
    requires
        *e is MemberAccess,
    ensures
        final(v)@ == old(v)@ + expr_debug(*e),
    decreases *e, 0nat,
{
    let ghost start = v@;
    match e {
        Expression::MemberAccess { receiver, member, span } => {
            push_str_chars(v, "MemberAccess { receiver: ");
            push_expr(v, receiver);
            push_str_chars(v, ", member: ");
            push_str_debug(v, member);
            push_str_chars(v, ", span: ");
            push_span(v, *span);
            push_str_chars(v, " }");
            assert(v@ =~= start + expr_debug(*e));
        },
        _ => {},
    }
}

#[verifier::rlimit(100)]
fn push_method_call_expr(v: &mut Vec<char>, e: &Expression)
    requires
        *e is MethodCall,
    ensures
        final(v)@ == old(v)@ + expr_debug(*e),
    decreases *e, 0nat,
{
    let ghost start = v@;
    match e {
        Expression::MethodCall { receiver, method, generic_args, arguments, span } => {
            push_str_chars(v, "MethodCall { receiver: ");
            push_expr(v, receiver);
            push_str_chars(v, ", method: ");
            push_str_debug(v, method);
            push_str_chars(v, ", generic_args: ");
            push_strings(v, generic_args);
            push_str_chars(v, ", arguments: ");
            push_exprs(v, arguments);
            push_str_chars(v, ", span: ");
            push_span(v, *span);
            push_str_chars(v, " }");
            assert(v@ =~= start + expr_debug(*e));
        },
        _ => {},
    }
}

#[verifier::rlimit(100)]
fn push_type_ref_expr(v: &mut Vec<char>, e: &Expression)
    requires
        *e is TypeRef,
    ensures
        final(v)@ == old(v)@ + expr_debug(*e),
    decreases *e, 0nat,
{
    let ghost start = v@;
    match e {
        Expression::TypeRef { name, generic_args, span } => {
            push_str_chars(v, "TypeRef { name: ");
            push_str_debug(v, name);
            push_str_chars(v, ", generic_args: ");
            push_strings(v, generic_args);
            push_str_chars(v, ", span: ");
            push_span(v, *span);
            push_str_chars(v, " }");
            assert(v@ =~= start + expr_debug(*e));
        },
        _ => {},
    }
}

#[verifier::rlimit(100)]
fn push_match_expr(v: &mut Vec<char>, e: &Expression)
    requires
        *e is Match,
    ensures
        final(v)@ == old(v)@ + expr_debug(*e),
    decreases *e, 0nat,
{
    let ghost start = v@;
    match e {
        Expression::Match { condition, arms, span } => {
            push_str_chars(v, "Match { condition: ");
            push_expr(v, condition);
            push_str_chars(v, ", arms: ");
            push_arms(v, arms);
            push_str_chars(v, ", span: ");
            push_span(v, *span);
            push_str_chars(v, " }");
            assert(v@ =~= start + expr_debug(*e));
        },
        _ => {},
    }
}

fn push_expr(v: &mut Vec<char>, e: &Expression)
    ensures
        final(v)@ == old(v)@ + expr_debug(*e),
    decreases *e, 1nat,
{
    match e {
        Expression::Integer { .. } | Expression::Float { .. } | Expression::Char { .. } | Expression::String { .. } => push_literal_expr(v, e),
        Expression::Duration { .. } | Expression::Date { .. } | Expression::Identifier { .. } | Expression::Boolean { .. } => push_atom_expr(v, e),
        Expression::Infix { .. } => push_infix_expr(v, e),
        Expression::Call { .. } => push_call_expr(v, e),
        Expression::StructInst { .. } => push_struct_inst_expr(v, e),
        Expression::Range { .. } => push_range_expr(v, e),
        Expression::Block { .. } => push_block_expr(v, e),
        Expression::If { .. } => push_if_expr(v, e),
        Expression::Deref { .. } => push_deref_expr(v, e),
        Expression::Cast { .. } => push_cast_expr(v, e),
        Expression::Intrinsic { .. } => push_intrinsic_expr(v, e),
        Expression::EnumInst { .. } => push_enum_inst_expr(v, e),
        Expression::MemberAccess { .. } => push_member_access_expr(v, e),
        Expression::MethodCall { .. } => push_method_call_expr(v, e),
        Expression::TypeRef { .. } => push_type_ref_expr(v, e),
        Expression::Match { .. } => push_match_expr(v, e),
    }
}

/// The debug notation of an expression (see [`expr_debug`]).
pub fn expression_debug(e: &Expression) -> (r: String)
    ensures
        r@ == expr_debug(*e),
{
    let mut v: Vec<char> = Vec::new();
    push_expr(&mut v, e);
    string_from_chars(&v)
}

} // verus!
