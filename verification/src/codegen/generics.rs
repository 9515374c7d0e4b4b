//! Substitution of generic parameters by concrete type names throughout a
//! function body, as done when a generic function is instantiated: every
//! type-name position (call and enum names, cast targets, generic
//! arguments, identifiers) goes through [`subst_type_name`].

use vstd::prelude::*;
use crate::ast::{Expression, MatchArm, Span, Statement};
use crate::text::string_views;
use super::intrinsics::{subst_type_name, substitute_type_string};

verus! {

/// Each name of `b` is the substitution of the name of `a` at its place.
pub open spec fn names_subst(a: Seq<String>, b: Seq<String>, ps: Seq<Seq<char>>, cs: Seq<Seq<char>>) -> bool {
    &&& a.len() == b.len()
    &&& forall|i: int| 0 <= i < a.len() ==> #[trigger] b[i]@ == subst_type_name(a[i]@, ps, cs)
}

/// `b` is `a` with the generic parameters `ps` replaced by `cs` in every
/// type-name position: the function name and generic arguments of calls,
/// the name and generic arguments of enum and struct literals, cast
/// targets, identifiers and the generic arguments of method calls, in all
/// subexpressions and nested blocks; everything else is kept.
pub open spec fn expr_subst(a: Expression, b: Expression, ps: Seq<Seq<char>>, cs: Seq<Seq<char>>) -> bool
    decreases a, 0nat,
{
    match a {
        Expression::Infix { left, operator, right, span } => b matches Expression::Infix { left: l2, operator: o2, right: r2, span: s2 }
            && o2 == operator && s2 == span && expr_subst(*left, *l2, ps, cs) && expr_subst(*right, *r2, ps, cs),
        Expression::Call { function, generic_args, arguments, span } => b matches Expression::Call { function: f2, generic_args: g2, arguments: a2, span: s2 }
            && f2@ == subst_type_name(function@, ps, cs) && names_subst(generic_args@, g2@, ps, cs)
            && exprs_subst(arguments@, a2@, ps, cs) && s2 == span,
        Expression::EnumInst { name, variant, generic_args, arguments, span } => b matches Expression::EnumInst { name: n2, variant: v2, generic_args: g2, arguments: a2, span: s2 }
            && n2@ == subst_type_name(name@, ps, cs) && v2 == variant && names_subst(generic_args@, g2@, ps, cs)
            && exprs_subst(arguments@, a2@, ps, cs) && s2 == span,
        Expression::StructInst { name, generic_args, fields, span } => b matches Expression::StructInst { name: n2, generic_args: g2, fields: f2, span: s2 }
            && n2@ == subst_type_name(name@, ps, cs) && names_subst(generic_args@, g2@, ps, cs)
            && fields_subst(fields@, f2@, ps, cs) && s2 == span,
        Expression::Cast { expr, target, span } => b matches Expression::Cast { expr: e2, target: t2, span: s2 }
            && expr_subst(*expr, *e2, ps, cs) && t2@ == subst_type_name(target@, ps, cs) && s2 == span,
        Expression::Deref { expr, span } => b matches Expression::Deref { expr: e2, span: s2 }
            && expr_subst(*expr, *e2, ps, cs) && s2 == span,
        Expression::Intrinsic { name, arguments, span } => b matches Expression::Intrinsic { name: n2, arguments: a2, span: s2 }
            && n2 == name && exprs_subst(arguments@, a2@, ps, cs) && s2 == span,
        Expression::Block { statements, is_unsafe, span } => b matches Expression::Block { statements: st2, is_unsafe: u2, span: s2 }
            && stmts_subst(statements@, st2@, ps, cs) && u2 == is_unsafe && s2 == span,
        Expression::Identifier(n, span) => b matches Expression::Identifier(n2, s2)
            && n2@ == subst_type_name(n@, ps, cs) && s2 == span,
        Expression::MemberAccess { receiver, member, span } => b matches Expression::MemberAccess { receiver: r2, member: m2, span: s2 }
            && expr_subst(*receiver, *r2, ps, cs) && m2 == member && s2 == span,
        Expression::MethodCall { receiver, method, generic_args, arguments, span } => b matches Expression::MethodCall { receiver: r2, method: m2, generic_args: g2, arguments: a2, span: s2 }
            && expr_subst(*receiver, *r2, ps, cs) && m2 == method && names_subst(generic_args@, g2@, ps, cs)
            && exprs_subst(arguments@, a2@, ps, cs) && s2 == span,
        Expression::Match { condition, arms, span } => b matches Expression::Match { condition: c2, arms: ar2, span: s2 }
            && expr_subst(*condition, *c2, ps, cs) && arms_subst(arms@, ar2@, ps, cs) && s2 == span,
        _ => b == a,
    }
}

/// Element-wise [`expr_subst`].
pub open spec fn exprs_subst(a: Seq<Expression>, b: Seq<Expression>, ps: Seq<Seq<char>>, cs: Seq<Seq<char>>) -> bool
    decreases a, 1nat,
{
    if a.len() == 0 {
        b.len() == 0
    } else {
        b.len() == a.len() && exprs_subst(a.drop_last(), b.drop_last(), ps, cs) && expr_subst(a.last(), b.last(), ps, cs)
    }
}

/// Struct literal fields: the same names, the values substituted.
pub open spec fn fields_subst(a: Seq<(String, Expression)>, b: Seq<(String, Expression)>, ps: Seq<Seq<char>>, cs: Seq<Seq<char>>) -> bool
    decreases a, 1nat,
{
    if a.len() == 0 {
        b.len() == 0
    } else {
        b.len() == a.len() && fields_subst(a.drop_last(), b.drop_last(), ps, cs)
            && b.last().0 == a.last().0 && expr_subst(a.last().1, b.last().1, ps, cs)
    }
}

/// Match arms: the same patterns, guards and bindings, the bodies
/// substituted.
pub open spec fn arms_subst(a: Seq<MatchArm>, b: Seq<MatchArm>, ps: Seq<Seq<char>>, cs: Seq<Seq<char>>) -> bool
    decreases a, 1nat,
{
    if a.len() == 0 {
        b.len() == 0
    } else {
        &&& b.len() == a.len()
        &&& arms_subst(a.drop_last(), b.drop_last(), ps, cs)
        &&& b.last().pattern == a.last().pattern
        &&& b.last().patterns == a.last().patterns
        &&& b.last().guard == a.last().guard
        &&& b.last().params == a.last().params
        &&& stmts_subst(a.last().body@, b.last().body@, ps, cs)
    }
}

/// `b` is statement `a` with its expressions and nested bodies
/// substituted (see [`expr_subst`]).
pub open spec fn stmt_subst(a: Statement, b: Statement, ps: Seq<Seq<char>>, cs: Seq<Seq<char>>) -> bool
    decreases a, 0nat,
{
    match a {
        Statement::Let { name, value, explicit_type, intent, is_mut, span } => b matches Statement::Let {
            name: n2, value: v2, explicit_type: t2, intent: i2, is_mut: m2, span: s2 }
            && n2 == name && expr_subst(value, v2, ps, cs) && t2 == explicit_type && i2 == intent && m2 == is_mut && s2 == span,
        Statement::Assignment { target, value, span } => b matches Statement::Assignment { target: t2, value: v2, span: s2 }
            && expr_subst(target, t2, ps, cs) && expr_subst(value, v2, ps, cs) && s2 == span,
        Statement::Return { value, intent, span } => b matches Statement::Return { value: v2, intent: i2, span: s2 }
            && expr_subst(value, v2, ps, cs) && i2 == intent && s2 == span,
        Statement::ExpressionStmt(e, span) => b matches Statement::ExpressionStmt(e2, s2)
            && expr_subst(e, e2, ps, cs) && s2 == span,
        Statement::If { condition, then_branch, else_branch, span } => b matches Statement::If {
            condition: c2, then_branch: t2, else_branch: e2, span: s2 }
            && expr_subst(condition, c2, ps, cs) && stmts_subst(then_branch@, t2@, ps, cs) && s2 == span
            && match else_branch {
                Some(eb) => e2 matches Some(eb2) && stmts_subst(eb@, eb2@, ps, cs),
                None => e2 is None,
            },
        Statement::While { condition, body, span } => b matches Statement::While { condition: c2, body: b2, span: s2 }
            && expr_subst(condition, c2, ps, cs) && stmts_subst(body@, b2@, ps, cs) && s2 == span,
        Statement::For { var, range, body, span } => b matches Statement::For { var: v2, range: r2, body: b2, span: s2 }
            && v2 == var && expr_subst(range, r2, ps, cs) && stmts_subst(body@, b2@, ps, cs) && s2 == span,
        Statement::UnsafeBlock(body, span) => b matches Statement::UnsafeBlock(b2, s2)
            && stmts_subst(body@, b2@, ps, cs) && s2 == span,
        Statement::Spawn(body, span) => b matches Statement::Spawn(b2, s2)
            && stmts_subst(body@, b2@, ps, cs) && s2 == span,
        Statement::Match { condition, arms, span } => b matches Statement::Match { condition: c2, arms: ar2, span: s2 }
            && expr_subst(condition, c2, ps, cs) && arms_subst(arms@, ar2@, ps, cs) && s2 == span,
        _ => b == a,
    }
}

/// Element-wise [`stmt_subst`].
pub open spec fn stmts_subst(a: Seq<Statement>, b: Seq<Statement>, ps: Seq<Seq<char>>, cs: Seq<Seq<char>>) -> bool
    decreases a, 1nat,
{
    if a.len() == 0 {
        b.len() == 0
    } else {
        b.len() == a.len() && stmts_subst(a.drop_last(), b.drop_last(), ps, cs) && stmt_subst(a.last(), b.last(), ps, cs)
    }
}

fn subst_names(v: &Vec<String>, ps: &[String], cs: &[String]) -> (r: Vec<String>)
    ensures
        names_subst(v@, r@, string_views(ps@), string_views(cs@)),
{
    let mut r: Vec<String> = Vec::new();
    let mut i: usize = 0;
    while i < v.len()
        invariant
            i <= v@.len(),
            r@.len() == i,
            forall|k: int| 0 <= k < i ==> #[trigger] r@[k]@ == subst_type_name(v@[k]@, string_views(ps@), string_views(cs@)),
        decreases v@.len() - i,
    {
        r.push(substitute_type_string(v[i].as_str(), ps, cs));
        i = i + 1;
    }
    r
}

fn subst_expr(e: Expression, ps: &[String], cs: &[String]) -> (r: Expression)
    ensures
        expr_subst(e, r, string_views(ps@), string_views(cs@)),
    decreases e, 0nat,
{
    match e {
        Expression::Infix { left, operator, right, span } => {
            let l = subst_expr(*left, ps, cs);
            let r = subst_expr(*right, ps, cs);
            Expression::Infix { left: Box::new(l), operator, right: Box::new(r), span }
        },
        Expression::Call { function, generic_args, arguments, span } => {
            let f = substitute_type_string(function.as_str(), ps, cs);
            let g = subst_names(&generic_args, ps, cs);
            let a = subst_exprs(arguments, ps, cs);
            Expression::Call { function: f, generic_args: g, arguments: a, span }
        },
        Expression::EnumInst { name, variant, generic_args, arguments, span } => {
            let n = substitute_type_string(name.as_str(), ps, cs);
            let g = subst_names(&generic_args, ps, cs);
            let a = subst_exprs(arguments, ps, cs);
            Expression::EnumInst { name: n, variant, generic_args: g, arguments: a, span }
        },
        Expression::StructInst { name, generic_args, fields, span } => {
            let n = substitute_type_string(name.as_str(), ps, cs);
            let g = subst_names(&generic_args, ps, cs);
            let f = subst_fields(fields, ps, cs);
            Expression::StructInst { name: n, generic_args: g, fields: f, span }
        },
        Expression::Cast { expr, target, span } => {
            let x = subst_expr(*expr, ps, cs);
            let t = substitute_type_string(target.as_str(), ps, cs);
            Expression::Cast { expr: Box::new(x), target: t, span }
        },
        Expression::Deref { expr, span } => {
            let x = subst_expr(*expr, ps, cs);
            Expression::Deref { expr: Box::new(x), span }
        },
        Expression::Intrinsic { name, arguments, span } => {
            let a = subst_exprs(arguments, ps, cs);
            Expression::Intrinsic { name, arguments: a, span }
        },
        Expression::Block { statements, is_unsafe, span } => {
            let st = subst_stmts(statements, ps, cs);
            Expression::Block { statements: st, is_unsafe, span }
        },
        Expression::Identifier(n, span) => {
            let n2 = substitute_type_string(n.as_str(), ps, cs);
            Expression::Identifier(n2, span)
        },
        Expression::MemberAccess { receiver, member, span } => {
            let x = subst_expr(*receiver, ps, cs);
            Expression::MemberAccess { receiver: Box::new(x), member, span }
        },
        Expression::MethodCall { receiver, method, generic_args, arguments, span } => {
            let x = subst_expr(*receiver, ps, cs);
            let g = subst_names(&generic_args, ps, cs);
            let a = subst_exprs(arguments, ps, cs);
            Expression::MethodCall { receiver: Box::new(x), method, generic_args: g, arguments: a, span }
        },
        Expression::Match { condition, arms, span } => {
            let c = subst_expr(*condition, ps, cs);
            let a = subst_arms(arms, ps, cs);
            Expression::Match { condition: Box::new(c), arms: a, span }
        },
        other => other,
    }
}

fn subst_exprs(v: Vec<Expression>, ps: &[String], cs: &[String]) -> (r: Vec<Expression>)
    ensures
        exprs_subst(v@, r@, string_views(ps@), string_views(cs@)),
    decreases v@, 1nat,
{
    let ghost a = v@;
    let mut src = v;
    let mut out: Vec<Expression> = Vec::new();
    let ghost mut k: int = 0;
    assert(a.subrange(0, 0) =~= Seq::<Expression>::empty());
    assert(src@ =~= a.subrange(0, a.len() as int));
    while src.len() > 0
        invariant
            0 <= k <= a.len(),
            a == v@,
            src@ == a.subrange(k, a.len() as int),
            exprs_subst(a.subrange(0, k), out@, string_views(ps@), string_views(cs@)),
        decreases src@.len(),
    {
        let x = src.remove(0);
        assert(x == a[k]);
        let y = subst_expr(x, ps, cs);
        let ghost prev = out@;
        out.push(y);
        proof {
            assert(a.subrange(0, k + 1).drop_last() =~= a.subrange(0, k));
            assert(out@.drop_last() =~= prev);
            assert(src@ =~= a.subrange(k + 1, a.len() as int));
            k = k + 1;
        }
    }
    assert(a.subrange(0, k) =~= a);
    out
}

fn subst_fields(v: Vec<(String, Expression)>, ps: &[String], cs: &[String]) -> (r: Vec<(String, Expression)>)
    ensures
        fields_subst(v@, r@, string_views(ps@), string_views(cs@)),
    decreases v@, 1nat,
{
    let ghost a = v@;
    let mut src = v;
    let mut out: Vec<(String, Expression)> = Vec::new();
    let ghost mut k: int = 0;
    assert(a.subrange(0, 0) =~= Seq::<(String, Expression)>::empty());
    assert(src@ =~= a.subrange(0, a.len() as int));
    while src.len() > 0
        invariant
            0 <= k <= a.len(),
            a == v@,
            src@ == a.subrange(k, a.len() as int),
            fields_subst(a.subrange(0, k), out@, string_views(ps@), string_views(cs@)),
        decreases src@.len(),
    {
        let (name, x) = src.remove(0);
        assert(x == a[k].1 && name == a[k].0);
        let y = subst_expr(x, ps, cs);
        let ghost prev = out@;
        out.push((name, y));
        proof {
            assert(a.subrange(0, k + 1).drop_last() =~= a.subrange(0, k));
            assert(out@.drop_last() =~= prev);
            assert(src@ =~= a.subrange(k + 1, a.len() as int));
            k = k + 1;
        }
    }
    assert(a.subrange(0, k) =~= a);
    out
}

fn subst_arms(v: Vec<MatchArm>, ps: &[String], cs: &[String]) -> (r: Vec<MatchArm>)
    ensures
        arms_subst(v@, r@, string_views(ps@), string_views(cs@)),
    decreases v@, 1nat,
{
    let ghost a = v@;
    let mut src = v;
    let mut out: Vec<MatchArm> = Vec::new();
    let ghost mut k: int = 0;
    assert(a.subrange(0, 0) =~= Seq::<MatchArm>::empty());
    assert(src@ =~= a.subrange(0, a.len() as int));
    while src.len() > 0
        invariant
            0 <= k <= a.len(),
            a == v@,
            src@ == a.subrange(k, a.len() as int),
            arms_subst(a.subrange(0, k), out@, string_views(ps@), string_views(cs@)),
        decreases src@.len(),
    {
        let arm = src.remove(0);
        assert(arm == a[k]);
        let MatchArm { pattern, patterns, guard, params, body } = arm;
        let b2 = subst_stmts(body, ps, cs);
        let ghost prev = out@;
        out.push(MatchArm { pattern, patterns, guard, params, body: b2 });
        proof {
            assert(a.subrange(0, k + 1).drop_last() =~= a.subrange(0, k));
            assert(out@.drop_last() =~= prev);
            assert(src@ =~= a.subrange(k + 1, a.len() as int));
            k = k + 1;
        }
    }
    assert(a.subrange(0, k) =~= a);
    out
}

fn subst_stmt(s: Statement, ps: &[String], cs: &[String]) -> (r: Statement)
    ensures
        stmt_subst(s, r, string_views(ps@), string_views(cs@)),
    decreases s, 0nat,
{
    match s {
        Statement::Let { name, value, explicit_type, intent, is_mut, span } => {
            let v = subst_expr(value, ps, cs);
            Statement::Let { name, value: v, explicit_type, intent, is_mut, span }
        },
        Statement::Assignment { target, value, span } => {
            let t = subst_expr(target, ps, cs);
            let v = subst_expr(value, ps, cs);
            Statement::Assignment { target: t, value: v, span }
        },
        Statement::Return { value, intent, span } => {
            let v = subst_expr(value, ps, cs);
            Statement::Return { value: v, intent, span }
        },
        Statement::ExpressionStmt(e, span) => {
            let e2 = subst_expr(e, ps, cs);
            Statement::ExpressionStmt(e2, span)
        },
        Statement::If { condition, then_branch, else_branch, span } => {
            let c = subst_expr(condition, ps, cs);
            let t = subst_stmts(then_branch, ps, cs);
            let e2 = match else_branch {
                Some(eb) => Some(subst_stmts(eb, ps, cs)),
                None => None,
            };
            Statement::If { condition: c, then_branch: t, else_branch: e2, span }
        },
        Statement::While { condition, body, span } => {
            let c = subst_expr(condition, ps, cs);
            let b = subst_stmts(body, ps, cs);
            Statement::While { condition: c, body: b, span }
        },
        Statement::For { var, range, body, span } => {
            let r = subst_expr(range, ps, cs);
            let b = subst_stmts(body, ps, cs);
            Statement::For { var, range: r, body: b, span }
        },
        Statement::UnsafeBlock(body, span) => {
            let b = subst_stmts(body, ps, cs);
            Statement::UnsafeBlock(b, span)
        },
        Statement::Spawn(body, span) => {
            let b = subst_stmts(body, ps, cs);
            Statement::Spawn(b, span)
        },
        Statement::Match { condition, arms, span } => {
            let c = subst_expr(condition, ps, cs);
            let a = subst_arms(arms, ps, cs);
            Statement::Match { condition: c, arms: a, span }
        },
        other => other,
    }
}

fn subst_stmts(v: Vec<Statement>, ps: &[String], cs: &[String]) -> (r: Vec<Statement>)
    ensures
        stmts_subst(v@, r@, string_views(ps@), string_views(cs@)),
    decreases v@, 1nat,
{
    let ghost a = v@;
    let mut src = v;
    let mut out: Vec<Statement> = Vec::new();
    let ghost mut k: int = 0;
    assert(a.subrange(0, 0) =~= Seq::<Statement>::empty());
    assert(src@ =~= a.subrange(0, a.len() as int));
    while src.len() > 0
        invariant
            0 <= k <= a.len(),
            a == v@,
            src@ == a.subrange(k, a.len() as int),
            stmts_subst(a.subrange(0, k), out@, string_views(ps@), string_views(cs@)),
        decreases src@.len(),
    {
        let x = src.remove(0);
        assert(x == a[k]);
        let y = subst_stmt(x, ps, cs);
        let ghost prev = out@;
        out.push(y);
        proof {
            assert(a.subrange(0, k + 1).drop_last() =~= a.subrange(0, k));
            assert(out@.drop_last() =~= prev);
            assert(src@ =~= a.subrange(k + 1, a.len() as int));
            k = k + 1;
        }
    }
    assert(a.subrange(0, k) =~= a);
    out
}

/// Replaces the generic parameters `ph` by the type names `conc` in every
/// type-name position of `e` (see [`expr_subst`]).
pub fn substitute_types_in_expr(e: &mut Expression, ph: &[String], conc: &[String])
    ensures
        expr_subst(*old(e), *final(e), string_views(ph@), string_views(conc@)),
{
    let mut taken = Expression::Integer(0, Span { line: 0, col: 0 });
    std::mem::swap(&mut taken, e);
    *e = subst_expr(taken, ph, conc);
}

/// Replaces the generic parameters `ph` by the type names `conc`
/// throughout the statements `b` (see [`stmt_subst`]).
pub fn substitute_types_in_body(b: &mut Vec<Statement>, ph: &[String], conc: &[String])
    ensures
        stmts_subst(old(b)@, final(b)@, string_views(ph@), string_views(conc@)),
{
    let mut taken: Vec<Statement> = Vec::new();
    std::mem::swap(&mut taken, b);
    *b = subst_stmts(taken, ph, conc);
}

} // verus!
