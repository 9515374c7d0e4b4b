//! Translation of the program's functions to PostgreSQL PL/pgSQL.

use vstd::prelude::*;
use crate::ast::{Declaration, Expression, Function, MatchArm, Program, Span, Statement};
use crate::text::{
    concat_seqs, i64_text, int_text, join_seqs, lemma_concat_take, lemma_join_take, push_slice,
    push_str_chars, string_from_chars,
};
use crate::token::TokenKind;

verus! {

// ---------------------------------------------------------------------------
// What the translation produces
// ---------------------------------------------------------------------------

/// `s` without its spaces.
pub open spec fn without_spaces(s: Seq<char>) -> Seq<char>
    decreases s.len(),
{
    if s.len() == 0 {
        Seq::empty()
    } else {
        let r = without_spaces(s.drop_last());
        if s.last() == ' ' {
            r
        } else {
            r.push(s.last())
        }
    }
}

/// The SQL type for a type name of the source language (spaces ignored).
pub open spec fn sql_type(t: Seq<char>) -> Seq<char> {
    let c = without_spaces(t);
    if c == "i64"@ || c == "u64"@ || c == "i32"@ || c == "u32"@ || c == "i8"@ || c == "u8"@ {
        "BIGINT"@
    } else if c == "f64"@ || c == "f32"@ {
        "DOUBLE PRECISION"@
    } else if c == "bool"@ {
        "BOOLEAN"@
    } else if c == "String"@ {
        "TEXT"@
    } else if c == "Date"@ {
        "TIMESTAMP"@
    } else if c == "Duration"@ {
        "INTERVAL"@
    } else if c == "void"@ || c == "Unit"@ {
        "VOID"@
    } else {
        "JSONB"@
    }
}

/// A text without spaces is its own space-free form.
pub proof fn lemma_without_spaces_keeps(s: Seq<char>)
    requires
        !s.contains(' '),
    ensures
        without_spaces(s) == s,
    decreases s.len(),
{
    if s.len() > 0 {
        assert(!s.drop_last().contains(' ')) by {
            if s.drop_last().contains(' ') {
                let i = choose|i: int| 0 <= i < s.drop_last().len() && s.drop_last()[i] == ' ';
                assert(s[i] == ' ');
            }
        }
        lemma_without_spaces_keeps(s.drop_last());
        assert(s.last() != ' ') by {
            assert(s[s.len() - 1] == s.last());
        }
        assert(s.drop_last().push(s.last()) =~= s);
    }
}

/// Removing spaces twice removes what removing them once does.
pub proof fn lemma_without_spaces_twice(s: Seq<char>)
    ensures
        without_spaces(without_spaces(s)) == without_spaces(s),
{
    lemma_without_spaces_none_left(s);
    lemma_without_spaces_keeps(without_spaces(s));
}

/// Removing spaces leaves none.
pub proof fn lemma_without_spaces_none_left(s: Seq<char>)
    ensures
        !without_spaces(s).contains(' '),
    decreases s.len(),
{
    if s.len() > 0 {
        lemma_without_spaces_none_left(s.drop_last());
        let r = without_spaces(s.drop_last());
        if s.last() != ' ' {
            assert forall|i: int| 0 <= i < r.push(s.last()).len() implies r.push(s.last())[i] != ' ' by {
                if i < r.len() {
                    assert(r.push(s.last())[i] == r[i]);
                }
            }
        }
    }
}

/// The SQL types of the source types: the integer types are `BIGINT`, the
/// float types `DOUBLE PRECISION`, `bool` is `BOOLEAN`, `String` is `TEXT`,
/// `Date` is `TIMESTAMP`, `Duration` is `INTERVAL`, `void` and `Unit` are
/// `VOID`; spaces in the name do not matter, and any other type is `JSONB`.
pub proof fn lemma_sql_type_table(t: Seq<char>)
    ensures
        sql_type(seq!['i', '6', '4']) == seq!['B', 'I', 'G', 'I', 'N', 'T'],
        sql_type(seq!['u', '6', '4']) == seq!['B', 'I', 'G', 'I', 'N', 'T'],
        sql_type(seq!['i', '3', '2']) == seq!['B', 'I', 'G', 'I', 'N', 'T'],
        sql_type(seq!['u', '3', '2']) == seq!['B', 'I', 'G', 'I', 'N', 'T'],
        sql_type(seq!['i', '8']) == seq!['B', 'I', 'G', 'I', 'N', 'T'],
        sql_type(seq!['u', '8']) == seq!['B', 'I', 'G', 'I', 'N', 'T'],
        sql_type(seq!['f', '6', '4']) == seq!['D', 'O', 'U', 'B', 'L', 'E', ' ', 'P', 'R', 'E', 'C', 'I', 'S', 'I', 'O', 'N'],
        sql_type(seq!['f', '3', '2']) == seq!['D', 'O', 'U', 'B', 'L', 'E', ' ', 'P', 'R', 'E', 'C', 'I', 'S', 'I', 'O', 'N'],
        sql_type(seq!['b', 'o', 'o', 'l']) == seq!['B', 'O', 'O', 'L', 'E', 'A', 'N'],
        sql_type(seq!['S', 't', 'r', 'i', 'n', 'g']) == seq!['T', 'E', 'X', 'T'],
        sql_type(seq!['D', 'a', 't', 'e']) == seq!['T', 'I', 'M', 'E', 'S', 'T', 'A', 'M', 'P'],
        sql_type(seq!['D', 'u', 'r', 'a', 't', 'i', 'o', 'n']) == seq!['I', 'N', 'T', 'E', 'R', 'V', 'A', 'L'],
        sql_type(seq!['v', 'o', 'i', 'd']) == seq!['V', 'O', 'I', 'D'],
        sql_type(seq!['U', 'n', 'i', 't']) == seq!['V', 'O', 'I', 'D'],
        sql_type(t) == sql_type(without_spaces(t)),
        !(without_spaces(t) == seq!['i', '6', '4'] || without_spaces(t) == seq!['u', '6', '4'] || without_spaces(t) == seq!['i', '3', '2'] || without_spaces(t) == seq!['u', '3', '2'] || without_spaces(t) == seq!['i', '8'] || without_spaces(t) == seq!['u', '8'] || without_spaces(t) == seq!['f', '6', '4'] || without_spaces(t) == seq!['f', '3', '2'] || without_spaces(t) == seq!['b', 'o', 'o', 'l'] || without_spaces(t) == seq!['S', 't', 'r', 'i', 'n', 'g'] || without_spaces(t) == seq!['D', 'a', 't', 'e'] || without_spaces(t) == seq!['D', 'u', 'r', 'a', 't', 'i', 'o', 'n'] || without_spaces(t) == seq!['v', 'o', 'i', 'd'] || without_spaces(t) == seq!['U', 'n', 'i', 't']) ==> sql_type(t) == seq!['J', 'S', 'O', 'N', 'B'],
{
    reveal_strlit("BIGINT");
    assert("BIGINT"@ =~= seq!['B', 'I', 'G', 'I', 'N', 'T']);
    reveal_strlit("BOOLEAN");
    assert("BOOLEAN"@ =~= seq!['B', 'O', 'O', 'L', 'E', 'A', 'N']);
    reveal_strlit("DOUBLE PRECISION");
    assert("DOUBLE PRECISION"@ =~= seq!['D', 'O', 'U', 'B', 'L', 'E', ' ', 'P', 'R', 'E', 'C', 'I', 'S', 'I', 'O', 'N']);
    reveal_strlit("Date");
    assert("Date"@ =~= seq!['D', 'a', 't', 'e']);
    reveal_strlit("Duration");
    assert("Duration"@ =~= seq!['D', 'u', 'r', 'a', 't', 'i', 'o', 'n']);
    reveal_strlit("INTERVAL");
    assert("INTERVAL"@ =~= seq!['I', 'N', 'T', 'E', 'R', 'V', 'A', 'L']);
    reveal_strlit("JSONB");
    assert("JSONB"@ =~= seq!['J', 'S', 'O', 'N', 'B']);
    reveal_strlit("String");
    assert("String"@ =~= seq!['S', 't', 'r', 'i', 'n', 'g']);
    reveal_strlit("TEXT");
    assert("TEXT"@ =~= seq!['T', 'E', 'X', 'T']);
    reveal_strlit("TIMESTAMP");
    assert("TIMESTAMP"@ =~= seq!['T', 'I', 'M', 'E', 'S', 'T', 'A', 'M', 'P']);
    reveal_strlit("Unit");
    assert("Unit"@ =~= seq!['U', 'n', 'i', 't']);
    reveal_strlit("VOID");
    assert("VOID"@ =~= seq!['V', 'O', 'I', 'D']);
    reveal_strlit("bool");
    assert("bool"@ =~= seq!['b', 'o', 'o', 'l']);
    reveal_strlit("f32");
    assert("f32"@ =~= seq!['f', '3', '2']);
    reveal_strlit("f64");
    assert("f64"@ =~= seq!['f', '6', '4']);
    reveal_strlit("i32");
    assert("i32"@ =~= seq!['i', '3', '2']);
    reveal_strlit("i64");
    assert("i64"@ =~= seq!['i', '6', '4']);
    reveal_strlit("i8");
    assert("i8"@ =~= seq!['i', '8']);
    reveal_strlit("u32");
    assert("u32"@ =~= seq!['u', '3', '2']);
    reveal_strlit("u64");
    assert("u64"@ =~= seq!['u', '6', '4']);
    reveal_strlit("u8");
    assert("u8"@ =~= seq!['u', '8']);
    reveal_strlit("void");
    assert("void"@ =~= seq!['v', 'o', 'i', 'd']);
    lemma_without_spaces_keeps(seq!['i', '6', '4']);
    lemma_without_spaces_keeps(seq!['u', '6', '4']);
    lemma_without_spaces_keeps(seq!['i', '3', '2']);
    lemma_without_spaces_keeps(seq!['u', '3', '2']);
    lemma_without_spaces_keeps(seq!['i', '8']);
    lemma_without_spaces_keeps(seq!['u', '8']);
    lemma_without_spaces_keeps(seq!['f', '6', '4']);
    lemma_without_spaces_keeps(seq!['f', '3', '2']);
    lemma_without_spaces_keeps(seq!['b', 'o', 'o', 'l']);
    lemma_without_spaces_keeps(seq!['S', 't', 'r', 'i', 'n', 'g']);
    lemma_without_spaces_keeps(seq!['D', 'a', 't', 'e']);
    lemma_without_spaces_keeps(seq!['D', 'u', 'r', 'a', 't', 'i', 'o', 'n']);
    lemma_without_spaces_keeps(seq!['v', 'o', 'i', 'd']);
    lemma_without_spaces_keeps(seq!['U', 'n', 'i', 't']);
    lemma_without_spaces_twice(t);
}

/// The type a variable gets from a literal initial value: integers and
/// characters `i64`, floats `f64`, booleans `bool`, strings `String`,
/// durations `Duration` and dates `Date`.
pub proof fn lemma_inferred_literal_types(e: Expression)
    ensures
        e is Integer ==> inferred_type(e) == seq!['i', '6', '4'],
        e is Float ==> inferred_type(e) == seq!['f', '6', '4'],
        e is Char ==> inferred_type(e) == seq!['i', '6', '4'],
        e is Boolean ==> inferred_type(e) == seq!['b', 'o', 'o', 'l'],
        e is String ==> inferred_type(e) == seq!['S', 't', 'r', 'i', 'n', 'g'],
        e is Duration ==> inferred_type(e) == seq!['D', 'u', 'r', 'a', 't', 'i', 'o', 'n'],
        e is Date ==> inferred_type(e) == seq!['D', 'a', 't', 'e'],
{
    reveal_strlit("Date");
    assert("Date"@ =~= seq!['D', 'a', 't', 'e']);
    reveal_strlit("Duration");
    assert("Duration"@ =~= seq!['D', 'u', 'r', 'a', 't', 'i', 'o', 'n']);
    reveal_strlit("String");
    assert("String"@ =~= seq!['S', 't', 'r', 'i', 'n', 'g']);
    reveal_strlit("bool");
    assert("bool"@ =~= seq!['b', 'o', 'o', 'l']);
    reveal_strlit("f64");
    assert("f64"@ =~= seq!['f', '6', '4']);
    reveal_strlit("i64");
    assert("i64"@ =~= seq!['i', '6', '4']);
}

/// Whether `sub` occurs in `s`.
pub open spec fn occurs_in(sub: Seq<char>, s: Seq<char>) -> bool {
    exists|i: int| 0 <= i && i + sub.len() <= s.len() && #[trigger] s.subrange(i, i + sub.len()) == sub
}

/// The type name given to a variable from its initial value.
pub open spec fn inferred_type(e: Expression) -> Seq<char> {
    match e {
        Expression::Integer(..) => "i64"@,
        Expression::Float(..) => "f64"@,
        Expression::Char(..) => "i64"@,
        Expression::Boolean(..) => "bool"@,
        Expression::String(..) => "String"@,
        Expression::Call { function, .. } => if occurs_in("print"@, function@) {
            "void"@
        } else {
            "i64"@
        },
        Expression::Cast { target, .. } => target@,
        Expression::Block { .. } => "void"@,
        Expression::If { .. } => "void"@,
        Expression::Match { .. } => "void"@,
        Expression::Duration(..) => "Duration"@,
        Expression::Date(..) => "Date"@,
        _ => "i64"@,
    }
}

/// The SQL operator for an infix operator token (`?` for the others).
pub open spec fn sql_operator(k: TokenKind) -> Seq<char> {
    match k {
        TokenKind::Plus => "+"@,
        TokenKind::Minus => "-"@,
        TokenKind::Star => "*"@,
        TokenKind::Slash => "/"@,
        TokenKind::EqEq => "="@,
        TokenKind::NotEq => "!="@,
        TokenKind::Gt => ">"@,
        TokenKind::Lt => "<"@,
        TokenKind::GtEq => ">="@,
        TokenKind::LtEq => "<="@,
        TokenKind::And => "AND"@,
        TokenKind::Or => "OR"@,
        _ => "?"@,
    }
}

/// Each infix operator becomes the SQL operator of the same meaning:
/// `+ - * /` as they are, `==` as `=`, `!=`, `>`, `<`, `>=`, `<=` as they
/// are, `&&` as `AND` and `||` as `OR`; any other token is `?`. Two
/// different operators never share their SQL text, and `>=` and `<=` are
/// `>` and `<` followed by `=`.
pub proof fn lemma_sql_operator_table(a: TokenKind, b: TokenKind)
    ensures
        sql_operator(TokenKind::Plus) == seq!['+'],
        sql_operator(TokenKind::Minus) == seq!['-'],
        sql_operator(TokenKind::Star) == seq!['*'],
        sql_operator(TokenKind::Slash) == seq!['/'],
        sql_operator(TokenKind::EqEq) == seq!['='],
        sql_operator(TokenKind::NotEq) == seq!['!', '='],
        sql_operator(TokenKind::Gt) == seq!['>'],
        sql_operator(TokenKind::Lt) == seq!['<'],
        sql_operator(TokenKind::GtEq) == seq!['>', '='],
        sql_operator(TokenKind::LtEq) == seq!['<', '='],
        sql_operator(TokenKind::And) == seq!['A', 'N', 'D'],
        sql_operator(TokenKind::Or) == seq!['O', 'R'],
        sql_operator(TokenKind::GtEq) == sql_operator(TokenKind::Gt) + seq!['='],
        sql_operator(TokenKind::LtEq) == sql_operator(TokenKind::Lt) + seq!['='],
        !(a is Plus || a is Minus || a is Star || a is Slash || a is EqEq || a is NotEq || a is Gt || a is Lt
            || a is GtEq || a is LtEq || a is And || a is Or) ==> sql_operator(a) == seq!['?'],
        (sql_operator(a) != seq!['?'] && sql_operator(a) == sql_operator(b)) ==> a == b,
{
    reveal_strlit("+");
    reveal_strlit("-");
    reveal_strlit("*");
    reveal_strlit("/");
    reveal_strlit("=");
    reveal_strlit("!=");
    reveal_strlit(">");
    reveal_strlit("<");
    reveal_strlit(">=");
    reveal_strlit("<=");
    reveal_strlit("AND");
    reveal_strlit("OR");
    reveal_strlit("?");
    assert("+"@ =~= seq!['+']);
    assert("-"@ =~= seq!['-']);
    assert("*"@ =~= seq!['*']);
    assert("/"@ =~= seq!['/']);
    assert("="@ =~= seq!['=']);
    assert("!="@ =~= seq!['!', '=']);
    assert(">"@ =~= seq!['>']);
    assert("<"@ =~= seq!['<']);
    assert(">="@ =~= seq!['>', '=']);
    assert("<="@ =~= seq!['<', '=']);
    assert("AND"@ =~= seq!['A', 'N', 'D']);
    assert("OR"@ =~= seq!['O', 'R']);
    assert("?"@ =~= seq!['?']);
    assert(seq!['>'] + seq!['='] =~= seq!['>', '=']);
    assert(seq!['<'] + seq!['='] =~= seq!['<', '=']);
    let sa = sql_operator(a);
    let sb = sql_operator(b);
    if sa != seq!['?'] && sa == sb {
        assert(sa.len() == sb.len());
        assert(sa[0] == sb[0]);
        if sa.len() > 1 {
            assert(sa[1] == sb[1]);
        }
    }
}

/// The SQL text of an expression; forms SQL has no counterpart for are `NULL`.
pub open spec fn sql_expr(e: Expression) -> Seq<char>
    decreases e, 0nat,
{
    match e {
        Expression::Integer(n, _) => int_text(n as int),
        Expression::Float(t, _) => t@,
        Expression::Boolean(b, _) => if b {
            "TRUE"@
        } else {
            "FALSE"@
        },
        Expression::String(s, _) => "'"@ + s@ + "'"@,
        Expression::Identifier(s, _) => s@,
        Expression::Infix { left, operator, right, .. } => sql_expr(*left) + " "@ + sql_operator(operator.kind) + " "@
            + sql_expr(*right),
        Expression::Call { function, arguments, .. } => function@ + "("@ + sql_args(arguments@) + ")"@,
        Expression::MemberAccess { receiver, member, .. } => sql_expr(*receiver) + "."@ + member@,
        Expression::Cast { expr, target, .. } => sql_expr(*expr) + "::"@ + sql_type(target@),
        Expression::Block { statements, .. } => sql_values(statements@),
        _ => "NULL"@,
    }
}

/// SQL literals and statements, for any expression `x` and span: `true` and
/// `false` are `TRUE` and `FALSE`, a string is quoted with `'`, a float keeps
/// its digits, an integer is written in decimal, a name stays as it is; an
/// infix operation puts its operator between its operands with a space on
/// each side; `return x` is the line `RETURN x;` and an expression statement
/// the line `PERFORM x;`.
pub proof fn lemma_sql_literals(x: Expression, sp: Span, n: i64, text: String, b: bool)
    ensures
        sql_expr(Expression::Boolean(true, sp)) == seq!['T', 'R', 'U', 'E'],
        sql_expr(Expression::Boolean(false, sp)) == seq!['F', 'A', 'L', 'S', 'E'],
        sql_expr(Expression::String(text, sp)) == seq!['\''] + text@ + seq!['\''],
        sql_expr(Expression::Float(text, sp)) == text@,
        sql_expr(Expression::Integer(n, sp)) == int_text(n as int),
        sql_expr(Expression::Identifier(text, sp)) == text@,
        x matches Expression::Infix { left, operator, right, .. } ==> sql_expr(x)
            == sql_expr(*left) + seq![' '] + sql_operator(operator.kind) + seq![' '] + sql_expr(*right),
        sql_stmt(Statement::Return { value: x, intent: None, span: sp })
            == seq![' ', ' ', ' ', ' ', 'R', 'E', 'T', 'U', 'R', 'N', ' '] + sql_expr(x) + seq![';', '\n'],
        sql_stmt(Statement::ExpressionStmt(x, sp)) == seq![' ', ' ', ' ', ' ', 'P', 'E', 'R', 'F', 'O', 'R', 'M', ' '] + sql_expr(x) + seq![';', '\n'],
{
    reveal_strlit("    PERFORM ");
    assert("    PERFORM "@ =~= seq![' ', ' ', ' ', ' ', 'P', 'E', 'R', 'F', 'O', 'R', 'M', ' ']);
    reveal_strlit("    RETURN ");
    assert("    RETURN "@ =~= seq![' ', ' ', ' ', ' ', 'R', 'E', 'T', 'U', 'R', 'N', ' ']);
    reveal_strlit("FALSE");
    assert("FALSE"@ =~= seq!['F', 'A', 'L', 'S', 'E']);
    reveal_strlit("TRUE");
    assert("TRUE"@ =~= seq!['T', 'R', 'U', 'E']);
    reveal_strlit("'");
    assert("'"@ =~= seq!['\'']);
    reveal_strlit(" ");
    assert(" "@ =~= seq![' ']);
    reveal_strlit(";\n");
    assert(";\n"@ =~= seq![';', '\n']);
}

/// The texts of call arguments, one per argument.
pub open spec fn arg_texts(args: Seq<Expression>) -> Seq<Seq<char>>
    decreases args, 0nat,
{
    Seq::new(args.len(), |i: int| if 0 <= i < args.len() { sql_expr(args[i]) } else { Seq::empty() })
}

/// Call arguments, separated by `, `.
pub open spec fn sql_args(args: Seq<Expression>) -> Seq<char>
    decreases args, 1nat,
{
    join_seqs(arg_texts(args), ", "@)
}

/// The value of a statement inside an expression block.
pub open spec fn sql_value(s: Statement) -> Seq<char>
    decreases s, 0nat,
{
    match s {
        Statement::Return { value, .. } => sql_expr(value),
        Statement::Let { value, .. } => sql_expr(value),
        Statement::ExpressionStmt(x, _) => sql_expr(x),
        _ => "NULL"@,
    }
}

/// The values of the statements of an expression block, one per statement.
pub open spec fn value_texts(ss: Seq<Statement>) -> Seq<Seq<char>>
    decreases ss, 0nat,
{
    Seq::new(ss.len(), |i: int| if 0 <= i < ss.len() { sql_value(ss[i]) } else { Seq::empty() })
}

/// The values of the statements of an expression block, separated by `; `.
pub open spec fn sql_values(ss: Seq<Statement>) -> Seq<char>
    decreases ss, 1nat,
{
    join_seqs(value_texts(ss), "; "@)
}

/// The SQL text of a statement, one line or more, each indented.
pub open spec fn sql_stmt(s: Statement) -> Seq<char>
    decreases s, 0nat,
{
    match s {
        Statement::Return { value, .. } => "    RETURN "@ + sql_expr(value) + ";\n"@,
        Statement::Let { name, value, .. } => "    "@ + name@ + " := "@ + sql_expr(value) + ";\n"@,
        Statement::Assignment { target, value, .. } => "    "@ + sql_expr(target) + " := "@ + sql_expr(value) + ";\n"@,
        Statement::If { condition, then_branch, else_branch, .. } => "    IF "@ + sql_expr(condition) + " THEN\n"@
            + sql_block(then_branch@) + match else_branch {
            Some(eb) => "    ELSE\n"@ + sql_block(eb@),
            None => Seq::empty(),
        } + "    END IF;\n"@,
        Statement::While { condition, body, .. } => "    WHILE "@ + sql_expr(condition) + " LOOP\n"@ + sql_block(body@)
            + "    END LOOP;\n"@,
        Statement::ExpressionStmt(x, _) => "    PERFORM "@ + sql_expr(x) + ";\n"@,
        Statement::Match { condition, arms, .. } => "    CASE "@ + sql_expr(condition) + "\n"@ + sql_arms(arms@)
            + "        ELSE NULL;\n"@ + "    END CASE;\n"@,
        Statement::UnsafeBlock(ss, _) => "    -- UNSAFE BLOCK\n"@ + sql_block(ss@),
        Statement::NoOp => Seq::empty(),
        _ => "    -- Unsupported statement\n"@,
    }
}

/// The texts of statements, one per statement.
pub open spec fn stmt_texts(ss: Seq<Statement>) -> Seq<Seq<char>>
    decreases ss, 0nat,
{
    Seq::new(ss.len(), |i: int| if 0 <= i < ss.len() { sql_stmt(ss[i]) } else { Seq::empty() })
}

/// The SQL text of statements, one after another.
pub open spec fn sql_block(ss: Seq<Statement>) -> Seq<char>
    decreases ss, 1nat,
{
    concat_seqs(stmt_texts(ss))
}

/// The `WHEN` branch of one match arm.
pub open spec fn sql_arm(a: MatchArm) -> Seq<char>
    decreases a, 0nat,
{
    "        WHEN '"@ + a.pattern@ + "' THEN\n"@ + sql_block(a.body@)
}

/// The `WHEN` branches of match arms, one per arm.
pub open spec fn arm_texts(arms: Seq<MatchArm>) -> Seq<Seq<char>>
    decreases arms, 0nat,
{
    Seq::new(arms.len(), |j: int| if 0 <= j < arms.len() { sql_arm(arms[j]) } else { Seq::empty() })
}

/// The `WHEN` branches of a `CASE`, one per match arm.
pub open spec fn sql_arms(arms: Seq<MatchArm>) -> Seq<char>
    decreases arms, 1nat,
{
    concat_seqs(arm_texts(arms))
}

/// A variable: its name and the type name given to it.
pub type VarDecl = (Seq<char>, Seq<char>);

/// The `let` statements of a statement, nested ones included, in order.
pub open spec fn let_bindings(s: Statement) -> Seq<VarDecl>
    decreases s, 0nat,
{
    match s {
        Statement::Let { name, value, .. } => seq![(name@, inferred_type(value))],
        Statement::If { then_branch, else_branch, .. } => block_bindings(then_branch@) + match else_branch {
            Some(eb) => block_bindings(eb@),
            None => Seq::empty(),
        },
        Statement::While { body, .. } => block_bindings(body@),
        Statement::Match { arms, .. } => arms_bindings(arms@),
        Statement::UnsafeBlock(ss, _) => block_bindings(ss@),
        Statement::Spawn(ss, _) => block_bindings(ss@),
        _ => Seq::empty(),
    }
}

/// The `let` statements of each of a sequence of statements.
pub open spec fn binding_parts(ss: Seq<Statement>) -> Seq<Seq<VarDecl>>
    decreases ss, 0nat,
{
    Seq::new(ss.len(), |i: int| if 0 <= i < ss.len() { let_bindings(ss[i]) } else { Seq::empty() })
}

/// The `let` statements of a sequence of statements, in order.
pub open spec fn block_bindings(ss: Seq<Statement>) -> Seq<VarDecl>
    decreases ss, 1nat,
{
    binding_parts(ss).flatten_alt()
}

/// The `let` statements in the body of one match arm.
pub open spec fn arm_bindings(a: MatchArm) -> Seq<VarDecl>
    decreases a, 0nat,
{
    block_bindings(a.body@)
}

/// The `let` statements in the body of each match arm.
pub open spec fn arm_binding_parts(arms: Seq<MatchArm>) -> Seq<Seq<VarDecl>>
    decreases arms, 0nat,
{
    Seq::new(arms.len(), |j: int| if 0 <= j < arms.len() { arm_bindings(arms[j]) } else { Seq::empty() })
}

/// The `let` statements in the bodies of match arms, in order.
pub open spec fn arms_bindings(arms: Seq<MatchArm>) -> Seq<VarDecl>
    decreases arms, 1nat,
{
    arm_binding_parts(arms).flatten_alt()
}

/// Adds a variable unless one of that name is declared already.
pub open spec fn declare(vars: Seq<VarDecl>, b: VarDecl) -> Seq<VarDecl> {
    if exists|i: int| 0 <= i < vars.len() && (#[trigger] vars[i]).0 == b.0 {
        vars
    } else {
        vars.push(b)
    }
}

/// Declares the variables `bs` in order after `vars`.
pub open spec fn declare_all(vars: Seq<VarDecl>, bs: Seq<VarDecl>) -> Seq<VarDecl>
    decreases bs.len(),
{
    if bs.len() == 0 {
        vars
    } else {
        declare(declare_all(vars, bs.drop_last()), bs.last())
    }
}

/// The variables a function declares: each `let` name once, with the type of
/// its first binding.
pub open spec fn function_vars(f: Function) -> Seq<VarDecl> {
    match f.body {
        Some(b) => declare_all(Seq::empty(), block_bindings(b@)),
        None => Seq::empty(),
    }
}

/// A parameter as `name TYPE`.
pub open spec fn sql_param(p: (String, String, Option<Box<Expression>>)) -> Seq<char> {
    p.0@ + " "@ + sql_type(p.1@)
}

/// The declaration lines of variables, one per variable.
pub open spec fn var_lines(vars: Seq<VarDecl>) -> Seq<Seq<char>> {
    Seq::new(vars.len(), |i: int| "    "@ + vars[i].0 + " "@ + sql_type(vars[i].1) + ";\n"@)
}

/// The `DECLARE` section of a function (empty when it has no variables).
pub open spec fn sql_declare(vars: Seq<VarDecl>) -> Seq<char> {
    if vars.len() == 0 {
        Seq::empty()
    } else {
        "DECLARE\n"@ + concat_seqs(var_lines(vars))
    }
}

/// The parameters of a function as SQL parameters.
pub open spec fn param_texts(f: Function) -> Seq<Seq<char>> {
    Seq::new(f.params@.len(), |i: int| sql_param(f.params@[i]))
}

/// A function as `CREATE OR REPLACE FUNCTION ... LANGUAGE plpgsql;`.
pub open spec fn sql_function(f: Function) -> Seq<char> {
    "CREATE OR REPLACE FUNCTION "@ + f.name@ + "("@ + join_seqs(param_texts(f), ", "@) + ") RETURNS "@ + sql_type(f.return_type@) + " AS $$\n"@ + sql_declare(function_vars(f)) + "BEGIN\n"@
        + match f.body {
        Some(b) => sql_block(b@),
        None => Seq::empty(),
    } + "END;\n$$ LANGUAGE plpgsql;\n\n"@
}

/// The text of a declaration: its function's, or nothing.
pub open spec fn sql_declaration(d: Declaration) -> Seq<char> {
    match d {
        Declaration::Function(f) => sql_function(f),
        _ => Seq::empty(),
    }
}

/// The texts of a program's declarations, one per declaration.
pub open spec fn declaration_texts(p: Program) -> Seq<Seq<char>> {
    Seq::new(p.declarations@.len(), |i: int| sql_declaration(p.declarations@[i]))
}

/// The text of a program: its functions, in order.
pub open spec fn sql_program(p: Program) -> Seq<char> {
    concat_seqs(declaration_texts(p))
}

// ---------------------------------------------------------------------------
// Lemmas
// ---------------------------------------------------------------------------

proof fn lemma_concat_seqs_append(a: Seq<Seq<char>>, b: Seq<Seq<char>>)
    ensures
        concat_seqs(a + b) == concat_seqs(a) + concat_seqs(b),
    decreases b.len(),
{
    if b.len() == 0 {
        assert(a + b =~= a);
        assert(concat_seqs(a) + concat_seqs(b) =~= concat_seqs(a));
    } else {
        lemma_concat_seqs_append(a, b.drop_last());
        assert((a + b).drop_last() =~= a + b.drop_last());
        assert((a + b).last() == b.last());
        assert(concat_seqs(a) + (concat_seqs(b.drop_last()) + b.last()) =~= (concat_seqs(a) + concat_seqs(b.drop_last())) + b.last());
    }
}

/// The text of a program whose declarations are those of `p` followed by
/// those of `q` is the text of `p` followed by the text of `q`.
pub proof fn lemma_sql_program_concat(p: Program, q: Program, r: Program)
    requires
        r.declarations@ == p.declarations@ + q.declarations@,
    ensures
        sql_program(r) == sql_program(p) + sql_program(q),
{
    assert(declaration_texts(r) =~= declaration_texts(p) + declaration_texts(q));
    lemma_concat_seqs_append(declaration_texts(p), declaration_texts(q));
}

/// Declaring `a` then `b` is declaring `a + b`.
pub proof fn lemma_declare_all_append(vars: Seq<VarDecl>, a: Seq<VarDecl>, b: Seq<VarDecl>)
    ensures
        declare_all(vars, a + b) == declare_all(declare_all(vars, a), b),
    decreases b.len(),
{
    if b.len() == 0 {
        assert(a + b =~= a);
    } else {
        lemma_declare_all_append(vars, a, b.drop_last());
        assert((a + b).drop_last() =~= a + b.drop_last());
        assert((a + b).last() == b.last());
    }
}

/// Flattening one more part appends it.
proof fn lemma_flatten_take(parts: Seq<Seq<VarDecl>>, i: int)
    requires
        0 <= i < parts.len(),
    ensures
        parts.take(i + 1).flatten_alt() == parts.take(i).flatten_alt() + parts[i],
{
    assert(parts.take(i + 1).drop_last() =~= parts.take(i));
}

// ---------------------------------------------------------------------------
// The translator
// ---------------------------------------------------------------------------

/// The views of declared variables.
pub open spec fn var_views(v: Seq<(String, String)>) -> Seq<VarDecl> {
    v.map_values(|p: (String, String)| (p.0@, p.1@))
}

/// Translates a program's functions to PL/pgSQL functions, appending to
/// the text translated so far.
pub struct SqlTranspiler {
    buffer: Vec<char>,
}

impl SqlTranspiler {
    /// The text produced so far.
    pub closed spec fn output(self) -> Seq<char> {
        self.buffer@
    }

    /// A translator that has produced nothing yet.
    pub fn new() -> (t: SqlTranspiler)
        ensures
            t.output() == Seq::<char>::empty(),
    {
        SqlTranspiler { buffer: Vec::new() }
    }

    /// Appends the program's functions and returns all text produced so far.
    pub fn transpile(&mut self, program: &Program) -> (r: String)
        ensures
            final(self).output() == old(self).output() + sql_program(*program),
            r@ == final(self).output(),
    {
        let ghost start = self.buffer@;
        let ghost parts = declaration_texts(*program);
        let mut i: usize = 0;
        while i < program.declarations.len()
            invariant
                i <= program.declarations@.len(),
                parts == declaration_texts(*program),
                self.buffer@ == start + concat_seqs(parts.take(i as int)),
            decreases program.declarations@.len() - i,
        {
            proof { lemma_concat_take(parts, i as int); }
            if let Declaration::Function(f) = &program.declarations[i] {
                self.transpile_function(f);
            }
            i = i + 1;
            proof {
                assert(self.buffer@ =~= start + concat_seqs(parts.take(i as int)));
            }
        }
        assert(parts.take(program.declarations@.len() as int) =~= parts);
        string_from_chars(&self.buffer)
    }

    fn transpile_function(&mut self, f: &Function)
        ensures
            final(self).buffer@ == old(self).buffer@ + sql_function(*f),
    {
        let ghost start = self.buffer@;
        let ret_type = map_type(f.return_type.as_str());
        push_str_chars(&mut self.buffer, "CREATE OR REPLACE FUNCTION ");
        push_str_chars(&mut self.buffer, f.name.as_str());
        push_str_chars(&mut self.buffer, "(");
        let ghost head = self.buffer@;
        let ghost params = param_texts(*f);
        let mut i: usize = 0;
        while i < f.params.len()
            invariant
                i <= f.params@.len(),
                params == param_texts(*f),
                self.buffer@ == head + join_seqs(params.take(i as int), ", "@),
            decreases f.params@.len() - i,
        {
            proof { lemma_join_take(params, ", "@, i as int); }
            if i > 0 {
                push_str_chars(&mut self.buffer, ", ");
            }
            push_str_chars(&mut self.buffer, f.params[i].0.as_str());
            push_str_chars(&mut self.buffer, " ");
            let t = map_type(f.params[i].1.as_str());
            push_slice(&mut self.buffer, &t);
            i = i + 1;
            proof {
                assert(self.buffer@ =~= head + join_seqs(params.take(i as int), ", "@));
            }
        }
        assert(params.take(f.params@.len() as int) =~= params);
        push_str_chars(&mut self.buffer, ") RETURNS ");
        push_slice(&mut self.buffer, &ret_type);
        push_str_chars(&mut self.buffer, " AS $$\n");
        let ghost before_vars = self.buffer@;
        let vars = collect_vars(&f.body);
        if vars.len() > 0 {
            push_str_chars(&mut self.buffer, "DECLARE\n");
            let ghost decl_start = self.buffer@;
            let ghost lines = var_lines(var_views(vars@));
            let mut j: usize = 0;
            while j < vars.len()
                invariant
                    j <= vars@.len(),
                    lines == var_lines(var_views(vars@)),
                    self.buffer@ == decl_start + concat_seqs(lines.take(j as int)),
                decreases vars@.len() - j,
            {
                proof { lemma_concat_take(lines, j as int); }
                push_str_chars(&mut self.buffer, "    ");
                push_str_chars(&mut self.buffer, vars[j].0.as_str());
                push_str_chars(&mut self.buffer, " ");
                let t = map_type(vars[j].1.as_str());
                push_slice(&mut self.buffer, &t);
                push_str_chars(&mut self.buffer, ";\n");
                j = j + 1;
                proof {
                    assert(self.buffer@ =~= decl_start + concat_seqs(lines.take(j as int)));
                }
            }
            assert(lines.take(vars@.len() as int) =~= lines);
        }
        assert(self.buffer@ =~= before_vars + sql_declare(function_vars(*f)));
        push_str_chars(&mut self.buffer, "BEGIN\n");
        let ghost before_body = self.buffer@;
        if let Some(body) = &f.body {
            self.transpile_block(body);
        }
        push_str_chars(&mut self.buffer, "END;\n$$ LANGUAGE plpgsql;\n\n");
        proof {
            assert(self.buffer@ =~= start + sql_function(*f));
        }
    }

    fn transpile_block(&mut self, ss: &Vec<Statement>)
        ensures
            final(self).buffer@ == old(self).buffer@ + sql_block(ss@),
        decreases ss@, 1nat,
    {
        let ghost start = self.buffer@;
        let ghost parts = stmt_texts(ss@);
        let mut i: usize = 0;
        while i < ss.len()
            invariant
                i <= ss@.len(),
                parts == stmt_texts(ss@),
                self.buffer@ == start + concat_seqs(parts.take(i as int)),
            decreases ss@.len() - i,
        {
            proof { lemma_concat_take(parts, i as int); }
            self.transpile_statement(&ss[i]);
            i = i + 1;
            proof {
                assert(self.buffer@ =~= start + concat_seqs(parts.take(i as int)));
            }
        }
        assert(parts.take(ss@.len() as int) =~= parts);
    }

    fn transpile_arm(&mut self, arm: &MatchArm)
        ensures
            final(self).buffer@ == old(self).buffer@ + sql_arm(*arm),
        decreases *arm, 0nat,
    {
        let ghost start = self.buffer@;
        push_str_chars(&mut self.buffer, "        WHEN '");
        push_str_chars(&mut self.buffer, arm.pattern.as_str());
        push_str_chars(&mut self.buffer, "' THEN\n");
        self.transpile_block(&arm.body);
        assert(self.buffer@ =~= start + sql_arm(*arm));
    }

    fn transpile_arms(&mut self, arms: &Vec<MatchArm>)
        ensures
            final(self).buffer@ == old(self).buffer@ + sql_arms(arms@),
        decreases arms@, 1nat,
    {
        let ghost start = self.buffer@;
        let ghost parts = arm_texts(arms@);
        let mut j: usize = 0;
        while j < arms.len()
            invariant
                j <= arms@.len(),
                parts == arm_texts(arms@),
                self.buffer@ == start + concat_seqs(parts.take(j as int)),
            decreases arms@.len() - j,
        {
            proof { lemma_concat_take(parts, j as int); }
            self.transpile_arm(&arms[j]);
            j = j + 1;
            proof {
                assert(self.buffer@ =~= start + concat_seqs(parts.take(j as int)));
            }
        }
        assert(parts.take(arms@.len() as int) =~= parts);
    }

    fn transpile_statement(&mut self, stmt: &Statement)
        ensures
            final(self).buffer@ == old(self).buffer@ + sql_stmt(*stmt),
        decreases *stmt, 0nat,
    {
        let ghost start = self.buffer@;
        match stmt {
            Statement::Return { value, .. } => {
                push_str_chars(&mut self.buffer, "    RETURN ");
                self.transpile_expression(value);
                push_str_chars(&mut self.buffer, ";\n");
            },
            Statement::Let { name, value, .. } => {
                push_str_chars(&mut self.buffer, "    ");
                push_str_chars(&mut self.buffer, name.as_str());
                push_str_chars(&mut self.buffer, " := ");
                self.transpile_expression(value);
                push_str_chars(&mut self.buffer, ";\n");
            },
            Statement::Assignment { target, value, .. } => {
                push_str_chars(&mut self.buffer, "    ");
                self.transpile_expression(target);
                push_str_chars(&mut self.buffer, " := ");
                self.transpile_expression(value);
                push_str_chars(&mut self.buffer, ";\n");
            },
            Statement::If { condition, then_branch, else_branch, .. } => {
                push_str_chars(&mut self.buffer, "    IF ");
                self.transpile_expression(condition);
                push_str_chars(&mut self.buffer, " THEN\n");
                self.transpile_block(then_branch);
                if let Some(eb) = else_branch {
                    push_str_chars(&mut self.buffer, "    ELSE\n");
                    self.transpile_block(eb);
                }
                push_str_chars(&mut self.buffer, "    END IF;\n");
            },
            Statement::While { condition, body, .. } => {
                push_str_chars(&mut self.buffer, "    WHILE ");
                self.transpile_expression(condition);
                push_str_chars(&mut self.buffer, " LOOP\n");
                self.transpile_block(body);
                push_str_chars(&mut self.buffer, "    END LOOP;\n");
            },
            Statement::ExpressionStmt(x, _) => {
                push_str_chars(&mut self.buffer, "    PERFORM ");
                self.transpile_expression(x);
                push_str_chars(&mut self.buffer, ";\n");
            },
            Statement::Match { condition, arms, .. } => {
                push_str_chars(&mut self.buffer, "    CASE ");
                self.transpile_expression(condition);
                push_str_chars(&mut self.buffer, "\n");
                self.transpile_arms(arms);
                push_str_chars(&mut self.buffer, "        ELSE NULL;\n");
                push_str_chars(&mut self.buffer, "    END CASE;\n");
            },
            Statement::UnsafeBlock(ss, _) => {
                push_str_chars(&mut self.buffer, "    -- UNSAFE BLOCK\n");
                self.transpile_block(ss);
            },
            Statement::NoOp => {},
            _ => {
                push_str_chars(&mut self.buffer, "    -- Unsupported statement\n");
            },
        }
        proof {
            assert(self.buffer@ =~= start + sql_stmt(*stmt));
        }
    }

    fn transpile_args(&mut self, args: &Vec<Expression>)
        ensures
            final(self).buffer@ == old(self).buffer@ + sql_args(args@),
        decreases args@, 1nat,
    {
        let ghost start = self.buffer@;
        let ghost parts = arg_texts(args@);
        let mut i: usize = 0;
        while i < args.len()
            invariant
                i <= args@.len(),
                parts == arg_texts(args@),
                self.buffer@ == start + join_seqs(parts.take(i as int), ", "@),
            decreases args@.len() - i,
        {
            proof { lemma_join_take(parts, ", "@, i as int); }
            if i > 0 {
                push_str_chars(&mut self.buffer, ", ");
            }
            self.transpile_expression(&args[i]);
            i = i + 1;
            proof {
                assert(self.buffer@ =~= start + join_seqs(parts.take(i as int), ", "@));
            }
        }
        assert(parts.take(args@.len() as int) =~= parts);
    }

    fn transpile_values(&mut self, ss: &Vec<Statement>)
        ensures
            final(self).buffer@ == old(self).buffer@ + sql_values(ss@),
        decreases ss@, 1nat,
    {
        let ghost start = self.buffer@;
        let ghost parts = value_texts(ss@);
        let mut i: usize = 0;
        while i < ss.len()
            invariant
                i <= ss@.len(),
                parts == value_texts(ss@),
                self.buffer@ == start + join_seqs(parts.take(i as int), "; "@),
            decreases ss@.len() - i,
        {
            proof { lemma_join_take(parts, "; "@, i as int); }
            if i > 0 {
                push_str_chars(&mut self.buffer, "; ");
            }
            self.transpile_value(&ss[i]);
            i = i + 1;
            proof {
                assert(self.buffer@ =~= start + join_seqs(parts.take(i as int), "; "@));
            }
        }
        assert(parts.take(ss@.len() as int) =~= parts);
    }

    fn transpile_expression(&mut self, expr: &Expression)
        ensures
            final(self).buffer@ == old(self).buffer@ + sql_expr(*expr),
        decreases *expr, 0nat,
    {
        let ghost start = self.buffer@;
        match expr {
            Expression::Integer(n, _) => {
                let t = i64_text(*n);
                push_slice(&mut self.buffer, &t);
            },
            Expression::Float(t, _) => {
                push_str_chars(&mut self.buffer, t.as_str());
            },
            Expression::Boolean(b, _) => {
                if *b {
                    push_str_chars(&mut self.buffer, "TRUE");
                } else {
                    push_str_chars(&mut self.buffer, "FALSE");
                }
            },
            Expression::String(s, _) => {
                push_str_chars(&mut self.buffer, "'");
                push_str_chars(&mut self.buffer, s.as_str());
                push_str_chars(&mut self.buffer, "'");
            },
            Expression::Identifier(s, _) => {
                push_str_chars(&mut self.buffer, s.as_str());
            },
            Expression::Infix { left, operator, right, .. } => {
                self.transpile_expression(left);
                push_str_chars(&mut self.buffer, " ");
                let op = operator_text(&operator.kind);
                push_str_chars(&mut self.buffer, op);
                push_str_chars(&mut self.buffer, " ");
                self.transpile_expression(right);
            },
            Expression::Call { function, arguments, .. } => {
                push_str_chars(&mut self.buffer, function.as_str());
                push_str_chars(&mut self.buffer, "(");
                self.transpile_args(arguments);
                push_str_chars(&mut self.buffer, ")");
            },
            Expression::MemberAccess { receiver, member, .. } => {
                self.transpile_expression(receiver);
                push_str_chars(&mut self.buffer, ".");
                push_str_chars(&mut self.buffer, member.as_str());
            },
            Expression::Cast { expr: inner, target, .. } => {
                self.transpile_expression(inner);
                push_str_chars(&mut self.buffer, "::");
                let t = map_type(target.as_str());
                push_slice(&mut self.buffer, &t);
            },
            Expression::Block { statements, .. } => {
                self.transpile_values(statements);
            },
            _ => {
                push_str_chars(&mut self.buffer, "NULL");
            },
        }
        proof {
            assert(self.buffer@ =~= start + sql_expr(*expr));
        }
    }

    fn transpile_value(&mut self, stmt: &Statement)
        ensures
            final(self).buffer@ == old(self).buffer@ + sql_value(*stmt),
        decreases *stmt, 0nat,
    {
        match stmt {
            Statement::Return { value, .. } => self.transpile_expression(value),
            Statement::Let { value, .. } => self.transpile_expression(value),
            Statement::ExpressionStmt(x, _) => self.transpile_expression(x),
            _ => push_str_chars(&mut self.buffer, "NULL"),
        }
    }
}

/// The SQL operator for an infix operator token.
fn operator_text(k: &TokenKind) -> (r: &'static str)
    ensures
        r@ == sql_operator(*k),
{
    match k {
        TokenKind::Plus => "+",
        TokenKind::Minus => "-",
        TokenKind::Star => "*",
        TokenKind::Slash => "/",
        TokenKind::EqEq => "=",
        TokenKind::NotEq => "!=",
        TokenKind::Gt => ">",
        TokenKind::Lt => "<",
        TokenKind::GtEq => ">=",
        TokenKind::LtEq => "<=",
        TokenKind::And => "AND",
        TokenKind::Or => "OR",
        _ => "?",
    }
}

/// `s` without its spaces.
fn remove_spaces(s: &str) -> (r: Vec<char>)
    ensures
        r@ == without_spaces(s@),
{
    let chars = crate::text::chars_of(s);
    let mut r: Vec<char> = Vec::new();
    let mut i: usize = 0;
    while i < chars.len()
        invariant
            i <= chars@.len(),
            chars@ == s@,
            r@ == without_spaces(chars@.take(i as int)),
        decreases chars@.len() - i,
    {
        assert(chars@.take(i + 1).drop_last() =~= chars@.take(i as int));
        if chars[i] != ' ' {
            r.push(chars[i]);
        }
        i = i + 1;
    }
    assert(chars@.take(chars@.len() as int) =~= chars@);
    r
}

/// The SQL type for a type name of the source language.
fn map_type(t: &str) -> (r: Vec<char>)
    ensures
        r@ == sql_type(t@),
{
    let c = remove_spaces(t);
    let name = if crate::text::eq_lit(&c, "i64") || crate::text::eq_lit(&c, "u64") || crate::text::eq_lit(&c, "i32")
        || crate::text::eq_lit(&c, "u32") || crate::text::eq_lit(&c, "i8") || crate::text::eq_lit(&c, "u8") {
        "BIGINT"
    } else if crate::text::eq_lit(&c, "f64") || crate::text::eq_lit(&c, "f32") {
        "DOUBLE PRECISION"
    } else if crate::text::eq_lit(&c, "bool") {
        "BOOLEAN"
    } else if crate::text::eq_lit(&c, "String") {
        "TEXT"
    } else if crate::text::eq_lit(&c, "Date") {
        "TIMESTAMP"
    } else if crate::text::eq_lit(&c, "Duration") {
        "INTERVAL"
    } else if crate::text::eq_lit(&c, "void") || crate::text::eq_lit(&c, "Unit") {
        "VOID"
    } else {
        "JSONB"
    };
    crate::text::chars_of(name)
}

/// Whether `sub` occurs in `s`.
fn occurs(sub: &str, s: &str) -> (b: bool)
    ensures
        b == occurs_in(sub@, s@),
{
    let a = crate::text::chars_of(s);
    let p = crate::text::chars_of(sub);
    if p.len() == 0 {
        assert(s@.subrange(0, 0 + sub@.len() as int) =~= sub@);
        return true;
    }
    if p.len() > a.len() {
        return false;
    }
    let last = a.len() - p.len();
    let mut i: usize = 0;
    while i <= last
        invariant
            a@ == s@,
            p@ == sub@,
            last == a@.len() - p@.len(),
            p@.len() >= 1,
            a@.len() <= usize::MAX,
            i <= last + 1,
            forall|k: int| 0 <= k < i ==> #[trigger] a@.subrange(k, k + p@.len()) != p@,
        decreases last + 1 - i,
    {
        assert(i + p@.len() <= a@.len());
        let w = crate::text::slice_chars(&a, i, i + p.len());
        if crate::text::chars_eq(&w, &p) {
            return true;
        }
        i = i + 1;
    }
    assert forall|k: int| 0 <= k && k + sub@.len() <= s@.len() implies #[trigger] s@.subrange(k, k + sub@.len()) != sub@ by {
        assert(k < i);
    }
    false
}

/// The type name given to a variable from its initial value.
fn infer_type(e: &Expression) -> (r: String)
    ensures
        r@ == inferred_type(*e),
{
    match e {
        Expression::Integer(..) => "i64".to_owned(),
        Expression::Float(..) => "f64".to_owned(),
        Expression::Char(..) => "i64".to_owned(),
        Expression::Boolean(..) => "bool".to_owned(),
        Expression::String(..) => "String".to_owned(),
        Expression::Call { function, .. } => {
            if occurs("print", function.as_str()) {
                "void".to_owned()
            } else {
                "i64".to_owned()
            }
        },
        Expression::Cast { target, .. } => target.clone(),
        Expression::Block { .. } => "void".to_owned(),
        Expression::If { .. } => "void".to_owned(),
        Expression::Match { .. } => "void".to_owned(),
        Expression::Duration(..) => "Duration".to_owned(),
        Expression::Date(..) => "Date".to_owned(),
        _ => "i64".to_owned(),
    }
}

/// The variables of a function body (see [`function_vars`]).
fn collect_vars(body: &Option<Vec<Statement>>) -> (r: Vec<(String, String)>)
    ensures
        var_views(r@) == match *body {
            Some(b) => declare_all(Seq::empty(), block_bindings(b@)),
            None => Seq::empty(),
        },
{
    let mut vars: Vec<(String, String)> = Vec::new();
    if let Some(stmts) = body {
        assert(var_views(vars@) =~= Seq::<VarDecl>::empty());
        collect_vars_block(stmts, &mut vars);
    } else {
        assert(var_views(vars@) =~= Seq::<VarDecl>::empty());
    }
    vars
}

/// Declares `b` in `vars` unless its name is declared already.
fn declare_var(vars: &mut Vec<(String, String)>, name: &String, ty: String)
    ensures
        var_views(final(vars)@) == declare(var_views(old(vars)@), (name@, ty@)),
{
    let ghost v = var_views(vars@);
    let mut i: usize = 0;
    while i < vars.len()
        invariant
            i <= vars@.len(),
            v == var_views(vars@),
            forall|k: int| 0 <= k < i ==> (#[trigger] v[k]).0 != name@,
        decreases vars@.len() - i,
    {
        if vars[i].0 == *name {
            assert(v[i as int].0 == name@);
            return;
        }
        i = i + 1;
    }
    vars.push((name.clone(), ty));
    assert(var_views(vars@) =~= v.push((name@, ty@)));
}

fn collect_vars_block(stmts: &Vec<Statement>, vars: &mut Vec<(String, String)>)
    ensures
        var_views(final(vars)@) == declare_all(var_views(old(vars)@), block_bindings(stmts@)),
    decreases stmts@, 1nat,
{
    let ghost start = var_views(vars@);
    let ghost parts = binding_parts(stmts@);
    let mut i: usize = 0;
    assert(parts.take(0).flatten_alt() =~= Seq::<VarDecl>::empty());
    while i < stmts.len()
        invariant
            i <= stmts@.len(),
            parts == binding_parts(stmts@),
            var_views(vars@) == declare_all(start, parts.take(i as int).flatten_alt()),
        decreases stmts@.len() - i,
    {
        proof {
            lemma_flatten_take(parts, i as int);
            lemma_declare_all_append(start, parts.take(i as int).flatten_alt(), parts[i as int]);
        }
        collect_vars_stmt(&stmts[i], vars);
        i = i + 1;
    }
    assert(parts.take(stmts@.len() as int) =~= parts);
}

fn collect_vars_arm(arm: &MatchArm, vars: &mut Vec<(String, String)>)
    ensures
        var_views(final(vars)@) == declare_all(var_views(old(vars)@), arm_bindings(*arm)),
    decreases *arm, 0nat,
{
    collect_vars_block(&arm.body, vars);
}

fn collect_vars_arms(arms: &Vec<MatchArm>, vars: &mut Vec<(String, String)>)
    ensures
        var_views(final(vars)@) == declare_all(var_views(old(vars)@), arms_bindings(arms@)),
    decreases arms@, 1nat,
{
    let ghost start = var_views(vars@);
    let ghost parts = arm_binding_parts(arms@);
    let mut j: usize = 0;
    assert(parts.take(0).flatten_alt() =~= Seq::<VarDecl>::empty());
    while j < arms.len()
        invariant
            j <= arms@.len(),
            parts == arm_binding_parts(arms@),
            var_views(vars@) == declare_all(start, parts.take(j as int).flatten_alt()),
        decreases arms@.len() - j,
    {
        proof {
            lemma_flatten_take(parts, j as int);
            lemma_declare_all_append(start, parts.take(j as int).flatten_alt(), parts[j as int]);
        }
        collect_vars_arm(&arms[j], vars);
        j = j + 1;
    }
    assert(parts.take(arms@.len() as int) =~= parts);
}

fn collect_vars_stmt(stmt: &Statement, vars: &mut Vec<(String, String)>)
    ensures
        var_views(final(vars)@) == declare_all(var_views(old(vars)@), let_bindings(*stmt)),
    decreases *stmt, 0nat,
{
    let ghost start = var_views(vars@);
    match stmt {
        Statement::Let { name, value, .. } => {
            let ty = infer_type(value);
            declare_var(vars, name, ty);
            assert(seq![(name@, inferred_type(*value))].drop_last() =~= Seq::<VarDecl>::empty());
            assert(declare_all(start, Seq::<VarDecl>::empty()) == start);
        },
        Statement::If { then_branch, else_branch, .. } => {
            collect_vars_block(then_branch, vars);
            if let Some(eb) = else_branch {
                proof { lemma_declare_all_append(start, block_bindings(then_branch@), block_bindings(eb@)); }
                collect_vars_block(eb, vars);
            } else {
                assert(block_bindings(then_branch@) + Seq::<VarDecl>::empty() =~= block_bindings(then_branch@));
            }
        },
        Statement::While { body, .. } => {
            collect_vars_block(body, vars);
        },
        Statement::Match { arms, .. } => {
            collect_vars_arms(arms, vars);
        },
        Statement::UnsafeBlock(ss, _) => {
            collect_vars_block(ss, vars);
        },
        Statement::Spawn(ss, _) => {
            collect_vars_block(ss, vars);
        },
        _ => {
            assert(declare_all(start, Seq::<VarDecl>::empty()) == start);
        },
    }
}

} // verus!
