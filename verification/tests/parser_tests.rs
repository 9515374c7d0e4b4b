use aionc::ast::{Declaration, Expression, Statement};
use aionc::lexer::Lexer;
use aionc::parser::{parse_source, Parser};
use aionc::token::TokenKind;

#[test]
fn test_parse_expression() {
    let input = "1 + 2 * 3";
    let lexer = Lexer::new(input);
    let mut parser = Parser::new(lexer);
    let expr = parser.parse_expression();

    if let Expression::Infix { left: _, operator, right, .. } = expr {
        assert_eq!(operator.kind, TokenKind::Plus);
        assert!(matches!(*right, Expression::Infix { .. }), "Expected right to be an infix expression");
        if let Expression::Infix { operator: op2, .. } = *right {
            assert_eq!(op2.kind, TokenKind::Star);
        }
    } else {
        panic!("Expected infix expression (+)");
    }
}

#[test]
fn test_parse_method_call() {
    // Use Vector.new().len() to force MethodCall
    let input = "Vector.new().len()";
    let lexer = Lexer::new(input);
    let mut parser = Parser::new(lexer);
    let expr = parser.parse_expression();

    let is_method_call = matches!(expr, Expression::MethodCall { .. });
    assert!(is_method_call, "Expected method call, got {:?}", expr);
}

#[test]
fn test_parse_function() {
    let input = "fn add(a: i64, b: i64) -> i64 { return a + b; }";
    let lexer = Lexer::new(input);
    let mut parser = Parser::new(lexer);
    let program = parser.parse_program();

    assert_eq!(program.declarations.len(), 1);
    let is_fn = matches!(program.declarations[0], Declaration::Function(_));
    assert!(is_fn, "Expected function declaration");
    if let Declaration::Function(f) = &program.declarations[0] {
        assert_eq!(f.name, "add");
        assert_eq!(f.params.len(), 2);
        assert_eq!(f.return_type, "i64");
    }
}

#[test]
fn program_with_module_imports_and_declarations() {
    let src = "module app.main;\nuse std.io;\n/// A point\nstruct Point { x: i64, y: i64 }\nenum Shape<T> { Dot, Circle(T) }\nimpl Point { fn norm(self) -> i64 { return self.x; } }";
    let (program, errors) = parse_source(src).expect("lexable");
    assert!(errors.is_empty());
    assert_eq!(program.module_name, Some("app.main".to_string()));
    assert_eq!(program.imports.len(), 1);
    assert_eq!(program.imports[0].path, vec!["std".to_string(), "io".to_string()]);
    assert_eq!(program.declarations.len(), 3);
    match &program.declarations[0] {
        Declaration::Struct(s) => {
            assert_eq!(s.name, "Point");
            assert_eq!(s.fields, vec![("x".to_string(), "i64".to_string()), ("y".to_string(), "i64".to_string())]);
            assert_eq!(s.doc_comment, Some("A point".to_string()));
        }
        other => panic!("unexpected {:?}", other),
    }
    match &program.declarations[1] {
        Declaration::Enum(e) => {
            assert_eq!(e.generic_params, vec!["T".to_string()]);
            assert_eq!(e.variants.len(), 2);
            assert_eq!(e.variants[1].data_types, vec!["T".to_string()]);
        }
        other => panic!("unexpected {:?}", other),
    }
    match &program.declarations[2] {
        Declaration::Impl(b) => {
            assert_eq!(b.target_name, "Point");
            assert_eq!(b.functions.len(), 1);
            assert_eq!(b.functions[0].params[0].0, "self");
            assert_eq!(b.functions[0].params[0].1, "Self");
        }
        other => panic!("unexpected {:?}", other),
    }
}

#[test]
fn syntax_errors_are_reported_with_positions() {
    let (program, errors) = parse_source(":: x\nfn f() {}").expect("lexable");
    assert_eq!(program.declarations.len(), 1);
    assert_eq!(
        errors,
        vec![
            "Syntax Error: Unexpected :: at top level at line 1, col 1".to_string(),
            "Syntax Error: Unexpected token in declaration at line 1, col 4".to_string(),
        ]
    );
    let (_, errors) = parse_source("impl Foo ;").expect("lexable");
    assert_eq!(errors[0], "Syntax Error: Expected '{' after impl target at line 1, col 10");
}

#[test]
fn function_parameters_defaults_and_extern() {
    let src = "extern fn puts(s: String) -> i64;\nfn f(mut a: i32, b, c: i64 = 4) {}";
    let (program, errors) = parse_source(src).expect("lexable");
    assert!(errors.is_empty());
    assert_eq!(program.declarations.len(), 2);
    match &program.declarations[0] {
        Declaration::Function(f) => {
            assert!(f.body.is_none());
            assert_eq!(f.modifiers[0].kind, TokenKind::Extern);
        }
        other => panic!("unexpected {:?}", other),
    }
    match &program.declarations[1] {
        Declaration::Function(f) => {
            assert_eq!(f.return_type, "void");
            assert_eq!(f.params[0].0, "a");
            assert_eq!(f.params[0].1, "i32");
            assert_eq!(f.params[1].1, "i64");
            assert!(matches!(f.params[2].2.as_deref(), Some(Expression::Integer(4, _))));
        }
        other => panic!("unexpected {:?}", other),
    }
}

#[test]
fn statements_and_match_arms() {
    let src = "fn g(x: i64) { let mut y = -x; while y < 3 { y = y + 1; } match x { 1 | 2 => return 1, n if n > 5 => { return n; } } }";
    let (program, errors) = parse_source(src).expect("lexable");
    assert!(errors.is_empty());
    let body = match &program.declarations[0] {
        Declaration::Function(f) => f.body.as_ref().expect("body"),
        other => panic!("unexpected {:?}", other),
    };
    assert_eq!(body.len(), 3);
    assert!(matches!(&body[0], Statement::Let { is_mut: true, .. }));
    assert!(matches!(&body[1], Statement::While { .. }));
    match &body[2] {
        Statement::Match { arms, .. } => {
            assert_eq!(arms.len(), 2);
            assert_eq!(arms[0].patterns, vec!["1".to_string(), "2".to_string()]);
            assert_eq!(arms[1].params, vec!["n".to_string()]);
            assert!(arms[1].patterns.is_empty());
            assert!(arms[1].guard.is_some());
        }
        other => panic!("unexpected {:?}", other),
    }
}

#[test]
fn unreadable_date_literal_gives_no_parse() {
    assert!(parse_source("let d = D2024-14-01;").is_none());
}

fn infix_parts(e: Expression) -> (Expression, TokenKind, Expression) {
    match e {
        Expression::Infix { left, operator, right, .. } => (*left, operator.kind, *right),
        other => panic!("expected an infix expression, got {:?}", other),
    }
}

#[test]
fn parenthesised_operand_binds_first() {
    let mut parser = Parser::new(Lexer::new("(1 + 2) * 3"));
    let (l, op, r) = infix_parts(parser.parse_expression());
    assert_eq!(op, TokenKind::Star);
    assert!(matches!(r, Expression::Integer(3, _)));
    let (a, op2, b) = infix_parts(l);
    assert_eq!(op2, TokenKind::Plus);
    assert!(matches!(a, Expression::Integer(1, _)));
    assert!(matches!(b, Expression::Integer(2, _)));
}

#[test]
fn equal_strength_operators_group_left() {
    let mut parser = Parser::new(Lexer::new("a - b - c"));
    let (l, op, r) = infix_parts(parser.parse_expression());
    assert_eq!(op, TokenKind::Minus);
    assert!(matches!(r, Expression::Identifier(ref n, _) if n == "c"));
    let (a, _, b) = infix_parts(l);
    assert!(matches!(a, Expression::Identifier(ref n, _) if n == "a"));
    assert!(matches!(b, Expression::Identifier(ref n, _) if n == "b"));
}

#[test]
fn logical_operators_bind_loosest() {
    let mut parser = Parser::new(Lexer::new("x == 1 || y > 2 && true"));
    let (l, op, r) = infix_parts(parser.parse_expression());
    assert_eq!(op, TokenKind::Or);
    let (_, op_l, _) = infix_parts(l);
    assert_eq!(op_l, TokenKind::EqEq);
    let (rl, op_r, rr) = infix_parts(r);
    assert_eq!(op_r, TokenKind::And);
    assert!(matches!(rr, Expression::Boolean(true, _)));
    let (_, op_rl, _) = infix_parts(rl);
    assert_eq!(op_rl, TokenKind::Gt);
}

#[test]
fn comparison_with_a_name_is_not_generic_arguments() {
    let mut parser = Parser::new(Lexer::new("i < n + 1"));
    let (l, op, r) = infix_parts(parser.parse_expression());
    assert_eq!(op, TokenKind::Lt);
    assert!(matches!(l, Expression::Identifier(ref n, _) if n == "i"));
    let (_, op2, _) = infix_parts(r);
    assert_eq!(op2, TokenKind::Plus);
}

#[test]
fn function_body_statements_in_order() {
    let (program, errors) = parse_source("fn f() { let mut x = 1 + 2; x = x * 3;; return x; }").expect("lexable");
    assert!(errors.is_empty());
    let body = match &program.declarations[0] {
        Declaration::Function(f) => f.body.as_ref().expect("a body"),
        other => panic!("unexpected {:?}", other),
    };
    assert_eq!(body.len(), 3);
    match &body[0] {
        Statement::Let { name, value, is_mut, explicit_type, .. } => {
            assert_eq!(name, "x");
            assert!(*is_mut);
            assert!(explicit_type.is_none());
            assert!(matches!(value, Expression::Infix { .. }));
        }
        other => panic!("unexpected {:?}", other),
    }
    assert!(matches!(&body[1], Statement::Assignment { target: Expression::Identifier(n, _), .. } if n == "x"));
    assert!(matches!(&body[2], Statement::Return { value: Expression::Identifier(n, _), .. } if n == "x"));
}

#[test]
fn program_of_functions_reads_in_order() {
    let src = "fn add(a: i64, b: i64) -> i64 { return a + b; }\nfn main() { let x = add(1, 2); }";
    let (program, errors) = parse_source(src).expect("lexable");
    assert!(errors.is_empty());
    assert_eq!(program.module_name, None);
    assert!(program.imports.is_empty());
    assert_eq!(program.declarations.len(), 2);
    match &program.declarations[0] {
        Declaration::Function(f) => {
            assert_eq!(f.name, "add");
            assert!(f.generic_params.is_empty());
            let params: Vec<(String, String)> = f.params.iter().map(|p| (p.0.clone(), p.1.clone())).collect();
            assert_eq!(params, vec![("a".to_string(), "i64".to_string()), ("b".to_string(), "i64".to_string())]);
            assert!(f.params.iter().all(|p| p.2.is_none()));
            assert_eq!(f.return_type, "i64");
            assert_eq!(f.body.as_ref().map(|b| b.len()), Some(1));
        }
        other => panic!("unexpected {:?}", other),
    }
    match &program.declarations[1] {
        Declaration::Function(f) => {
            assert_eq!(f.name, "main");
            assert_eq!(f.return_type, "void");
            assert!(f.params.is_empty());
        }
        other => panic!("unexpected {:?}", other),
    }
}

#[test]
fn program_of_structs_and_functions() {
    let src = "struct P { x: i64, y: String }\nfn get(p: P) -> i64 { return 1; }\nstruct Q { }";
    let (program, errors) = parse_source(src).expect("lexable");
    assert!(errors.is_empty());
    assert_eq!(program.declarations.len(), 3);
    match &program.declarations[0] {
        Declaration::Struct(s) => {
            assert_eq!(s.name, "P");
            assert!(s.generic_params.is_empty());
            assert_eq!(s.fields, vec![("x".to_string(), "i64".to_string()), ("y".to_string(), "String".to_string())]);
            assert!(s.attributes.is_empty());
            assert_eq!(s.doc_comment, None);
        }
        other => panic!("unexpected {:?}", other),
    }
    assert!(matches!(&program.declarations[1], Declaration::Function(f) if f.name == "get" && f.params.len() == 1));
    assert!(matches!(&program.declarations[2], Declaration::Struct(s) if s.name == "Q" && s.fields.is_empty()));
}

#[test]
fn calls_and_method_chains_in_expressions() {
    let mut parser = Parser::new(Lexer::new("io.println(add(1, 2) * 3, s.len())"));
    match parser.parse_expression() {
        Expression::Call { function, generic_args, arguments, .. } => {
            assert_eq!(function, "io.println");
            assert!(generic_args.is_empty());
            assert_eq!(arguments.len(), 2);
            let mut args = arguments;
            let second = args.pop().expect("two arguments");
            let first = args.pop().expect("two arguments");
            let (l, op, _) = infix_parts(first);
            assert_eq!(op, TokenKind::Star);
            assert!(matches!(l, Expression::Call { ref function, ref arguments, .. } if function == "add" && arguments.len() == 2));
            // A dotted name called is one call of the whole name.
            assert!(matches!(second, Expression::Call { ref function, ref arguments, .. } if function == "s.len" && arguments.is_empty()));
        }
        other => panic!("unexpected {:?}", other),
    }
}

#[test]
fn control_flow_statements_in_bodies() {
    let src = "fn f(n: i64) -> i64 { let mut i = 0; while i < n { i = i + 1; } if i == n { return i; } else if i > n { return 0; } else { io.println(\"x\"); } return 1; }";
    let (program, errors) = parse_source(src).expect("lexable");
    assert!(errors.is_empty());
    let body = match &program.declarations[0] {
        Declaration::Function(f) => f.body.as_ref().expect("a body"),
        other => panic!("unexpected {:?}", other),
    };
    assert_eq!(body.len(), 4);
    match &body[1] {
        Statement::While { condition, body, .. } => {
            assert!(matches!(condition, Expression::Infix { .. }));
            assert_eq!(body.len(), 1);
            assert!(matches!(&body[0], Statement::Assignment { .. }));
        }
        other => panic!("unexpected {:?}", other),
    }
    match &body[2] {
        Statement::If { then_branch, else_branch: Some(els), .. } => {
            assert_eq!(then_branch.len(), 1);
            assert_eq!(els.len(), 1);
            match &els[0] {
                Statement::If { else_branch: Some(last), .. } => {
                    assert!(matches!(&last[0], Statement::ExpressionStmt(Expression::Call { function, .. }, _) if function == "io.println"));
                }
                other => panic!("unexpected {:?}", other),
            }
        }
        other => panic!("unexpected {:?}", other),
    }
    assert!(matches!(&body[3], Statement::Return { value: Expression::Integer(1, _), .. }));
}

#[test]
fn enum_declarations_with_payloads() {
    let (program, errors) = parse_source("enum Shape { Dot, Circle(i64), Rect(i64, i64), }\nenum Empty { }").expect("lexable");
    assert!(errors.is_empty());
    assert_eq!(program.declarations.len(), 2);
    match &program.declarations[0] {
        Declaration::Enum(e) => {
            assert_eq!(e.name, "Shape");
            assert!(e.generic_params.is_empty());
            let vs: Vec<(String, Vec<String>)> = e.variants.iter().map(|v| (v.name.clone(), v.data_types.clone())).collect();
            assert_eq!(
                vs,
                vec![
                    ("Dot".to_string(), vec![]),
                    ("Circle".to_string(), vec!["i64".to_string()]),
                    ("Rect".to_string(), vec!["i64".to_string(), "i64".to_string()]),
                ]
            );
            assert_eq!(e.doc_comment, None);
        }
        other => panic!("unexpected {:?}", other),
    }
    assert!(matches!(&program.declarations[1], Declaration::Enum(e) if e.name == "Empty" && e.variants.is_empty()));
}

fn body_of(src: &str) -> Vec<Statement> {
    let (program, errors) = parse_source(src).expect("lexable");
    assert!(errors.is_empty(), "{:?}", errors);
    match program.declarations.into_iter().next() {
        Some(Declaration::Function(f)) => f.body.expect("a body"),
        other => panic!("unexpected {:?}", other),
    }
}

#[test]
fn prefix_operators_and_guarded_blocks() {
    let body = body_of("fn f() { let a = -5; let b = !c; let d = -x; unsafe { g(); } spawn { h(); } }");
    assert_eq!(body.len(), 5);
    assert!(matches!(&body[0], Statement::Let { value: Expression::Integer(-5, _), .. }));
    match &body[1] {
        Statement::Let { value: Expression::Infix { left, operator, right, .. }, .. } => {
            assert!(matches!(&**left, Expression::Identifier(n, _) if n == "c"));
            assert_eq!(operator.kind, TokenKind::EqEq);
            assert!(matches!(&**right, Expression::Boolean(false, _)));
        }
        other => panic!("unexpected {:?}", other),
    }
    match &body[2] {
        Statement::Let { value: Expression::Infix { left, operator, right, .. }, .. } => {
            assert!(matches!(&**left, Expression::Integer(0, _)));
            assert_eq!(operator.kind, TokenKind::Minus);
            assert!(matches!(&**right, Expression::Identifier(n, _) if n == "x"));
        }
        other => panic!("unexpected {:?}", other),
    }
    assert!(matches!(&body[3], Statement::UnsafeBlock(b, _) if b.len() == 1));
    assert!(matches!(&body[4], Statement::Spawn(b, _) if b.len() == 1));
}

#[test]
fn dereferences_and_intrinsics() {
    let body = body_of("fn f() { let a = *p; let b = @mem_zero(x); let c = *q + 1; }");
    assert_eq!(body.len(), 3);
    assert!(matches!(&body[0], Statement::Let { value: Expression::Deref { expr, .. }, .. }
        if matches!(&**expr, Expression::Identifier(n, _) if n == "p")));
    match &body[1] {
        Statement::Let { value: Expression::Intrinsic { name, arguments, .. }, .. } => {
            assert_eq!(name, "mem_zero");
            assert_eq!(arguments.len(), 1);
            assert!(matches!(&arguments[0], Expression::Identifier(n, _) if n == "x"));
        }
        other => panic!("unexpected {:?}", other),
    }
    match &body[2] {
        Statement::Let { value: Expression::Infix { left, operator, .. }, .. } => {
            assert!(matches!(&**left, Expression::Deref { .. }));
            assert_eq!(operator.kind, TokenKind::Plus);
        }
        other => panic!("unexpected {:?}", other),
    }
}

#[test]
fn enum_variants_with_and_without_arguments() {
    let body = body_of("fn f() { let a = Color::Red; let b = Opt::Some(1, x); }");
    assert_eq!(body.len(), 2);
    match &body[0] {
        Statement::Let { value: Expression::EnumInst { name, variant, generic_args, arguments, .. }, .. } => {
            assert_eq!(name, "Color");
            assert_eq!(variant, "Red");
            assert!(generic_args.is_empty());
            assert!(arguments.is_empty());
        }
        other => panic!("unexpected {:?}", other),
    }
    match &body[1] {
        Statement::Let { value: Expression::EnumInst { name, variant, arguments, .. }, .. } => {
            assert_eq!(name, "Opt");
            assert_eq!(variant, "Some");
            assert_eq!(arguments.len(), 2);
            assert!(matches!(&arguments[0], Expression::Integer(1, _)));
        }
        other => panic!("unexpected {:?}", other),
    }
}

#[test]
fn module_name_and_imports_are_read() {
    let (prog, errors) = parse_source("module app.core;\nuse lib.io;\nuse a.b.c;\nfn f() {}").expect("lexable");
    assert!(errors.is_empty());
    assert_eq!(prog.module_name.as_deref(), Some("app.core"));
    assert_eq!(prog.imports.len(), 2);
    assert_eq!(prog.imports[0].path, vec!["lib".to_string(), "io".to_string()]);
    assert_eq!(prog.imports[1].path, vec!["a".to_string(), "b".to_string(), "c".to_string()]);
    assert!(prog.imports.iter().all(|i| i.alias.is_none()));
    assert_eq!(prog.declarations.len(), 1);
}

#[test]
fn struct_literal_fields_are_read_in_order() {
    let body = body_of("fn f() { let p = P { x: 1, y: a + b }; let q = Q {}; }");
    assert_eq!(body.len(), 2);
    match &body[0] {
        Statement::Let { value: Expression::StructInst { name, fields, .. }, .. } => {
            assert_eq!(name, "P");
            assert_eq!(fields.len(), 2);
            assert_eq!(fields[0].0, "x");
            assert!(matches!(&fields[0].1, Expression::Integer(1, _)));
            assert_eq!(fields[1].0, "y");
            assert!(matches!(&fields[1].1, Expression::Infix { .. }));
        }
        other => panic!("unexpected {:?}", other),
    }
    match &body[1] {
        Statement::Let { value: Expression::StructInst { name, fields, .. }, .. } => {
            assert_eq!(name, "Q");
            assert!(fields.is_empty());
        }
        other => panic!("unexpected {:?}", other),
    }
}

#[test]
fn match_arms_with_paths_literals_and_bindings() {
    let body = body_of("fn f(c: Color) { match c { Color::Red => { return 1; }, 7 => return 2, \"s\" => x = 3, other => return 4 } }");
    assert_eq!(body.len(), 1);
    match &body[0] {
        Statement::Match { condition, arms, .. } => {
            assert!(matches!(condition, Expression::Identifier(n, _) if n == "c"));
            assert_eq!(arms.len(), 4);
            assert_eq!(arms[0].pattern, "Color::Red");
            assert_eq!(arms[0].patterns, vec!["Color::Red".to_string()]);
            assert!(arms[0].params.is_empty());
            assert!(matches!(&arms[0].body[..], [Statement::Return { .. }]));
            assert_eq!(arms[1].pattern, "7");
            assert!(matches!(&arms[1].body[..], [Statement::Return { value: Expression::Integer(2, _), .. }]));
            assert_eq!(arms[2].pattern, "\"s\"");
            assert!(matches!(&arms[2].body[..], [Statement::Assignment { .. }]));
            assert_eq!(arms[3].pattern, "other");
            assert!(arms[3].patterns.is_empty());
            assert_eq!(arms[3].params, vec!["other".to_string()]);
            assert!(arms.iter().all(|a| a.guard.is_none()));
        }
        other => panic!("unexpected {:?}", other),
    }
}

#[test]
fn casts_and_pipelines() {
    let body = body_of("fn f() { let y = x as i64; let z = a |> f(1); let w = a |> g; }");
    assert_eq!(body.len(), 3);
    match &body[0] {
        Statement::Let { value: Expression::Cast { expr, target, .. }, .. } => {
            assert!(matches!(&**expr, Expression::Identifier(n, _) if n == "x"));
            assert_eq!(target, "i64");
        }
        other => panic!("unexpected {:?}", other),
    }
    match &body[1] {
        Statement::Let { value: Expression::Call { function, arguments, .. }, .. } => {
            assert_eq!(function, "f");
            assert_eq!(arguments.len(), 2);
            assert!(matches!(&arguments[0], Expression::Identifier(n, _) if n == "a"));
            assert!(matches!(&arguments[1], Expression::Integer(1, _)));
        }
        other => panic!("unexpected {:?}", other),
    }
    match &body[2] {
        Statement::Let { value: Expression::Call { function, arguments, .. }, .. } => {
            assert_eq!(function, "g");
            assert_eq!(arguments.len(), 1);
        }
        other => panic!("unexpected {:?}", other),
    }
}
