use aionc::analysis::checker::{intrinsic_ret_type, resolve_fuzzy_name, substitute_generics, DeclInfo, TypeChecker};
use aionc::analysis::types::Type;
use aionc::ast::{Declaration, Expression, Function, Program, Span, Statement};
use aionc::error::CompileError;
use aionc::parser::parse_source;
use aionc::pipeline::check_source;

fn check(src: &str) -> Result<(), CompileError> {
    check_source(src).expect("lexable")
}

fn message(r: Result<(), CompileError>) -> String {
    match r {
        Err(e) => e.to_text(),
        Ok(()) => panic!("expected an error"),
    }
}

#[test]
fn well_typed_program_passes() {
    let src = "struct P { x: i64 }\nfn get(p: P) -> i64 { return p.x; }\nfn main() { let a = 1 + 2; let s = \"n=\" + a; io.println(s); }";
    assert!(check(src).is_ok());
}

#[test]
fn undefined_function_is_reported_with_suggestion() {
    let src = "fn greet() {}\nfn main() { greeb(); }";
    match check(src) {
        Err(CompileError::NotFound { kind, name, suggestion, line, col, .. }) => {
            assert_eq!(kind, "function");
            assert_eq!(name, "greeb");
            assert_eq!(suggestion, " (did you mean 'greet'?)");
            assert_eq!((line, col), (2, 18));
        }
        other => panic!("unexpected {:?}", other),
    }
}

#[test]
fn arity_and_argument_types_are_checked() {
    let src = "fn f(a: i64) {}\nfn main() { f(1, 2); }";
    assert_eq!(message(check(src)), "Type Error: function 'f' expects 1 arguments, got 2");
    let src = "fn f(a: String) {}\nfn main() { f(true); }";
    assert_eq!(
        message(check(src)),
        "Type Error: argument of type 'bool' does not match parameter type 'String' (line 2 col 15)"
    );
}

#[test]
fn return_type_mismatch() {
    let src = "fn f() -> String { return 1 < 2; }";
    assert_eq!(
        message(check(src)),
        "Type Error: return value of type 'bool' does not match declared return type 'String'"
    );
}

#[test]
fn unsafe_calls_need_an_unsafe_context() {
    let src = "unsafe fn raw() {}\nfn main() { raw(); }";
    assert_eq!(message(check(src)), "Type Error: call to unsafe function 'raw' requires unsafe block");
    let ok = "unsafe fn raw() {}\nfn main() { unsafe { raw(); } }";
    assert!(check(ok).is_ok());
}

#[test]
fn matches_on_enums_must_be_exhaustive() {
    let src = "enum C { Red, Green, Blue }\nfn f(c: C) { match c { Red => return 1, Green => return 2, } }";
    assert_eq!(message(check(src)), "Type Error: non-exhaustive match on C \u{2014} missing variant(s): Blue");
    let ok = "enum C { Red, Green }\nfn f(c: C) { match c { Red => return 1, _ => return 2, } }";
    assert!(check(ok).is_ok());
}

#[test]
fn spawn_bodies_cannot_capture_locals() {
    let src = "fn main() { let n = 1; spawn { io.println(n); } }";
    assert_eq!(
        message(check(src)),
        "Type Error: spawn block captures variable 'n' \u{2014} spawn bodies run on a separate thread and cannot capture locals (#176)"
    );
    let ok = "fn main() { spawn { io.println(\"hi\"); } }";
    assert!(check(ok).is_ok());
}

#[test]
fn operators_and_casts() {
    let src = "fn f() { let a = 1 && 2; }";
    assert_eq!(message(check(src)), "Incompatible operator And for types i64 and i64");
    let src = "fn f() { let a = \"x\" as i64; }";
    assert_eq!(message(check(src)), "Type Error: cannot cast String to i64");
}

#[test]
fn fields_and_methods() {
    let src = "struct P { x: i64 }\nfn mk() -> P { return P { x: 1 }; }\nfn f() -> i64 { return mk().y; }";
    assert_eq!(message(check(src)), "Not Found: field 'y' is not defined (did you mean 'x'?)");
    let src = "struct P { x: i64 }\nimpl P { fn get(self) -> i64 { return self.x; } }\nfn mk() -> P { return P { x: 1 }; }\nfn f() -> i64 { return mk().get(1); }";
    assert_eq!(message(check(src)), "Type Error: method 'get' expects 0 arguments, got 1");
    // A dotted field of a variable is looked up through its struct.
    let ok = "struct P { x: i64 }\nfn f(p: P) -> i64 { return p.x; }";
    assert!(check(ok).is_ok());
}

#[test]
fn checker_program_api() {
    let (program, errors) = parse_source("fn main() { let x = 1; }").expect("lexable");
    assert!(errors.is_empty());
    let mut checker = TypeChecker::new();
    assert!(checker.check_program(&program).is_ok());
}

#[test]
fn fuzzy_names_and_generic_substitution() {
    let decls = vec![
        ("std.option.Option".to_string(), DeclInfo::Function { first_param: None }),
        ("Option".to_string(), DeclInfo::Function { first_param: None }),
    ];
    assert_eq!(resolve_fuzzy_name(&decls, "Option"), Some("Option".to_string()));
    assert_eq!(resolve_fuzzy_name(&decls, "option.Option"), Some("std.option.Option".to_string()));
    assert_eq!(resolve_fuzzy_name(&decls, "tion"), None);
    let params = vec!["T".to_string(), "E".to_string()];
    let args = vec![Type::i64(), Type::String];
    assert_eq!(substitute_generics("Result<T, E>", &params, &args), "Result<i64, String>");
    assert_eq!(substitute_generics("Tree<T2>", &params, &args), "Tree<T2>");
    assert_eq!(substitute_generics("T", &Vec::new(), &args), "T");
}

#[test]
fn let_binding_is_read_back_with_its_type() {
    assert!(check("fn f() -> i64 { let x = 5; return x; }").is_ok());
    assert_eq!(
        message(check("fn f() -> String { let x = 5; return x; }")),
        "Type Error: return value of type 'i64' does not match declared return type 'String'"
    );
    assert!(check("fn f() -> String { let s: String = \"a\"; return s; }").is_ok());
}

fn annotated_let_program(annotation: &str, value: Expression, ret: &str) -> Program {
    let span = Span { line: 1, col: 1 };
    let body = vec![
        Statement::Let {
            name: "x".to_string(),
            value,
            explicit_type: Some(annotation.to_string()),
            intent: None,
            is_mut: false,
            span,
        },
        Statement::Return { value: Expression::Identifier("x".to_string(), span), intent: None, span },
    ];
    let f = Function {
        name: "f".to_string(),
        generic_params: vec![],
        params: vec![],
        return_type: ret.to_string(),
        body: Some(body),
        modifiers: vec![],
        attributes: vec![],
        doc_comment: None,
    };
    Program { module_name: None, imports: vec![], declarations: vec![Declaration::Function(f)] }
}

#[test]
fn let_annotation_must_match_literal() {
    let span = Span { line: 1, col: 1 };
    let bad = annotated_let_program("String", Expression::Integer(5, span), "String");
    let mut checker = TypeChecker::new();
    assert_eq!(
        message(checker.check_program(&bad)),
        "Type Error: let annotation 'String' does not match value type 'i64'"
    );
    // Integer widths convert to the annotation, which the name then has.
    let widened = annotated_let_program("i32", Expression::Integer(5, span), "i32");
    assert!(TypeChecker::new().check_program(&widened).is_ok());
    let wrong_return = annotated_let_program("i32", Expression::Integer(5, span), "String");
    assert_eq!(
        message(TypeChecker::new().check_program(&wrong_return)),
        "Type Error: return value of type 'i32' does not match declared return type 'String'"
    );
}

#[test]
fn literal_return_against_declared_type() {
    assert!(check("fn f() -> bool { return true; }").is_ok());
    assert_eq!(
        message(check("fn f() -> bool { return 2.5; }")),
        "Type Error: return value of type 'f64' does not match declared return type 'bool'"
    );
}

#[test]
fn spawn_bodies_may_use_their_own_bindings_and_globals() {
    let ok = "fn helper() -> i64 { return 1; }\nfn main() { spawn { let m = helper(); io.println(\"x\"); let k = m + 1; } }";
    assert!(check(ok).is_ok());
    let src = "fn main() { let total = 0; spawn { let m = 1; let k = m + total; } }";
    assert_eq!(
        message(check(src)),
        "Type Error: spawn block captures variable 'total' \u{2014} spawn bodies run on a separate thread and cannot capture locals (#176)"
    );
}

#[test]
fn operator_expressions_get_their_rule_types() {
    assert!(check("fn f() -> bool { return 1 + 2 < 4 && true; }").is_ok());
    assert_eq!(
        message(check("fn f() -> String { let x = 1 + 2 * 3; return x; }")),
        "Type Error: return value of type 'i64' does not match declared return type 'String'"
    );
    assert_eq!(
        message(check("fn f() -> bool { return 1.5 < 2.5 == 3; }")),
        "Incompatible operator EqEq for types Boolean and Integer { signed: true, bits: 64 }"
    );
}

#[test]
fn program_arguments_are_predeclared() {
    assert!(check("fn f() -> i64 { return argc; }").is_ok());
    assert_eq!(
        message(check("fn f() -> bool { return argv; }")),
        "Type Error: return value of type 'String' does not match declared return type 'bool'"
    );
}

#[test]
fn declarations_are_visible_before_their_position() {
    assert!(check("fn main() { helper(); }\nfn helper() {}").is_ok());
    assert!(check("fn make() -> P { return P { x: 1 }; }\nstruct P { x: i64 }").is_ok());
}

#[test]
fn calls_have_their_declared_return_type() {
    assert!(check("fn add(a: i64, b: i64) -> i64 { return a + b; }\nfn f() -> i64 { return add(1, 2 * 3); }").is_ok());
    assert_eq!(
        message(check("fn add(a: i64, b: i64) -> i64 { return a + b; }\nfn f() -> String { return add(1, 2); }")),
        "Type Error: return value of type 'i64' does not match declared return type 'String'"
    );
    assert_eq!(
        message(check("fn add(a: i64, b: i64) -> i64 { return a + b; }\nfn f() -> i64 { return add(1); }")),
        "Type Error: function 'add' expects 2 arguments, got 1"
    );
}

fn literal_let(name: &str, annotation: Option<&str>, value: Expression) -> Statement {
    Statement::Let {
        name: name.to_string(),
        value,
        explicit_type: annotation.map(|a| a.to_string()),
        intent: None,
        is_mut: false,
        span: Span { line: 1, col: 1 },
    }
}

fn function_of(name: &str, body: Vec<Statement>) -> Function {
    Function {
        name: name.to_string(),
        generic_params: vec![],
        params: vec![],
        return_type: "void".to_string(),
        body: Some(body),
        modifiers: vec![],
        attributes: vec![],
        doc_comment: None,
    }
}

#[test]
fn literal_bodies_pass_and_a_misfit_first_binding_fails() {
    let span = Span { line: 1, col: 1 };
    let good = function_of("a", vec![
        literal_let("x", None, Expression::Integer(1, span)),
        literal_let("y", Some("i32"), Expression::Integer(2, span)),
        literal_let("s", Some("String"), Expression::String("t".to_string(), span)),
    ]);
    let program = Program { module_name: None, imports: vec![], declarations: vec![Declaration::Function(good)] };
    assert!(TypeChecker::new().check_program(&program).is_ok());

    let fine = function_of("ok", vec![literal_let("a", None, Expression::Integer(1, span))]);
    let bad = function_of("bad", vec![
        literal_let("z", Some("bool"), Expression::Integer(3, span)),
        literal_let("w", None, Expression::Integer(1, span)),
    ]);
    let program = Program {
        module_name: None,
        imports: vec![],
        declarations: vec![Declaration::Function(fine), Declaration::Function(bad)],
    };
    assert_eq!(
        message(TypeChecker::new().check_program(&program)),
        "Type Error: let annotation 'bool' does not match value type 'i64'"
    );
}

#[test]
fn intrinsic_result_types_come_from_the_builtin_table() {
    let name_of = |n: &str| intrinsic_ret_type(n).map(|t| t.name());
    assert_eq!(name_of("io.read_line"), Some("String".to_string()));
    assert_eq!(name_of("aion_int_to_str"), Some("String".to_string()));
    assert_eq!(name_of("str_len"), Some("i64".to_string()));
    assert_eq!(name_of("mem_is_null"), Some("bool".to_string()));
    assert_eq!(name_of("no_such_intrinsic"), None);
}

#[test]
fn unsafe_calls_dotted_builtins_and_suggestions() {
    let mut tc = TypeChecker::new();
    let z = Span { line: 0, col: 0 };
    let lenn = Expression::Call { function: "lenn".to_string(), generic_args: vec![], arguments: vec![], span: z };
    let prog = |stmts: Vec<Statement>| Program {
        module_name: None,
        imports: vec![],
        declarations: vec![Declaration::Function(Function {
            name: "main".to_string(),
            generic_params: vec![],
            params: vec![],
            return_type: "void".to_string(),
            body: Some(stmts),
            modifiers: vec![],
            attributes: vec![],
            doc_comment: None,
        })],
    };
    match tc.check_program(&prog(vec![Statement::ExpressionStmt(lenn, z)])) {
        Err(CompileError::NotFound { kind, name, suggestion, .. }) => {
            assert_eq!(kind, "function");
            assert_eq!(name, "lenn");
            assert_eq!(suggestion, " (did you mean 'len'?)");
        }
        other => panic!("unexpected {:?}", other),
    }
    let println0 = Expression::Call { function: "io.println".to_string(), generic_args: vec![], arguments: vec![], span: z };
    assert_eq!(
        message(TypeChecker::new().check_program(&prog(vec![Statement::ExpressionStmt(println0, z)]))),
        "Type Error: function 'io.println' expects 1 arguments, got 0"
    );
    let println42 = Expression::Call {
        function: "io.println".to_string(),
        generic_args: vec![],
        arguments: vec![Expression::Integer(42, z)],
        span: z,
    };
    assert!(TypeChecker::new().check_program(&prog(vec![Statement::ExpressionStmt(println42, z)])).is_ok());
    assert!(check("unsafe fn raw() {}\nfn main() { unsafe { raw(); } raw(); }").is_err());
}

fn one_function(params: &[(&str, &str)], body: Vec<Statement>) -> Program {
    Program {
        module_name: None,
        imports: vec![],
        declarations: vec![Declaration::Function(Function {
            name: "f".to_string(),
            generic_params: vec![],
            params: params.iter().map(|(n, t)| (n.to_string(), t.to_string(), None)).collect(),
            return_type: "void".to_string(),
            body: Some(body),
            modifiers: vec![],
            attributes: vec![],
            doc_comment: None,
        })],
    }
}

fn let_of(name: &str, value: Expression) -> Statement {
    Statement::Let { name: name.to_string(), value, explicit_type: None, intent: None, is_mut: false, span: Span::zero() }
}

fn typed_let(name: &str, value: Expression, t: &str) -> Statement {
    Statement::Let {
        name: name.to_string(),
        value,
        explicit_type: Some(t.to_string()),
        intent: None,
        is_mut: false,
        span: Span::zero(),
    }
}

#[test]
fn dereference_member_access_and_if_expressions() {
    let z = Span::zero();
    let x = || Expression::Identifier("x".to_string(), Span { line: 2, col: 7 });
    let deref = one_function(&[("x", "i64")], vec![let_of("y", Expression::Deref { expr: Box::new(x()), span: z })]);
    match TypeChecker::new().check_program(&deref) {
        Err(CompileError::Type { message, line, col, .. }) => {
            assert_eq!(message, "cannot dereference non-pointer type i64");
            assert_eq!((line, col), (2, 7));
        }
        other => panic!("unexpected {:?}", other),
    }
    let through = one_function(&[("x", "*i64")], vec![typed_let("y", Expression::Deref { expr: Box::new(x()), span: z }, "i64")]);
    assert!(TypeChecker::new().check_program(&through).is_ok());
    let member = one_function(
        &[("x", "bool")],
        vec![let_of("y", Expression::MemberAccess { receiver: Box::new(x()), member: "size".to_string(), span: z })],
    );
    match TypeChecker::new().check_program(&member) {
        Err(CompileError::Type { message, .. }) => assert_eq!(message, "member access on bool"),
        other => panic!("unexpected {:?}", other),
    }
    let branches = Expression::If {
        condition: Box::new(x()),
        then_branch: vec![typed_let("a", Expression::Integer(1, z), "i64")],
        else_branch: Some(vec![typed_let("b", Expression::Boolean(false, z), "bool")]),
        span: z,
    };
    let iff = one_function(&[("x", "bool")], vec![let_of("v", branches)]);
    assert!(TypeChecker::new().check_program(&iff).is_ok());
}

#[test]
fn opening_return_mismatch_message_through_check_program() {
    let prog = |v: Expression| Program {
        module_name: None,
        imports: vec![],
        declarations: vec![Declaration::Function(Function {
            name: "f".to_string(),
            generic_params: vec![],
            params: vec![],
            return_type: "i64".to_string(),
            body: Some(vec![Statement::Return { value: v, intent: None, span: Span { line: 3, col: 5 } }]),
            modifiers: vec![],
            attributes: vec![],
            doc_comment: None,
        })],
    };
    match TypeChecker::new().check_program(&prog(Expression::String("s".to_string(), Span::zero()))) {
        Err(CompileError::Type { message, line, col, .. }) => {
            assert_eq!(message, "return value of type 'String' does not match declared return type 'i64'");
            assert_eq!((line, col), (3, 5));
        }
        other => panic!("unexpected {:?}", other),
    }
    assert!(TypeChecker::new().check_program(&prog(Expression::Integer(1, Span::zero()))).is_ok());
}

#[test]
fn enum_variant_literals_check() {
    assert!(check("enum Color { Red, Green }\nfn f() { let c = Color::Red; let d = Color::Green; }").is_ok());
}

#[test]
fn builtin_calls_and_the_unsafe_boundary() {
    assert!(check("fn f() { io.println(42); let n: i64 = string.len(\"abc\"); }").is_ok());
    assert_eq!(
        message(check("fn f() { exit(0); }")),
        "Type Error: call to unsafe function 'exit' requires unsafe block"
    );
    assert!(check("fn f() { unsafe { exit(0); } }").is_ok());
    assert_eq!(message(check("fn f() { io.println(); }")), "Type Error: function 'io.println' expects 1 arguments, got 0");
}

#[test]
fn method_calls_on_operands() {
    assert_eq!(message(check("fn f() { let x = true.foo(); }")), "Type Error: method call on bool");
    match check("fn f() { let x = (1 + 2).frob(); }") {
        Err(CompileError::NotFound { kind, name, .. }) => {
            assert_eq!(kind, "method");
            assert_eq!(name, "frob");
        }
        other => panic!("unexpected {:?}", other),
    }
    assert!(check("fn f() { let x = (0 - 5).abs(); }").is_ok());
}

#[test]
fn match_statements_are_checked_for_exhaustiveness() {
    let src = "enum Color { Red, Green }\nfn f(c: Color) { match c { Color::Red => { let a = 1; } } }";
    assert_eq!(message(check(src)), "Type Error: non-exhaustive match on Color — missing variant(s): Green");
    let full = "enum Color { Red, Green }\nfn f(c: Color) { match c { Color::Red => { let a = 1; }, Color::Green => io.println(1) } }";
    assert!(check(full).is_ok());
}
