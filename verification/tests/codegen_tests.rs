use aionc::ast::{Declaration, Enum, EnumVariant, Expression, Function, MatchArm, Span, Statement, Struct};
use aionc::codegen::generics::{substitute_types_in_body, substitute_types_in_expr};
use aionc::codegen::intrinsics::{substitute_generic_params, substitute_type_string};
use aionc::codegen::type_helpers::NameTables;

fn strings(v: &[&str]) -> Vec<String> {
    v.iter().map(|s| s.to_string()).collect()
}

fn sp() -> Span {
    Span { line: 1, col: 1 }
}

fn function(name: &str, generics: &[&str], params: &[(&str, &str)], ret: &str) -> Function {
    Function {
        name: name.to_string(),
        generic_params: strings(generics),
        params: params.iter().map(|(n, t)| (n.to_string(), t.to_string(), None)).collect(),
        return_type: ret.to_string(),
        body: None,
        modifiers: vec![],
        attributes: vec![],
        doc_comment: None,
    }
}

fn structure(name: &str, generics: &[&str], fields: &[(&str, &str)]) -> Struct {
    Struct {
        name: name.to_string(),
        generic_params: strings(generics),
        fields: fields.iter().map(|(n, t)| (n.to_string(), t.to_string())).collect(),
        attributes: vec![],
        doc_comment: None,
    }
}

fn tables() -> NameTables {
    let pair = structure("Pair", &["A", "B"], &[("first", "A"), ("second", "Vec<B>")]);
    let point = structure("geo.Point", &[], &[("x", "f64"), ("y", "f64")]);
    let option = Enum {
        name: "Option".to_string(),
        generic_params: strings(&["T"]),
        variants: vec![
            EnumVariant { name: "Some".to_string(), data_types: strings(&["T"]) },
            EnumVariant { name: "None".to_string(), data_types: vec![] },
        ],
        doc_comment: None,
    };
    NameTables {
        decls: vec![
            ("Pair".to_string(), Declaration::Struct(pair)),
            ("geo.Point".to_string(), Declaration::Struct(point)),
            ("Option".to_string(), Declaration::Enum(option)),
            ("double".to_string(), Declaration::Function(function("double", &[], &[("x", "i64"), ("y", "f64")], "i64"))),
            ("make".to_string(), Declaration::Function(function("make", &["T"], &[], "Box<T>"))),
            ("Pair::swap".to_string(), Declaration::Function(function("swap", &[], &[("self", "Self")], "Pair<B, A>"))),
        ],
        struct_types: strings(&["Pair", "geo.Point"]),
        enum_types: strings(&["Option"]),
    }
}

fn ident(n: &str) -> Expression {
    Expression::Identifier(n.to_string(), sp())
}

#[test]
fn substitution_replaces_whole_words_only() {
    let ps = strings(&["T"]);
    let args = strings(&["i64"]);
    assert_eq!(substitute_type_string("Vec<T>", &ps, &args), "Vec<i64>");
    assert_eq!(substitute_type_string("TT<T, T>", &ps, &args), "TT<i64, i64>");
    assert_eq!(substitute_type_string("a.T", &ps, &args), "a.T");
    let ps = strings(&["K", "V"]);
    assert_eq!(substitute_type_string("Map<K,V>", &ps, &strings(&["String", "i64"])), "Map<String,i64>");
    // A parameter without an argument is kept.
    assert_eq!(substitute_type_string("Map<K,V>", &ps, &strings(&["String"])), "Map<String,V>");
    assert_eq!(substitute_generic_params("T", &[], &strings(&["i64"])), "T");
}

#[test]
fn substitution_with_own_parameters_changes_nothing() {
    let ps = strings(&["K", "V"]);
    assert_eq!(substitute_type_string("Map<K, Vec<V>>", &ps, &ps), "Map<K, Vec<V>>");
}

#[test]
fn tuple_elements_by_index() {
    let t = tables();
    assert_eq!(t.get_field_type("(i64, (String, bool))", "1"), "(String,bool)");
    assert_eq!(t.get_field_type("*(i64,String)", "+0"), "i64");
    assert_eq!(t.get_field_type("(i64,String)", "2"), "unknown");
    assert_eq!(t.get_field_type("(i64,String)", "x"), "unknown");
}

#[test]
fn struct_fields_with_generic_arguments() {
    let t = tables();
    assert_eq!(t.get_field_type("Pair<i64, String>", "second"), "Vec<String>");
    assert_eq!(t.get_field_type("*Pair<i64,bool>", "first"), "i64");
    assert_eq!(t.get_field_type("Pair<i64,bool>", "third"), "unknown");
    assert_eq!(t.get_field_type("Point", "x"), "f64");
    assert_eq!(t.get_field_type("Nothing", "x"), "unknown");
}

#[test]
fn expression_type_names() {
    let t = tables();
    let vars = vec![
        ("p".to_string(), "Pair<i64, bool>".to_string()),
        ("ptr".to_string(), "*i64".to_string()),
    ];
    assert_eq!(t.get_expr_type_name(&Expression::Integer(1, sp()), &vars), "i64");
    assert_eq!(t.get_expr_type_name(&Expression::Boolean(true, sp()), &vars), "bool");
    assert_eq!(t.get_expr_type_name(&ident("p"), &vars), "Pair<i64,bool>");
    assert_eq!(t.get_expr_type_name(&ident("p.first"), &vars), "i64");
    assert_eq!(t.get_expr_type_name(&ident("p.second"), &vars), "Vec<bool>");
    assert_eq!(t.get_expr_type_name(&ident("double"), &vars), "fn(i64,f64)->i64");
    assert_eq!(t.get_expr_type_name(&ident("nobody"), &vars), "unknown");
    let deref = Expression::Deref { expr: Box::new(ident("ptr")), span: sp() };
    assert_eq!(t.get_expr_type_name(&deref, &vars), "i64");
    let cast = Expression::Cast { expr: Box::new(Expression::Integer(1, sp())), target: "i 32".to_string(), span: sp() };
    assert_eq!(t.get_expr_type_name(&cast, &vars), "i32");
}

#[test]
fn call_and_method_result_types() {
    let t = tables();
    let vars = vec![("p".to_string(), "Pair<i64, bool>".to_string())];
    let call = Expression::Call { function: "make".to_string(), generic_args: strings(&["i64"]), arguments: vec![], span: sp() };
    assert_eq!(t.get_expr_type_name(&call, &vars), "Box<i64>");
    let dotted = Expression::Call { function: "p.swap".to_string(), generic_args: vec![], arguments: vec![], span: sp() };
    // The method's own return type names the owner's parameters, which the
    // dotted call leaves unbound.
    assert_eq!(t.get_expr_type_name(&dotted, &vars), "Pair<B,A>");
    let method = Expression::MethodCall {
        receiver: Box::new(ident("p")),
        method: "swap".to_string(),
        generic_args: vec![],
        arguments: vec![],
        span: sp(),
    };
    assert_eq!(t.get_expr_type_name(&method, &vars), "Pair<bool,i64>");
    let field = Expression::MemberAccess { receiver: Box::new(method), member: "first".to_string(), span: sp() };
    assert_eq!(t.get_expr_type_name(&field, &vars), "bool");
}

#[test]
fn literal_and_block_type_names() {
    let t = tables();
    let vars: Vec<(String, String)> = vec![];
    let lit = Expression::StructInst { name: "Point".to_string(), generic_args: vec![], fields: vec![], span: sp() };
    assert_eq!(t.get_expr_type_name(&lit, &vars), "geo.Point");
    let some = Expression::EnumInst {
        name: "Option".to_string(),
        variant: "Some".to_string(),
        generic_args: vec![],
        arguments: vec![Expression::String("x".to_string(), sp())],
        span: sp(),
    };
    assert_eq!(t.get_expr_type_name(&some, &vars), "Option<String>");
    let block = Expression::Block {
        statements: vec![Statement::NoOp, Statement::Return { value: Expression::Integer(2, sp()), intent: None, span: sp() }],
        is_unsafe: false,
        span: sp(),
    };
    assert_eq!(t.get_expr_type_name(&block, &vars), "i64");
    let m = Expression::Match {
        condition: Box::new(ident("x")),
        arms: vec![MatchArm {
            pattern: "_".to_string(),
            patterns: vec![],
            guard: None,
            params: vec![],
            body: vec![Statement::ExpressionStmt(Expression::Boolean(false, sp()), sp())],
        }],
        span: sp(),
    };
    assert_eq!(t.get_expr_type_name(&m, &vars), "bool");
    let r = Expression::TypeRef { name: "Vec".to_string(), generic_args: strings(&["i64"]), span: sp() };
    assert_eq!(t.get_expr_type_name(&r, &vars), "Vec<i64>");
}

#[test]
fn generic_parameters_are_replaced_throughout_a_body() {
    let ph = strings(&["T"]);
    let conc = strings(&["i64"]);
    let call = Expression::Call {
        function: "make".to_string(),
        generic_args: strings(&["T", "Vec<T>"]),
        arguments: vec![Expression::Cast { expr: Box::new(ident("x")), target: "T".to_string(), span: sp() }],
        span: sp(),
    };
    let mut body = vec![
        Statement::Let {
            name: "v".to_string(),
            value: call,
            explicit_type: Some("T".to_string()),
            intent: None,
            is_mut: false,
            span: sp(),
        },
        Statement::While {
            condition: ident("T.ready"),
            body: vec![Statement::Return { value: ident("T"), intent: None, span: sp() }],
            span: sp(),
        },
        Statement::Break(sp()),
    ];
    substitute_types_in_body(&mut body, &ph, &conc);
    assert_eq!(body.len(), 3);
    match &body[0] {
        Statement::Let { value: Expression::Call { function, generic_args, arguments, .. }, explicit_type, .. } => {
            assert_eq!(function, "make");
            assert_eq!(generic_args, &strings(&["i64", "Vec<i64>"]));
            // Annotations are not type-name positions of expressions.
            assert_eq!(explicit_type, &Some("T".to_string()));
            match &arguments[0] {
                Expression::Cast { expr, target, .. } => {
                    assert_eq!(target, "i64");
                    assert!(matches!(&**expr, Expression::Identifier(n, _) if n == "x"));
                }
                other => panic!("unexpected {:?}", other),
            }
        }
        other => panic!("unexpected {:?}", other),
    }
    match &body[1] {
        Statement::While { condition: Expression::Identifier(c, _), body, .. } => {
            // A dotted word is one word, which no parameter equals.
            assert_eq!(c, "T.ready");
            assert!(matches!(&body[0], Statement::Return { value: Expression::Identifier(n, _), .. } if n == "i64"));
        }
        other => panic!("unexpected {:?}", other),
    }
    assert!(matches!(&body[2], Statement::Break(_)));

    let mut e = Expression::MethodCall {
        receiver: Box::new(ident("T")),
        method: "T".to_string(),
        generic_args: strings(&["T"]),
        arguments: vec![],
        span: sp(),
    };
    substitute_types_in_expr(&mut e, &ph, &conc);
    match e {
        Expression::MethodCall { receiver, method, generic_args, .. } => {
            assert!(matches!(&*receiver, Expression::Identifier(n, _) if n == "i64"));
            assert_eq!(method, "T");
            assert_eq!(generic_args, strings(&["i64"]));
        }
        other => panic!("unexpected {:?}", other),
    }
}

#[test]
fn type_recovery_reports_a_malformed_type_name() {
    let t = tables();
    assert_eq!(t.get_field_type_checked("<>", "x"), None);
    assert_eq!(t.get_field_type_checked("Pair<i64, String>", "second"), Some("Vec<String>".to_string()));
    let vars = vec![
        ("q".to_string(), "<,>".to_string()),
        ("p".to_string(), "Pair<i64, bool>".to_string()),
    ];
    assert_eq!(t.get_expr_type_name_checked(&ident("q.x"), &vars), None);
    let member = Expression::MemberAccess { receiver: Box::new(ident("q")), member: "x".to_string(), span: sp() };
    assert_eq!(t.get_expr_type_name_checked(&member, &vars), None);
    assert_eq!(t.get_expr_type_name_checked(&ident("p.first"), &vars), Some("i64".to_string()));
    assert_eq!(t.get_expr_type_name_checked(&ident("q"), &vars), Some("<,>".to_string()));
}
