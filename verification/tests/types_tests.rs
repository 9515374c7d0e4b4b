use aionc::analysis::environment::Environment;
use aionc::analysis::rules::{base_names_match, check_cast_pair, check_compatibility, types_unify};
use aionc::analysis::types::{split_top_level_commas, Type};
use aionc::error::CompileError;
use aionc::token::{Token, TokenKind};

fn name_of(s: &str) -> String {
    Type::parse(s).name()
}

#[test]
fn parse_and_name_round_trip() {
    for s in ["i64", "u8", "bool", "String", "Date", "Duration", "f64", "*i32", "Option<i64>", "Map<String, Vec<u8>>", "(i64, bool)", "Point"] {
        assert_eq!(name_of(s), s);
    }
    assert_eq!(name_of("void"), "void");
    assert_eq!(name_of("Unit"), "void");
    assert_eq!(name_of("int"), "i64");
    assert_eq!(name_of("  u32 "), "u32");
}

#[test]
fn integer_constructors() {
    assert_eq!(Type::i64().name(), "i64");
    assert_eq!(Type::u64().name(), "u64");
    assert_eq!(Type::i32().name(), "i32");
    assert_eq!(Type::u32().name(), "u32");
    assert_eq!(Type::i8().name(), "i8");
    assert_eq!(Type::u8().name(), "u8");
    assert!(Type::u8().is_integer());
    assert!(!Type::Boolean.is_integer());
}

#[test]
fn split_commas_at_top_level() {
    assert_eq!(split_top_level_commas("a, Map<b, c>, (d, e)"), vec!["a", " Map<b, c>", " (d, e)"]);
    assert!(split_top_level_commas("").is_empty());
    assert_eq!(split_top_level_commas("a,"), vec!["a", ""]);
}

#[test]
fn environment_set_get_and_scopes() {
    let mut outer = Environment::new();
    outer.set("x".to_string(), Type::i64());
    outer.set("std.io.println".to_string(), Type::Unit);
    let mut inner = Environment::new_enclosed(outer);
    inner.set("x".to_string(), Type::String);
    // The innermost binding shadows the outer one.
    assert_eq!(inner.get("x").map(|t| t.name()), Some("String".to_string()));
    // A name qualified by a path is found by its last segments.
    assert_eq!(inner.get("println").map(|t| t.name()), Some("void".to_string()));
    assert!(inner.get("missing").is_none());
    // A later set replaces the earlier binding of the same name.
    inner.set("x".to_string(), Type::Boolean);
    assert_eq!(inner.get("x").map(|t| t.name()), Some("bool".to_string()));
    let mut names = inner.visible_names();
    names.sort();
    assert_eq!(names, vec!["std.io.println".to_string(), "x".to_string()]);
}

#[test]
fn unification_rules() {
    assert!(types_unify(&Type::i64(), &Type::u8()));
    assert!(types_unify(&Type::i64(), &Type::Boolean));
    assert!(types_unify(&Type::Unknown, &Type::String));
    assert!(!types_unify(&Type::String, &Type::Boolean));
    let opt = Type::parse("Option<i64>");
    let full = Type::parse("std.option.Option<u32>");
    assert!(types_unify(&opt, &full));
    assert!(types_unify(&full, &opt));
    assert!(!types_unify(&Type::parse("Option<String>"), &Type::parse("Option<bool>")));
    assert!(types_unify(&Type::parse("*i64"), &Type::Struct { name: "Node".to_string() }));
    assert!(base_names_match("Option", "std.option.Option"));
    assert!(!base_names_match("Option", "MyOption"));
    // Composite types compare on their last dotted segment.
    assert!(base_names_match("a.Foo", "b.Foo"));
    assert!(types_unify(&Type::Struct { name: "a.Foo".to_string() }, &Type::Struct { name: "b.Foo".to_string() }));
    assert!(!types_unify(&Type::Float, &Type::i64()));
}

#[test]
fn cast_rules() {
    assert!(check_cast_pair(&Type::i64(), &Type::Float).is_ok());
    assert!(check_cast_pair(&Type::parse("*u8"), &Type::i64()).is_ok());
    assert!(check_cast_pair(&Type::String, &Type::String).is_ok());
    assert_eq!(check_cast_pair(&Type::String, &Type::i64()), Err("cannot cast String to i64".to_string()));
    assert_eq!(check_cast_pair(&Type::i64(), &Type::String), Err("cannot cast i64 to String".to_string()));
    assert!(check_cast_pair(&Type::Boolean, &Type::Date).is_ok());
    // Casts to or from composite types are rejected, pointers included.
    assert!(check_cast_pair(&Type::parse("*i64"), &Type::String).is_err());
    assert!(check_cast_pair(&Type::String, &Type::parse("*i64")).is_err());
}

fn op(kind: TokenKind) -> Token {
    Token::new(kind, 2, 7)
}

#[test]
fn operator_typing() {
    let r = check_compatibility(Type::i32(), Type::i32(), &op(TokenKind::Plus)).unwrap();
    assert_eq!(r.name(), "i32");
    let r = check_compatibility(Type::u64(), Type::u64(), &op(TokenKind::Lt)).unwrap();
    assert_eq!(r.name(), "bool");
    // Integer arithmetic needs equal signedness and width.
    assert!(check_compatibility(Type::i64(), Type::u64(), &op(TokenKind::Plus)).is_err());
    assert!(matches!(check_compatibility(Type::i32(), Type::i64(), &op(TokenKind::Plus)), Err(CompileError::Type { .. })));
    assert_eq!(check_compatibility(Type::u32(), Type::u32(), &op(TokenKind::Star)).unwrap().name(), "u32");
    let r = check_compatibility(Type::String, Type::i64(), &op(TokenKind::Plus)).unwrap();
    assert_eq!(r.name(), "String");
    let r = check_compatibility(Type::Date, Type::Duration, &op(TokenKind::Minus)).unwrap();
    assert_eq!(r.name(), "Date");
    let r = check_compatibility(Type::Duration, Type::Duration, &op(TokenKind::Slash)).unwrap();
    assert_eq!(r.name(), "f64");
    match check_compatibility(Type::i32(), Type::i64(), &op(TokenKind::Plus)) {
        Err(CompileError::Type { message, line, col, .. }) => {
            assert_eq!(message, "cannot apply 'Plus' to mismatched integer types i32 and i64");
            assert_eq!((line, col), (2, 7));
        }
        other => panic!("unexpected {:?}", other),
    }
    match check_compatibility(Type::i64(), Type::i64(), &op(TokenKind::And)) {
        Err(CompileError::InvalidOperator { op, left, right, .. }) => {
            assert_eq!((op.as_str(), left.as_str(), right.as_str()), ("And", "i64", "i64"));
        }
        other => panic!("unexpected {:?}", other),
    }
    match check_compatibility(Type::Boolean, Type::String, &op(TokenKind::Plus)) {
        Err(CompileError::InvalidOperator { op, left, right, .. }) => {
            assert_eq!((op.as_str(), left.as_str(), right.as_str()), ("Plus", "Boolean", "String"));
        }
        other => panic!("unexpected {:?}", other),
    }
}

#[test]
fn type_debug_notation() {
    assert_eq!(Type::i64().debug_text(), "Integer { signed: true, bits: 64 }");
    assert_eq!(Type::parse("Option<bool>").debug_text(), "GenericInstance(\"Option\", [Boolean])");
    assert_eq!(Type::Struct { name: "P".to_string() }.debug_text(), "Struct { name: \"P\" }");
}

#[test]
fn top_level_parts_join_back() {
    for s in ["a, Map<b, c>, (d, e)", "", ",", "x,,y", "(a,b),c"] {
        assert_eq!(split_top_level_commas(s).join(","), s);
    }
}

#[test]
fn scalar_names_read_back() {
    let ts = vec![
        Type::i64(),
        Type::u64(),
        Type::i32(),
        Type::u32(),
        Type::i8(),
        Type::u8(),
        Type::Float,
        Type::Boolean,
        Type::String,
        Type::Date,
        Type::Duration,
        Type::Unit,
        Type::Pointer(Box::new(Type::Pointer(Box::new(Type::u8())))),
    ];
    for t in ts {
        assert_eq!(format!("{:?}", Type::parse(&t.name())), format!("{:?}", t));
    }
}

#[test]
fn top_level_split_counts_parts() {
    assert_eq!(split_top_level_commas("a, Map<b, c>, (d, e)").len(), 3);
    assert_eq!(split_top_level_commas("x,").len(), 2);
    assert_eq!(split_top_level_commas("(a,b)").len(), 1);
}

#[test]
fn qualified_lookup_takes_the_first_binding() {
    let mut outer = Environment::new();
    outer.set("a.b.x".to_string(), Type::i64());
    outer.set("c::x".to_string(), Type::String);
    assert_eq!(outer.get("x").map(|t| t.name()), Some("i64".to_string()));
    let inner = Environment::new_enclosed(outer.duplicate());
    assert_eq!(inner.get("x").map(|t| t.name()), Some("i64".to_string()));
    assert_eq!(inner.get("y").map(|t| t.name()), outer.get("y").map(|t| t.name()));
}
