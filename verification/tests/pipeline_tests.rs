use aionc::ast::Declaration;
use aionc::error::CompileError;
use aionc::parser::parse_source;
use aionc::pipeline::{
    import_action, import_extension, load_import, parse_failure, parse_program_source, prefix_declarations,
    resolve_import_path, ImportAction,
};

#[test]
fn import_paths() {
    assert_eq!(resolve_import_path(&vec!["std".to_string(), "io".to_string()]), vec!["stdlib", "std", "io"]);
    assert_eq!(resolve_import_path(&vec!["compiler".to_string(), "lexer".to_string()]), vec![".", "compiler", "lexer"]);
    assert_eq!(resolve_import_path(&Vec::new()), vec!["stdlib"]);
    assert_eq!(import_extension(), "ai");
}

#[test]
fn imported_declarations_are_qualified() {
    let (mut program, _) = parse_source("fn f() {}\nstruct S {}\nenum E { A }\nimpl S {}\ninterface I {}").expect("lexable");
    prefix_declarations(&mut program.declarations, "m.n");
    let names: Vec<String> = program
        .declarations
        .iter()
        .map(|d| match d {
            Declaration::Function(f) => f.name.clone(),
            Declaration::Struct(s) => s.name.clone(),
            Declaration::Enum(e) => e.name.clone(),
            Declaration::Impl(b) => b.target_name.clone(),
            Declaration::Interface(i) => i.name.clone(),
        })
        .collect();
    assert_eq!(names, vec!["m.n.f", "m.n.S", "m.n.E", "m.n.S", "I"]);
}

#[test]
fn parse_failures() {
    let e = parse_failure(&vec!["a".to_string(), "b".to_string()]);
    assert_eq!(e.to_text(), "Type Error: Parse errors: a; b");
    assert!(matches!(e, CompileError::Type { line: 0, col: 0, snippet: None, .. }));
    assert!(parse_program_source("fn ok() {}").expect("lexable").is_ok());
    assert!(parse_program_source("let d = D2024-14-01;").is_none());
}

#[test]
fn import_decisions_skip_fail_or_read() {
    assert!(matches!(import_action(true, false, "\"a/b.ai\""), ImportAction::Skip));
    assert!(matches!(import_action(true, true, "\"a/b.ai\""), ImportAction::Skip));
    assert!(matches!(import_action(false, true, "\"a/b.ai\""), ImportAction::Read));
    match import_action(false, false, "\"a/b.ai\"") {
        ImportAction::Fail(e) => assert_eq!(e.to_text(), "Import error: Import not found: \"a/b.ai\""),
        _ => panic!("expected a failure"),
    }
}

#[test]
fn loaded_imports_are_qualified_or_report_their_syntax_errors() {
    let path = vec!["lib".to_string(), "geo".to_string()];
    let prog = load_import("fn area() {}\nstruct Pt { x: i64 }", &path, "\"lib/geo.ai\"")
        .expect("lexable")
        .expect("no syntax errors");
    assert_eq!(prog.declarations.len(), 2);
    match &prog.declarations[0] {
        Declaration::Function(f) => assert_eq!(f.name, "lib.geo.area"),
        other => panic!("unexpected {:?}", other),
    }
    match &prog.declarations[1] {
        Declaration::Struct(s) => assert_eq!(s.name, "lib.geo.Pt"),
        other => panic!("unexpected {:?}", other),
    }
    match load_import(":: x", &path, "\"lib/geo.ai\"").expect("lexable") {
        Err(CompileError::Import { message, .. }) => {
            assert!(message.starts_with("Import parse errors in \"lib/geo.ai\": Syntax Error"));
        }
        other => panic!("unexpected {:?}", other),
    }
}
