use aionc::pipeline::transpile_source;
use aionc::transpiler::sql::SqlTranspiler;
use aionc::parser::parse_source;

fn sql(src: &str) -> String {
    transpile_source(src).expect("lexable").expect("parses")
}

#[test]
fn function_with_variables() {
    let src = "fn add(a: i64, b: i64) -> i64 { let c = a + b; return c; }";
    assert_eq!(
        sql(src),
        "CREATE OR REPLACE FUNCTION add(a BIGINT, b BIGINT) RETURNS BIGINT AS $$\nDECLARE\n    c BIGINT;\nBEGIN\n    c := a + b;\n    RETURN c;\nEND;\n$$ LANGUAGE plpgsql;\n\n"
    );
}

#[test]
fn control_flow_and_literals() {
    let out = sql("fn f(s: String, ok: bool) -> String { if ok { return \"yes\"; } else { let n = 3.5; } return s; }");
    assert_eq!(
        out,
        "CREATE OR REPLACE FUNCTION f(s TEXT, ok BOOLEAN) RETURNS TEXT AS $$\nDECLARE\n    n DOUBLE PRECISION;\nBEGIN\n    IF ok THEN\n    RETURN 'yes';\n    ELSE\n    n := 3.5;\n    END IF;\n    RETURN s;\nEND;\n$$ LANGUAGE plpgsql;\n\n"
    );
}

#[test]
fn match_while_and_unsupported() {
    let out = sql("fn g(x: i64) { while x > 0 { x = x - 1; } match x { 1 => io.println(\"one\"), _ => return 0, } spawn { } }");
    assert_eq!(
        out,
        "CREATE OR REPLACE FUNCTION g(x BIGINT) RETURNS VOID AS $$\nBEGIN\n    WHILE x > 0 LOOP\n    x := x - 1;\n    END LOOP;\n    CASE x\n        WHEN '1' THEN\n    PERFORM io.println('one');\n        WHEN '_' THEN\n    RETURN 0;\n        ELSE NULL;\n    END CASE;\n    -- Unsupported statement\nEND;\n$$ LANGUAGE plpgsql;\n\n"
    );
}

#[test]
fn types_map_to_sql() {
    let out = sql("fn h(a: u8, b: Date, c: Duration, d: Point) -> f32 { return a as String; }");
    assert_eq!(
        out,
        "CREATE OR REPLACE FUNCTION h(a BIGINT, b TIMESTAMP, c INTERVAL, d JSONB) RETURNS DOUBLE PRECISION AS $$\nBEGIN\n    RETURN a::TEXT;\nEND;\n$$ LANGUAGE plpgsql;\n\n"
    );
}

#[test]
fn transpiler_accumulates_output() {
    let (p1, _) = parse_source("fn a() {}").expect("lexable");
    let (p2, _) = parse_source("struct S { x: i64 }\nfn b() {}").expect("lexable");
    let mut t = SqlTranspiler::new();
    let first = t.transpile(&p1);
    let both = t.transpile(&p2);
    assert!(both.starts_with(&first));
    assert!(both.ends_with("CREATE OR REPLACE FUNCTION b() RETURNS VOID AS $$\nBEGIN\nEND;\n$$ LANGUAGE plpgsql;\n\n"));
}

#[test]
fn parse_errors_are_reported() {
    match transpile_source(":: x").expect("lexable") {
        Err(e) => assert_eq!(
            e.to_text(),
            "Type Error: Parse errors: Syntax Error: Unexpected :: at top level at line 1, col 1; Syntax Error: Unexpected token in declaration at line 1, col 4"
        ),
        Ok(s) => panic!("unexpected {}", s),
    }
}

#[test]
fn concatenated_programs_give_concatenated_sql() {
    let a = "fn add(a: i64, b: i64) -> i64 { let c = a + b; return c; }";
    let b = "struct P { x: i64 }\nfn neg(x: i64) -> i64 { return 0 - x; }";
    let joined = format!("{}\n{}", a, b);
    assert_eq!(sql(&joined), format!("{}{}", sql(a), sql(b)));
}
