use aionc::ast::Declaration;
use aionc::docs::{generate_docs, generate_docs_source, generate_function_signature};
use aionc::parser::parse_source;

#[test]
fn function_docs_with_comment_and_default() {
    let src = "/// Adds two numbers\nfn add(a: i64, b: i64 = 1) -> i64 { return a + b; }";
    let out = generate_docs_source(src).expect("lexable").expect("parses");
    assert_eq!(
        out,
        "# Module\n\n## Function `add`\n\nAdds two numbers\n\n```aion\nfn add(a: i64, b: i64 = Integer(1, Span { line: 2, col: 25 })) -> i64\n```\n\n"
    );
}

#[test]
fn docs_for_every_kind_of_declaration() {
    let src = "module geo;\nuse std.math;\nstruct P<T> { x: T }\nenum E { A, B(i64, String) }\ninterface Shape { fn area(self) -> f64; }\nimpl Shape for P { unsafe fn area(self) -> f64 { return 1.0; } }";
    let (program, errors) = parse_source(src).expect("lexable");
    assert!(errors.is_empty());
    assert_eq!(
        generate_docs(&program),
        "# geo\n\n## Imports\n\n- `std.math`\n\n## Struct `P`\n\n**Generics:** `<T>`\n\n| Field | Type |\n|-------|------|\n| `x` | `T` |\n\n## Enum `E`\n\n| Variant | Data |\n|---------|------|\n| `A` |  |\n| `B` | `(i64, String)` |\n\n## Interface `Shape`\n\n### Method `area`\n\n```aion\nfn area(self: Self) -> f64;\n```\n\n## Impl `P` for `Shape`\n\n```aion\nunsafe fn area(self: Self) -> f64\n```\n\n"
    );
}

#[test]
fn signatures_of_extern_and_generic_functions() {
    let (program, _) = parse_source("extern fn puts(s: String) -> i64;\nfn id<T>(x: T) -> T { return x; }\nfn nothing() {}").expect("lexable");
    let sigs: Vec<String> = program
        .declarations
        .iter()
        .map(|d| match d {
            Declaration::Function(f) => generate_function_signature(f),
            _ => String::new(),
        })
        .collect();
    assert_eq!(sigs[0], "```aion\nextern fn puts(s: String) -> i64;\n```\n");
    assert_eq!(sigs[1], "```aion\nfn id<T>(x: T) -> T\n```\n");
    assert_eq!(sigs[2], "```aion\nfn nothing()\n```\n");
}
