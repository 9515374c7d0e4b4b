use aionc::error::{levenshtein, suggest_closest, CompileError};

#[test]
fn levenshtein_basic() {
    // Substitution, insertion, deletion each cost 1.
    assert_eq!(levenshtein("greeb", "greet"), 1); // substitution
    assert_eq!(levenshtein("nme", "name"), 1); // insertion
    assert_eq!(levenshtein("greet_word", "greet_world"), 1); // deletion
    assert_eq!(levenshtein("grety", "greet"), 2); // two substitutions
}

#[test]
fn suggest_closest_simple() {
    let cs: Vec<String> = vec!["greet".to_string()];
    assert_eq!(suggest_closest("greeb", &cs), Some("greet".to_string()));
    // Distance-2 typo rejected by the default 3-edit / (len/3) threshold.
    assert_eq!(suggest_closest("grety", &cs), None);
}

#[test]
fn levenshtein_identity_and_symmetry() {
    assert_eq!(levenshtein("", ""), 0);
    assert_eq!(levenshtein("kitten", "kitten"), 0);
    assert_eq!(levenshtein("kitten", "sitting"), 3);
    assert_eq!(levenshtein("sitting", "kitten"), 3);
    assert_eq!(levenshtein("", "abc"), 3);
}

#[test]
fn suggest_closest_uses_last_segment_and_first_best() {
    let cs: Vec<String> = vec!["io.println".to_string(), "io.print".to_string()];
    // "printn" is one edit from both "println" and "print"; the first wins.
    assert_eq!(suggest_closest("printn", &cs), Some("println".to_string()));
    // A candidate equal to the name is skipped.
    let same: Vec<String> = vec!["greet".to_string()];
    assert_eq!(suggest_closest("greet", &same), None);
}

#[test]
fn compile_error_texts() {
    let e = CompileError::new("bad", 3, 4);
    assert_eq!(e.to_text(), "Type Error: bad");
    assert_eq!(e.line(), 3);
    assert_eq!(e.col(), 4);
    assert!(!e.is_warning());
    assert!(CompileError::warning("careful", 1, 1).is_warning());
    assert_eq!(CompileError::internal("boom").to_text(), "internal compiler error: boom");
    assert_eq!(CompileError::io("gone").to_text(), "IO error: gone");
    assert_eq!(CompileError::import("missing").to_text(), "Import error: missing");
    assert_eq!(CompileError::inkwell("llvm").to_text(), "LLVM error: llvm");
    let nf = CompileError::not_found("function", "greeb", "greet", 1, 1);
    assert_eq!(nf.to_text(), "Not Found: function 'greeb' is not defined (did you mean 'greet'?)");
    let nf2 = CompileError::not_found("field", "x", "", 1, 1);
    assert_eq!(nf2.to_text(), "Not Found: field 'x' is not defined");
}

#[test]
fn compile_error_snippet() {
    let src = "let a = 1\nlet b = oops\nlet c = 3\nlet d = 4";
    let e = CompileError::new("bad", 2, 9).with_snippet(src);
    match e {
        CompileError::Type { snippet: Some(s), .. } => {
            assert_eq!(
                s,
                "      1 | let a = 1\n >    2 | let b = oops\n               ^\n      3 | let c = 3\n"
            );
        }
        other => panic!("unexpected {:?}", other),
    }
    // No snippet for an unknown line.
    let none = CompileError::new("bad", 0, 0).with_snippet(src);
    assert!(matches!(none, CompileError::Type { snippet: None, .. }));
    let past = CompileError::new("bad", 9, 1).with_snippet(src);
    assert!(matches!(past, CompileError::Type { snippet: None, .. }));
}

#[test]
fn levenshtein_bounds_by_length_difference() {
    assert_eq!(levenshtein("ab", "abcd"), 2);
    assert_eq!(levenshtein("abcd", "ab"), 2);
    assert!(levenshtein("abc", "abd") > 0);
}

#[test]
fn suggest_closest_prefers_the_nearer_candidate() {
    let cs: Vec<String> = vec!["string.contains".to_string(), "string.len".to_string()];
    assert_eq!(suggest_closest("lenn", &cs), Some("len".to_string()));
    let cs2: Vec<String> = vec!["counter".to_string(), "counters".to_string()];
    // "countr" is one edit from "counter" and two from "counters".
    assert_eq!(suggest_closest("countr", &cs2), Some("counter".to_string()));
    let cs3: Vec<String> = vec!["counters".to_string(), "counter".to_string()];
    assert_eq!(suggest_closest("countr", &cs3), Some("counter".to_string()));
}

#[test]
fn attaching_a_snippet_twice_is_attaching_it_once() {
    let src = "fn main() {\n    let x = 1;\n}\n";
    let once = CompileError::new("bad", 2, 9).with_snippet(src);
    let twice = once.clone().with_snippet(src);
    assert_eq!(format!("{:?}", once), format!("{:?}", twice));
    let unplaced = CompileError::new("bad", 0, 0).with_snippet(src);
    assert_eq!(format!("{:?}", unplaced.clone().with_snippet(src)), format!("{:?}", unplaced));
}
