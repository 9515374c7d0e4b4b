use aionc::lexer::Lexer;
use aionc::token::{DurationUnit, TokenKind};

/// The (seconds, nanoseconds) a duration literal stands for, as the
/// backend computes it from the literal's digits and unit.
fn duration_parts(kind: &TokenKind) -> (u64, u32) {
    match kind {
        TokenKind::DurationLiteral(digits, unit) => {
            let val: f64 = digits.parse().unwrap_or(0.0);
            match unit {
                DurationUnit::Seconds => (val as u64, (val.fract() * 1_000_000_000.0) as u32),
                DurationUnit::Millis => ((val / 1000.0) as u64, ((val % 1000.0) * 1_000_000.0) as u32),
                DurationUnit::Micros => ((val / 1_000_000.0) as u64, ((val % 1_000_000.0) * 1000.0) as u32),
                DurationUnit::Nanos => ((val / 1_000_000_000.0) as u64, (val % 1_000_000_000.0) as u32),
                DurationUnit::Minutes => ((val * 60.0) as u64, 0),
                DurationUnit::Hours => ((val * 3600.0) as u64, 0),
                DurationUnit::Days => ((val * 86400.0) as u64, 0),
            }
        }
        other => panic!("not a duration: {:?}", other),
    }
}

#[test]
fn test_basic_tokens() {
    let input = "fn main() { let x = 10; }";
    let mut lexer = Lexer::new(input);

    let expected = vec![
        (TokenKind::Fn, 1, 1),
        (TokenKind::Identifier("main".into()), 1, 4),
        (TokenKind::LParen, 1, 8),
        (TokenKind::RParen, 1, 9),
        (TokenKind::LBrace, 1, 11),
        (TokenKind::Let, 1, 13),
        (TokenKind::Identifier("x".into()), 1, 17),
        (TokenKind::Eq, 1, 19),
        (TokenKind::IntLiteral(10), 1, 21),
        (TokenKind::Semicolon, 1, 23),
        (TokenKind::RBrace, 1, 25),
    ];

    for (kind, line, col) in expected {
        let tok = lexer.next_token();
        assert_eq!(tok.kind, kind);
        assert_eq!(tok.line, line);
        assert_eq!(tok.col, col);
    }
}

#[test]
fn test_durations() {
    let input = "10s 500ms 1.5ms";
    let mut lexer = Lexer::new(input);

    let tok1 = lexer.next_token();
    assert_eq!(duration_parts(&tok1.kind), (10, 0));

    let tok2 = lexer.next_token();
    assert_eq!(duration_parts(&tok2.kind), (0, 500_000_000));

    let tok3 = lexer.next_token();
    assert_eq!(duration_parts(&tok3.kind), (0, 1_500_000));
}

#[test]
fn test_multiline_position() {
    let input = "let a = 1\nlet b = 2";
    let mut lexer = Lexer::new(input);

    lexer.next_token(); // let
    lexer.next_token(); // a
    lexer.next_token(); // =
    lexer.next_token(); // 1

    let tok = lexer.next_token(); // second 'let'
    assert_eq!(tok.kind, TokenKind::Let);
    assert_eq!(tok.line, 2);
    assert_eq!(tok.col, 1);
}

#[test]
fn test_comments() {
    let input = "// line comment\nlet x = 1 /* block\ncomment */ let y = 2";
    let mut lexer = Lexer::new(input);

    let tok1 = lexer.next_token();
    assert_eq!(tok1.kind, TokenKind::Let);
    assert_eq!(tok1.line, 2);

    lexer.next_token(); // x
    lexer.next_token(); // =
    lexer.next_token(); // 1

    let tok2 = lexer.next_token(); // y 'let'
    assert_eq!(tok2.kind, TokenKind::Let);
    assert_eq!(tok2.line, 3);
}

#[test]
fn duration_literals_keep_digits_and_unit() {
    let mut lexer = Lexer::new("1.5ms 2h");
    assert_eq!(lexer.next_token().kind, TokenKind::DurationLiteral("1.5".into(), DurationUnit::Millis));
    assert_eq!(lexer.next_token().kind, TokenKind::DurationLiteral("2".into(), DurationUnit::Hours));
    assert_eq!(lexer.next_token().kind, TokenKind::EOF);
    // The end of input is reported again on every later call.
    assert_eq!(lexer.next_token().kind, TokenKind::EOF);
}

#[test]
fn floats_doc_comments_and_symbols() {
    let mut lexer = Lexer::new("/// Adds\nx |> 3.25 :: a..b != <-");
    assert_eq!(lexer.next_token().kind, TokenKind::DocComment("Adds".into()));
    assert_eq!(lexer.next_token().kind, TokenKind::Identifier("x".into()));
    assert_eq!(lexer.next_token().kind, TokenKind::Pipeline);
    assert_eq!(lexer.next_token().kind, TokenKind::FloatLiteral("3.25".into()));
    assert_eq!(lexer.next_token().kind, TokenKind::DoubleColon);
    assert_eq!(lexer.next_token().kind, TokenKind::Identifier("a".into()));
    assert_eq!(lexer.next_token().kind, TokenKind::Range);
    assert_eq!(lexer.next_token().kind, TokenKind::Identifier("b".into()));
    assert_eq!(lexer.next_token().kind, TokenKind::NotEq);
    assert_eq!(lexer.next_token().kind, TokenKind::LArrow);
}

#[test]
fn date_literals_are_seconds_since_epoch() {
    let mut lexer = Lexer::new("D2024-01-02 D1970-01-01");
    assert_eq!(lexer.next_token().kind, TokenKind::DateLiteral(1_704_153_600));
    assert_eq!(lexer.next_token().kind, TokenKind::DateLiteral(0));
}

#[test]
fn strings_keywords_and_illegal_characters() {
    let mut lexer = Lexer::new("\"hi there\" spawn intent #");
    assert_eq!(lexer.next_token().kind, TokenKind::StringLiteral("hi there".into()));
    assert_eq!(lexer.next_token().kind, TokenKind::Spawn);
    assert_eq!(lexer.next_token().kind, TokenKind::Intent);
    assert_eq!(lexer.next_token().kind, TokenKind::Illegal('#'));
}

#[test]
fn tokenize_ends_with_eof() {
    let lexer = Lexer::new("a\n  b");
    assert!(lexer.is_lexable());
    let toks = lexer.tokenize();
    assert_eq!(toks.len(), 3);
    assert_eq!(toks[1].kind, TokenKind::Identifier("b".into()));
    assert_eq!((toks[1].line, toks[1].col), (2, 3));
    assert_eq!(toks[2].kind, TokenKind::EOF);
    assert_eq!((toks[2].line, toks[2].col), (2, 4));
}

#[test]
fn end_of_input_stays_put() {
    let mut l = Lexer::new("x /* open");
    assert!(matches!(l.next_token().kind, TokenKind::Identifier(ref n) if n == "x"));
    let first = l.next_token();
    let second = l.next_token();
    assert!(matches!(first.kind, TokenKind::EOF));
    assert!(matches!(second.kind, TokenKind::EOF));
    assert_eq!((first.line, first.col), (second.line, second.col));
}
