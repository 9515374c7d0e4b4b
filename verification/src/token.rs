//! Tokens of the source language.

use vstd::prelude::*;
use crate::text::{i64_text, int_text, nat_text, push_slice, push_str_chars, usize_text};

verus! {

/// Unit suffix of a duration literal (`10s`, `500ms`, `1.5us`, …).
#[derive(Debug, Clone, Copy, PartialEq, Eq, Structural)]
pub enum DurationUnit {
    Seconds,
    Millis,
    Micros,
    Nanos,
    Minutes,
    Hours,
    Days,
}

/// The kind of a token, with the text or value it carries. Numeric
/// literals with a fraction or a unit keep their source digits.
#[derive(Debug, Clone)]
pub enum TokenKind {
    // System keywords
    Fn, Let, Mut, Struct, Enum, Return, If, Else, Match, As, While,
    Use, Pub, Async, Unsafe, Require, Extern,
    Interface, Impl, Channel,
    For, In, Type, SelfToken, Spawn,
    // AI-native and logic keywords
    Intent, Invariant, Inside,
    // Identifiers and literals
    Identifier(String),
    StringLiteral(String),
    FString(String),
    IntLiteral(i64),
    /// A literal with a fractional part, as written (`3.14`).
    FloatLiteral(String),
    /// A duration literal: its digits as written and its unit (`1.5`, `Millis`).
    DurationLiteral(String, DurationUnit),
    /// A date literal `DYYYY-MM-DD`, as seconds since 1970-01-01.
    DateLiteral(i64),
    /// A `///` documentation comment, trimmed.
    DocComment(String),
    True, False,
    // Symbols and operators
    Plus, Minus, Star, Slash, Percent, Caret,
    Eq, EqEq, NotEq, Arrow,
    LArrow,
    Pipeline,
    And, Or, Bang,
    Gt, Lt, GtEq, LtEq,
    LParen, RParen, LBrace, RBrace, LBracket, RBracket,
    Colon, Semicolon, Comma, Dot,
    Pipe,
    DoubleColon,
    Range,
    At,
    Question,
    // End of input
    EOF,
    // A character that starts no token
    Illegal(char),
}

/// A token with the position (1-based line and column) of its first character.
#[derive(Debug, Clone)]
pub struct Token {
    pub kind: TokenKind,
    pub line: usize,
    pub col: usize,
}

/// What a token denotes, with strings as character sequences.
pub enum Lexeme {
    /// A token kind that carries no data.
    Fixed(TokenKind),
    Ident(Seq<char>),
    Str(Seq<char>),
    FStr(Seq<char>),
    Int(i64),
    Float(Seq<char>),
    Duration(Seq<char>, DurationUnit),
    Date(i64),
    Doc(Seq<char>),
    Illegal(char),
}

impl TokenKind {
    /// True for the kinds that carry no data.
    pub open spec fn is_fixed(self) -> bool {
        !(self is Identifier || self is StringLiteral || self is FString || self is IntLiteral
            || self is FloatLiteral || self is DurationLiteral || self is DateLiteral
            || self is DocComment || self is Illegal)
    }

    /// Whether this token kind is the one `l` describes.
    pub open spec fn denotes(self, l: Lexeme) -> bool {
        match l {
            Lexeme::Fixed(k) => self.is_fixed() && self == k,
            Lexeme::Ident(s) => self matches TokenKind::Identifier(t) && t@ == s,
            Lexeme::Str(s) => self matches TokenKind::StringLiteral(t) && t@ == s,
            Lexeme::FStr(s) => self matches TokenKind::FString(t) && t@ == s,
            Lexeme::Int(n) => self == TokenKind::IntLiteral(n),
            Lexeme::Float(s) => self matches TokenKind::FloatLiteral(t) && t@ == s,
            Lexeme::Duration(s, u) => self matches TokenKind::DurationLiteral(t, v) && t@ == s && v == u,
            Lexeme::Date(n) => self == TokenKind::DateLiteral(n),
            Lexeme::Doc(s) => self matches TokenKind::DocComment(t) && t@ == s,
            Lexeme::Illegal(c) => self == TokenKind::Illegal(c),
        }
    }
}

impl Token {
    /// A token of `kind` at `line`/`col`.
    pub fn new(kind: TokenKind, line: usize, col: usize) -> (t: Token)
        ensures
            t.kind == kind,
            t.line == line,
            t.col == col,
    {
        Token { kind, line, col }
    }
}


/// Equality of token kinds: the same kind carrying the same text or value.
pub open spec fn token_kind_eq(a: TokenKind, b: TokenKind) -> bool {
    match (a, b) {
        (TokenKind::Identifier(a), TokenKind::Identifier(b)) => a@ == b@,
        (TokenKind::StringLiteral(a), TokenKind::StringLiteral(b)) => a@ == b@,
        (TokenKind::FString(a), TokenKind::FString(b)) => a@ == b@,
        (TokenKind::FloatLiteral(a), TokenKind::FloatLiteral(b)) => a@ == b@,
        (TokenKind::DocComment(a), TokenKind::DocComment(b)) => a@ == b@,
        (TokenKind::IntLiteral(a), TokenKind::IntLiteral(b)) => a == b,
        (TokenKind::DateLiteral(a), TokenKind::DateLiteral(b)) => a == b,
        (TokenKind::DurationLiteral(a, u), TokenKind::DurationLiteral(b, v)) => a@ == b@ && u == v,
        (TokenKind::Illegal(a), TokenKind::Illegal(b)) => a == b,
        _ => a.is_fixed() && b.is_fixed() && a == b,
    }
}

impl PartialEq for TokenKind {
    fn eq(&self, other: &TokenKind) -> (r: bool) {
        match (self, other) {
            (TokenKind::Fn, TokenKind::Fn) => true,
            (TokenKind::Let, TokenKind::Let) => true,
            (TokenKind::Mut, TokenKind::Mut) => true,
            (TokenKind::Struct, TokenKind::Struct) => true,
            (TokenKind::Enum, TokenKind::Enum) => true,
            (TokenKind::Return, TokenKind::Return) => true,
            (TokenKind::If, TokenKind::If) => true,
            (TokenKind::Else, TokenKind::Else) => true,
            (TokenKind::Match, TokenKind::Match) => true,
            (TokenKind::As, TokenKind::As) => true,
            (TokenKind::While, TokenKind::While) => true,
            (TokenKind::Use, TokenKind::Use) => true,
            (TokenKind::Pub, TokenKind::Pub) => true,
            (TokenKind::Async, TokenKind::Async) => true,
            (TokenKind::Unsafe, TokenKind::Unsafe) => true,
            (TokenKind::Require, TokenKind::Require) => true,
            (TokenKind::Extern, TokenKind::Extern) => true,
            (TokenKind::Interface, TokenKind::Interface) => true,
            (TokenKind::Impl, TokenKind::Impl) => true,
            (TokenKind::Channel, TokenKind::Channel) => true,
            (TokenKind::For, TokenKind::For) => true,
            (TokenKind::In, TokenKind::In) => true,
            (TokenKind::Type, TokenKind::Type) => true,
            (TokenKind::SelfToken, TokenKind::SelfToken) => true,
            (TokenKind::Spawn, TokenKind::Spawn) => true,
            (TokenKind::Intent, TokenKind::Intent) => true,
            (TokenKind::Invariant, TokenKind::Invariant) => true,
            (TokenKind::Inside, TokenKind::Inside) => true,
            (TokenKind::True, TokenKind::True) => true,
            (TokenKind::False, TokenKind::False) => true,
            (TokenKind::Plus, TokenKind::Plus) => true,
            (TokenKind::Minus, TokenKind::Minus) => true,
            (TokenKind::Star, TokenKind::Star) => true,
            (TokenKind::Slash, TokenKind::Slash) => true,
            (TokenKind::Percent, TokenKind::Percent) => true,
            (TokenKind::Caret, TokenKind::Caret) => true,
            (TokenKind::Eq, TokenKind::Eq) => true,
            (TokenKind::EqEq, TokenKind::EqEq) => true,
            (TokenKind::NotEq, TokenKind::NotEq) => true,
            (TokenKind::Arrow, TokenKind::Arrow) => true,
            (TokenKind::LArrow, TokenKind::LArrow) => true,
            (TokenKind::Pipeline, TokenKind::Pipeline) => true,
            (TokenKind::And, TokenKind::And) => true,
            (TokenKind::Or, TokenKind::Or) => true,
            (TokenKind::Bang, TokenKind::Bang) => true,
            (TokenKind::Gt, TokenKind::Gt) => true,
            (TokenKind::Lt, TokenKind::Lt) => true,
            (TokenKind::GtEq, TokenKind::GtEq) => true,
            (TokenKind::LtEq, TokenKind::LtEq) => true,
            (TokenKind::LParen, TokenKind::LParen) => true,
            (TokenKind::RParen, TokenKind::RParen) => true,
            (TokenKind::LBrace, TokenKind::LBrace) => true,
            (TokenKind::RBrace, TokenKind::RBrace) => true,
            (TokenKind::LBracket, TokenKind::LBracket) => true,
            (TokenKind::RBracket, TokenKind::RBracket) => true,
            (TokenKind::Colon, TokenKind::Colon) => true,
            (TokenKind::Semicolon, TokenKind::Semicolon) => true,
            (TokenKind::Comma, TokenKind::Comma) => true,
            (TokenKind::Dot, TokenKind::Dot) => true,
            (TokenKind::Pipe, TokenKind::Pipe) => true,
            (TokenKind::DoubleColon, TokenKind::DoubleColon) => true,
            (TokenKind::Range, TokenKind::Range) => true,
            (TokenKind::At, TokenKind::At) => true,
            (TokenKind::Question, TokenKind::Question) => true,
            (TokenKind::EOF, TokenKind::EOF) => true,
            (TokenKind::Identifier(a), TokenKind::Identifier(b)) => *a == *b,
            (TokenKind::StringLiteral(a), TokenKind::StringLiteral(b)) => *a == *b,
            (TokenKind::FString(a), TokenKind::FString(b)) => *a == *b,
            (TokenKind::FloatLiteral(a), TokenKind::FloatLiteral(b)) => *a == *b,
            (TokenKind::DocComment(a), TokenKind::DocComment(b)) => *a == *b,
            (TokenKind::IntLiteral(a), TokenKind::IntLiteral(b)) => *a == *b,
            (TokenKind::DateLiteral(a), TokenKind::DateLiteral(b)) => *a == *b,
            (TokenKind::DurationLiteral(a, u), TokenKind::DurationLiteral(b, v)) => *a == *b && *u == *v,
            (TokenKind::Illegal(a), TokenKind::Illegal(b)) => *a == *b,
            _ => false,
        }
    }
}

impl vstd::std_specs::cmp::PartialEqSpecImpl for TokenKind {
    open spec fn obeys_eq_spec() -> bool {
        true
    }

    open spec fn eq_spec(&self, other: &TokenKind) -> bool {
        token_kind_eq(*self, *other)
    }
}

/// The name of a data-free token kind.
pub open spec fn fixed_kind_name(k: TokenKind) -> Seq<char> {
    match k {
        TokenKind::Fn => "Fn"@,
        TokenKind::Let => "Let"@,
        TokenKind::Mut => "Mut"@,
        TokenKind::Struct => "Struct"@,
        TokenKind::Enum => "Enum"@,
        TokenKind::Return => "Return"@,
        TokenKind::If => "If"@,
        TokenKind::Else => "Else"@,
        TokenKind::Match => "Match"@,
        TokenKind::As => "As"@,
        TokenKind::While => "While"@,
        TokenKind::Use => "Use"@,
        TokenKind::Pub => "Pub"@,
        TokenKind::Async => "Async"@,
        TokenKind::Unsafe => "Unsafe"@,
        TokenKind::Require => "Require"@,
        TokenKind::Extern => "Extern"@,
        TokenKind::Interface => "Interface"@,
        TokenKind::Impl => "Impl"@,
        TokenKind::Channel => "Channel"@,
        TokenKind::For => "For"@,
        TokenKind::In => "In"@,
        TokenKind::Type => "Type"@,
        TokenKind::SelfToken => "SelfToken"@,
        TokenKind::Spawn => "Spawn"@,
        TokenKind::Intent => "Intent"@,
        TokenKind::Invariant => "Invariant"@,
        TokenKind::Inside => "Inside"@,
        TokenKind::True => "True"@,
        TokenKind::False => "False"@,
        TokenKind::Plus => "Plus"@,
        TokenKind::Minus => "Minus"@,
        TokenKind::Star => "Star"@,
        TokenKind::Slash => "Slash"@,
        TokenKind::Percent => "Percent"@,
        TokenKind::Caret => "Caret"@,
        TokenKind::Eq => "Eq"@,
        TokenKind::EqEq => "EqEq"@,
        TokenKind::NotEq => "NotEq"@,
        TokenKind::Arrow => "Arrow"@,
        TokenKind::LArrow => "LArrow"@,
        TokenKind::Pipeline => "Pipeline"@,
        TokenKind::And => "And"@,
        TokenKind::Or => "Or"@,
        TokenKind::Bang => "Bang"@,
        TokenKind::Gt => "Gt"@,
        TokenKind::Lt => "Lt"@,
        TokenKind::GtEq => "GtEq"@,
        TokenKind::LtEq => "LtEq"@,
        TokenKind::LParen => "LParen"@,
        TokenKind::RParen => "RParen"@,
        TokenKind::LBrace => "LBrace"@,
        TokenKind::RBrace => "RBrace"@,
        TokenKind::LBracket => "LBracket"@,
        TokenKind::RBracket => "RBracket"@,
        TokenKind::Colon => "Colon"@,
        TokenKind::Semicolon => "Semicolon"@,
        TokenKind::Comma => "Comma"@,
        TokenKind::Dot => "Dot"@,
        TokenKind::Pipe => "Pipe"@,
        TokenKind::DoubleColon => "DoubleColon"@,
        TokenKind::Range => "Range"@,
        TokenKind::At => "At"@,
        TokenKind::Question => "Question"@,
        TokenKind::EOF => "EOF"@,
        _ => Seq::empty(),
    }
}

/// Debug notation of a string (quoted, with special characters escaped), as
/// `<str as Debug>::fmt` writes it.
pub uninterp spec fn str_debug_text(s: Seq<char>) -> Seq<char>;

/// Debug notation of a character (quoted, escaped), as `<char as Debug>::fmt` writes it.
pub uninterp spec fn char_debug_text(c: char) -> Seq<char>;

/// Formats `s` with `{:?}` (std's `Debug` for `str`); the result is named [`str_debug_text`].
#[verifier::external_body]
pub(crate) fn str_debug(s: &str) -> (r: String)
    ensures
        r@ == str_debug_text(s@),
{
    format!("{:?}", s)
}

/// Formats `c` with `{:?}` (std's `Debug` for `char`); the result is named [`char_debug_text`].
#[verifier::external_body]
pub(crate) fn char_debug(c: char) -> (r: String)
    ensures
        r@ == char_debug_text(c),
{
    format!("{:?}", c)
}

/// The name of a duration unit.
pub open spec fn unit_name(u: DurationUnit) -> Seq<char> {
    match u {
        DurationUnit::Seconds => "Seconds"@,
        DurationUnit::Millis => "Millis"@,
        DurationUnit::Micros => "Micros"@,
        DurationUnit::Nanos => "Nanos"@,
        DurationUnit::Minutes => "Minutes"@,
        DurationUnit::Hours => "Hours"@,
        DurationUnit::Days => "Days"@,
    }
}

/// Debug notation of a token kind: the variant name and its data.
pub open spec fn kind_debug_text(k: TokenKind) -> Seq<char> {
    match k {
        TokenKind::Identifier(s) => "Identifier("@ + str_debug_text(s@) + ")"@,
        TokenKind::StringLiteral(s) => "StringLiteral("@ + str_debug_text(s@) + ")"@,
        TokenKind::FString(s) => "FString("@ + str_debug_text(s@) + ")"@,
        TokenKind::FloatLiteral(s) => "FloatLiteral("@ + str_debug_text(s@) + ")"@,
        TokenKind::DocComment(s) => "DocComment("@ + str_debug_text(s@) + ")"@,
        TokenKind::IntLiteral(n) => "IntLiteral("@ + int_text(n as int) + ")"@,
        TokenKind::DateLiteral(n) => "DateLiteral("@ + int_text(n as int) + ")"@,
        TokenKind::DurationLiteral(s, u) => "DurationLiteral("@ + str_debug_text(s@) + ", "@ + unit_name(u) + ")"@,
        TokenKind::Illegal(c) => "Illegal("@ + char_debug_text(c) + ")"@,
        _ => fixed_kind_name(k),
    }
}

/// Duration units are written by their names, and the operator tokens by
/// their variant names (as a diagnostic about an operator shows them):
/// `Plus`, `Minus`, `Star`, `Slash`, `Percent`, `Caret`, `Range`, `EqEq`,
/// `NotEq`, `Lt`, `Gt`, `LtEq`, `GtEq`, `And`, `Or`, `Inside`, `Pipeline`
/// and `As`.
pub proof fn lemma_unit_and_operator_names()
    ensures
        unit_name(DurationUnit::Seconds) == seq!['S', 'e', 'c', 'o', 'n', 'd', 's'],
        unit_name(DurationUnit::Millis) == seq!['M', 'i', 'l', 'l', 'i', 's'],
        unit_name(DurationUnit::Micros) == seq!['M', 'i', 'c', 'r', 'o', 's'],
        unit_name(DurationUnit::Nanos) == seq!['N', 'a', 'n', 'o', 's'],
        unit_name(DurationUnit::Minutes) == seq!['M', 'i', 'n', 'u', 't', 'e', 's'],
        unit_name(DurationUnit::Hours) == seq!['H', 'o', 'u', 'r', 's'],
        unit_name(DurationUnit::Days) == seq!['D', 'a', 'y', 's'],
        kind_debug_text(TokenKind::Plus) == seq!['P', 'l', 'u', 's'],
        kind_debug_text(TokenKind::Minus) == seq!['M', 'i', 'n', 'u', 's'],
        kind_debug_text(TokenKind::Star) == seq!['S', 't', 'a', 'r'],
        kind_debug_text(TokenKind::Slash) == seq!['S', 'l', 'a', 's', 'h'],
        kind_debug_text(TokenKind::Percent) == seq!['P', 'e', 'r', 'c', 'e', 'n', 't'],
        kind_debug_text(TokenKind::Caret) == seq!['C', 'a', 'r', 'e', 't'],
        kind_debug_text(TokenKind::Range) == seq!['R', 'a', 'n', 'g', 'e'],
        kind_debug_text(TokenKind::EqEq) == seq!['E', 'q', 'E', 'q'],
        kind_debug_text(TokenKind::NotEq) == seq!['N', 'o', 't', 'E', 'q'],
        kind_debug_text(TokenKind::Lt) == seq!['L', 't'],
        kind_debug_text(TokenKind::Gt) == seq!['G', 't'],
        kind_debug_text(TokenKind::LtEq) == seq!['L', 't', 'E', 'q'],
        kind_debug_text(TokenKind::GtEq) == seq!['G', 't', 'E', 'q'],
        kind_debug_text(TokenKind::And) == seq!['A', 'n', 'd'],
        kind_debug_text(TokenKind::Or) == seq!['O', 'r'],
        kind_debug_text(TokenKind::Inside) == seq!['I', 'n', 's', 'i', 'd', 'e'],
        kind_debug_text(TokenKind::Pipeline) == seq!['P', 'i', 'p', 'e', 'l', 'i', 'n', 'e'],
        kind_debug_text(TokenKind::As) == seq!['A', 's'],
{
    reveal_strlit("And");
    assert("And"@ =~= seq!['A', 'n', 'd']);
    reveal_strlit("As");
    assert("As"@ =~= seq!['A', 's']);
    reveal_strlit("Caret");
    assert("Caret"@ =~= seq!['C', 'a', 'r', 'e', 't']);
    reveal_strlit("Days");
    assert("Days"@ =~= seq!['D', 'a', 'y', 's']);
    reveal_strlit("EqEq");
    assert("EqEq"@ =~= seq!['E', 'q', 'E', 'q']);
    reveal_strlit("Gt");
    assert("Gt"@ =~= seq!['G', 't']);
    reveal_strlit("GtEq");
    assert("GtEq"@ =~= seq!['G', 't', 'E', 'q']);
    reveal_strlit("Hours");
    assert("Hours"@ =~= seq!['H', 'o', 'u', 'r', 's']);
    reveal_strlit("Inside");
    assert("Inside"@ =~= seq!['I', 'n', 's', 'i', 'd', 'e']);
    reveal_strlit("Lt");
    assert("Lt"@ =~= seq!['L', 't']);
    reveal_strlit("LtEq");
    assert("LtEq"@ =~= seq!['L', 't', 'E', 'q']);
    reveal_strlit("Micros");
    assert("Micros"@ =~= seq!['M', 'i', 'c', 'r', 'o', 's']);
    reveal_strlit("Millis");
    assert("Millis"@ =~= seq!['M', 'i', 'l', 'l', 'i', 's']);
    reveal_strlit("Minus");
    assert("Minus"@ =~= seq!['M', 'i', 'n', 'u', 's']);
    reveal_strlit("Minutes");
    assert("Minutes"@ =~= seq!['M', 'i', 'n', 'u', 't', 'e', 's']);
    reveal_strlit("Nanos");
    assert("Nanos"@ =~= seq!['N', 'a', 'n', 'o', 's']);
    reveal_strlit("NotEq");
    assert("NotEq"@ =~= seq!['N', 'o', 't', 'E', 'q']);
    reveal_strlit("Or");
    assert("Or"@ =~= seq!['O', 'r']);
    reveal_strlit("Percent");
    assert("Percent"@ =~= seq!['P', 'e', 'r', 'c', 'e', 'n', 't']);
    reveal_strlit("Pipeline");
    assert("Pipeline"@ =~= seq!['P', 'i', 'p', 'e', 'l', 'i', 'n', 'e']);
    reveal_strlit("Plus");
    assert("Plus"@ =~= seq!['P', 'l', 'u', 's']);
    reveal_strlit("Range");
    assert("Range"@ =~= seq!['R', 'a', 'n', 'g', 'e']);
    reveal_strlit("Seconds");
    assert("Seconds"@ =~= seq!['S', 'e', 'c', 'o', 'n', 'd', 's']);
    reveal_strlit("Slash");
    assert("Slash"@ =~= seq!['S', 'l', 'a', 's', 'h']);
    reveal_strlit("Star");
    assert("Star"@ =~= seq!['S', 't', 'a', 'r']);
}

/// Debug notation of a token, as `{:?}` writes a `Token`.
pub open spec fn token_debug_text(t: Token) -> Seq<char> {
    "Token { kind: "@ + kind_debug_text(t.kind) + ", line: "@ + nat_text(t.line as nat)
        + ", col: "@ + nat_text(t.col as nat) + " }"@
}

/// Appends the name of a duration unit.
pub fn push_unit_name(v: &mut Vec<char>, u: DurationUnit)
    ensures
        final(v)@ == old(v)@ + unit_name(u),
{
    match u {
        DurationUnit::Seconds => push_str_chars(v, "Seconds"),
        DurationUnit::Millis => push_str_chars(v, "Millis"),
        DurationUnit::Micros => push_str_chars(v, "Micros"),
        DurationUnit::Nanos => push_str_chars(v, "Nanos"),
        DurationUnit::Minutes => push_str_chars(v, "Minutes"),
        DurationUnit::Hours => push_str_chars(v, "Hours"),
        DurationUnit::Days => push_str_chars(v, "Days"),
    }
}

/// Appends the debug notation of `k` (see [`kind_debug_text`]).
pub fn push_kind_debug(v: &mut Vec<char>, k: &TokenKind)
    ensures
        final(v)@ == old(v)@ + kind_debug_text(*k),
{
    let ghost start = v@;
    match k {
        TokenKind::Identifier(s) => { push_str_chars(v, "Identifier("); let d = str_debug(s.as_str()); push_str_chars(v, d.as_str()); push_str_chars(v, ")"); },
        TokenKind::StringLiteral(s) => { push_str_chars(v, "StringLiteral("); let d = str_debug(s.as_str()); push_str_chars(v, d.as_str()); push_str_chars(v, ")"); },
        TokenKind::FString(s) => { push_str_chars(v, "FString("); let d = str_debug(s.as_str()); push_str_chars(v, d.as_str()); push_str_chars(v, ")"); },
        TokenKind::FloatLiteral(s) => { push_str_chars(v, "FloatLiteral("); let d = str_debug(s.as_str()); push_str_chars(v, d.as_str()); push_str_chars(v, ")"); },
        TokenKind::DocComment(s) => { push_str_chars(v, "DocComment("); let d = str_debug(s.as_str()); push_str_chars(v, d.as_str()); push_str_chars(v, ")"); },
        TokenKind::IntLiteral(n) => { push_str_chars(v, "IntLiteral("); let d = i64_text(*n); push_slice(v, &d); push_str_chars(v, ")"); },
        TokenKind::DateLiteral(n) => { push_str_chars(v, "DateLiteral("); let d = i64_text(*n); push_slice(v, &d); push_str_chars(v, ")"); },
        TokenKind::DurationLiteral(s, u) => {
            push_str_chars(v, "DurationLiteral(");
            let d = str_debug(s.as_str());
            push_str_chars(v, d.as_str());
            push_str_chars(v, ", ");
            push_unit_name(v, *u);
            push_str_chars(v, ")");
    },
        TokenKind::Illegal(c) => { push_str_chars(v, "Illegal("); let d = char_debug(*c); push_str_chars(v, d.as_str()); push_str_chars(v, ")"); },
        TokenKind::Fn => push_str_chars(v, "Fn"),
        TokenKind::Let => push_str_chars(v, "Let"),
        TokenKind::Mut => push_str_chars(v, "Mut"),
        TokenKind::Struct => push_str_chars(v, "Struct"),
        TokenKind::Enum => push_str_chars(v, "Enum"),
        TokenKind::Return => push_str_chars(v, "Return"),
        TokenKind::If => push_str_chars(v, "If"),
        TokenKind::Else => push_str_chars(v, "Else"),
        TokenKind::Match => push_str_chars(v, "Match"),
        TokenKind::As => push_str_chars(v, "As"),
        TokenKind::While => push_str_chars(v, "While"),
        TokenKind::Use => push_str_chars(v, "Use"),
        TokenKind::Pub => push_str_chars(v, "Pub"),
        TokenKind::Async => push_str_chars(v, "Async"),
        TokenKind::Unsafe => push_str_chars(v, "Unsafe"),
        TokenKind::Require => push_str_chars(v, "Require"),
        TokenKind::Extern => push_str_chars(v, "Extern"),
        TokenKind::Interface => push_str_chars(v, "Interface"),
        TokenKind::Impl => push_str_chars(v, "Impl"),
        TokenKind::Channel => push_str_chars(v, "Channel"),
        TokenKind::For => push_str_chars(v, "For"),
        TokenKind::In => push_str_chars(v, "In"),
        TokenKind::Type => push_str_chars(v, "Type"),
        TokenKind::SelfToken => push_str_chars(v, "SelfToken"),
        TokenKind::Spawn => push_str_chars(v, "Spawn"),
        TokenKind::Intent => push_str_chars(v, "Intent"),
        TokenKind::Invariant => push_str_chars(v, "Invariant"),
        TokenKind::Inside => push_str_chars(v, "Inside"),
        TokenKind::True => push_str_chars(v, "True"),
        TokenKind::False => push_str_chars(v, "False"),
        TokenKind::Plus => push_str_chars(v, "Plus"),
        TokenKind::Minus => push_str_chars(v, "Minus"),
        TokenKind::Star => push_str_chars(v, "Star"),
        TokenKind::Slash => push_str_chars(v, "Slash"),
        TokenKind::Percent => push_str_chars(v, "Percent"),
        TokenKind::Caret => push_str_chars(v, "Caret"),
        TokenKind::Eq => push_str_chars(v, "Eq"),
        TokenKind::EqEq => push_str_chars(v, "EqEq"),
        TokenKind::NotEq => push_str_chars(v, "NotEq"),
        TokenKind::Arrow => push_str_chars(v, "Arrow"),
        TokenKind::LArrow => push_str_chars(v, "LArrow"),
        TokenKind::Pipeline => push_str_chars(v, "Pipeline"),
        TokenKind::And => push_str_chars(v, "And"),
        TokenKind::Or => push_str_chars(v, "Or"),
        TokenKind::Bang => push_str_chars(v, "Bang"),
        TokenKind::Gt => push_str_chars(v, "Gt"),
        TokenKind::Lt => push_str_chars(v, "Lt"),
        TokenKind::GtEq => push_str_chars(v, "GtEq"),
        TokenKind::LtEq => push_str_chars(v, "LtEq"),
        TokenKind::LParen => push_str_chars(v, "LParen"),
        TokenKind::RParen => push_str_chars(v, "RParen"),
        TokenKind::LBrace => push_str_chars(v, "LBrace"),
        TokenKind::RBrace => push_str_chars(v, "RBrace"),
        TokenKind::LBracket => push_str_chars(v, "LBracket"),
        TokenKind::RBracket => push_str_chars(v, "RBracket"),
        TokenKind::Colon => push_str_chars(v, "Colon"),
        TokenKind::Semicolon => push_str_chars(v, "Semicolon"),
        TokenKind::Comma => push_str_chars(v, "Comma"),
        TokenKind::Dot => push_str_chars(v, "Dot"),
        TokenKind::Pipe => push_str_chars(v, "Pipe"),
        TokenKind::DoubleColon => push_str_chars(v, "DoubleColon"),
        TokenKind::Range => push_str_chars(v, "Range"),
        TokenKind::At => push_str_chars(v, "At"),
        TokenKind::Question => push_str_chars(v, "Question"),
        TokenKind::EOF => push_str_chars(v, "EOF"),
    }
    proof {
        assert(v@ =~= start + kind_debug_text(*k));
    }
}

impl Token {
    /// Debug notation of the token (`Token { kind: …, line: …, col: … }`).
    pub fn debug_text(&self) -> (r: Vec<char>)
        ensures
            r@ == token_debug_text(*self),
    {
        let mut v: Vec<char> = Vec::new();
        push_str_chars(&mut v, "Token { kind: ");
        push_kind_debug(&mut v, &self.kind);
        push_str_chars(&mut v, ", line: ");
        let l = usize_text(self.line);
        push_slice(&mut v, &l);
        push_str_chars(&mut v, ", col: ");
        let c = usize_text(self.col);
        push_slice(&mut v, &c);
        push_str_chars(&mut v, " }");
        v
    }
}


impl TokenKind {
    /// A copy of the token kind.
    pub fn duplicate(&self) -> (r: TokenKind)
        ensures
            r == *self,
    {
        match self {
            TokenKind::Identifier(s) => TokenKind::Identifier(s.clone()),
            TokenKind::StringLiteral(s) => TokenKind::StringLiteral(s.clone()),
            TokenKind::FString(s) => TokenKind::FString(s.clone()),
            TokenKind::FloatLiteral(s) => TokenKind::FloatLiteral(s.clone()),
            TokenKind::DocComment(s) => TokenKind::DocComment(s.clone()),
            TokenKind::IntLiteral(n) => TokenKind::IntLiteral(*n),
            TokenKind::DateLiteral(n) => TokenKind::DateLiteral(*n),
            TokenKind::DurationLiteral(s, u) => TokenKind::DurationLiteral(s.clone(), *u),
            TokenKind::Illegal(c) => TokenKind::Illegal(*c),
            TokenKind::Fn => TokenKind::Fn,
            TokenKind::Let => TokenKind::Let,
            TokenKind::Mut => TokenKind::Mut,
            TokenKind::Struct => TokenKind::Struct,
            TokenKind::Enum => TokenKind::Enum,
            TokenKind::Return => TokenKind::Return,
            TokenKind::If => TokenKind::If,
            TokenKind::Else => TokenKind::Else,
            TokenKind::Match => TokenKind::Match,
            TokenKind::As => TokenKind::As,
            TokenKind::While => TokenKind::While,
            TokenKind::Use => TokenKind::Use,
            TokenKind::Pub => TokenKind::Pub,
            TokenKind::Async => TokenKind::Async,
            TokenKind::Unsafe => TokenKind::Unsafe,
            TokenKind::Require => TokenKind::Require,
            TokenKind::Extern => TokenKind::Extern,
            TokenKind::Interface => TokenKind::Interface,
            TokenKind::Impl => TokenKind::Impl,
            TokenKind::Channel => TokenKind::Channel,
            TokenKind::For => TokenKind::For,
            TokenKind::In => TokenKind::In,
            TokenKind::Type => TokenKind::Type,
            TokenKind::SelfToken => TokenKind::SelfToken,
            TokenKind::Spawn => TokenKind::Spawn,
            TokenKind::Intent => TokenKind::Intent,
            TokenKind::Invariant => TokenKind::Invariant,
            TokenKind::Inside => TokenKind::Inside,
            TokenKind::True => TokenKind::True,
            TokenKind::False => TokenKind::False,
            TokenKind::Plus => TokenKind::Plus,
            TokenKind::Minus => TokenKind::Minus,
            TokenKind::Star => TokenKind::Star,
            TokenKind::Slash => TokenKind::Slash,
            TokenKind::Percent => TokenKind::Percent,
            TokenKind::Caret => TokenKind::Caret,
            TokenKind::Eq => TokenKind::Eq,
            TokenKind::EqEq => TokenKind::EqEq,
            TokenKind::NotEq => TokenKind::NotEq,
            TokenKind::Arrow => TokenKind::Arrow,
            TokenKind::LArrow => TokenKind::LArrow,
            TokenKind::Pipeline => TokenKind::Pipeline,
            TokenKind::And => TokenKind::And,
            TokenKind::Or => TokenKind::Or,
            TokenKind::Bang => TokenKind::Bang,
            TokenKind::Gt => TokenKind::Gt,
            TokenKind::Lt => TokenKind::Lt,
            TokenKind::GtEq => TokenKind::GtEq,
            TokenKind::LtEq => TokenKind::LtEq,
            TokenKind::LParen => TokenKind::LParen,
            TokenKind::RParen => TokenKind::RParen,
            TokenKind::LBrace => TokenKind::LBrace,
            TokenKind::RBrace => TokenKind::RBrace,
            TokenKind::LBracket => TokenKind::LBracket,
            TokenKind::RBracket => TokenKind::RBracket,
            TokenKind::Colon => TokenKind::Colon,
            TokenKind::Semicolon => TokenKind::Semicolon,
            TokenKind::Comma => TokenKind::Comma,
            TokenKind::Dot => TokenKind::Dot,
            TokenKind::Pipe => TokenKind::Pipe,
            TokenKind::DoubleColon => TokenKind::DoubleColon,
            TokenKind::Range => TokenKind::Range,
            TokenKind::At => TokenKind::At,
            TokenKind::Question => TokenKind::Question,
            TokenKind::EOF => TokenKind::EOF,
        }
    }
}

impl Token {
    /// A copy of the token.
    pub fn duplicate(&self) -> (r: Token)
        ensures
            r == *self,
    {
        Token { kind: self.kind.duplicate(), line: self.line, col: self.col }
    }
}

} // verus!
