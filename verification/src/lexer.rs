//! The lexer: source characters to tokens.

use vstd::prelude::*;
use crate::token::{DurationUnit, Lexeme, Token, TokenKind};
use crate::text::{
    chars_of, char_is_alphabetic, char_is_alphanumeric, char_is_numeric, char_is_whitespace,
    eq_lit, is_alphabetic_char, is_numeric_char, is_whitespace_char, slice_chars,
    string_from_chars, trim_chars, trim_ws,
};
use crate::error::line_end;
use crate::analysis::types::split_on;

verus! {

// ---------------------------------------------------------------------------
// Positions
// ---------------------------------------------------------------------------

/// The 1-based line of position `p` of `s`.
pub open spec fn line_at(s: Seq<char>, p: int) -> int
    decreases p,
{
    if p <= 0 {
        1
    } else {
        line_at(s, p - 1) + if s[p - 1] == '\n' { 1int } else { 0int }
    }
}

/// The 1-based column of position `p` of `s`: characters since the last
/// newline before `p`, plus one.
pub open spec fn col_at(s: Seq<char>, p: int) -> int
    decreases p,
{
    if p <= 0 {
        1
    } else if s[p - 1] == '\n' {
        1
    } else {
        col_at(s, p - 1) + 1
    }
}

/// Lines and columns are positive and at most one more than the position.
pub proof fn lemma_pos_bounds(s: Seq<char>, p: int)
    requires
        0 <= p,
    ensures
        1 <= line_at(s, p) <= p + 1,
        1 <= col_at(s, p) <= p + 1,
    decreases p,
{
    if p > 0 {
        lemma_pos_bounds(s, p - 1);
    }
}

// ---------------------------------------------------------------------------
// Character classes and runs
// ---------------------------------------------------------------------------

/// Characters that continue an identifier.
pub open spec fn ident_char(c: char) -> bool {
    is_alphabetic_char(c) || is_numeric_char(c) || c == '_'
}

/// Characters of a date literal's body.
pub open spec fn date_char(c: char) -> bool {
    is_numeric_char(c) || c == '-'
}

/// First position at or after `i` whose character is not whitespace.
pub open spec fn ws_end(s: Seq<char>, i: int) -> int
    decreases s.len() - i,
{
    if i >= s.len() { s.len() as int } else if is_whitespace_char(s[i]) { ws_end(s, i + 1) } else { i }
}

/// First position at or after `i` whose character does not continue an identifier.
pub open spec fn ident_end(s: Seq<char>, i: int) -> int
    decreases s.len() - i,
{
    if i >= s.len() { s.len() as int } else if ident_char(s[i]) { ident_end(s, i + 1) } else { i }
}

/// First position at or after `i` whose character is not alphabetic.
pub open spec fn alpha_end(s: Seq<char>, i: int) -> int
    decreases s.len() - i,
{
    if i >= s.len() { s.len() as int } else if is_alphabetic_char(s[i]) { alpha_end(s, i + 1) } else { i }
}

/// First position at or after `i` whose character is not part of a date body.
pub open spec fn date_end(s: Seq<char>, i: int) -> int
    decreases s.len() - i,
{
    if i >= s.len() { s.len() as int } else if date_char(s[i]) { date_end(s, i + 1) } else { i }
}

/// Position of the first `"` at or after `i` (or the end of input).
pub open spec fn quote_at(s: Seq<char>, i: int) -> int
    decreases s.len() - i,
{
    if i >= s.len() { s.len() as int } else if s[i] == '"' { i } else { quote_at(s, i + 1) }
}

/// End of the digits of a number: digits and `.`s, stopping before a `..`.
pub open spec fn number_end(s: Seq<char>, i: int) -> int
    decreases s.len() - i,
{
    if i >= s.len() {
        s.len() as int
    } else if s[i] == '.' {
        if i + 1 < s.len() && s[i + 1] == '.' { i } else { number_end(s, i + 1) }
    } else if is_numeric_char(s[i]) {
        number_end(s, i + 1)
    } else {
        i
    }
}

/// Position just after the `*/` closing a block comment whose body starts at
/// `i` (or the end of input).
pub open spec fn block_end(s: Seq<char>, i: int) -> int
    decreases s.len() - i,
{
    if i >= s.len() {
        s.len() as int
    } else if s[i] == '*' && i + 1 < s.len() && s[i + 1] == '/' {
        i + 2
    } else {
        block_end(s, i + 1)
    }
}

/// Every run ends between its start and the end of input.
pub proof fn lemma_run_ends(s: Seq<char>, i: int)
    requires
        0 <= i <= s.len(),
    ensures
        i <= ws_end(s, i) <= s.len(),
        i <= ident_end(s, i) <= s.len(),
        i <= alpha_end(s, i) <= s.len(),
        i <= date_end(s, i) <= s.len(),
        i <= quote_at(s, i) <= s.len(),
        i <= number_end(s, i) <= s.len(),
        i <= block_end(s, i) <= s.len(),
        i <= line_end(s, i) <= s.len(),
    decreases s.len() - i,
{
    if i < s.len() {
        lemma_run_ends(s, i + 1);
    }
}

/// Where the next token starts: after whitespace, `//` line comments (but
/// not `///` documentation comments) and `/* */` block comments.
pub open spec fn trivia_end(s: Seq<char>, p: int) -> int
    decreases s.len() - p,
{
    if p < 0 || p > s.len() {
        p
    } else {
        let q = ws_end(s, p);
        proof {
            lemma_run_ends(s, p);
        }
        if q + 1 < s.len() && s[q] == '/' && s[q + 1] == '/' && !(q + 2 < s.len() && s[q + 2] == '/') {
            proof {
                lemma_run_ends(s, q + 2);
            }
            trivia_end(s, line_end(s, q + 2))
        } else if q + 1 < s.len() && s[q] == '/' && s[q + 1] == '*' {
            proof {
                lemma_run_ends(s, q + 2);
            }
            trivia_end(s, block_end(s, q + 2))
        } else {
            q
        }
    }
}

/// The next token starts between `p` and the end of input.
pub proof fn lemma_trivia_end(s: Seq<char>, p: int)
    requires
        0 <= p <= s.len(),
    ensures
        p <= trivia_end(s, p) <= s.len(),
    decreases s.len() - p,
{
    lemma_run_ends(s, p);
    let q = ws_end(s, p);
    if q + 1 < s.len() && s[q] == '/' && s[q + 1] == '/' && !(q + 2 < s.len() && s[q + 2] == '/') {
        lemma_run_ends(s, q + 2);
        lemma_trivia_end(s, line_end(s, q + 2));
    } else if q + 1 < s.len() && s[q] == '/' && s[q + 1] == '*' {
        lemma_run_ends(s, q + 2);
        lemma_trivia_end(s, block_end(s, q + 2));
    }
}

// ---------------------------------------------------------------------------
// Words, numbers and dates
// ---------------------------------------------------------------------------

/// The keyword a word spells, if any.
pub open spec fn keyword(w: Seq<char>) -> Option<TokenKind> {
    if w == "fn"@ { Some(TokenKind::Fn) }
    else if w == "let"@ { Some(TokenKind::Let) }
    else if w == "mut"@ { Some(TokenKind::Mut) }
    else if w == "struct"@ { Some(TokenKind::Struct) }
    else if w == "enum"@ { Some(TokenKind::Enum) }
    else if w == "return"@ { Some(TokenKind::Return) }
    else if w == "if"@ { Some(TokenKind::If) }
    else if w == "else"@ { Some(TokenKind::Else) }
    else if w == "while"@ { Some(TokenKind::While) }
    else if w == "match"@ { Some(TokenKind::Match) }
    else if w == "as"@ { Some(TokenKind::As) }
    else if w == "use"@ { Some(TokenKind::Use) }
    else if w == "pub"@ { Some(TokenKind::Pub) }
    else if w == "async"@ { Some(TokenKind::Async) }
    else if w == "unsafe"@ { Some(TokenKind::Unsafe) }
    else if w == "extern"@ { Some(TokenKind::Extern) }
    else if w == "require"@ { Some(TokenKind::Require) }
    else if w == "intent"@ { Some(TokenKind::Intent) }
    else if w == "invariant"@ { Some(TokenKind::Invariant) }
    else if w == "inside"@ { Some(TokenKind::Inside) }
    else if w == "interface"@ { Some(TokenKind::Interface) }
    else if w == "impl"@ { Some(TokenKind::Impl) }
    else if w == "channel"@ { Some(TokenKind::Channel) }
    else if w == "for"@ { Some(TokenKind::For) }
    else if w == "in"@ { Some(TokenKind::In) }
    else if w == "type"@ { Some(TokenKind::Type) }
    else if w == "self"@ { Some(TokenKind::SelfToken) }
    else if w == "spawn"@ { Some(TokenKind::Spawn) }
    else if w == "true"@ { Some(TokenKind::True) }
    else if w == "false"@ { Some(TokenKind::False) }
    else { None }
}

/// The duration unit a suffix names, if any.
pub open spec fn duration_unit(w: Seq<char>) -> Option<DurationUnit> {
    if w == "s"@ { Some(DurationUnit::Seconds) }
    else if w == "ms"@ { Some(DurationUnit::Millis) }
    else if w == "us"@ { Some(DurationUnit::Micros) }
    else if w == "ns"@ { Some(DurationUnit::Nanos) }
    else if w == "m"@ { Some(DurationUnit::Minutes) }
    else if w == "h"@ { Some(DurationUnit::Hours) }
    else if w == "d"@ { Some(DurationUnit::Days) }
    else { None }
}

/// The symbols and the tokens they stand for, at any position `q` of any
/// text: each bracket and punctuation mark, `* + % ^ ? @` and `/` (when no
/// second `/` follows) are one-character tokens; `..`, `->`, `==`, `=>`,
/// `!=`, `||`, `|>`, `>=`, `<=`, `<-` and `::` are two-character tokens;
/// `.`, `-`, `=`, `!`, `|`, `>`, `<` and `:` stand alone when no such second
/// character follows.
pub proof fn lemma_symbol_table(s: Seq<char>, q: int)
    requires
        0 <= q < s.len(),
    ensures
        s[q] == '(' ==> symbol_at(s, q) == Some((TokenKind::LParen, q + 1)),
        s[q] == ')' ==> symbol_at(s, q) == Some((TokenKind::RParen, q + 1)),
        s[q] == '{' ==> symbol_at(s, q) == Some((TokenKind::LBrace, q + 1)),
        s[q] == '}' ==> symbol_at(s, q) == Some((TokenKind::RBrace, q + 1)),
        s[q] == '[' ==> symbol_at(s, q) == Some((TokenKind::LBracket, q + 1)),
        s[q] == ']' ==> symbol_at(s, q) == Some((TokenKind::RBracket, q + 1)),
        s[q] == ',' ==> symbol_at(s, q) == Some((TokenKind::Comma, q + 1)),
        s[q] == ';' ==> symbol_at(s, q) == Some((TokenKind::Semicolon, q + 1)),
        s[q] == '*' ==> symbol_at(s, q) == Some((TokenKind::Star, q + 1)),
        s[q] == '+' ==> symbol_at(s, q) == Some((TokenKind::Plus, q + 1)),
        s[q] == '%' ==> symbol_at(s, q) == Some((TokenKind::Percent, q + 1)),
        s[q] == '^' ==> symbol_at(s, q) == Some((TokenKind::Caret, q + 1)),
        s[q] == '?' ==> symbol_at(s, q) == Some((TokenKind::Question, q + 1)),
        s[q] == '@' ==> symbol_at(s, q) == Some((TokenKind::At, q + 1)),
        (s[q] == '/' && !(q + 1 < s.len() && s[q + 1] == '/')) ==> symbol_at(s, q) == Some((TokenKind::Slash, q + 1)),
        (s[q] == '.' && q + 1 < s.len() && s[q + 1] == '.') ==> symbol_at(s, q) == Some((TokenKind::Range, q + 2)),
        (s[q] == '-' && q + 1 < s.len() && s[q + 1] == '>') ==> symbol_at(s, q) == Some((TokenKind::Arrow, q + 2)),
        (s[q] == '=' && q + 1 < s.len() && s[q + 1] == '=') ==> symbol_at(s, q) == Some((TokenKind::EqEq, q + 2)),
        (s[q] == '=' && q + 1 < s.len() && s[q + 1] == '>') ==> symbol_at(s, q) == Some((TokenKind::Arrow, q + 2)),
        (s[q] == '!' && q + 1 < s.len() && s[q + 1] == '=') ==> symbol_at(s, q) == Some((TokenKind::NotEq, q + 2)),
        (s[q] == '|' && q + 1 < s.len() && s[q + 1] == '|') ==> symbol_at(s, q) == Some((TokenKind::Or, q + 2)),
        (s[q] == '|' && q + 1 < s.len() && s[q + 1] == '>') ==> symbol_at(s, q) == Some((TokenKind::Pipeline, q + 2)),
        (s[q] == '>' && q + 1 < s.len() && s[q + 1] == '=') ==> symbol_at(s, q) == Some((TokenKind::GtEq, q + 2)),
        (s[q] == '<' && q + 1 < s.len() && s[q + 1] == '=') ==> symbol_at(s, q) == Some((TokenKind::LtEq, q + 2)),
        (s[q] == '<' && q + 1 < s.len() && s[q + 1] == '-') ==> symbol_at(s, q) == Some((TokenKind::LArrow, q + 2)),
        (s[q] == ':' && q + 1 < s.len() && s[q + 1] == ':') ==> symbol_at(s, q) == Some((TokenKind::DoubleColon, q + 2)),
        (s[q] == '.' && !(q + 1 < s.len() && !(s[q + 1] != '.'))) ==> symbol_at(s, q) == Some((TokenKind::Dot, q + 1)),
        (s[q] == '-' && !(q + 1 < s.len() && !(s[q + 1] != '>'))) ==> symbol_at(s, q) == Some((TokenKind::Minus, q + 1)),
        (s[q] == '=' && !(q + 1 < s.len() && !(s[q + 1] != '=' && s[q + 1] != '>'))) ==> symbol_at(s, q) == Some((TokenKind::Eq, q + 1)),
        (s[q] == '!' && !(q + 1 < s.len() && !(s[q + 1] != '='))) ==> symbol_at(s, q) == Some((TokenKind::Bang, q + 1)),
        (s[q] == '|' && !(q + 1 < s.len() && !(s[q + 1] != '|' && s[q + 1] != '>'))) ==> symbol_at(s, q) == Some((TokenKind::Pipe, q + 1)),
        (s[q] == '>' && !(q + 1 < s.len() && !(s[q + 1] != '='))) ==> symbol_at(s, q) == Some((TokenKind::Gt, q + 1)),
        (s[q] == '<' && !(q + 1 < s.len() && !(s[q + 1] != '=' && s[q + 1] != '-'))) ==> symbol_at(s, q) == Some((TokenKind::Lt, q + 1)),
        (s[q] == ':' && !(q + 1 < s.len() && !(s[q + 1] != ':'))) ==> symbol_at(s, q) == Some((TokenKind::Colon, q + 1)),
{
}

/// The keywords and the tokens they spell: `fn`, `let`, `mut`, `struct`,
/// `enum`, `return`, `if`, `else`, `while`, `match`, `as`, `use`, `pub`,
/// `async`, `unsafe`, `extern`, `require`, `intent`, `invariant`, `inside`,
/// `interface`, `impl`, `channel`, `for`, `in`, `type`, `self`, `spawn`,
/// `true` and `false`, each its own token; no other word is a keyword.
pub proof fn lemma_keyword_table(w: Seq<char>)
    ensures
        keyword(seq!['f', 'n']) == Some(TokenKind::Fn),
        keyword(seq!['l', 'e', 't']) == Some(TokenKind::Let),
        keyword(seq!['m', 'u', 't']) == Some(TokenKind::Mut),
        keyword(seq!['s', 't', 'r', 'u', 'c', 't']) == Some(TokenKind::Struct),
        keyword(seq!['e', 'n', 'u', 'm']) == Some(TokenKind::Enum),
        keyword(seq!['r', 'e', 't', 'u', 'r', 'n']) == Some(TokenKind::Return),
        keyword(seq!['i', 'f']) == Some(TokenKind::If),
        keyword(seq!['e', 'l', 's', 'e']) == Some(TokenKind::Else),
        keyword(seq!['w', 'h', 'i', 'l', 'e']) == Some(TokenKind::While),
        keyword(seq!['m', 'a', 't', 'c', 'h']) == Some(TokenKind::Match),
        keyword(seq!['a', 's']) == Some(TokenKind::As),
        keyword(seq!['u', 's', 'e']) == Some(TokenKind::Use),
        keyword(seq!['p', 'u', 'b']) == Some(TokenKind::Pub),
        keyword(seq!['a', 's', 'y', 'n', 'c']) == Some(TokenKind::Async),
        keyword(seq!['u', 'n', 's', 'a', 'f', 'e']) == Some(TokenKind::Unsafe),
        keyword(seq!['e', 'x', 't', 'e', 'r', 'n']) == Some(TokenKind::Extern),
        keyword(seq!['r', 'e', 'q', 'u', 'i', 'r', 'e']) == Some(TokenKind::Require),
        keyword(seq!['i', 'n', 't', 'e', 'n', 't']) == Some(TokenKind::Intent),
        keyword(seq!['i', 'n', 'v', 'a', 'r', 'i', 'a', 'n', 't']) == Some(TokenKind::Invariant),
        keyword(seq!['i', 'n', 's', 'i', 'd', 'e']) == Some(TokenKind::Inside),
        keyword(seq!['i', 'n', 't', 'e', 'r', 'f', 'a', 'c', 'e']) == Some(TokenKind::Interface),
        keyword(seq!['i', 'm', 'p', 'l']) == Some(TokenKind::Impl),
        keyword(seq!['c', 'h', 'a', 'n', 'n', 'e', 'l']) == Some(TokenKind::Channel),
        keyword(seq!['f', 'o', 'r']) == Some(TokenKind::For),
        keyword(seq!['i', 'n']) == Some(TokenKind::In),
        keyword(seq!['t', 'y', 'p', 'e']) == Some(TokenKind::Type),
        keyword(seq!['s', 'e', 'l', 'f']) == Some(TokenKind::SelfToken),
        keyword(seq!['s', 'p', 'a', 'w', 'n']) == Some(TokenKind::Spawn),
        keyword(seq!['t', 'r', 'u', 'e']) == Some(TokenKind::True),
        keyword(seq!['f', 'a', 'l', 's', 'e']) == Some(TokenKind::False),
        keyword(w) is Some ==> (w == seq!['f', 'n'] || w == seq!['l', 'e', 't'] || w == seq!['m', 'u', 't'] || w == seq!['s', 't', 'r', 'u', 'c', 't'] || w == seq!['e', 'n', 'u', 'm'] || w == seq!['r', 'e', 't', 'u', 'r', 'n'] || w == seq!['i', 'f'] || w == seq!['e', 'l', 's', 'e'] || w == seq!['w', 'h', 'i', 'l', 'e'] || w == seq!['m', 'a', 't', 'c', 'h'] || w == seq!['a', 's'] || w == seq!['u', 's', 'e'] || w == seq!['p', 'u', 'b'] || w == seq!['a', 's', 'y', 'n', 'c'] || w == seq!['u', 'n', 's', 'a', 'f', 'e'] || w == seq!['e', 'x', 't', 'e', 'r', 'n'] || w == seq!['r', 'e', 'q', 'u', 'i', 'r', 'e'] || w == seq!['i', 'n', 't', 'e', 'n', 't'] || w == seq!['i', 'n', 'v', 'a', 'r', 'i', 'a', 'n', 't'] || w == seq!['i', 'n', 's', 'i', 'd', 'e'] || w == seq!['i', 'n', 't', 'e', 'r', 'f', 'a', 'c', 'e'] || w == seq!['i', 'm', 'p', 'l'] || w == seq!['c', 'h', 'a', 'n', 'n', 'e', 'l'] || w == seq!['f', 'o', 'r'] || w == seq!['i', 'n'] || w == seq!['t', 'y', 'p', 'e'] || w == seq!['s', 'e', 'l', 'f'] || w == seq!['s', 'p', 'a', 'w', 'n'] || w == seq!['t', 'r', 'u', 'e'] || w == seq!['f', 'a', 'l', 's', 'e']),
{
    reveal_strlit("as");
    assert("as"@ =~= seq!['a', 's']);
    reveal_strlit("async");
    assert("async"@ =~= seq!['a', 's', 'y', 'n', 'c']);
    reveal_strlit("channel");
    assert("channel"@ =~= seq!['c', 'h', 'a', 'n', 'n', 'e', 'l']);
    reveal_strlit("else");
    assert("else"@ =~= seq!['e', 'l', 's', 'e']);
    reveal_strlit("enum");
    assert("enum"@ =~= seq!['e', 'n', 'u', 'm']);
    reveal_strlit("extern");
    assert("extern"@ =~= seq!['e', 'x', 't', 'e', 'r', 'n']);
    reveal_strlit("false");
    assert("false"@ =~= seq!['f', 'a', 'l', 's', 'e']);
    reveal_strlit("fn");
    assert("fn"@ =~= seq!['f', 'n']);
    reveal_strlit("for");
    assert("for"@ =~= seq!['f', 'o', 'r']);
    reveal_strlit("if");
    assert("if"@ =~= seq!['i', 'f']);
    reveal_strlit("impl");
    assert("impl"@ =~= seq!['i', 'm', 'p', 'l']);
    reveal_strlit("in");
    assert("in"@ =~= seq!['i', 'n']);
    reveal_strlit("inside");
    assert("inside"@ =~= seq!['i', 'n', 's', 'i', 'd', 'e']);
    reveal_strlit("intent");
    assert("intent"@ =~= seq!['i', 'n', 't', 'e', 'n', 't']);
    reveal_strlit("interface");
    assert("interface"@ =~= seq!['i', 'n', 't', 'e', 'r', 'f', 'a', 'c', 'e']);
    reveal_strlit("invariant");
    assert("invariant"@ =~= seq!['i', 'n', 'v', 'a', 'r', 'i', 'a', 'n', 't']);
    reveal_strlit("let");
    assert("let"@ =~= seq!['l', 'e', 't']);
    reveal_strlit("match");
    assert("match"@ =~= seq!['m', 'a', 't', 'c', 'h']);
    reveal_strlit("mut");
    assert("mut"@ =~= seq!['m', 'u', 't']);
    reveal_strlit("pub");
    assert("pub"@ =~= seq!['p', 'u', 'b']);
    reveal_strlit("require");
    assert("require"@ =~= seq!['r', 'e', 'q', 'u', 'i', 'r', 'e']);
    reveal_strlit("return");
    assert("return"@ =~= seq!['r', 'e', 't', 'u', 'r', 'n']);
    reveal_strlit("self");
    assert("self"@ =~= seq!['s', 'e', 'l', 'f']);
    reveal_strlit("spawn");
    assert("spawn"@ =~= seq!['s', 'p', 'a', 'w', 'n']);
    reveal_strlit("struct");
    assert("struct"@ =~= seq!['s', 't', 'r', 'u', 'c', 't']);
    reveal_strlit("true");
    assert("true"@ =~= seq!['t', 'r', 'u', 'e']);
    reveal_strlit("type");
    assert("type"@ =~= seq!['t', 'y', 'p', 'e']);
    reveal_strlit("unsafe");
    assert("unsafe"@ =~= seq!['u', 'n', 's', 'a', 'f', 'e']);
    reveal_strlit("use");
    assert("use"@ =~= seq!['u', 's', 'e']);
    reveal_strlit("while");
    assert("while"@ =~= seq!['w', 'h', 'i', 'l', 'e']);
}

/// The duration suffixes and their units: `s` seconds, `ms` milliseconds,
/// `us` microseconds, `ns` nanoseconds, `m` minutes, `h` hours, `d` days;
/// no other word is a unit, and two different suffixes never name the same
/// unit.
pub proof fn lemma_duration_suffixes(w: Seq<char>, v: Seq<char>)
    ensures
        duration_unit(seq!['s']) == Some(DurationUnit::Seconds),
        duration_unit(seq!['m', 's']) == Some(DurationUnit::Millis),
        duration_unit(seq!['u', 's']) == Some(DurationUnit::Micros),
        duration_unit(seq!['n', 's']) == Some(DurationUnit::Nanos),
        duration_unit(seq!['m']) == Some(DurationUnit::Minutes),
        duration_unit(seq!['h']) == Some(DurationUnit::Hours),
        duration_unit(seq!['d']) == Some(DurationUnit::Days),
        duration_unit(w) is Some ==> (w == seq!['s'] || w == seq!['m', 's'] || w == seq!['u', 's']
            || w == seq!['n', 's'] || w == seq!['m'] || w == seq!['h'] || w == seq!['d']),
        duration_unit(w) is Some && duration_unit(w) == duration_unit(v) ==> w == v,
{
    reveal_strlit("s");
    reveal_strlit("ms");
    reveal_strlit("us");
    reveal_strlit("ns");
    reveal_strlit("m");
    reveal_strlit("h");
    reveal_strlit("d");
    assert("s"@ =~= seq!['s']);
    assert("ms"@ =~= seq!['m', 's']);
    assert("us"@ =~= seq!['u', 's']);
    assert("ns"@ =~= seq!['n', 's']);
    assert("m"@ =~= seq!['m']);
    assert("h"@ =~= seq!['h']);
    assert("d"@ =~= seq!['d']);
    assert(seq!['m', 's'] != seq!['s']) by {
        assert(seq!['m', 's'].len() != seq!['s'].len());
    }
    assert(seq!['u', 's'] != seq!['m', 's']) by {
        assert(seq!['u', 's'][0] != seq!['m', 's'][0]);
    }
    assert(seq!['n', 's'] != seq!['m', 's']) by {
        assert(seq!['n', 's'][0] != seq!['m', 's'][0]);
    }
    assert(seq!['n', 's'] != seq!['u', 's']) by {
        assert(seq!['n', 's'][0] != seq!['u', 's'][0]);
    }
    assert(seq!['m'] != seq!['s']) by {
        assert(seq!['m'][0] != seq!['s'][0]);
    }
    assert(seq!['h'] != seq!['s']) by {
        assert(seq!['h'][0] != seq!['s'][0]);
    }
    assert(seq!['h'] != seq!['m']) by {
        assert(seq!['h'][0] != seq!['m'][0]);
    }
    assert(seq!['d'] != seq!['s']) by {
        assert(seq!['d'][0] != seq!['s'][0]);
    }
    assert(seq!['d'] != seq!['m']) by {
        assert(seq!['d'][0] != seq!['m'][0]);
    }
    assert(seq!['d'] != seq!['h']) by {
        assert(seq!['d'][0] != seq!['h'][0]);
    }
}

/// Value of an ASCII decimal digit.
pub open spec fn digit_value(c: char) -> int {
    (c as int) - ('0' as int)
}

/// Whether every character is an ASCII digit.
pub open spec fn all_ascii_digits(s: Seq<char>) -> bool {
    forall|i: int| 0 <= i < s.len() ==> '0' <= #[trigger] s[i] <= '9'
}

/// Value of a string of ASCII digits.
pub open spec fn decimal_value(s: Seq<char>) -> int
    decreases s.len(),
{
    if s.len() == 0 { 0 } else { decimal_value(s.drop_last()) * 10 + digit_value(s.last()) }
}

/// Decimal notation reads back: the digits `nat_text` writes for `n` are
/// ASCII digits whose decimal value is `n`, and the first is `0` only for
/// zero itself.
pub proof fn lemma_decimal_round_trip(n: nat)
    ensures
        all_ascii_digits(crate::text::nat_text(n)),
        decimal_value(crate::text::nat_text(n)) == n,
        crate::text::nat_text(n)[0] == '0' <==> n == 0,
    decreases n,
{
    let t = crate::text::nat_text(n);
    let d = (n % 10) as nat;
    assert(digit_value(crate::text::digit_char(d)) == d && '0' <= crate::text::digit_char(d) <= '9') by {
        if d == 0 {} else if d == 1 {} else if d == 2 {} else if d == 3 {} else if d == 4 {}
        else if d == 5 {} else if d == 6 {} else if d == 7 {} else if d == 8 {} else {}
    }
    if n < 10 {
        assert(t.drop_last() =~= Seq::<char>::empty());
        assert(t.last() == crate::text::digit_char(d));
        assert(d == n);
        assert(decimal_value(t) == decimal_value(t.drop_last()) * 10 + digit_value(t.last()));
    } else {
        lemma_decimal_round_trip(n / 10);
        let h = crate::text::nat_text(n / 10);
        assert(t.drop_last() =~= h);
        assert(t.last() == crate::text::digit_char(d));
        assert(n == (n / 10) * 10 + d);
        assert(decimal_value(t) == decimal_value(t.drop_last()) * 10 + digit_value(t.last()));
        assert(t[0] == h[0]);
        assert forall|i: int| 0 <= i < t.len() implies '0' <= #[trigger] t[i] <= '9' by {
            if i < h.len() {
                assert(t[i] == h[i]);
            }
        }
    }
}

/// What `str::parse::<i64>` yields for a string of numeric characters:
/// its value when it is a non-empty run of ASCII digits that fits in an
/// `i64`, nothing otherwise.
pub open spec fn parse_i64_spec(s: Seq<char>) -> Option<i64> {
    if s.len() > 0 && all_ascii_digits(s) && decimal_value(s) <= i64::MAX {
        Some(decimal_value(s) as i64)
    } else {
        None
    }
}

/// Leap years of the Gregorian calendar.
pub open spec fn is_leap(y: int) -> bool {
    (y % 4 == 0 && y % 100 != 0) || y % 400 == 0
}

/// Days in year `y`.
pub open spec fn year_days(y: int) -> int {
    if is_leap(y) { 366 } else { 365 }
}

/// Days from 1970-01-01 to the first day of year `y` (0 before 1970).
pub open spec fn days_before_year(y: int) -> int
    decreases y - 1970,
{
    if y <= 1970 { 0 } else { days_before_year(y - 1) + year_days(y - 1) }
}

/// Days in month `m` (1-12) of a common year.
pub open spec fn month_days(m: int) -> int {
    if m == 2 { 28 } else if m == 4 || m == 6 || m == 9 || m == 11 { 30 } else { 31 }
}

/// Days from the first of year `y` to the first of month `m` (months 1..m-1).
pub open spec fn days_before_month(y: int, m: int) -> int
    decreases m,
{
    if m <= 1 {
        0
    } else {
        days_before_month(y, m - 1) + month_days(m - 1) + if m - 1 == 2 && is_leap(y) { 1int } else { 0int }
    }
}

/// Days from 1970-01-01 to the date `y-m-d`.
pub open spec fn date_days(y: int, m: int, d: int) -> int {
    days_before_year(y) + days_before_month(y, m) + d - 1
}

/// The calendar behind date literals: the months of a common year have 31,
/// 28, 31, 30, 31, 30, 31, 31, 30, 31, 30 and 31 days, and a year divisible
/// by 4 but not by 100, or divisible by 400, has one more day in February;
/// 1970-01-01 is day 0, the next day is one day later, the first of a month
/// follows the first of the month before by that month's length, and from
/// 1970 on a year is 365 days long, or 366 in such a year.
pub proof fn lemma_calendar(y: int, m: int, d: int)
    ensures
        month_days(1) == 31,
        month_days(2) == 28,
        month_days(3) == 31,
        month_days(4) == 30,
        month_days(5) == 31,
        month_days(6) == 30,
        month_days(7) == 31,
        month_days(8) == 31,
        month_days(9) == 30,
        month_days(10) == 31,
        month_days(11) == 30,
        month_days(12) == 31,
        date_days(1970, 1, 1) == 0,
        date_days(y, m, d + 1) == date_days(y, m, d) + 1,
        1 <= m <= 12 ==> date_days(y, m + 1, 1) == date_days(y, m, 1) + month_days(m)
            + (if m == 2 && ((y % 4 == 0 && y % 100 != 0) || y % 400 == 0) { 1int } else { 0int }),
        y >= 1970 ==> date_days(y + 1, 1, 1) == date_days(y, 1, 1)
            + (if (y % 4 == 0 && y % 100 != 0) || y % 400 == 0 { 366int } else { 365int }),
        days_before_month(y, 13)
            == (if (y % 4 == 0 && y % 100 != 0) || y % 400 == 0 { 366int } else { 365int }),
{
    reveal_with_fuel(days_before_month, 13);
}

/// A date can be converted: the month indexes the month table (at most 13,
/// as the conversion reads months `1..m`) and the seconds fit in an `i64`.
pub open spec fn date_convertible(y: int, m: int, d: int) -> bool {
    m <= 13 && date_days(y, m, d) * 86400 <= i64::MAX
}

/// Year, month and day of a date literal's body `YYYY-MM-DD` (a part that
/// is not a number counts as year 0, month 1, day 1), if it has three parts.
pub open spec fn date_fields(body: Seq<char>) -> Option<(int, int, int)> {
    let parts = split_on(body, '-');
    if parts.len() == 3 {
        let y: int = match parse_i64_spec(parts[0]) { Some(v) => v as int, None => 0 };
        let m: int = match parse_i64_spec(parts[1]) { Some(v) => v as int, None => 1 };
        let d: int = match parse_i64_spec(parts[2]) { Some(v) => v as int, None => 1 };
        Some((y, m, d))
    } else {
        None
    }
}

// ---------------------------------------------------------------------------
// Tokens
// ---------------------------------------------------------------------------

/// The single-character or two-character symbol token at `q`, if `s[q]` starts one.
pub open spec fn symbol_at(s: Seq<char>, q: int) -> Option<(TokenKind, int)> {
    let c = s[q];
    let nx = if q + 1 < s.len() { s[q + 1] } else { '\0' };
    if c == '(' { Some((TokenKind::LParen, q + 1)) }
    else if c == ')' { Some((TokenKind::RParen, q + 1)) }
    else if c == '{' { Some((TokenKind::LBrace, q + 1)) }
    else if c == '}' { Some((TokenKind::RBrace, q + 1)) }
    else if c == '[' { Some((TokenKind::LBracket, q + 1)) }
    else if c == ']' { Some((TokenKind::RBracket, q + 1)) }
    else if c == ',' { Some((TokenKind::Comma, q + 1)) }
    else if c == ';' { Some((TokenKind::Semicolon, q + 1)) }
    else if c == '*' { Some((TokenKind::Star, q + 1)) }
    else if c == '+' { Some((TokenKind::Plus, q + 1)) }
    else if c == '%' { Some((TokenKind::Percent, q + 1)) }
    else if c == '^' { Some((TokenKind::Caret, q + 1)) }
    else if c == '?' { Some((TokenKind::Question, q + 1)) }
    else if c == '@' { Some((TokenKind::At, q + 1)) }
    else if c == '/' && nx != '/' { Some((TokenKind::Slash, q + 1)) }
    else if c == '.' { if nx == '.' { Some((TokenKind::Range, q + 2)) } else { Some((TokenKind::Dot, q + 1)) } }
    else if c == '-' { if nx == '>' { Some((TokenKind::Arrow, q + 2)) } else { Some((TokenKind::Minus, q + 1)) } }
    else if c == '=' {
        if nx == '=' { Some((TokenKind::EqEq, q + 2)) }
        else if nx == '>' { Some((TokenKind::Arrow, q + 2)) }
        else { Some((TokenKind::Eq, q + 1)) }
    }
    else if c == '!' { if nx == '=' { Some((TokenKind::NotEq, q + 2)) } else { Some((TokenKind::Bang, q + 1)) } }
    else if c == '|' {
        if nx == '|' { Some((TokenKind::Or, q + 2)) }
        else if nx == '>' { Some((TokenKind::Pipeline, q + 2)) }
        else { Some((TokenKind::Pipe, q + 1)) }
    }
    else if c == '>' { if nx == '=' { Some((TokenKind::GtEq, q + 2)) } else { Some((TokenKind::Gt, q + 1)) } }
    else if c == '<' {
        if nx == '=' { Some((TokenKind::LtEq, q + 2)) }
        else if nx == '-' { Some((TokenKind::LArrow, q + 2)) }
        else { Some((TokenKind::Lt, q + 1)) }
    }
    else if c == ':' { if nx == ':' { Some((TokenKind::DoubleColon, q + 2)) } else { Some((TokenKind::Colon, q + 1)) } }
    else { None }
}

/// The body of a quoted literal whose text starts at `i`, and the position
/// after its closing quote (or the end of input when it is unterminated).
pub open spec fn quoted(s: Seq<char>, i: int) -> (Seq<char>, int) {
    let e = quote_at(s, i);
    (s.subrange(i, e), if e < s.len() { e + 1 } else { e })
}

/// Whether a date literal starts at `q`.
pub open spec fn date_starts(s: Seq<char>, q: int) -> bool {
    s[q] == 'D' && q + 1 < s.len() && is_numeric_char(s[q + 1])
}

/// The token at `q` (`q < s.len()`, no whitespace or comment there) and the
/// position after it.
pub open spec fn scan_spec(s: Seq<char>, q: int) -> (Lexeme, int) {
    let n = s.len();
    let c = s[q];
    let nx = if q + 1 < n { s[q + 1] } else { '\0' };
    if c == '/' && nx == '/' {
        let start = if q + 3 <= s.len() { q + 3 } else { s.len() as int };
        let e = line_end(s, start);
        (Lexeme::Doc(trim_ws(s.subrange(start, e))), e)
    } else if symbol_at(s, q) is Some {
        let (k, e) = symbol_at(s, q)->0;
        (Lexeme::Fixed(k), e)
    } else if c == '&' {
        if nx == '&' { (Lexeme::Fixed(TokenKind::And), q + 2) } else { (Lexeme::Illegal('&'), q + 1) }
    } else if c == '"' {
        let (body, e) = quoted(s, q + 1);
        (Lexeme::Str(body), e)
    } else if is_alphabetic_char(c) || c == '_' {
        if c == 'f' && nx == '"' {
            let (body, e) = quoted(s, q + 2);
            (Lexeme::FStr(body), e)
        } else if date_starts(s, q) {
            let e = date_end(s, q + 1);
            match date_fields(s.subrange(q + 1, e)) {
                Some((y, m, d)) => (Lexeme::Date((date_days(y, m, d) * 86400) as i64), e),
                None => (Lexeme::Illegal('D'), e),
            }
        } else {
            let e = ident_end(s, q + 1);
            let w = s.subrange(q, e);
            match keyword(w) {
                Some(k) => (Lexeme::Fixed(k), e),
                None => (Lexeme::Ident(w), e),
            }
        }
    } else if is_numeric_char(c) {
        let e1 = number_end(s, q + 1);
        let e2 = alpha_end(s, e1);
        let digits = s.subrange(q, e1);
        let suffix = s.subrange(e1, e2);
        if suffix.len() > 0 {
            match duration_unit(suffix) {
                Some(u) => (Lexeme::Duration(digits, u), e2),
                None => (Lexeme::Illegal('?'), e2),
            }
        } else if digits.contains('.') {
            (Lexeme::Float(digits), e1)
        } else {
            (Lexeme::Int(match parse_i64_spec(digits) { Some(v) => v, None => 0 }), e1)
        }
    } else {
        (Lexeme::Illegal(c), q + 1)
    }
}

/// The token found from position `p` on: its lexeme, where it starts and
/// where the lexer continues.
pub open spec fn lex_spec(s: Seq<char>, p: int) -> (Lexeme, int, int) {
    let q = trivia_end(s, p);
    if q >= s.len() {
        (Lexeme::Fixed(TokenKind::EOF), s.len() as int, s.len() as int)
    } else {
        let (l, e) = scan_spec(s, q);
        (l, q, e)
    }
}

/// The token from `p` on can be produced: it is not a date literal whose
/// conversion would fail.
pub open spec fn token_ok(s: Seq<char>, p: int) -> bool {
    let q = trivia_end(s, p);
    q < s.len() && date_starts(s, q) ==> match date_fields(s.subrange(q + 1, date_end(s, q + 1))) {
        Some((y, m, d)) => date_convertible(y, m, d),
        None => true,
    }
}

/// Every token from `p` to the end of `s` can be produced.
pub open spec fn lexable_from(s: Seq<char>, p: int) -> bool
    decreases s.len() - p,
{
    if p < 0 || p >= s.len() {
        true
    } else {
        let e = lex_spec(s, p).2;
        token_ok(s, p) && if p < e <= s.len() { lexable_from(s, e) } else { true }
    }
}


// ---------------------------------------------------------------------------
// Scanning, executable
// ---------------------------------------------------------------------------

fn ws_end_exec(s: &Vec<char>, i: usize) -> (e: usize)
    requires
        i <= s@.len(),
    ensures
        e == ws_end(s@, i as int),
{
    let mut j = i;
    while j < s.len() && char_is_whitespace(s[j])
        invariant
            i <= j <= s@.len(),
            ws_end(s@, i as int) == ws_end(s@, j as int),
        decreases s@.len() - j,
    {
        j = j + 1;
    }
    j
}

fn ident_end_exec(s: &Vec<char>, i: usize) -> (e: usize)
    requires
        i <= s@.len(),
    ensures
        e == ident_end(s@, i as int),
{
    let mut j = i;
    while j < s.len() && (char_is_alphanumeric(s[j]) || s[j] == '_')
        invariant
            i <= j <= s@.len(),
            ident_end(s@, i as int) == ident_end(s@, j as int),
        decreases s@.len() - j,
    {
        j = j + 1;
    }
    j
}

fn alpha_end_exec(s: &Vec<char>, i: usize) -> (e: usize)
    requires
        i <= s@.len(),
    ensures
        e == alpha_end(s@, i as int),
{
    let mut j = i;
    while j < s.len() && char_is_alphabetic(s[j])
        invariant
            i <= j <= s@.len(),
            alpha_end(s@, i as int) == alpha_end(s@, j as int),
        decreases s@.len() - j,
    {
        j = j + 1;
    }
    j
}

fn date_end_exec(s: &Vec<char>, i: usize) -> (e: usize)
    requires
        i <= s@.len(),
    ensures
        e == date_end(s@, i as int),
{
    let mut j = i;
    while j < s.len() && (char_is_numeric(s[j]) || s[j] == '-')
        invariant
            i <= j <= s@.len(),
            date_end(s@, i as int) == date_end(s@, j as int),
        decreases s@.len() - j,
    {
        j = j + 1;
    }
    j
}

fn quote_at_exec(s: &Vec<char>, i: usize) -> (e: usize)
    requires
        i <= s@.len(),
    ensures
        e == quote_at(s@, i as int),
{
    let mut j = i;
    while j < s.len() && s[j] != '"'
        invariant
            i <= j <= s@.len(),
            quote_at(s@, i as int) == quote_at(s@, j as int),
        decreases s@.len() - j,
    {
        j = j + 1;
    }
    j
}

fn line_end_exec(s: &Vec<char>, i: usize) -> (e: usize)
    requires
        i <= s@.len(),
    ensures
        e == line_end(s@, i as int),
{
    let mut j = i;
    while j < s.len() && s[j] != '\n'
        invariant
            i <= j <= s@.len(),
            line_end(s@, i as int) == line_end(s@, j as int),
        decreases s@.len() - j,
    {
        j = j + 1;
    }
    j
}

fn block_end_exec(s: &Vec<char>, i: usize) -> (e: usize)
    requires
        i <= s@.len(),
    ensures
        e == block_end(s@, i as int),
{
    let mut j = i;
    while j < s.len()
        invariant
            i <= j <= s@.len(),
            block_end(s@, i as int) == block_end(s@, j as int),
        decreases s@.len() - j,
    {
        if s[j] == '*' && j + 1 < s.len() && s[j + 1] == '/' {
            return j + 2;
        }
        j = j + 1;
    }
    j
}

fn number_end_exec(s: &Vec<char>, i: usize) -> (e: usize)
    requires
        i <= s@.len(),
    ensures
        e == number_end(s@, i as int),
{
    let mut j = i;
    while j < s.len()
        invariant
            i <= j <= s@.len(),
            number_end(s@, i as int) == number_end(s@, j as int),
        decreases s@.len() - j,
    {
        let c = s[j];
        if c == '.' {
            if j + 1 < s.len() && s[j + 1] == '.' {
                return j;
            }
        } else if !char_is_numeric(c) {
            return j;
        }
        j = j + 1;
    }
    j
}

fn keyword_exec(w: &Vec<char>) -> (r: Option<TokenKind>)
    ensures
        r == keyword(w@),
{
    if eq_lit(w, "fn") { Some(TokenKind::Fn) }
    else if eq_lit(w, "let") { Some(TokenKind::Let) }
    else if eq_lit(w, "mut") { Some(TokenKind::Mut) }
    else if eq_lit(w, "struct") { Some(TokenKind::Struct) }
    else if eq_lit(w, "enum") { Some(TokenKind::Enum) }
    else if eq_lit(w, "return") { Some(TokenKind::Return) }
    else if eq_lit(w, "if") { Some(TokenKind::If) }
    else if eq_lit(w, "else") { Some(TokenKind::Else) }
    else if eq_lit(w, "while") { Some(TokenKind::While) }
    else if eq_lit(w, "match") { Some(TokenKind::Match) }
    else if eq_lit(w, "as") { Some(TokenKind::As) }
    else if eq_lit(w, "use") { Some(TokenKind::Use) }
    else if eq_lit(w, "pub") { Some(TokenKind::Pub) }
    else if eq_lit(w, "async") { Some(TokenKind::Async) }
    else if eq_lit(w, "unsafe") { Some(TokenKind::Unsafe) }
    else if eq_lit(w, "extern") { Some(TokenKind::Extern) }
    else if eq_lit(w, "require") { Some(TokenKind::Require) }
    else if eq_lit(w, "intent") { Some(TokenKind::Intent) }
    else if eq_lit(w, "invariant") { Some(TokenKind::Invariant) }
    else if eq_lit(w, "inside") { Some(TokenKind::Inside) }
    else if eq_lit(w, "interface") { Some(TokenKind::Interface) }
    else if eq_lit(w, "impl") { Some(TokenKind::Impl) }
    else if eq_lit(w, "channel") { Some(TokenKind::Channel) }
    else if eq_lit(w, "for") { Some(TokenKind::For) }
    else if eq_lit(w, "in") { Some(TokenKind::In) }
    else if eq_lit(w, "type") { Some(TokenKind::Type) }
    else if eq_lit(w, "self") { Some(TokenKind::SelfToken) }
    else if eq_lit(w, "spawn") { Some(TokenKind::Spawn) }
    else if eq_lit(w, "true") { Some(TokenKind::True) }
    else if eq_lit(w, "false") { Some(TokenKind::False) }
    else { None }
}

fn duration_unit_exec(w: &Vec<char>) -> (r: Option<DurationUnit>)
    ensures
        r == duration_unit(w@),
{
    if eq_lit(w, "s") { Some(DurationUnit::Seconds) }
    else if eq_lit(w, "ms") { Some(DurationUnit::Millis) }
    else if eq_lit(w, "us") { Some(DurationUnit::Micros) }
    else if eq_lit(w, "ns") { Some(DurationUnit::Nanos) }
    else if eq_lit(w, "m") { Some(DurationUnit::Minutes) }
    else if eq_lit(w, "h") { Some(DurationUnit::Hours) }
    else if eq_lit(w, "d") { Some(DurationUnit::Days) }
    else { None }
}

pub(crate) proof fn lemma_decimal_value_grows(s: Seq<char>, k: int)
    requires
        0 <= k <= s.len(),
        all_ascii_digits(s),
    ensures
        0 <= decimal_value(s.take(k)) <= decimal_value(s),
    decreases s.len() - k,
{
    if k < s.len() {
        lemma_decimal_value_grows(s, k + 1);
        assert(s.take(k + 1).drop_last() =~= s.take(k));
        assert('0' <= s[k] <= '9');
    } else {
        assert(s.take(k) =~= s);
        lemma_decimal_value_nonneg(s);
    }
}

proof fn lemma_decimal_value_nonneg(s: Seq<char>)
    requires
        all_ascii_digits(s),
    ensures
        decimal_value(s) >= 0,
    decreases s.len(),
{
    if s.len() > 0 {
        assert(all_ascii_digits(s.drop_last()));
        lemma_decimal_value_nonneg(s.drop_last());
        assert('0' <= s.last() <= '9');
    }
}

/// The value of a string of numeric characters, as `str::parse::<i64>` reads it.
pub fn parse_i64_digits(s: &[char]) -> (r: Option<i64>)
    ensures
        r == parse_i64_spec(s@),
{
    if s.len() == 0 {
        return None;
    }
    let mut i: usize = 0;
    while i < s.len()
        invariant
            i <= s@.len(),
            forall|k: int| 0 <= k < i ==> '0' <= #[trigger] s@[k] <= '9',
        decreases s@.len() - i,
    {
        if s[i] < '0' || s[i] > '9' {
            return None;
        }
        i = i + 1;
    }
    assert(all_ascii_digits(s@));
    let mut v: i64 = 0;
    let mut i: usize = 0;
    while i < s.len()
        invariant
            i <= s@.len(),
            all_ascii_digits(s@),
            v as int == decimal_value(s@.take(i as int)),
        decreases s@.len() - i,
    {
        let d = (s[i] as u32 - '0' as u32) as i64;
        assert(s@.take(i + 1).drop_last() =~= s@.take(i as int));
        assert('0' <= s@[i as int] <= '9');
        proof {
            lemma_decimal_value_grows(s@, i + 1);
        }
        if v > (i64::MAX - d) / 10 {
            proof {
                assert(decimal_value(s@.take(i + 1)) == v * 10 + d);
            }
            return None;
        }
        v = v * 10 + d;
        i = i + 1;
    }
    assert(s@.take(s@.len() as int) =~= s@);
    Some(v)
}

proof fn lemma_days_before_year_mono(a: int, b: int)
    requires
        a <= b,
    ensures
        0 <= days_before_year(a) <= days_before_year(b),
    decreases b - a,
{
    if a < b {
        lemma_days_before_year_mono(a, b - 1);
        if b > 1970 {
            assert(days_before_year(b) == days_before_year(b - 1) + year_days(b - 1));
        }
    } else {
        lemma_days_before_year_nonneg(a);
    }
}

proof fn lemma_days_before_year_nonneg(a: int)
    ensures
        0 <= days_before_year(a),
    decreases a - 1970,
{
    if a > 1970 {
        lemma_days_before_year_nonneg(a - 1);
    }
}

proof fn lemma_days_before_month_mono(y: int, a: int, b: int)
    requires
        a <= b,
    ensures
        0 <= days_before_month(y, a) <= days_before_month(y, b),
    decreases b - a,
{
    if a < b {
        lemma_days_before_month_mono(y, a, b - 1);
    } else {
        lemma_days_before_month_nonneg(y, a);
    }
}

proof fn lemma_days_before_month_nonneg(y: int, a: int)
    ensures
        0 <= days_before_month(y, a),
    decreases a,
{
    if a > 1 {
        lemma_days_before_month_nonneg(y, a - 1);
    }
}

fn is_leap_exec(y: i64) -> (r: bool)
    requires
        y >= 0,
    ensures
        r == is_leap(y as int),
{
    (y % 4 == 0 && y % 100 != 0) || y % 400 == 0
}

/// Seconds from 1970-01-01 to the date `y-m-d`, counting whole days.
#[verifier::loop_isolation(false)]
fn date_seconds(y: i64, m: i64, d: i64) -> (r: i64)
    requires
        y >= 0,
        m >= 0,
        d >= 0,
        date_convertible(y as int, m as int, d as int),
    ensures
        r as int == date_days(y as int, m as int, d as int) * 86400,
{
    proof {
        lemma_days_before_month_nonneg(y as int, m as int);
        lemma_days_before_year_nonneg(y as int);
    }
    let mut total: i64 = 0;
    let mut year: i64 = 1970;
    while year < y
        invariant
            1970 <= year,
            year < y ==> year <= y,
            y >= 1970 ==> year <= y,
            total as int == days_before_year(year as int),
            y <= 1970 ==> year == 1970,
            date_convertible(y as int, m as int, d as int),
            0 <= days_before_month(y as int, m as int),
            d >= 0,
        decreases y - year,
    {
        proof {
            lemma_days_before_year_mono(year + 1, y as int);
        }
        let add: i64 = if is_leap_exec(year) { 366 } else { 365 };
        total = total + add;
        year = year + 1;
    }
    assert(total as int == days_before_year(y as int)) by {
        if y <= 1970 {
            assert(days_before_year(y as int) == 0);
            assert(days_before_year(year as int) == 0);
        }
    }
    let mut month: i64 = 1;
    let mut mdays: i64 = 0;
    while month < m
        invariant
            1 <= month,
            m >= 1 ==> month <= m,
            m <= 13,
            mdays as int == days_before_month(y as int, month as int),
            m <= 1 ==> month == 1,
            0 <= mdays,
            date_convertible(y as int, m as int, d as int),
            total as int == days_before_year(y as int),
            total >= 0,
            d >= 0,
        decreases m - month,
    {
        proof {
            lemma_days_before_month_mono(y as int, month + 1, m as int);
        }
        let md: i64 = if month == 2 { 28 } else if month == 4 || month == 6 || month == 9 || month == 11 { 30 } else { 31 };
        let extra: i64 = if month == 2 && is_leap_exec(y) { 1 } else { 0 };
        mdays = mdays + md + extra;
        month = month + 1;
    }
    assert(mdays as int == days_before_month(y as int, m as int)) by {
        if m <= 1 {
            assert(days_before_month(y as int, m as int) == 0);
            assert(days_before_month(y as int, month as int) == 0);
        }
    }
    let days = total + mdays + d - 1;
    days * 86400
}

fn scan_symbol(s: &Vec<char>, q: usize) -> (r: Option<(TokenKind, usize)>)
    requires
        q < s@.len(),
    ensures
        match r {
            Some((k, e)) => symbol_at(s@, q as int) == Some((k, e as int)),
            None => symbol_at(s@, q as int) is None,
        },
{
    let n = s.len();
    let c = s[q];
    let nx = if q + 1 < n { s[q + 1] } else { '\0' };
    if c == '(' { Some((TokenKind::LParen, q + 1)) }
    else if c == ')' { Some((TokenKind::RParen, q + 1)) }
    else if c == '{' { Some((TokenKind::LBrace, q + 1)) }
    else if c == '}' { Some((TokenKind::RBrace, q + 1)) }
    else if c == '[' { Some((TokenKind::LBracket, q + 1)) }
    else if c == ']' { Some((TokenKind::RBracket, q + 1)) }
    else if c == ',' { Some((TokenKind::Comma, q + 1)) }
    else if c == ';' { Some((TokenKind::Semicolon, q + 1)) }
    else if c == '*' { Some((TokenKind::Star, q + 1)) }
    else if c == '+' { Some((TokenKind::Plus, q + 1)) }
    else if c == '%' { Some((TokenKind::Percent, q + 1)) }
    else if c == '^' { Some((TokenKind::Caret, q + 1)) }
    else if c == '?' { Some((TokenKind::Question, q + 1)) }
    else if c == '@' { Some((TokenKind::At, q + 1)) }
    else if c == '/' && nx != '/' { Some((TokenKind::Slash, q + 1)) }
    else if c == '.' { if nx == '.' { Some((TokenKind::Range, q + 2)) } else { Some((TokenKind::Dot, q + 1)) } }
    else if c == '-' { if nx == '>' { Some((TokenKind::Arrow, q + 2)) } else { Some((TokenKind::Minus, q + 1)) } }
    else if c == '=' {
        if nx == '=' { Some((TokenKind::EqEq, q + 2)) }
        else if nx == '>' { Some((TokenKind::Arrow, q + 2)) }
        else { Some((TokenKind::Eq, q + 1)) }
    }
    else if c == '!' { if nx == '=' { Some((TokenKind::NotEq, q + 2)) } else { Some((TokenKind::Bang, q + 1)) } }
    else if c == '|' {
        if nx == '|' { Some((TokenKind::Or, q + 2)) }
        else if nx == '>' { Some((TokenKind::Pipeline, q + 2)) }
        else { Some((TokenKind::Pipe, q + 1)) }
    }
    else if c == '>' { if nx == '=' { Some((TokenKind::GtEq, q + 2)) } else { Some((TokenKind::Gt, q + 1)) } }
    else if c == '<' {
        if nx == '=' { Some((TokenKind::LtEq, q + 2)) }
        else if nx == '-' { Some((TokenKind::LArrow, q + 2)) }
        else { Some((TokenKind::Lt, q + 1)) }
    }
    else if c == ':' { if nx == ':' { Some((TokenKind::DoubleColon, q + 2)) } else { Some((TokenKind::Colon, q + 1)) } }
    else { None }
}

/// A quoted body starting at `i`: its text and the position after the closing quote.
fn scan_quoted(s: &Vec<char>, i: usize) -> (r: (String, usize))
    requires
        i <= s@.len(),
    ensures
        r.0@ == quoted(s@, i as int).0,
        r.1 == quoted(s@, i as int).1,
        i <= r.1 <= s@.len(),
{
    proof {
        lemma_run_ends(s@, i as int);
    }
    let e = quote_at_exec(s, i);
    let body = slice_chars(s, i, e);
    let end = if e < s.len() { e + 1 } else { e };
    (string_from_chars(&body), end)
}

/// The date literal whose body starts at `i`.
#[verifier::loop_isolation(false)]
fn scan_date(s: &Vec<char>, q: usize) -> (r: (TokenKind, usize))
    requires
        q < s@.len(),
        date_starts(s@, q as int),
        is_alphabetic_char(s@[q as int]),
        token_ok_at(s@, q as int),
    ensures
        r.0.denotes(scan_spec(s@, q as int).0),
        r.1 == scan_spec(s@, q as int).1,
{
    let n = s.len();
    proof {
        lemma_run_ends(s@, q + 1);
    }
    let e = date_end_exec(s, q + 1);
    let body = slice_chars(s, q + 1, e);
    let parts = crate::analysis::types::split_on_chars(&body, '-');
    if parts.len() == 3 {
        proof {
            crate::analysis::types::lemma_part_views(parts@);
        }
        let y: i64 = match parse_i64_digits(&parts[0]) { Some(v) => v, None => 0 };
        let m: i64 = match parse_i64_digits(&parts[1]) { Some(v) => v, None => 1 };
        let d: i64 = match parse_i64_digits(&parts[2]) { Some(v) => v, None => 1 };
        proof {
            lemma_parsed_nonneg(parts@[0]@);
            lemma_parsed_nonneg(parts@[1]@);
            lemma_parsed_nonneg(parts@[2]@);
        }
        let ts = date_seconds(y, m, d);
        return (TokenKind::DateLiteral(ts), e);
    }
    (TokenKind::Illegal('D'), e)
}

/// A word (identifier, keyword, f-string or date) starting at `q`.
fn scan_word(s: &Vec<char>, q: usize) -> (r: (TokenKind, usize))
    requires
        q < s@.len(),
        is_alphabetic_char(s@[q as int]) || s@[q as int] == '_',
        !(s@[q as int] == '/' && q + 1 < s@.len() && s@[q + 1] == '/'),
        symbol_at(s@, q as int) is None,
        s@[q as int] != '&',
        s@[q as int] != '"',
        token_ok_at(s@, q as int),
    ensures
        r.0.denotes(scan_spec(s@, q as int).0),
        r.1 == scan_spec(s@, q as int).1,
        q < r.1 <= s@.len(),
{
    proof {
        lemma_run_ends(s@, q + 1);
    }
    let n = s.len();
    let c = s[q];
    let nx = if q + 1 < n { s[q + 1] } else { '\0' };
    if c == 'f' && nx == '"' {
        let (body, end) = scan_quoted(s, q + 2);
        return (TokenKind::FString(body), end);
    }
    if c == 'D' && q + 1 < n && char_is_numeric(s[q + 1]) {
        let r = scan_date(s, q);
        proof {
            lemma_run_ends(s@, q + 1);
        }
        return r;
    }
    let e = ident_end_exec(s, q + 1);
    let w = slice_chars(s, q, e);
    match keyword_exec(&w) {
        Some(k) => (k, e),
        None => (TokenKind::Identifier(string_from_chars(&w)), e),
    }
}

/// A number (integer, float or duration) starting at `q`.
fn scan_number(s: &Vec<char>, q: usize) -> (r: (TokenKind, usize))
    requires
        q < s@.len(),
        is_numeric_char(s@[q as int]),
        !is_alphabetic_char(s@[q as int]),
        s@[q as int] != '_',
        !(s@[q as int] == '/' && q + 1 < s@.len() && s@[q + 1] == '/'),
        symbol_at(s@, q as int) is None,
        s@[q as int] != '&',
        s@[q as int] != '"',
    ensures
        r.0.denotes(scan_spec(s@, q as int).0),
        r.1 == scan_spec(s@, q as int).1,
        q < r.1 <= s@.len(),
{
    let n = s.len();
    proof {
        lemma_run_ends(s@, q + 1);
    }
    let e1 = number_end_exec(s, q + 1);
    proof {
        lemma_run_ends(s@, e1 as int);
    }
    let e2 = alpha_end_exec(s, e1);
    let digits = slice_chars(s, q, e1);
    let suffix = slice_chars(s, e1, e2);
    if suffix.len() > 0 {
        match duration_unit_exec(&suffix) {
            Some(u) => { return (TokenKind::DurationLiteral(string_from_chars(&digits), u), e2); },
            None => { return (TokenKind::Illegal('?'), e2); },
        }
    }
    let mut has_dot = false;
    let mut i: usize = 0;
    while i < digits.len()
        invariant
            i <= digits@.len(),
            has_dot == exists|k: int| 0 <= k < i && digits@[k] == '.',
        decreases digits@.len() - i,
    {
        if digits[i] == '.' {
            has_dot = true;
        }
        i = i + 1;
    }
    assert(has_dot == digits@.contains('.'));
    if has_dot {
        return (TokenKind::FloatLiteral(string_from_chars(&digits)), e1);
    }
    let v: i64 = match parse_i64_digits(&digits) { Some(v) => v, None => 0 };
    (TokenKind::IntLiteral(v), e1)
}

/// What the lexer found at one position: the token kind and where it ends.
fn scan_token(s: &Vec<char>, q: usize) -> (r: (TokenKind, usize))
    requires
        q < s@.len(),
        token_ok_at(s@, q as int),
    ensures
        r.0.denotes(scan_spec(s@, q as int).0),
        r.1 == scan_spec(s@, q as int).1,
        q < r.1 <= s@.len(),
{
    let n = s.len();
    let c = s[q];
    let nx = if q + 1 < n { s[q + 1] } else { '\0' };
    if c == '/' && nx == '/' {
        let start = if n - q >= 3 { q + 3 } else { n };
        proof {
            lemma_run_ends(s@, start as int);
        }
        let e = line_end_exec(s, start);
        let body = slice_chars(s, start, e);
        let text = trim_chars(&body);
        return (TokenKind::DocComment(string_from_chars(&text)), e);
    }
    if let Some((k, e)) = scan_symbol(s, q) {
        return (k, e);
    }
    if c == '&' {
        if nx == '&' {
            return (TokenKind::And, q + 2);
        }
        return (TokenKind::Illegal('&'), q + 1);
    }
    if c == '"' {
        let (body, end) = scan_quoted(s, q + 1);
        return (TokenKind::StringLiteral(body), end);
    }
    if char_is_alphabetic(c) || c == '_' {
        return scan_word(s, q);
    }
    if char_is_numeric(c) {
        return scan_number(s, q);
    }
    (TokenKind::Illegal(c), q + 1)
}

proof fn lemma_parsed_nonneg(s: Seq<char>)
    ensures
        parse_i64_spec(s) matches Some(v) ==> v >= 0,
{
    if s.len() > 0 && all_ascii_digits(s) {
        lemma_decimal_value_nonneg(s);
    }
}

/// The date literal at `q`, if one starts there, can be converted.
pub open spec fn token_ok_at(s: Seq<char>, q: int) -> bool {
    date_starts(s, q) ==> match date_fields(s.subrange(q + 1, date_end(s, q + 1))) {
        Some((y, m, d)) => date_convertible(y, m, d),
        None => true,
    }
}


// ---------------------------------------------------------------------------
// The lexer
// ---------------------------------------------------------------------------

/// A lexer over a source text: the characters, the position of the next
/// character to read and that position's line and column.
pub struct Lexer {
    input: Vec<char>,
    pos: usize,
    line: usize,
    col: usize,
}

impl Lexer {
    /// The source text.
    pub closed spec fn text(self) -> Seq<char> {
        self.input@
    }

    /// The position of the next character to read.
    pub closed spec fn position(self) -> int {
        self.pos as int
    }

    /// The position is within the text and its line and column are tracked.
    pub closed spec fn wf(self) -> bool {
        &&& self.pos <= self.input@.len()
        &&& self.input@.len() < usize::MAX
        &&& self.line == line_at(self.input@, self.pos as int)
        &&& self.col == col_at(self.input@, self.pos as int)
    }

    /// A lexer at the start of `input`.
    pub fn new(input: &str) -> (l: Lexer)
        requires
            input@.len() < usize::MAX,
        ensures
            l.wf(),
            l.text() == input@,
            l.position() == 0,
    {
        let chars = chars_of(input);
        Lexer { input: chars, pos: 0, line: 1, col: 1 }
    }

    /// Moves to position `e`, keeping line and column.
    fn advance_to(&mut self, e: usize)
        requires
            old(self).wf(),
            old(self).pos <= e <= old(self).input@.len(),
        ensures
            final(self).wf(),
            final(self).input@ == old(self).input@,
            final(self).pos == e,
    {
        while self.pos < e
            invariant
                self.wf(),
                self.input@ == old(self).input@,
                self.pos <= e <= self.input@.len(),
            decreases e - self.pos,
        {
            proof {
                lemma_pos_bounds(self.input@, self.pos + 1);
            }
            if self.input[self.pos] == '\n' {
                self.line = self.line + 1;
                self.col = 1;
            } else {
                self.col = self.col + 1;
            }
            self.pos = self.pos + 1;
        }
    }

    /// Skips whitespace and comments other than documentation comments.
    fn skip_trivia(&mut self)
        requires
            old(self).wf(),
        ensures
            final(self).wf(),
            final(self).input@ == old(self).input@,
            final(self).pos == trivia_end(old(self).input@, old(self).pos as int),
    {
        let ghost s = self.input@;
        loop
            invariant
                self.wf(),
                self.input@ == s,
                s == old(self).input@,
                trivia_end(s, old(self).pos as int) == trivia_end(s, self.pos as int),
            decreases s.len() - self.pos,
        {
            let n = self.input.len();
            proof {
                lemma_run_ends(s, self.pos as int);
            }
            let q = ws_end_exec(&self.input, self.pos);
            if q + 1 < n && self.input[q] == '/' && self.input[q + 1] == '/' && !(q + 2 < n && self.input[q + 2] == '/') {
                proof {
                    lemma_run_ends(s, q + 2);
                }
                let e = line_end_exec(&self.input, q + 2);
                self.advance_to(e);
            } else if q + 1 < n && self.input[q] == '/' && self.input[q + 1] == '*' {
                proof {
                    lemma_run_ends(s, q + 2);
                }
                let e = block_end_exec(&self.input, q + 2);
                self.advance_to(e);
            } else {
                self.advance_to(q);
                return;
            }
        }
    }

    /// The next token: the one starting after whitespace and comments, with
    /// the line and column of its first character (see [`lex_spec`]). At the
    /// end of input the token is `EOF`, again on every later call.
    pub fn next_token(&mut self) -> (t: Token)
        requires
            old(self).wf(),
            token_ok(old(self).text(), old(self).position()),
        ensures
            final(self).wf(),
            final(self).text() == old(self).text(),
            ({
                let (l, q, e) = lex_spec(old(self).text(), old(self).position());
                &&& t.kind.denotes(l)
                &&& t.line == line_at(old(self).text(), q)
                &&& t.col == col_at(old(self).text(), q)
                &&& final(self).position() == e
            }),
    {
        self.skip_trivia();
        let line = self.line;
        let col = self.col;
        if self.pos >= self.input.len() {
            return Token::new(TokenKind::EOF, line, col);
        }
        let (kind, e) = scan_token(&self.input, self.pos);
        self.advance_to(e);
        Token::new(kind, line, col)
    }

    /// Whether every remaining token can be produced (see [`lexable_from`]).
    pub fn is_lexable(&self) -> (b: bool)
        requires
            self.wf(),
        ensures
            b == lexable_from(self.text(), self.position()),
    {
        let mut probe = Lexer { input: self.input.clone(), pos: self.pos, line: self.line, col: self.col };
        let ghost s = self.input@;
        while probe.pos < probe.input.len()
            invariant
                probe.wf(),
                probe.input@ == s,
                s == self.input@,
                lexable_from(s, self.pos as int) == lexable_from(s, probe.pos as int),
            decreases s.len() - probe.pos,
        {
            let p = probe.pos;
            if !token_ok_exec(&probe) {
                assert(!token_ok(s, p as int));
                assert(!lexable_from(s, p as int));
                return false;
            }
            let _ = probe.next_token();
            proof {
                lemma_trivia_end(s, p as int);
                lemma_lex_progress(s, p as int);
            }
            if probe.pos == p {
                return true;
            }
        }
        true
    }
}

/// Each token takes at least one character and ends within the input.
pub proof fn lemma_lex_progress(s: Seq<char>, p: int)
    requires
        0 <= p < s.len(),
    ensures
        p < lex_spec(s, p).2 <= s.len(),
{
    lemma_trivia_end(s, p);
    let q = trivia_end(s, p);
    if q < s.len() {
        lemma_scan_progress(s, q);
    }
}

/// A scanned token takes at least one character and ends within the input.
pub proof fn lemma_scan_progress(s: Seq<char>, q: int)
    requires
        0 <= q < s.len(),
    ensures
        q < scan_spec(s, q).1 <= s.len(),
{
    lemma_run_ends(s, q + 1);
    if q + 2 <= s.len() {
        lemma_run_ends(s, q + 2);
    }
    if q + 3 <= s.len() {
        lemma_run_ends(s, q + 3);
    }
    lemma_run_ends(s, s.len() as int);
    lemma_run_ends(s, number_end(s, q + 1));
}

/// Whether the token from the lexer's position on can be produced.
fn token_ok_exec(l: &Lexer) -> (b: bool)
    requires
        l.wf(),
    ensures
        b == token_ok(l.text(), l.position()),
{
    let mut probe = Lexer { input: l.input.clone(), pos: l.pos, line: l.line, col: l.col };
    probe.skip_trivia();
    let q = probe.pos;
    let s = &probe.input;
    let n = s.len();
    if !(q < n && s[q] == 'D' && q + 1 < n && char_is_numeric(s[q + 1])) {
        return true;
    }
    proof {
        lemma_run_ends(s@, q + 1);
    }
    let e = date_end_exec(s, q + 1);
    let body = slice_chars(s, q + 1, e);
    let parts = crate::analysis::types::split_on_chars(&body, '-');
    if parts.len() != 3 {
        return true;
    }
    proof {
        crate::analysis::types::lemma_part_views(parts@);
    }
    let y: i64 = match parse_i64_digits(&parts[0]) { Some(v) => v, None => 0 };
    let m: i64 = match parse_i64_digits(&parts[1]) { Some(v) => v, None => 1 };
    let d: i64 = match parse_i64_digits(&parts[2]) { Some(v) => v, None => 1 };
    proof {
        lemma_parsed_nonneg(parts@[0]@);
        lemma_parsed_nonneg(parts@[1]@);
        lemma_parsed_nonneg(parts@[2]@);
    }
    date_convertible_exec(y, m, d)
}

/// Whether converting the date `y-m-d` to seconds succeeds without overflow.
#[verifier::loop_isolation(false)]
fn date_convertible_exec(y: i64, m: i64, d: i64) -> (b: bool)
    requires
        y >= 0,
        m >= 0,
        d >= 0,
    ensures
        b == date_convertible(y as int, m as int, d as int),
{
    if m > 13 {
        return false;
    }
    proof {
        lemma_days_before_month_nonneg(y as int, m as int);
        lemma_days_before_year_nonneg(y as int);
    }
    let limit: i64 = i64::MAX / 86400;
    let mut total: i64 = 0;
    let mut year: i64 = 1970;
    while year < y
        invariant
            1970 <= year,
            y >= 1970 ==> year <= y,
            y <= 1970 ==> year == 1970,
            total as int == days_before_year(year as int),
            0 <= total <= limit + 1,
            limit == i64::MAX / 86400,
        decreases y - year,
    {
        let add: i64 = if is_leap_exec(year) { 366 } else { 365 };
        total = total + add;
        year = year + 1;
        if total > limit + 1 {
            proof {
                lemma_days_before_year_mono(year as int, y as int);
                lemma_days_before_month_nonneg(y as int, m as int);
            }
            return false;
        }
    }
    assert(total as int == days_before_year(y as int)) by {
        if y <= 1970 {
            assert(days_before_year(y as int) == 0);
            assert(days_before_year(year as int) == 0);
        }
    }
    let mut month: i64 = 1;
    let mut mdays: i64 = 0;
    while month < m
        invariant
            1 <= month,
            m >= 1 ==> month <= m,
            m <= 1 ==> month == 1,
            mdays as int == days_before_month(y as int, month as int),
            0 <= mdays <= 400,
        decreases m - month,
    {
        proof {
            lemma_days_before_month_small(y as int, month + 1);
        }
        let md: i64 = if month == 2 { 28 } else if month == 4 || month == 6 || month == 9 || month == 11 { 30 } else { 31 };
        let extra: i64 = if month == 2 && is_leap_exec(y) { 1 } else { 0 };
        mdays = mdays + md + extra;
        month = month + 1;
    }
    assert(mdays as int == days_before_month(y as int, m as int)) by {
        if m <= 1 {
            assert(days_before_month(y as int, m as int) == 0);
            assert(days_before_month(y as int, month as int) == 0);
        }
    }
    // days = total + mdays + d - 1 must satisfy days * 86400 <= i64::MAX
    let days_room: i64 = limit - total - mdays;
    let ok = d - 1 <= days_room;
    proof {
        let days = date_days(y as int, m as int, d as int);
        assert(days == total + mdays + d - 1);
        assert(days * 86400 <= i64::MAX <==> days <= i64::MAX / 86400) by (nonlinear_arith);
    }
    ok
}

proof fn lemma_days_before_month_small(y: int, m: int)
    ensures
        0 <= days_before_month(y, m),
        m >= 1 ==> days_before_month(y, m) <= 31 * (m - 1) + 1,
    decreases m,
{
    if m > 1 {
        lemma_days_before_month_small(y, m - 1);
    }
}


// ---------------------------------------------------------------------------
// Token streams
// ---------------------------------------------------------------------------

/// A token as the lexer describes it: lexeme, line and column.
pub type TokenSpec = (Lexeme, int, int);

/// The tokens from position `p` to the end of input, `EOF` excluded.
pub open spec fn token_stream(s: Seq<char>, p: int) -> Seq<TokenSpec>
    decreases s.len() - p,
{
    if p < 0 || p > s.len() {
        Seq::empty()
    } else {
        let (l, q, e) = lex_spec(s, p);
        if q >= s.len() {
            Seq::empty()
        } else if p < e <= s.len() {
            seq![(l, line_at(s, q), col_at(s, q))] + token_stream(s, e)
        } else {
            Seq::empty()
        }
    }
}

/// Whether `t` is the token `e` describes.
pub open spec fn token_is(t: Token, e: TokenSpec) -> bool {
    t.kind.denotes(e.0) && t.line == e.1 && t.col == e.2
}

/// Once the lexer has given `EOF` it stays at the end: lexing again from
/// where it went on gives `EOF` at the same place, and goes nowhere.
pub proof fn lemma_eof_is_sticky(s: Seq<char>, p: int)
    requires
        0 <= p <= s.len(),
        lex_spec(s, p).0 == Lexeme::Fixed(TokenKind::EOF),
    ensures
        lex_spec(s, lex_spec(s, p).2) == lex_spec(s, p),
        lex_spec(s, p).2 == s.len(),
{
    let q = trivia_end(s, p);
    if q < s.len() {
        lemma_trivia_end(s, p);
        lemma_scan_not_eof(s, q);
    }
    assert(trivia_end(s, s.len() as int) == s.len());
}

/// A scanned lexeme is never `EOF`.
pub proof fn lemma_scan_not_eof(s: Seq<char>, q: int)
    requires
        0 <= q < s.len(),
    ensures
        !(scan_spec(s, q).0 matches Lexeme::Fixed(k) && k is EOF),
{
}

impl Lexer {
    /// All tokens from the current position on, ending with the `EOF` token
    /// (positioned at the end of input).
    pub fn tokenize(self) -> (r: Vec<Token>)
        requires
            self.wf(),
            lexable_from(self.text(), self.position()),
        ensures
            r@.len() == token_stream(self.text(), self.position()).len() + 1,
            forall|i: int| 0 <= i < r@.len() - 1 ==> #[trigger] token_is(r@[i], token_stream(self.text(), self.position())[i]),
            forall|i: int| 0 <= i < r@.len() - 1 ==> !(#[trigger] r@[i].kind is EOF),
            r@.last().kind is EOF,
            r@.last().line == line_at(self.text(), self.text().len() as int),
            r@.last().col == col_at(self.text(), self.text().len() as int),
    {
        let ghost s = self.text();
        let ghost p0 = self.position();
        let mut lx = self;
        let mut out: Vec<Token> = Vec::new();
        let ghost mut consumed: Seq<TokenSpec> = Seq::empty();
        loop
            invariant
                lx.wf(),
                lx.text() == s,
                s == self.text(),
                p0 == self.position(),
                lexable_from(s, lx.position()),
                0 <= p0 <= lx.position() <= s.len(),
                token_stream(s, p0) == consumed + token_stream(s, lx.position()),
                out@.len() == consumed.len(),
                forall|i: int| 0 <= i < out@.len() ==> #[trigger] token_is(out@[i], consumed[i]),
                forall|i: int| 0 <= i < out@.len() ==> !(#[trigger] out@[i].kind is EOF),
            decreases s.len() - lx.position(),
        {
            let ghost p = lx.position();
            proof {
                lemma_trivia_end(s, p);
                if p < s.len() {
                    lemma_lex_progress(s, p);
                }
            }
            let t = lx.next_token();
            let is_eof = matches!(t.kind, TokenKind::EOF);
            if is_eof {
                proof {
                    let q = trivia_end(s, p);
                    if q < s.len() {
                        lemma_scan_not_eof(s, q);
                    }
                    assert(q >= s.len());
                    assert(token_stream(s, p) =~= Seq::<TokenSpec>::empty());
                    assert(token_stream(s, p0) =~= consumed);
                }
                let ghost before = out@;
                out.push(t);
                assert forall|i: int| 0 <= i < out@.len() - 1 implies #[trigger] token_is(out@[i], token_stream(s, p0)[i]) by {
                    assert(out@[i] == before[i]);
                }
                assert forall|i: int| 0 <= i < out@.len() - 1 implies !(#[trigger] out@[i].kind is EOF) by {
                    assert(out@[i] == before[i]);
                }
                return out;
            }
            let ghost q = trivia_end(s, p);
            let ghost e = lex_spec(s, p).2;
            let ghost item: TokenSpec = (lex_spec(s, p).0, line_at(s, q), col_at(s, q));
            proof {
                assert(q < s.len());
                assert(token_stream(s, p) == seq![item] + token_stream(s, e));
            }
            let ghost before = out@;
            out.push(t);
            proof {
                consumed = consumed.push(item);
                assert(token_stream(s, p0) =~= consumed + token_stream(s, lx.position()));
                assert forall|i: int| 0 <= i < out@.len() implies #[trigger] token_is(out@[i], consumed[i]) by {
                    if i < before.len() {
                        assert(out@[i] == before[i]);
                    }
                }
                assert forall|i: int| 0 <= i < out@.len() implies !(#[trigger] out@[i].kind is EOF) by {
                    if i < before.len() {
                        assert(out@[i] == before[i]);
                    }
                }
            }
        }
    }
}

} // verus!
