//! The parser: tokens to the syntax tree.
//!
//! The parser reads the whole token stream of a source text up front and
//! walks it by index. It never stops at a syntax error: unexpected tokens
//! are skipped and reported in [`Parser::errors`].

use vstd::prelude::*;
use crate::ast::{
    Declaration, Enum, EnumVariant, Expression, Function, ImplBlock, Import, Interface, MatchArm,
    Program, Span, Statement, Struct,
};
use crate::lexer::{lexable_from, token_is, token_stream, Lexer};
use crate::text::{
    char_is_alphanumeric, char_is_lowercase, chars_of, i64_text, push_slice, push_str_chars,
    string_from_chars, string_views, usize_text,
};
use crate::token::{token_kind_eq, Token, TokenKind};
use crate::grammar::{
    neg_i64, fields_lit_reading, fields_match, struct_body_ahead, path_at, program_items, is_module_word, import_paths,
    angle_scan, args_reading, block_reading, decl_matches, decl_reading, decls_match, expr_matches, exprs_match,
    fields_reading, fn_matches, fn_reading, generic_ahead, infix_reading, lemma_args_unique, lemma_fn_unique,
    lemma_primary_unique, lemma_program_fuel, lemma_reading_unique, lemma_stmt_unique, lemma_stmts_unique, lit_of,
    name_reading, operand_chain, pipe_shape, pair_views, param_views, params_reading, peek_spec, postfix_reading, precedence_of,
    primary_reading, simple_type, skip_semicolon, arm_matches, arm_reading, arms_match, arms_reading,
    lemma_arms_end, lemma_arms_unique, arrow_pattern, pattern_path, pattern_reading, skip_comma, span_of, stmt_matches, stmt_reading, stmts_match,
    stmts_reading, struct_reading, enum_reading, types_reading, variant_views, variants_reading, DeclShape,
    ExprShape,
};

verus! {

/// A parser over the token stream of one source text.
pub struct Parser {
    tokens: Vec<Token>,
    idx: usize,
    errors: Vec<String>,
}

/// `message` followed by the position of `t`, as syntax errors are reported.
pub open spec fn positioned(message: Seq<char>, t: Token) -> Seq<char> {
    message + " at line "@ + crate::text::nat_text(t.line as nat) + ", col "@ + crate::text::nat_text(t.col as nat)
}

/// The syntax errors the parser reports.
pub open spec fn known_error(m: Seq<char>) -> bool {
    ||| m == "Syntax Error: Unexpected :: at top level"@
    ||| m == "Syntax Error: Unexpected token in declaration"@
    ||| m == "Syntax Error: Expected '{' after impl target"@
}

/// `s` is a syntax error message: a known error at some position.
pub open spec fn is_syntax_error(s: Seq<char>) -> bool {
    exists|m: Seq<char>, t: Token| known_error(m) && s == #[trigger] positioned(m, t)
}

/// `new` holds the errors of `old` and after them only syntax error messages.
pub open spec fn errors_grew(new: Seq<String>, old: Seq<String>) -> bool {
    &&& old.len() <= new.len()
    &&& new.subrange(0, old.len() as int) =~= old
    &&& forall|i: int| old.len() <= i < new.len() ==> is_syntax_error(#[trigger] new[i]@)
}

proof fn lemma_errors_grew_trans(a: Seq<String>, b: Seq<String>, c: Seq<String>)
    requires
        errors_grew(a, b),
        errors_grew(b, c),
    ensures
        errors_grew(a, c),
{
    assert forall|i: int| c.len() <= i < a.len() implies is_syntax_error(#[trigger] a[i]@) by {
        if i < b.len() {
            assert(a[i] == a.subrange(0, b.len() as int)[i]);
        }
    }
    assert(a.subrange(0, c.len() as int) =~= a.subrange(0, b.len() as int).subrange(0, c.len() as int));
}

proof fn lemma_errors_grew_refl(a: Seq<String>)
    ensures
        errors_grew(a, a),
{
    assert(a.subrange(0, a.len() as int) =~= a);
}

proof fn lemma_errors_push(new: Seq<String>, old: Seq<String>, m: Seq<char>, t: Token)
    requires
        new.len() == old.len() + 1,
        new.drop_last() == old,
        known_error(m),
        new.last()@ == positioned(m, t),
    ensures
        errors_grew(new, old),
{
    assert(new.subrange(0, old.len() as int) =~= new.drop_last());
    assert(is_syntax_error(new.last()@));
}

/// The parser state `new` follows `old`: same tokens, no earlier position.
pub open spec fn advanced(new: Parser, old: Parser) -> bool {
    &&& new.wf()
    &&& new.stream() == old.stream()
    &&& new.rem() <= old.rem()
}

/// Like [`advanced`], and at least one token was consumed unless `old` was at the end.
pub open spec fn consumed(new: Parser, old: Parser) -> bool {
    &&& advanced(new, old)
    &&& (old.rem() > 0 ==> new.rem() < old.rem())
}

/// The name an identifier token carries.
pub open spec fn ident_of(t: Token) -> Option<Seq<char>> {
    match t.kind {
        TokenKind::Identifier(s) => Some(s@),
        _ => None,
    }
}

/// The continuation of a dotted path from `j`: the names of the `.name`
/// pairs there, and the position after them (after a `.` not followed by a
/// name, the position after the `.`).
pub open spec fn path_rest(toks: Seq<Token>, j: int) -> (Seq<Seq<char>>, int)
    decreases toks.len() - j,
{
    if 0 <= j && j + 1 < toks.len() && toks[j].kind is Dot {
        match ident_of(toks[j + 1]) {
            Some(s) => {
                let (r, e) = path_rest(toks, j + 2);
                (seq![s] + r, e)
            },
            None => (Seq::empty(), j + 1),
        }
    } else {
        (Seq::empty(), j)
    }
}

/// The generic parameter names of a declaration from `j` (just after its
/// `<`), and the position after the list: names separated by optional
/// commas, up to and including `>`; a token that is neither ends the list
/// where it stands.
pub open spec fn gparams_rest(toks: Seq<Token>, j: int) -> (Seq<Seq<char>>, int)
    decreases toks.len() - j,
{
    if !(0 <= j < toks.len() - 1) {
        (Seq::empty(), j)
    } else if toks[j].kind is Gt {
        (Seq::empty(), j + 1)
    } else {
        match ident_of(toks[j]) {
            Some(s) => {
                let k = if toks[j + 1].kind is Comma && j + 2 < toks.len() { j + 2 } else { j + 1 };
                let (r, e) = gparams_rest(toks, k);
                (seq![s] + r, e)
            },
            None => if toks[j].kind is Comma {
                gparams_rest(toks, j + 1)
            } else {
                (Seq::empty(), j)
            },
        }
    }
}

/// The generic argument names after a name from `j` (just after its `<`),
/// and the position after the list: every token up to `>` is read, names
/// are kept, a comma after each token is skipped; `>` is consumed.
pub open spec fn gargs_rest(toks: Seq<Token>, j: int) -> (Seq<Seq<char>>, int)
    decreases toks.len() - j,
{
    if !(0 <= j < toks.len() - 1) {
        (Seq::empty(), j)
    } else if toks[j].kind is Gt {
        (Seq::empty(), j + 1)
    } else {
        let names: Seq<Seq<char>> = match ident_of(toks[j]) {
            Some(s) => seq![s],
            None => Seq::empty(),
        };
        let k = if toks[j + 1].kind is Comma && j + 2 < toks.len() { j + 2 } else { j + 1 };
        let (r, e) = gargs_rest(toks, k);
        (names + r, e)
    }
}

impl Parser {
    /// The tokens, ending with the only `EOF` token, and a position among them.
    pub closed spec fn wf(self) -> bool {
        &&& self.tokens@.len() >= 1
        &&& self.idx < self.tokens@.len()
        &&& self.tokens@.last().kind is EOF
        &&& forall|i: int| 0 <= i < self.tokens@.len() - 1 ==> !(#[trigger] self.tokens@[i].kind is EOF)
    }

    /// The token stream.
    pub closed spec fn stream(self) -> Seq<Token> {
        self.tokens@
    }

    /// How many tokens before `EOF` are left, the current one included.
    pub closed spec fn rem(self) -> nat {
        (self.tokens@.len() - 1 - self.idx) as nat
    }

    /// The current token.
    pub closed spec fn cur(self) -> Token {
        self.tokens@[self.idx as int]
    }

    /// The index of the current token in the stream.
    pub closed spec fn pos(self) -> int {
        self.idx as int
    }

    /// The syntax errors reported so far.
    pub closed spec fn error_log(self) -> Seq<String> {
        self.errors@
    }

    proof fn lemma_eof(self)
        requires
            self.wf(),
        ensures
            (self.cur().kind is EOF) <==> self.rem() == 0,
    {
    }

    /// A parser over the tokens of `lexer`'s text from its position on.
    pub fn new(lexer: Lexer) -> (p: Parser)
        requires
            lexer.wf(),
            lexable_from(lexer.text(), lexer.position()),
        ensures
            p.wf(),
            p.pos() == 0,
            p.rem() == token_stream(lexer.text(), lexer.position()).len(),
            forall|i: int| 0 <= i < p.rem() ==> #[trigger] token_is(p.stream()[i], token_stream(lexer.text(), lexer.position())[i]),
            p.error_log().len() == 0,
    {
        let tokens = lexer.tokenize();
        Parser { tokens, idx: 0, errors: Vec::new() }
    }

    /// The syntax errors reported while parsing, in order.
    pub fn errors(&self) -> (r: &Vec<String>)
        ensures
            r@ == self.error_log(),
    {
        &self.errors
    }

    fn next_token(&mut self)
        requires
            old(self).wf(),
        ensures
            consumed(*final(self), *old(self)),
            final(self).errors@ == old(self).errors@,
            old(self).rem() > 0 ==> final(self).rem() == old(self).rem() - 1,
    {
        if self.idx < self.tokens.len() - 1 {
            self.idx = self.idx + 1;
        }
    }

    fn cur_is(&self, k: TokenKind) -> (b: bool)
        requires
            self.wf(),
        ensures
            b == token_kind_eq(self.cur().kind, k),
    {
        self.tokens[self.idx].kind == k
    }

    fn at_eof(&self) -> (b: bool)
        requires
            self.wf(),
        ensures
            b == (self.rem() == 0),
    {
        self.idx >= self.tokens.len() - 1
    }

    fn current(&self) -> (t: &Token)
        requires
            self.wf(),
        ensures
            *t == self.cur(),
    {
        &self.tokens[self.idx]
    }

    fn cur_ident(&self) -> (r: Option<String>)
        requires
            self.wf(),
        ensures
            match r {
                Some(s) => self.cur().kind == TokenKind::Identifier(s),
                None => !(self.cur().kind is Identifier),
            },
    {
        match &self.tokens[self.idx].kind {
            TokenKind::Identifier(s) => Some(s.clone()),
            _ => None,
        }
    }

    /// The token `n + 1` places after the current one (`EOF` past the end).
    fn peek_at(&self, n: usize) -> (t: Token)
        requires
            self.wf(),
        ensures
            t == peek_spec(self.stream(), self.pos(), n as int),
    {
        let last = self.tokens.len() - 1;
        let i = if n < last - self.idx { self.idx + 1 + n } else { last };
        self.tokens[i].duplicate()
    }

    /// `message` with the current token's position appended.
    fn error_text(&self, message: &str) -> (r: String)
        requires
            self.wf(),
        ensures
            r@ == message@ + " at line "@ + crate::text::nat_text(self.cur().line as nat)
                + ", col "@ + crate::text::nat_text(self.cur().col as nat),
    {
        let mut v: Vec<char> = Vec::new();
        push_str_chars(&mut v, message);
        push_str_chars(&mut v, " at line ");
        let l = usize_text(self.tokens[self.idx].line);
        push_slice(&mut v, &l);
        push_str_chars(&mut v, ", col ");
        let c = usize_text(self.tokens[self.idx].col);
        push_slice(&mut v, &c);
        string_from_chars(&v)
    }

    fn report(&mut self, message: &str)
        requires
            old(self).wf(),
        ensures
            final(self).wf(),
            final(self).tokens@ == old(self).tokens@,
            final(self).idx == old(self).idx,
            final(self).errors@.len() == old(self).errors@.len() + 1,
            final(self).errors@.drop_last() == old(self).errors@,
            final(self).errors@.last()@ == positioned(message@, old(self).cur()),
    {
        let e = self.error_text(message);
        self.errors.push(e);
    }

    fn span_here(&self) -> (s: Span)
        requires
            self.wf(),
        ensures
            s.line == self.cur().line,
            s.col == self.cur().col,
    {
        Span { line: self.tokens[self.idx].line, col: self.tokens[self.idx].col }
    }
}

impl Parser {
    /// The binding strength of the current token as an infix operator.
    fn get_precedence(&self) -> (r: i32)
        requires
            self.wf(),
        ensures
            r == precedence_of(self.cur().kind),
    {
        match &self.tokens[self.idx].kind {
            TokenKind::Star | TokenKind::Slash | TokenKind::Percent => 8,
            TokenKind::As => 7,
            TokenKind::Plus | TokenKind::Minus => 6,
            TokenKind::Range | TokenKind::Caret => 5,
            TokenKind::Gt | TokenKind::Lt | TokenKind::GtEq | TokenKind::LtEq | TokenKind::EqEq
            | TokenKind::NotEq | TokenKind::Inside => 4,
            TokenKind::And => 3,
            TokenKind::Or => 2,
            TokenKind::Pipeline => 1,
            _ => 0,
        }
    }

    /// A dotted path `a.b.c` (empty when the current token is no identifier).
    fn parse_path(&mut self) -> (r: Vec<String>)
        requires
            old(self).wf(),
        ensures
            advanced(*final(self), *old(self)),
            final(self).errors@ == old(self).errors@,
            match ident_of(old(self).cur()) {
                None => r@.len() == 0 && final(self).pos() == old(self).pos(),
                Some(s) => string_views(r@) == seq![s] + path_rest(old(self).stream(), old(self).pos() + 1).0
                    && final(self).pos() == path_rest(old(self).stream(), old(self).pos() + 1).1,
            },
    {
        let ghost toks = self.stream();
        let ghost p0 = self.pos();
        let mut path: Vec<String> = Vec::new();
        if let Some(id) = self.cur_ident() {
            proof { self.lemma_eof(); }
            let ghost s = id@;
            let ghost tgt = path_rest(toks, p0 + 1);
            path.push(id);
            self.next_token();
            assert(string_views(path@) =~= seq![s]);
            while self.cur_is(TokenKind::Dot)
                invariant_except_break
                    string_views(path@) + path_rest(toks, self.pos()).0 == seq![s] + tgt.0,
                    path_rest(toks, self.pos()).1 == tgt.1,
                invariant
                    advanced(*self, *old(self)),
                    self.errors@ == old(self).errors@,
                    toks == self.stream(),
                ensures
                    string_views(path@) == seq![s] + tgt.0,
                    self.pos() == tgt.1,
                decreases self.rem(),
            {
                proof { self.lemma_eof(); }
                let ghost j = self.pos();
                assert(toks[j].kind is Dot);
                self.next_token();
                if let Some(sub) = self.cur_ident() {
                    proof { self.lemma_eof(); }
                    let ghost before = string_views(path@);
                    path.push(sub);
                    self.next_token();
                    proof {
                        assert(string_views(path@) =~= before.push(sub@));
                        let (r2, e2) = path_rest(toks, j + 2);
                        assert(path_rest(toks, j) == (seq![sub@] + r2, e2));
                        assert(before + (seq![sub@] + r2) =~= before.push(sub@) + r2);
                    }
                } else {
                    assert(path_rest(toks, j) == (Seq::<Seq<char>>::empty(), j + 1));
                    assert(string_views(path@) + Seq::<Seq<char>>::empty() =~= string_views(path@));
                    break;
                }
            }
        } else {
            assert(path@ =~= Seq::<String>::empty());
        }
        path
    }

    /// `use a.b.c;`
    fn parse_import(&mut self) -> (r: Import)
        requires
            old(self).wf(),
            old(self).cur().kind is Use,
        ensures
            consumed(*final(self), *old(self)),
            final(self).errors@ == old(self).errors@,
            string_views(r.path@) == path_at(old(self).stream(), old(self).pos() + 1).0,
            r.alias is None,
            final(self).pos() == skip_semicolon(old(self).stream(), path_at(old(self).stream(), old(self).pos() + 1).1),
    {
        proof { self.lemma_eof(); }
        self.next_token();
        let path = self.parse_path();
        if self.cur_is(TokenKind::Semicolon) {
            self.next_token();
        }
        Import { path, alias: None }
    }

    /// `<T, U>` after a declaration's name (empty when there is none). A
    /// token that is neither a name nor a comma ends the list.
    fn parse_generic_params(&mut self) -> (r: Vec<String>)
        requires
            old(self).wf(),
        ensures
            advanced(*final(self), *old(self)),
            final(self).errors@ == old(self).errors@,
            !(old(self).cur().kind is Lt) ==> r@.len() == 0 && final(self).pos() == old(self).pos(),
            old(self).cur().kind is Lt ==> string_views(r@) == gparams_rest(old(self).stream(), old(self).pos() + 1).0
                && final(self).pos() == gparams_rest(old(self).stream(), old(self).pos() + 1).1,
    {
        let ghost toks = self.stream();
        let ghost p0 = self.pos();
        let mut params: Vec<String> = Vec::new();
        if self.cur_is(TokenKind::Lt) {
            proof { self.lemma_eof(); }
            let ghost tgt = gparams_rest(toks, p0 + 1);
            self.next_token();
            assert(string_views(params@) =~= Seq::<Seq<char>>::empty());
            assert(Seq::<Seq<char>>::empty() + tgt.0 =~= tgt.0);
            while !self.cur_is(TokenKind::Gt) && !self.at_eof()
                invariant
                    advanced(*self, *old(self)),
                    self.errors@ == old(self).errors@,
                    toks == self.stream(),
                    string_views(params@) + gparams_rest(toks, self.pos()).0 == tgt.0,
                    gparams_rest(toks, self.pos()).1 == tgt.1,
                ensures
                    string_views(params@) + gparams_rest(toks, self.pos()).0 == tgt.0,
                    gparams_rest(toks, self.pos()).1 == tgt.1,
                    gparams_rest(toks, self.pos()).0.len() == 0,
                    gparams_rest(toks, self.pos()).1 == (if toks[self.pos()].kind is Gt { self.pos() + 1 } else { self.pos() }),
                    toks == self.stream(),
                    advanced(*self, *old(self)),
                    self.errors@ == old(self).errors@,
                decreases self.rem(),
            {
                proof { self.lemma_eof(); }
                let ghost j = self.pos();
                let ghost before = string_views(params@);
                let mut progressed = false;
                if let Some(id) = self.cur_ident() {
                    params.push(id);
                    self.next_token();
                    progressed = true;
                    assert(string_views(params@) =~= before.push(id@));
                }
                if self.cur_is(TokenKind::Comma) {
                    proof { self.lemma_eof(); }
                    self.next_token();
                    progressed = true;
                }
                proof {
                    if progressed {
                        let (r, e) = gparams_rest(toks, self.pos());
                        if ident_of(toks[j]) is Some {
                            assert(gparams_rest(toks, j) == (seq![ident_of(toks[j]).unwrap()] + r, e));
                            assert(before + (seq![ident_of(toks[j]).unwrap()] + r) =~= string_views(params@) + r);
                        } else {
                            assert(gparams_rest(toks, j) == (r, e));
                        }
                    } else {
                        assert(gparams_rest(toks, j) == (Seq::<Seq<char>>::empty(), j));
                    }
                }
                if !progressed {
                    break;
                }
            }
            let ghost q = self.pos();
            assert(string_views(params@) + gparams_rest(toks, q).0 =~= string_views(params@));
            if self.cur_is(TokenKind::Gt) {
                proof { self.lemma_eof(); }
                assert(gparams_rest(toks, q).1 == q + 1);
                self.next_token();
            } else {
                assert(gparams_rest(toks, q).1 == q);
            }
        } else {
            assert(params@ =~= Seq::<String>::empty());
        }
        params
    }

    /// A type name: `*T`, `a.b.C`, `Name<Args>`, optionally followed by `?`.
    /// Anything else is consumed and named `invalid_type_<token>`.
    fn parse_type_name(&mut self) -> (r: String)
        requires
            old(self).wf(),
        ensures
            consumed(*final(self), *old(self)),
            final(self).errors@ == old(self).errors@,
            simple_type(old(self).stream(), old(self).pos()) matches Some(t)
                ==> r@ == t && final(self).pos() == old(self).pos() + 1,
        decreases old(self).rem(),
    {
        proof { self.lemma_eof(); }
        let ghost simple = simple_type(old(self).stream(), old(self).pos()) is Some;
        if self.cur_is(TokenKind::Star) {
            self.next_token();
            let inner = self.parse_type_name();
            let mut v: Vec<char> = Vec::new();
            v.push('*');
            push_str_chars(&mut v, inner.as_str());
            return string_from_chars(&v);
        }
        let mut full: Vec<char> = Vec::new();
        match self.cur_ident() {
            Some(id) => {
                push_str_chars(&mut full, id.as_str());
                self.next_token();
            },
            None => {
                let tok = self.current().duplicate();
                self.next_token();
                let mut v: Vec<char> = Vec::new();
                push_str_chars(&mut v, "invalid_type_");
                let d = tok.debug_text();
                push_slice(&mut v, &d);
                return string_from_chars(&v);
            },
        }
        let ghost after_name = self.rem();
        let ghost name_chars = full@;
        while self.cur_is(TokenKind::Dot) || self.cur_is(TokenKind::DoubleColon)
            invariant
                advanced(*self, *old(self)),
                self.rem() < old(self).rem(),
                self.errors@ == old(self).errors@,
                simple == (simple_type(old(self).stream(), old(self).pos()) is Some),
                simple ==> self.pos() == old(self).pos() + 1 && full@ == name_chars
                    && !(self.cur().kind is Dot || self.cur().kind is DoubleColon || self.cur().kind is Lt
                        || self.cur().kind is Question),
            decreases self.rem(),
        {
            proof { self.lemma_eof(); }
            let nxt = self.peek_at(0);
            if matches!(nxt.kind, TokenKind::Identifier(_)) {
                self.next_token();
                if let Some(sub) = self.cur_ident() {
                    full.push('.');
                    push_str_chars(&mut full, sub.as_str());
                    self.next_token();
                }
            } else {
                break;
            }
        }
        if self.cur_is(TokenKind::Lt) {
            proof { self.lemma_eof(); }
            full.push('<');
            self.next_token();
            while !self.cur_is(TokenKind::Gt) && !self.at_eof()
                invariant
                    advanced(*self, *old(self)),
                    self.rem() < old(self).rem(),
                    self.errors@ == old(self).errors@,
                decreases self.rem(),
            {
                let sub = self.parse_type_name();
                push_str_chars(&mut full, sub.as_str());
                if self.cur_is(TokenKind::Comma) {
                    proof { self.lemma_eof(); }
                    push_str_chars(&mut full, ", ");
                    self.next_token();
                }
            }
            if self.cur_is(TokenKind::Gt) {
                proof { self.lemma_eof(); }
                full.push('>');
                self.next_token();
            }
        }
        if self.cur_is(TokenKind::Question) {
            proof { self.lemma_eof(); }
            self.next_token();
            full.push('?');
        }
        string_from_chars(&full)
    }

    /// Whether the current `<` opens generic arguments: a matching `>`
    /// comes within 50 tokens, before any token that cannot occur in a type.
    fn is_generic_args_ahead(&self) -> (b: bool)
        requires
            self.wf(),
        ensures
            b == generic_ahead(self.stream(), self.pos()),
    {
        if !self.cur_is(TokenKind::Lt) {
            return false;
        }
        let mut i: usize = 0;
        let mut angle_count: i32 = 1;
        while angle_count > 0
            invariant
                self.wf(),
                i <= 50,
                1 <= angle_count <= i + 1,
                self.cur().kind is Lt,
                angle_scan(self.stream(), self.pos(), i as int, angle_count as int)
                    == angle_scan(self.stream(), self.pos(), 0, 1),
            decreases 51 - i,
        {
            let tok = self.peek_at(i);
            match tok.kind {
                TokenKind::EOF | TokenKind::LBrace | TokenKind::Semicolon | TokenKind::Eq
                | TokenKind::Or | TokenKind::And | TokenKind::Plus | TokenKind::Minus
                | TokenKind::RParen | TokenKind::Comma => {
                    return false;
                },
                TokenKind::Lt => {
                    angle_count = angle_count + 1;
                },
                TokenKind::Gt => {
                    angle_count = angle_count - 1;
                },
                _ => {},
            }
            i = i + 1;
            if i > 50 {
                return false;
            }
            if angle_count == 0 {
                return true;
            }
        }
        true
    }

    /// `<A, B>` generic arguments after a name, when they are ahead.
    fn parse_generic_args(&mut self) -> (r: Vec<String>)
        requires
            old(self).wf(),
        ensures
            advanced(*final(self), *old(self)),
            final(self).errors@ == old(self).errors@,
            r@.len() > 0 ==> final(self).rem() < old(self).rem(),
            !generic_ahead(old(self).stream(), old(self).pos()) ==> r@.len() == 0 && final(self).pos() == old(self).pos(),
            generic_ahead(old(self).stream(), old(self).pos()) ==> string_views(r@) == gargs_rest(old(self).stream(), old(self).pos() + 1).0
                && final(self).pos() == gargs_rest(old(self).stream(), old(self).pos() + 1).1,
    {
        let ghost toks = self.stream();
        let ghost p0 = self.pos();
        let mut args: Vec<String> = Vec::new();
        if self.is_generic_args_ahead() {
            proof { self.lemma_eof(); }
            let ghost tgt = gargs_rest(toks, p0 + 1);
            self.next_token();
            assert(string_views(args@) =~= Seq::<Seq<char>>::empty());
            assert(Seq::<Seq<char>>::empty() + tgt.0 =~= tgt.0);
            while !self.cur_is(TokenKind::Gt) && !self.at_eof()
                invariant
                    advanced(*self, *old(self)),
                    self.rem() < old(self).rem(),
                    self.errors@ == old(self).errors@,
                    toks == self.stream(),
                    string_views(args@) + gargs_rest(toks, self.pos()).0 == tgt.0,
                    gargs_rest(toks, self.pos()).1 == tgt.1,
                decreases self.rem(),
            {
                proof { self.lemma_eof(); }
                let ghost j = self.pos();
                let ghost before = string_views(args@);
                if let Some(id) = self.cur_ident() {
                    args.push(id);
                    assert(string_views(args@) =~= before.push(id@));
                }
                self.next_token();
                if self.cur_is(TokenKind::Comma) {
                    proof { self.lemma_eof(); }
                    self.next_token();
                }
                proof {
                    let (r, e) = gargs_rest(toks, self.pos());
                    let names: Seq<Seq<char>> = match ident_of(toks[j]) {
                        Some(x) => seq![x],
                        None => Seq::empty(),
                    };
                    assert(gargs_rest(toks, j) == (names + r, e));
                    assert(before + (names + r) =~= string_views(args@) + r);
                }
            }
            let ghost q = self.pos();
            if self.cur_is(TokenKind::Gt) {
                proof { self.lemma_eof(); }
                assert(gargs_rest(toks, q) == (Seq::<Seq<char>>::empty(), q + 1));
                self.next_token();
            } else {
                assert(gargs_rest(toks, q) == (Seq::<Seq<char>>::empty(), q));
            }
            assert(string_views(args@) + Seq::<Seq<char>>::empty() =~= string_views(args@));
        }
        args
    }
}


/// `a` followed by `sep` and `b`.
fn joined(a: &str, sep: &str, b: &str) -> (r: String)
    ensures
        r@ == a@ + sep@ + b@,
{
    let mut v: Vec<char> = Vec::new();
    push_str_chars(&mut v, a);
    push_str_chars(&mut v, sep);
    push_str_chars(&mut v, b);
    string_from_chars(&v)
}

/// `prefix` followed by the debug notation of `tok`.
fn invalid_name(prefix: &str, tok: &Token) -> (r: String)
    ensures
        r@ == prefix@ + crate::token::token_debug_text(*tok),
{
    let mut v: Vec<char> = Vec::new();
    push_str_chars(&mut v, prefix);
    let d = tok.debug_text();
    push_slice(&mut v, &d);
    string_from_chars(&v)
}

/// A plain lower-case name other than `_`: a lower-case first character,
/// then letters, digits and `_`.
pub open spec fn binding_name_spec(p: Seq<char>) -> bool {
    &&& p.len() > 0
    &&& crate::text::is_lowercase_char(p[0])
    &&& forall|i: int| 0 <= i < p.len() ==> (crate::text::is_alphabetic_char(#[trigger] p[i])
        || crate::text::is_numeric_char(p[i]) || p[i] == '_')
    &&& p != seq!['_']
}

/// Whether a pattern is a plain lower-case name (not `_`): such a lone
/// pattern binds the matched value instead of naming a variant.
fn is_binding_name(pat: &str) -> (b: bool)
    ensures
        b == binding_name_spec(pat@),
{
    let chars = chars_of(pat);
    if chars.len() == 0 {
        return false;
    }
    if !char_is_lowercase(chars[0]) {
        return false;
    }
    let mut i: usize = 0;
    while i < chars.len()
        invariant
            i <= chars@.len(),
            chars@ == pat@,
            forall|k: int| 0 <= k < i ==> (crate::text::is_alphabetic_char(#[trigger] chars@[k])
                || crate::text::is_numeric_char(chars@[k]) || chars@[k] == '_'),
        decreases chars@.len() - i,
    {
        if !(char_is_alphanumeric(chars[i]) || chars[i] == '_') {
            return false;
        }
        i = i + 1;
    }
    proof {
        if chars@.len() == 1 && chars@[0] == '_' {
            assert(pat@ =~= seq!['_']);
        }
        if pat@ == seq!['_'] {
            assert(chars@.len() == 1);
        }
    }
    !(chars.len() == 1 && chars[0] == '_')
}

impl Parser {
    /// An expression.
    pub fn parse_expression(&mut self) -> (e: Expression)
        requires
            old(self).wf(),
        ensures
            consumed(*final(self), *old(self)),
            final(self).error_log() == old(self).error_log(),
            forall|fuel: nat| #[trigger] infix_reading(old(self).stream(), old(self).pos(), 0, fuel) is Some
                ==> expr_matches(e, infix_reading(old(self).stream(), old(self).pos(), 0, fuel).unwrap().0)
                    && final(self).pos() == infix_reading(old(self).stream(), old(self).pos(), 0, fuel).unwrap().1,
        decreases old(self).rem(), 3nat,
    {
        self.parse_infix(0)
    }

    /// Arguments up to and including `)`, the `(` already consumed.
    fn parse_arg_list(&mut self) -> (args: Vec<Expression>)
        requires
            old(self).wf(),
        ensures
            advanced(*final(self), *old(self)),
            final(self).errors@ == old(self).errors@,
            forall|fuel: nat| #[trigger] args_reading(old(self).stream(), old(self).pos(), fuel) is Some
                ==> exprs_match(args@, args_reading(old(self).stream(), old(self).pos(), fuel).unwrap().0)
                    && final(self).pos() == args_reading(old(self).stream(), old(self).pos(), fuel).unwrap().1,
        decreases old(self).rem(), 5nat,
    {
        let ghost toks = old(self).stream();
        let ghost p0 = old(self).pos();
        let ghost readable = exists|f: nat| #[trigger] args_reading(toks, p0, f) is Some;
        let ghost f0: nat = choose|f: nat| #[trigger] args_reading(toks, p0, f) is Some;
        let ghost total = args_reading(toks, p0, f0).unwrap();
        let ghost mut g: nat = f0;
        let mut args: Vec<Expression> = Vec::new();
        while !self.cur_is(TokenKind::RParen) && !self.at_eof()
            invariant
                advanced(*self, *old(self)),
                self.errors@ == old(self).errors@,
                toks == self.stream(),
                readable ==> (args_reading(toks, self.pos(), g) matches Some(rest)
                    && args@.len() + rest.0.len() == total.0.len()
                    && exprs_match(args@, total.0.subrange(0, args@.len() as int))
                    && rest.0 == total.0.subrange(args@.len() as int, total.0.len() as int)
                    && rest.1 == total.1),
            decreases self.rem(),
        {
            let ghost before = args@;
            let ghost here = self.pos();
            let ghost rest0 = args_reading(toks, here, g).unwrap();
            proof {
                if readable {
                    assert(infix_reading(toks, here, 0, (g - 1) as nat) is Some);
                }
            }
            let e = self.parse_expression();
            args.push(e);
            if self.cur_is(TokenKind::Comma) {
                proof { self.lemma_eof(); }
                self.next_token();
            }
            proof {
                if readable {
                    let xk = infix_reading(toks, here, 0, (g - 1) as nat).unwrap();
                    let rest1 = args_reading(toks, self.pos(), (g - 1) as nat).unwrap();
                    assert(rest0.0 == seq![xk.0] + rest1.0);
                    assert(total.0[before.len() as int] == xk.0) by {
                        assert(rest0.0[0] == total.0.subrange(before.len() as int, total.0.len() as int)[0]);
                    }
                    assert(rest1.0 =~= total.0.subrange(args@.len() as int, total.0.len() as int)) by {
                        assert forall|k: int| 0 <= k < rest1.0.len() implies rest1.0[k]
                            == total.0.subrange(args@.len() as int, total.0.len() as int)[k] by {
                            assert(rest0.0[k + 1] == rest1.0[k]);
                            assert(rest0.0[k + 1] == total.0.subrange(before.len() as int, total.0.len() as int)[k + 1]);
                        }
                    }
                    assert forall|i: int| 0 <= i < args@.len() implies expr_matches(#[trigger] args@[i],
                        total.0.subrange(0, args@.len() as int)[i]) by {
                        if i < before.len() {
                            assert(args@[i] == before[i]);
                            assert(total.0.subrange(0, args@.len() as int)[i] == total.0.subrange(0, before.len() as int)[i]);
                        }
                    }
                    g = (g - 1) as nat;
                }
            }
        }
        proof {
            if readable {
                self.lemma_eof();
                let here = self.pos();
                assert(!(toks[here].kind is RParen) ==> infix_reading(toks, here, 0, (g - 1) as nat) is None);
                assert(args_reading(toks, here, g).unwrap().0.len() == 0);
                assert(total.0.subrange(0, args@.len() as int) =~= total.0);
            }
        }
        if self.cur_is(TokenKind::RParen) {
            self.next_token();
        }
        proof {
            if readable {
                assert forall|fuel: nat| #[trigger] args_reading(toks, p0, fuel) is Some
                    implies exprs_match(args@, args_reading(toks, p0, fuel).unwrap().0)
                        && self.pos() == args_reading(toks, p0, fuel).unwrap().1 by {
                    lemma_args_unique(toks, p0, f0, fuel);
                }
            }
        }
        args
    }

    /// Binary operators of binding strength above `precedence`, left to
    /// right; `as T` casts; `x |> f(a)` pipes `x` in as the first argument.
    #[verifier::spinoff_prover]
    #[verifier::rlimit(40)]
    fn parse_infix(&mut self, precedence: i32) -> (e: Expression)
        requires
            old(self).wf(),
        ensures
            consumed(*final(self), *old(self)),
            final(self).errors@ == old(self).errors@,
            forall|fuel: nat| #[trigger] infix_reading(old(self).stream(), old(self).pos(), precedence, fuel) is Some
                ==> expr_matches(e, infix_reading(old(self).stream(), old(self).pos(), precedence, fuel).unwrap().0)
                    && final(self).pos() == infix_reading(old(self).stream(), old(self).pos(), precedence, fuel).unwrap().1,
        decreases old(self).rem(), 2nat,
    {
        let ghost toks = old(self).stream();
        let ghost start = old(self).pos();
        let ghost readable = exists|f: nat| #[trigger] infix_reading(toks, start, precedence, f) is Some;
        let ghost f0: nat = choose|f: nat| #[trigger] infix_reading(toks, start, precedence, f) is Some;
        let ghost target = infix_reading(toks, start, precedence, f0);
        let mut left = self.parse_primary();
        let ghost mut lshape = primary_reading(toks, start, f0).unwrap().0;
        let ghost mut g: nat = f0;
        while !self.at_eof() && self.get_precedence() > precedence
            invariant
                consumed(*self, *old(self)),
                self.errors@ == old(self).errors@,
                toks == self.stream(),
                readable ==> expr_matches(left, lshape),
                readable ==> operand_chain(toks, self.pos(), precedence, lshape, g) == target,
                readable ==> target is Some,
            decreases self.rem(),
        {
            proof { self.lemma_eof(); }
            let op = self.current().duplicate();
            let op_prec = self.get_precedence();
            let span = Span::from_token(&op);
            let ghost j = self.pos();
            let ghost rk = infix_reading(toks, j + 1, op_prec, (g - 1) as nat);
            self.next_token();
            if matches!(op.kind, TokenKind::As) {
                proof {
                    if readable {
                        assert(simple_type(toks, j + 1) is Some);
                    }
                }
                let target = self.parse_type_name();
                proof {
                    if readable {
                        lshape = ExprShape::Cast(Box::new(lshape), simple_type(toks, j + 1).unwrap(), span_of(toks[j]));
                        g = (g - 1) as nat;
                    }
                }
                left = Expression::Cast { expr: Box::new(left), target, span };
                continue;
            }
            if matches!(op.kind, TokenKind::Pipeline) {
                let right = self.parse_infix(1);
                let ghost rk1 = infix_reading(toks, j + 1, 1, (g - 1) as nat);
                let ghost left_shape = lshape;
                let ghost left_old = left;
                let ghost right_g = right;
                proof {
                    if readable {
                        assert(rk1 is Some);
                        assert(expr_matches(right_g, rk1.unwrap().0));
                    }
                }
                left = match right {
                    Expression::Call { function, mut arguments, generic_args, .. } => {
                        let ghost args0 = arguments@;
                        arguments.insert(0, left);
                        proof {
                            assert(arguments@ =~= seq![left_old] + args0);
                            if readable {
                                assert(rk1.unwrap().0 is Call);
                                if let ExprShape::Call(n, args, _) = rk1.unwrap().0 {
                                    assert(right_g->Call_arguments@ == args0);
                                    assert(exprs_match(args0, args));
                                    assert forall|i: int| 0 <= i < args.len() + 1 implies expr_matches(
                                        #[trigger] arguments@[i], (seq![left_shape] + args)[i]) by {
                                        if i > 0 {
                                            assert(arguments@[i] == args0[i - 1]);
                                            assert((seq![left_shape] + args)[i] == args[i - 1]);
                                        }
                                    }
                                    assert(exprs_match(arguments@, seq![left_shape] + args));
                                }
                            }
                        }
                        let c = Expression::Call { function, generic_args, arguments, span };
                        proof {
                            if readable {
                                assert(expr_matches(c, pipe_shape(left_shape, toks[j], rk1.unwrap().0)));
                            }
                        }
                        c
                    },
                    Expression::Identifier(function, _) => {
                        let mut arguments: Vec<Expression> = Vec::new();
                        arguments.push(left);
                        proof {
                            if readable {
                                assert(exprs_match(arguments@, seq![left_shape])) by {
                                    assert(arguments@[0] == left_old);
                                }
                            }
                        }
                        let c = Expression::Call { function, generic_args: Vec::new(), arguments, span };
                        proof {
                            if readable {
                                assert(expr_matches(c, pipe_shape(left_shape, toks[j], rk1.unwrap().0)));
                            }
                        }
                        c
                    },
                    other => {
                        let c = Expression::Infix { left: Box::new(left), operator: op, right: Box::new(other), span };
                        proof {
                            if readable {
                                assert(!(rk1.unwrap().0 is Call) && !(rk1.unwrap().0 is Name));
                                assert(expr_matches(c, pipe_shape(left_shape, toks[j], rk1.unwrap().0)));
                            }
                        }
                        c
                    },
                };
                proof {
                    if readable {
                        lshape = pipe_shape(left_shape, toks[j], rk1.unwrap().0);
                        g = (g - 1) as nat;
                    }
                }
            } else {
                let right = self.parse_infix(op_prec);
                proof {
                    if readable {
                        assert(infix_reading(toks, j + 1, op_prec, (g - 1) as nat) == rk);
                        lshape = ExprShape::Binary(Box::new(lshape), toks[j], Box::new(rk.unwrap().0), span_of(toks[j]));
                        g = (g - 1) as nat;
                    }
                }
                left = Expression::Infix { left: Box::new(left), operator: op, right: Box::new(right), span };
            }
        }
        proof {
            if readable {
                assert forall|fuel: nat| #[trigger] infix_reading(toks, start, precedence, fuel) is Some
                    implies expr_matches(left, infix_reading(toks, start, precedence, fuel).unwrap().0)
                        && self.pos() == infix_reading(toks, start, precedence, fuel).unwrap().1 by {
                    lemma_reading_unique(toks, start, precedence, f0, fuel);
                }
            }
        }
        left
    }

    /// A primary expression and its postfix forms: member access, method
    /// calls, enum variants (`E::V(args)`), calls, struct literals and
    /// generic arguments.
    #[verifier::spinoff_prover]
    #[verifier::rlimit(40)]
    fn parse_primary(&mut self) -> (e: Expression)
        requires
            old(self).wf(),
        ensures
            consumed(*final(self), *old(self)),
            final(self).errors@ == old(self).errors@,
            forall|fuel: nat| #[trigger] primary_reading(old(self).stream(), old(self).pos(), fuel) is Some
                ==> expr_matches(e, primary_reading(old(self).stream(), old(self).pos(), fuel).unwrap().0)
                    && final(self).pos() == primary_reading(old(self).stream(), old(self).pos(), fuel).unwrap().1,
        decreases old(self).rem(), 1nat,
    {
        proof {
            self.lemma_eof();
            reveal_strlit(".");
        }
        let ghost toks = old(self).stream();
        let ghost p0 = old(self).pos();
        let ghost prim_case = exists|f: nat| #[trigger] primary_reading(toks, p0, f) is Some;
        let ghost pf: nat = choose|f: nat| #[trigger] primary_reading(toks, p0, f) is Some;
        let ghost target = primary_reading(toks, p0, pf).unwrap();
        let ghost rk = primary_reading(toks, p0 + 1, (pf - 1) as nat).unwrap();
        let ghost base: ExprShape = if toks[p0].kind is LParen {
            infix_reading(toks, p0 + 1, 0, (pf - 1) as nat).unwrap().0
        } else if toks[p0].kind is Minus {
            match toks[p0 + 1].kind {
                TokenKind::IntLiteral(n) => ExprShape::Lit(Expression::Integer(neg_i64(n), span_of(toks[p0]))),
                _ => ExprShape::Binary(
                    Box::new(ExprShape::Lit(Expression::Integer(0, span_of(toks[p0])))),
                    Token { kind: TokenKind::Minus, line: toks[p0 + 1].line, col: toks[p0 + 1].col },
                    Box::new(rk.0),
                    span_of(toks[p0]),
                ),
            }
        } else if toks[p0].kind is Star {
            ExprShape::Deref(Box::new(rk.0), span_of(toks[p0]))
        } else if toks[p0].kind is At {
            match toks[p0 + 1].kind {
                TokenKind::Identifier(n) => ExprShape::Intrinsic(n@, args_reading(toks, p0 + 3, (pf - 1) as nat).unwrap().0, span_of(toks[p0])),
                _ => ExprShape::Lit(Expression::Integer(0, span_of(toks[p0]))),
            }
        } else if toks[p0].kind is Bang {
            ExprShape::Binary(
                Box::new(rk.0),
                Token { kind: TokenKind::EqEq, line: toks[rk.1].line, col: toks[rk.1].col },
                Box::new(ExprShape::Lit(Expression::Boolean(false, span_of(toks[p0])))),
                span_of(toks[p0]),
            )
        } else {
            match toks[p0].kind {
                TokenKind::Identifier(n) => ExprShape::Name(name_reading(toks, p0, n@).0, span_of(toks[p0])),
                _ => ExprShape::Lit(lit_of(toks[p0]).unwrap()),
            }
        };
        let ghost base_end: int = if toks[p0].kind is LParen {
            infix_reading(toks, p0 + 1, 0, (pf - 1) as nat).unwrap().1 + 1
        } else if toks[p0].kind is Minus {
            match toks[p0 + 1].kind {
                TokenKind::IntLiteral(_) => p0 + 2,
                _ => rk.1,
            }
        } else if toks[p0].kind is Bang || toks[p0].kind is Star {
            rk.1
        } else if toks[p0].kind is At {
            args_reading(toks, p0 + 3, (pf - 1) as nat).unwrap().1
        } else {
            match toks[p0].kind {
                TokenKind::Identifier(n) => name_reading(toks, p0, n@).1,
                _ => p0 + 1,
            }
        };
        let start = self.span_here();
        let kind = self.current().kind.duplicate();
        let mut expr = match kind {
            TokenKind::If => {
                self.next_token();
                let condition = self.parse_expression();
                let then_branch = self.parse_block();
                let mut else_branch: Option<Vec<Statement>> = None;
                if self.cur_is(TokenKind::Else) {
                    proof { self.lemma_eof(); }
                    self.next_token();
                    if self.cur_is(TokenKind::If) {
                        if let Some(if_stmt) = self.parse_statement() {
                            let mut v: Vec<Statement> = Vec::new();
                            v.push(if_stmt);
                            else_branch = Some(v);
                        }
                    } else {
                        else_branch = Some(self.parse_block());
                    }
                }
                Expression::If { condition: Box::new(condition), then_branch, else_branch, span: start }
            },
            TokenKind::LBrace => {
                let statements = self.parse_block();
                Expression::Block { statements, is_unsafe: false, span: start }
            },
            TokenKind::SelfToken => {
                self.next_token();
                Expression::Identifier("self".to_owned(), start)
            },
            TokenKind::Star => {
                self.next_token();
                let inner = self.parse_primary();
                proof {
                    if prim_case {
                        assert(primary_reading(toks, p0 + 1, (pf - 1) as nat) is Some);
                        assert(expr_matches(inner, rk.0) && self.pos() == rk.1);
                    }
                }
                let x = Expression::Deref { expr: Box::new(inner), span: start };
                proof {
                    if prim_case {
                        assert(start == span_of(toks[p0]));
                        assert(expr_matches(x, base));
                    }
                }
                x
            },
            TokenKind::Bang => {
                self.next_token();
                let inner = self.parse_primary();
                proof {
                    if prim_case {
                        assert(primary_reading(toks, p0 + 1, (pf - 1) as nat) is Some);
                        assert(expr_matches(inner, rk.0) && self.pos() == rk.1);
                    }
                }
                let operator = Token::new(TokenKind::EqEq, self.current().line, self.current().col);
                let x = Expression::Infix {
                    left: Box::new(inner),
                    operator,
                    right: Box::new(Expression::Boolean(false, start)),
                    span: start,
                };
                proof {
                    if prim_case {
                        assert(operator == Token { kind: TokenKind::EqEq, line: toks[rk.1].line, col: toks[rk.1].col });
                        assert(toks[p0].kind is Bang);
                        assert(start == span_of(toks[p0]));
                        assert(expr_matches(Expression::Boolean(false, start), ExprShape::Lit(Expression::Boolean(false, span_of(toks[p0])))));
                        assert(expr_matches(x, base));
                    }
                }
                x
            },
            TokenKind::LParen => {
                self.next_token();
                let e = self.parse_expression();
                proof {
                    if prim_case {
                        assert(infix_reading(toks, p0 + 1, 0, (pf - 1) as nat) is Some);
                    }
                }
                if self.cur_is(TokenKind::RParen) {
                    self.next_token();
                }
                proof {
                    if prim_case {
                        assert(expr_matches(e, base) && self.pos() == base_end);
                    }
                }
                e
            },
            TokenKind::True => {
                self.next_token();
                Expression::Boolean(true, start)
            },
            TokenKind::False => {
                self.next_token();
                Expression::Boolean(false, start)
            },
            TokenKind::Minus => {
                self.next_token();
                let k2 = self.current().kind.duplicate();
                match k2 {
                    TokenKind::IntLiteral(n) => {
                        proof { self.lemma_eof(); }
                        self.next_token();
                        assert(0i64.wrapping_sub(n) == neg_i64(n));
                        let x = Expression::Integer(0i64.wrapping_sub(n), start);
                        proof {
                            if prim_case {
                                assert(toks[p0 + 1].kind == TokenKind::IntLiteral(n));
                                assert(expr_matches(x, base));
                                assert(self.pos() == base_end);
                            }
                        }
                        x
                    },
                    TokenKind::FloatLiteral(f) => {
                        self.next_token();
                        Expression::Float(joined("-", "", f.as_str()), start)
                    },
                    _ => {
                        let operator = Token::new(TokenKind::Minus, self.current().line, self.current().col);
                        let right = self.parse_primary();
                        proof {
                            if prim_case {
                                assert(primary_reading(toks, p0 + 1, (pf - 1) as nat) is Some);
                                assert(expr_matches(right, rk.0) && self.pos() == rk.1);
                            }
                        }
                        let x = Expression::Infix {
                            left: Box::new(Expression::Integer(0, start)),
                            operator,
                            right: Box::new(right),
                            span: start,
                        };
                        proof {
                            if prim_case {
                                assert(operator == Token { kind: TokenKind::Minus, line: toks[p0 + 1].line, col: toks[p0 + 1].col });
                                assert(toks[p0].kind is Minus);
                                assert(start == span_of(toks[p0]));
                                assert(expr_matches(Expression::Integer(0, start), ExprShape::Lit(Expression::Integer(0, span_of(toks[p0])))));
                                assert(expr_matches(x, base));
                            }
                        }
                        x
                    },
                }
            },
            TokenKind::IntLiteral(n) => {
                self.next_token();
                Expression::Integer(n, start)
            },
            TokenKind::FloatLiteral(f) => {
                self.next_token();
                Expression::Float(f, start)
            },
            TokenKind::StringLiteral(s) => {
                self.next_token();
                Expression::String(s, start)
            },
            TokenKind::FString(s) => {
                self.next_token();
                Expression::String(s, start)
            },
            TokenKind::DurationLiteral(d, u) => {
                self.next_token();
                Expression::Duration(d, u, start)
            },
            TokenKind::DateLiteral(ts) => {
                self.next_token();
                Expression::Date(ts, start)
            },
            TokenKind::At => {
                self.next_token();
                match self.cur_ident() {
                    Some(name) => {
                        self.next_token();
                        if self.cur_is(TokenKind::LParen) {
                            proof { self.lemma_eof(); }
                            self.next_token();
                            let args = self.parse_arg_list();
                            proof {
                                if prim_case {
                                    assert(toks[p0 + 1].kind == TokenKind::Identifier(name));
                                    assert(args_reading(toks, p0 + 3, (pf - 1) as nat) is Some);
                                }
                            }
                            let x = Expression::Intrinsic { name, arguments: args, span: start };
                            proof {
                                if prim_case {
                                    assert(start == span_of(toks[p0]));
                                    assert(expr_matches(x, base));
                                    assert(self.pos() == base_end);
                                }
                            }
                            x
                        } else {
                            Expression::Identifier(joined("invalid_attribute_", "", name.as_str()), start)
                        }
                    },
                    None => Expression::Identifier("invalid_at_usage".to_owned(), start),
                }
            },
            TokenKind::Unsafe => {
                self.next_token();
                if self.cur_is(TokenKind::LBrace) {
                    let statements = self.parse_block();
                    Expression::Block { statements, is_unsafe: true, span: start }
                } else {
                    Expression::Identifier("invalid_unsafe_usage".to_owned(), start)
                }
            },
            TokenKind::Identifier(n) => {
                let ghost name = n;
                self.next_token();
                let mut full = n;
                while self.cur_is(TokenKind::Dot)
                    invariant
                        consumed(*self, *old(self)),
                        self.errors@ == old(self).errors@,
                        toks == self.stream(),
                        self.pos() >= p0 + 1,
                        p0 == old(self).pos(),
                        prim_case ==> name_reading(toks, self.pos() - 1, full@) == name_reading(toks, p0, name@),
                    ensures
                        consumed(*self, *old(self)),
                        self.errors@ == old(self).errors@,
                        toks == self.stream(),
                        self.pos() >= p0 + 1,
                        prim_case ==> name_reading(toks, p0, name@) == (full@, self.pos()),
                    decreases self.rem(),
                {
                    proof {
                        self.lemma_eof();
                        reveal_strlit(".");
                    }
                    let nxt = self.peek_at(0);
                    let ghost here = self.pos();
                    let ghost full0 = full@;
                    let ghost nk = nxt.kind;
                    match nxt.kind {
                        TokenKind::Identifier(sub) => {
                            self.next_token();
                            full = joined(full.as_str(), ".", sub.as_str());
                            self.next_token();
                            proof {
                                if prim_case {
                                    assert(toks[here].kind is Dot);
                                    assert(toks[here + 1].kind == nk);
                                    assert(full@ == full0 + seq!['.'] + sub@);
                                    assert(here + 1 < toks.len());
                                    assert(0 <= here - 1);
                                    assert(toks[(here - 1) + 1].kind is Dot);
                                    assert(toks[(here - 1) + 2].kind == TokenKind::Identifier(sub));
                                    assert(name_reading(toks, here - 1, full0) == name_reading(toks, here + 1, full@));
                                }
                            }
                        },
                        _ => {
                            proof {
                                if prim_case {
                                    assert(toks[here + 1].kind == nk);
                                    assert(name_reading(toks, here - 1, full0) == (full0, here));
                                }
                            }
                            break;
                        },
                    }
                }
                let generic_args = self.parse_generic_args();
                if generic_args.len() == 0 {
                    Expression::Identifier(full, start)
                } else {
                    Expression::TypeRef { name: full, generic_args, span: start }
                }
            },
            _ => {
                let tok = self.current().duplicate();
                self.next_token();
                Expression::Identifier(invalid_name("invalid_token_", &tok), start)
            },
        };

        proof {
            if prim_case {
                assert(expr_matches(expr, base));
                assert(self.pos() == base_end);
            }
        }
        let ghost mut eshape: ExprShape = base;
        let ghost mut g: nat = pf;
        loop
            invariant
                consumed(*self, *old(self)),
                self.errors@ == old(self).errors@,
                toks == self.stream(),
                prim_case ==> expr_matches(expr, eshape),
                prim_case ==> postfix_reading(toks, self.pos(), eshape, g) == Some(target),
            ensures
                consumed(*self, *old(self)),
                self.errors@ == old(self).errors@,
                prim_case ==> expr_matches(expr, target.0) && self.pos() == target.1,
            decreases self.rem(),
        {
            proof {
                self.lemma_eof();
                reveal_strlit(".");
            }
            let ghost iter_rem = self.rem();
            let ghost k = self.pos();
            let ghost e0 = eshape;
            if self.cur_is(TokenKind::Dot) {
                let dot = self.span_here();
                self.next_token();
                let member = match self.cur_ident() {
                    Some(m) => m,
                    None => {
                        break;
                    },
                };
                let ghost mv = member@;
                self.next_token();
                let m_generic_args = self.parse_generic_args();
                if self.cur_is(TokenKind::LParen) {
                    proof { self.lemma_eof(); }
                    self.next_token();
                    let args = self.parse_arg_list();
                    proof {
                        if prim_case {
                            assert(args_reading(toks, k + 3, (g - 1) as nat) is Some);
                            let ak = args_reading(toks, k + 3, (g - 1) as nat).unwrap();
                            eshape = ExprShape::Method(Box::new(e0), mv, ak.0, span_of(toks[k]));
                            g = (g - 1) as nat;
                        }
                    }
                    expr = Expression::MethodCall {
                        receiver: Box::new(expr),
                        method: member,
                        generic_args: m_generic_args,
                        arguments: args,
                        span: dot,
                    };
                } else {
                    expr = match expr {
                        Expression::Identifier(name, sp) => {
                            let j = joined(name.as_str(), ".", member.as_str());
                            assert(j@ == name@ + seq!['.'] + mv);
                            Expression::Identifier(j, sp)
                        },
                        Expression::TypeRef { name, span: sp, .. } => Expression::Identifier(joined(name.as_str(), ".", member.as_str()), sp),
                        other => Expression::MemberAccess { receiver: Box::new(other), member, span: dot },
                    };
                    proof {
                        if prim_case {
                            eshape = match e0 {
                                ExprShape::Name(n, sp) => ExprShape::Name(n + seq!['.'] + mv, sp),
                                _ => ExprShape::Member(Box::new(e0), mv, span_of(toks[k])),
                            };
                            g = (g - 1) as nat;
                        }
                    }
                }
            } else if self.cur_is(TokenKind::DoubleColon) {
                let nxt = self.peek_at(0);
                if matches!(nxt.kind, TokenKind::Intent) {
                    break;
                }
                let here = self.span_here();
                self.next_token();
                let variant = match self.cur_ident() {
                    Some(v) => v,
                    None => {
                        break;
                    },
                };
                proof { self.lemma_eof(); }
                self.next_token();
                let ghost had_lt = token_kind_eq(self.cur().kind, TokenKind::Lt);
                let mut m_generic_args: Vec<String> = Vec::new();
                if self.cur_is(TokenKind::Lt) {
                    m_generic_args = self.parse_generic_args();
                }
                let ghost had_args = token_kind_eq(self.cur().kind, TokenKind::LParen);
                let mut args: Vec<Expression> = Vec::new();
                if self.cur_is(TokenKind::LParen) {
                    proof { self.lemma_eof(); }
                    self.next_token();
                    args = self.parse_arg_list();
                }
                proof {
                    if prim_case {
                        assert(toks[k + 1].kind == TokenKind::Identifier(variant));
                        assert(!had_lt);
                        if had_args {
                            assert(args_reading(toks, k + 3, (g - 1) as nat) is Some);
                        } else {
                            assert(args@ =~= Seq::<Expression>::empty());
                            assert(self.pos() == k + 2);
                        }
                    }
                }
                let (name, mut combined, sp) = match expr {
                    Expression::Identifier(n, sp) => (n, Vec::new(), sp),
                    Expression::TypeRef { name, generic_args, span: sp } => (name, generic_args, sp),
                    Expression::EnumInst { name, variant: v, generic_args, span: sp, .. } =>
                        (joined(name.as_str(), ".", v.as_str()), generic_args, sp),
                    _ => ("unknown_enum".to_owned(), Vec::new(), here),
                };
                combined.append(&mut m_generic_args);
                expr = Expression::EnumInst { name, variant, generic_args: combined, arguments: args, span: sp };
                proof {
                    if prim_case {
                        let args_shape = if had_args { args_reading(toks, k + 3, (g - 1) as nat).unwrap().0 } else { Seq::empty() };
                        assert(e0 is Name);
                        assert(name@ == e0->Name_0);
                        assert(sp == e0->Name_1);
                        assert(combined@.len() == 0);
                        assert(exprs_match(args@, args_shape));
                        eshape = ExprShape::Variant(e0->Name_0, variant@, args_shape, e0->Name_1);
                        g = (g - 1) as nat;
                        assert(expr_matches(expr, eshape));
                    }
                }
            } else if self.cur_is(TokenKind::LParen) {
                let call = self.span_here();
                self.next_token();
                let args = self.parse_arg_list();
                match expr {
                    Expression::Identifier(name, _) => {
                        proof {
                            if prim_case {
                                assert(args_reading(toks, k + 1, (g - 1) as nat) is Some);
                                let ak = args_reading(toks, k + 1, (g - 1) as nat).unwrap();
                                eshape = ExprShape::Call(name@, ak.0, span_of(toks[k]));
                                g = (g - 1) as nat;
                            }
                        }
                        expr = Expression::Call { function: name, generic_args: Vec::new(), arguments: args, span: call };
                    },
                    Expression::TypeRef { name, generic_args, .. } => {
                        expr = Expression::Call { function: name, generic_args, arguments: args, span: call };
                    },
                    other => {
                        expr = other;
                        break;
                    },
                }
            } else if self.cur_is(TokenKind::LBrace) {
                let is_type_like = match &expr {
                    Expression::Identifier(..) => true,
                    Expression::TypeRef { .. } => true,
                    _ => false,
                };
                if !is_type_like {
                    break;
                }
                let next_tok = self.peek_at(0);
                let is_struct = if matches!(next_tok.kind, TokenKind::RBrace) {
                    true
                } else if matches!(next_tok.kind, TokenKind::Identifier(_)) {
                    let next_next = self.peek_at(1);
                    matches!(next_next.kind, TokenKind::Colon)
                } else {
                    false
                };
                if !is_struct {
                    break;
                }
                proof {
                    if prim_case {
                        assert(expr is Identifier);
                        assert(e0 is Name);
                        assert(struct_body_ahead(toks, k));
                        assert(fields_lit_reading(toks, k + 1, (g - 1) as nat) is Some);
                    }
                }
                let ghost fk = fields_lit_reading(toks, k + 1, (g - 1) as nat).unwrap();
                let ghost mut fg: nat = (g - 1) as nat;
                self.next_token();
                let mut fields: Vec<(String, Expression)> = Vec::new();
                proof {
                    if prim_case {
                        assert(fk.0.take(0) =~= Seq::<(Seq<char>, ExprShape)>::empty());
                        assert(fk.0.skip(0) =~= fk.0);
                    }
                }
                while !self.cur_is(TokenKind::RBrace) && !self.at_eof()
                    invariant
                        consumed(*self, *old(self)),
                        self.rem() < iter_rem,
                        self.errors@ == old(self).errors@,
                        toks == self.stream(),
                        prim_case ==> (fields_lit_reading(toks, self.pos(), fg) matches Some(rest)
                            && rest.1 == fk.1 && fields@.len() <= fk.0.len()
                            && rest.0 == fk.0.skip(fields@.len() as int)
                            && fields_match(fields@, fk.0.take(fields@.len() as int))),
                    ensures
                        consumed(*self, *old(self)),
                        self.rem() < iter_rem,
                        self.errors@ == old(self).errors@,
                        toks == self.stream(),
                        prim_case ==> (fields_lit_reading(toks, self.pos(), fg) matches Some(rest)
                            && rest.1 == fk.1 && fields@.len() <= fk.0.len()
                            && rest.0 == fk.0.skip(fields@.len() as int)
                            && fields_match(fields@, fk.0.take(fields@.len() as int))
                            && toks[self.pos()].kind is RBrace),
                    decreases self.rem(),
                {
                    proof { self.lemma_eof(); }
                    let ghost pj = self.pos();
                    let ghost rest0 = fields_lit_reading(toks, pj, fg).unwrap();
                    let ghost nf = fields@.len();
                    let f_name = match self.cur_ident() {
                        Some(f) => f,
                        None => {
                            break;
                        },
                    };
                    self.next_token();
                    if self.cur_is(TokenKind::Colon) {
                        proof { self.lemma_eof(); }
                        self.next_token();
                        let value = self.parse_expression();
                        proof {
                            if prim_case {
                                assert(toks[pj].kind == TokenKind::Identifier(f_name));
                                assert(infix_reading(toks, pj + 2, 0, (fg - 1) as nat) is Some);
                            }
                        }
                        let ghost before = fields@;
                        fields.push((f_name, value));
                        proof {
                            if prim_case {
                                let xk = infix_reading(toks, pj + 2, 0, (fg - 1) as nat).unwrap();
                                assert(rest0.0[0] == (f_name@, xk.0));
                                assert(fk.0[nf as int] == rest0.0[0]) by {
                                    assert(fk.0.skip(nf as int)[0] == fk.0[nf as int]);
                                }
                                assert forall|q: int| 0 <= q < fields@.len() implies (#[trigger] fields@[q]).0@
                                    == fk.0.take(fields@.len() as int)[q].0
                                    && expr_matches(fields@[q].1, fk.0.take(fields@.len() as int)[q].1) by {
                                    if q < nf {
                                        assert(fields@[q] == before[q]);
                                        assert(fk.0.take(fields@.len() as int)[q] == fk.0.take(nf as int)[q]);
                                    }
                                }
                            }
                        }
                    } else {
                        break;
                    }
                    if self.cur_is(TokenKind::Comma) {
                        proof { self.lemma_eof(); }
                        self.next_token();
                        proof {
                            if prim_case {
                                let xk = infix_reading(toks, pj + 2, 0, (fg - 1) as nat).unwrap();
                                let rest1 = fields_lit_reading(toks, xk.1 + 1, (fg - 1) as nat).unwrap();
                                assert(rest0.0 == seq![(f_name@, xk.0)] + rest1.0);
                                assert(rest1.0 =~= fk.0.skip(fields@.len() as int)) by {
                                    assert forall|q: int| 0 <= q < rest1.0.len() implies rest1.0[q] == fk.0.skip(fields@.len() as int)[q] by {
                                        assert(rest0.0[q + 1] == rest1.0[q]);
                                        assert(rest0.0[q + 1] == fk.0.skip(nf as int)[q + 1]);
                                    }
                                }
                                fg = (fg - 1) as nat;
                            }
                        }
                    } else if !self.cur_is(TokenKind::RBrace) {
                        break;
                    } else {
                        proof {
                            if prim_case {
                                let xk = infix_reading(toks, pj + 2, 0, (fg - 1) as nat).unwrap();
                                assert(rest0.0 =~= seq![(f_name@, xk.0)]);
                                assert(fk.0.skip(fields@.len() as int) =~= Seq::<(Seq<char>, ExprShape)>::empty()) by {
                                    assert(fk.0.skip(nf as int).len() == 1);
                                }
                                assert(fields_lit_reading(toks, self.pos(), fg) == Some((Seq::<(Seq<char>, ExprShape)>::empty(), self.pos() + 1)));
                            }
                        }
                    }
                }
                proof {
                    if prim_case {
                        self.lemma_eof();
                        let rest = fields_lit_reading(toks, self.pos(), fg).unwrap();
                        assert(rest.0.len() == 0);
                        assert(rest.1 == self.pos() + 1);
                    }
                }
                if self.cur_is(TokenKind::RBrace) {
                    self.next_token();
                }
                let (name, generic_args, sp) = match expr {
                    Expression::Identifier(n, sp) => (n, Vec::new(), sp),
                    Expression::TypeRef { name, generic_args, span: sp } => (name, generic_args, sp),
                    _ => ("unknown_struct".to_owned(), Vec::new(), start),
                };
                expr = Expression::StructInst { name, generic_args, fields, span: sp };
                proof {
                    if prim_case {
                        assert(fk.0.skip(fields@.len() as int).len() == 0);
                        assert(fk.0.take(fields@.len() as int) =~= fk.0);
                        eshape = ExprShape::StructLit(e0->Name_0, fk.0, e0->Name_1);
                        g = (g - 1) as nat;
                        assert(self.pos() == fk.1);
                        assert(expr_matches(expr, eshape));
                    }
                }
            } else if self.cur_is(TokenKind::Lt) {
                match expr {
                    Expression::Identifier(name, sp) => {
                        let generic_args = self.parse_generic_args();
                        if generic_args.len() > 0 {
                            expr = Expression::TypeRef { name, generic_args, span: sp };
                        } else {
                            expr = Expression::Identifier(name, sp);
                            break;
                        }
                    },
                    other => {
                        expr = other;
                        break;
                    },
                }
            } else {
                break;
            }
        }
        proof {
            if prim_case {
                assert forall|fuel: nat| #[trigger] primary_reading(toks, p0, fuel) is Some
                    implies expr_matches(expr, primary_reading(toks, p0, fuel).unwrap().0)
                        && self.pos() == primary_reading(toks, p0, fuel).unwrap().1 by {
                    lemma_primary_unique(toks, p0, pf, fuel);
                }
            }
        }
        expr
    }

    /// Statements up to and including `}` (the `{` is consumed if present);
    /// stray `;` and documentation comments are skipped.
    #[verifier::spinoff_prover]
    #[verifier::rlimit(40)]
    fn parse_block(&mut self) -> (stmts: Vec<Statement>)
        requires
            old(self).wf(),
        ensures
            consumed(*final(self), *old(self)),
            final(self).errors@ == old(self).errors@,
            forall|fuel: nat| #[trigger] block_reading(old(self).stream(), old(self).pos(), fuel) is Some
                ==> stmts_match(stmts@, block_reading(old(self).stream(), old(self).pos(), fuel).unwrap().0)
                    && final(self).pos() == block_reading(old(self).stream(), old(self).pos(), fuel).unwrap().1,
        decreases old(self).rem(), if old(self).cur().kind is LBrace { 0nat } else { 10nat },
    {
        proof { self.lemma_eof(); }
        let ghost toks = old(self).stream();
        let ghost p0 = old(self).pos();
        let ghost readable = exists|f: nat| #[trigger] block_reading(toks, p0, f) is Some;
        let ghost f0: nat = choose|f: nat| #[trigger] block_reading(toks, p0, f) is Some;
        let ghost target = block_reading(toks, p0, f0).unwrap();
        proof {
            if readable {
                lemma_stmts_unique(toks, p0 + 1, f0);
            }
        }
        let ghost mut g: nat = f0;
        let mut stmts: Vec<Statement> = Vec::new();
        if self.cur_is(TokenKind::LBrace) {
            self.next_token();
        }
        while !self.cur_is(TokenKind::RBrace) && !self.at_eof()
            invariant
                advanced(*self, *old(self)),
                old(self).cur().kind is LBrace ==> self.rem() < old(self).rem(),
                self.errors@ == old(self).errors@,
                toks == self.stream(),
                readable ==> (stmts_reading(toks, self.pos(), g) matches Some(rest)
                    && stmts@.len() + rest.0.len() == target.0.len()
                    && stmts_match(stmts@, target.0.subrange(0, stmts@.len() as int))
                    && rest.0 == target.0.subrange(stmts@.len() as int, target.0.len() as int)
                    && rest.1 == target.1),
            decreases self.rem(),
        {
            proof { self.lemma_eof(); }
            let ghost rest0 = stmts_reading(toks, self.pos(), g);
            let ghost before = stmts@;
            if self.cur_is(TokenKind::Semicolon) {
                self.next_token();
                proof {
                    if readable {
                        g = (g - 1) as nat;
                    }
                }
                continue;
            }
            if matches!(self.current().kind, TokenKind::DocComment(_)) {
                self.next_token();
                proof {
                    if readable {
                        g = (g - 1) as nat;
                    }
                }
                continue;
            }
            let ghost here = self.pos();
            match self.parse_statement() {
                Some(st) => {
                    stmts.push(st);
                },
                None => {
                    self.next_token();
                },
            }
            proof {
                if readable {
                    assert(stmt_reading(toks, here, (g - 1) as nat) is Some);
                }
            }
            if self.cur_is(TokenKind::Semicolon) {
                proof { self.lemma_eof(); }
                self.next_token();
            }
            proof {
                if readable {
                    let sk = stmt_reading(toks, here, (g - 1) as nat).unwrap();
                    let rest1 = stmts_reading(toks, skip_semicolon(toks, sk.1), (g - 1) as nat).unwrap();
                    let total = target.0;
                    assert(rest0.unwrap().0 == seq![sk.0] + rest1.0);
                    assert(total[before.len() as int] == sk.0) by {
                        assert(rest0.unwrap().0[0] == total.subrange(before.len() as int, total.len() as int)[0]);
                    }
                    assert(rest1.0 =~= total.subrange(stmts@.len() as int, total.len() as int)) by {
                        assert forall|k: int| 0 <= k < rest1.0.len() implies rest1.0[k]
                            == total.subrange(stmts@.len() as int, total.len() as int)[k] by {
                            assert(rest0.unwrap().0[k + 1] == rest1.0[k]);
                            assert(rest0.unwrap().0[k + 1] == total.subrange(before.len() as int, total.len() as int)[k + 1]);
                        }
                    }
                    assert forall|i: int| 0 <= i < stmts@.len() implies stmt_matches(#[trigger] stmts@[i],
                        total.subrange(0, stmts@.len() as int)[i]) by {
                        if i < before.len() {
                            assert(stmts@[i] == before[i]);
                            assert(total.subrange(0, stmts@.len() as int)[i] == total.subrange(0, before.len() as int)[i]);
                        }
                    }
                    g = (g - 1) as nat;
                }
            }
        }
        proof {
            if readable {
                self.lemma_eof();
                assert(stmts_reading(toks, self.pos(), g).unwrap().0.len() == 0);
                assert(target.0.subrange(0, stmts@.len() as int) =~= target.0);
            }
        }
        if self.cur_is(TokenKind::RBrace) {
            proof { self.lemma_eof(); }
            self.next_token();
        }
        proof {
            if readable {
                assert forall|fuel: nat| #[trigger] block_reading(toks, p0, fuel) is Some
                    implies stmts_match(stmts@, block_reading(toks, p0, fuel).unwrap().0)
                        && self.pos() == block_reading(toks, p0, fuel).unwrap().1 by {
                    assert(block_reading(toks, p0, fuel) == stmts_reading(toks, p0 + 1, fuel));
                    assert(block_reading(toks, p0, f0) == stmts_reading(toks, p0 + 1, f0));
                }
            }
        }
        stmts
    }

    /// An `if` statement at the current token, with its `else` part.
    #[verifier::spinoff_prover]
    #[verifier::rlimit(60)]
    fn parse_if_statement(&mut self, start: Span) -> (st: Option<Statement>)
        requires
            old(self).wf(),
            old(self).cur().kind is If,
            start == span_of(old(self).cur()),
        ensures
            consumed(*final(self), *old(self)),
            final(self).errors@ == old(self).errors@,
            forall|fuel: nat| #[trigger] stmt_reading(old(self).stream(), old(self).pos(), fuel) is Some
                ==> (st matches Some(s) && stmt_matches(s, stmt_reading(old(self).stream(), old(self).pos(), fuel).unwrap().0)
                    && final(self).pos() == stmt_reading(old(self).stream(), old(self).pos(), fuel).unwrap().1),
        decreases old(self).rem(), 3nat,
    {
        proof { self.lemma_eof(); }
        let ghost toks = old(self).stream();
        let ghost p0 = old(self).pos();
        let ghost readable = exists|f: nat| #[trigger] stmt_reading(toks, p0, f) is Some;
        let ghost f0: nat = choose|f: nat| #[trigger] stmt_reading(toks, p0, f) is Some;
        proof {
            if readable {
                lemma_stmt_unique(toks, p0, f0);
            }
        }
        self.next_token();
        let condition = self.parse_expression();
        let ghost ck = infix_reading(toks, p0 + 1, 0, f0);
        proof {
            if readable {
                assert(ck is Some);
                assert(block_reading(toks, ck.unwrap().1, (f0 - 1) as nat) is Some);
            }
        }
        let then_branch = self.parse_block();
        let ghost k2 = self.pos();
        let mut else_branch: Option<Vec<Statement>> = None;
        if self.cur_is(TokenKind::Else) {
            proof { self.lemma_eof(); }
            self.next_token();
            if self.cur_is(TokenKind::If) {
                proof {
                    if readable {
                        assert(stmt_reading(toks, k2 + 1, (f0 - 1) as nat) is Some);
                    }
                }
                if let Some(if_stmt) = self.parse_statement() {
                    let mut v: Vec<Statement> = Vec::new();
                    v.push(if_stmt);
                    proof {
                        if readable {
                            let sk = stmt_reading(toks, k2 + 1, (f0 - 1) as nat).unwrap();
                            assert(stmts_match(v@, seq![sk.0]));
                        }
                    }
                    else_branch = Some(v);
                }
            } else {
                proof {
                    if readable {
                        assert(block_reading(toks, k2 + 1, (f0 - 1) as nat) is Some);
                    }
                }
                else_branch = Some(self.parse_block());
            }
        }
        return Some(Statement::If { condition, then_branch, else_branch, span: start });
    }

    /// `unsafe { ... }` or `spawn { ... }` at the current token; `None`
    /// when no block follows the keyword (which stays consumed).
    #[verifier::spinoff_prover]
    #[verifier::rlimit(60)]
    fn parse_guarded_block(&mut self, start: Span) -> (st: Option<Statement>)
        requires
            old(self).wf(),
            old(self).cur().kind is Unsafe || old(self).cur().kind is Spawn,
            start == span_of(old(self).cur()),
        ensures
            consumed(*final(self), *old(self)),
            final(self).errors@ == old(self).errors@,
            forall|fuel: nat| #[trigger] stmt_reading(old(self).stream(), old(self).pos(), fuel) is Some
                ==> (st matches Some(s) && stmt_matches(s, stmt_reading(old(self).stream(), old(self).pos(), fuel).unwrap().0)
                    && final(self).pos() == stmt_reading(old(self).stream(), old(self).pos(), fuel).unwrap().1),
        decreases old(self).rem(), 3nat,
    {
        proof { self.lemma_eof(); }
        let ghost toks = old(self).stream();
        let ghost p0 = old(self).pos();
        let ghost readable = exists|f: nat| #[trigger] stmt_reading(toks, p0, f) is Some;
        let ghost f0: nat = choose|f: nat| #[trigger] stmt_reading(toks, p0, f) is Some;
        proof {
            if readable {
                lemma_stmt_unique(toks, p0, f0);
            }
        }
        let is_unsafe = self.cur_is(TokenKind::Unsafe);
        self.next_token();
        if self.cur_is(TokenKind::LBrace) {
            proof {
                if readable {
                    assert(block_reading(toks, p0 + 1, (f0 - 1) as nat) is Some);
                }
            }
            let body = self.parse_block();
            if is_unsafe {
                return Some(Statement::UnsafeBlock(body, start));
            } else {
                return Some(Statement::Spawn(body, start));
            }
        }
        None
    }

    /// A statement, or `None` when a `let`, `match`, `unsafe` or `spawn`
    /// statement is malformed (the tokens read so far stay consumed).
    #[verifier::spinoff_prover]
    #[verifier::rlimit(100)]
    fn parse_statement(&mut self) -> (st: Option<Statement>)
        requires
            old(self).wf(),
        ensures
            consumed(*final(self), *old(self)),
            final(self).errors@ == old(self).errors@,
            forall|fuel: nat| #[trigger] stmt_reading(old(self).stream(), old(self).pos(), fuel) is Some
                ==> (st matches Some(s) && stmt_matches(s, stmt_reading(old(self).stream(), old(self).pos(), fuel).unwrap().0)
                    && final(self).pos() == stmt_reading(old(self).stream(), old(self).pos(), fuel).unwrap().1),
        decreases old(self).rem(), 4nat,
    {
        proof { self.lemma_eof(); }
        let ghost toks = old(self).stream();
        let ghost p0 = old(self).pos();
        let ghost readable = exists|f: nat| #[trigger] stmt_reading(toks, p0, f) is Some;
        let ghost f0: nat = choose|f: nat| #[trigger] stmt_reading(toks, p0, f) is Some;
        proof {
            if readable {
                lemma_stmt_unique(toks, p0, f0);
            }
        }
        let start = self.span_here();
        if self.cur_is(TokenKind::DoubleColon) {
            let nxt = self.peek_at(0);
            if matches!(nxt.kind, TokenKind::Intent) {
                self.next_token();
                self.next_token();
                if matches!(self.current().kind, TokenKind::StringLiteral(_)) {
                    self.next_token();
                }
                return Some(Statement::NoOp);
            }
            let e = self.parse_expression();
            return Some(Statement::ExpressionStmt(e, start));
        }
        if self.cur_is(TokenKind::Let) {
            self.next_token();
            let is_mut = if self.cur_is(TokenKind::Mut) {
                proof { self.lemma_eof(); }
                self.next_token();
                true
            } else {
                false
            };
            let name = match self.cur_ident() {
                Some(n) => n,
                None => {
                    return None;
                },
            };
            self.next_token();
            if self.cur_is(TokenKind::Eq) {
                proof { self.lemma_eof(); }
                self.next_token();
                let value = self.parse_expression();
                if self.cur_is(TokenKind::Semicolon) {
                    proof { self.lemma_eof(); }
                    self.next_token();
                }
                return Some(Statement::Let { name, value, explicit_type: None, intent: None, is_mut, span: start });
            }
            return None;
        }
        if self.cur_is(TokenKind::Return) {
            self.next_token();
            let value = if self.cur_is(TokenKind::Semicolon) || self.cur_is(TokenKind::RBrace) {
                Expression::Integer(0, start)
            } else {
                self.parse_expression()
            };
            if self.cur_is(TokenKind::Semicolon) {
                proof { self.lemma_eof(); }
                self.next_token();
            }
            return Some(Statement::Return { value, intent: None, span: start });
        }
        if self.cur_is(TokenKind::If) {
            return self.parse_if_statement(start);
        }
        if self.cur_is(TokenKind::While) {
            self.next_token();
            let condition = self.parse_expression();
            proof {
                if readable {
                    let ck = infix_reading(toks, p0 + 1, 0, f0);
                    assert(ck is Some);
                    assert(block_reading(toks, ck.unwrap().1, (f0 - 1) as nat) is Some);
                }
            }
            let body = self.parse_block();
            return Some(Statement::While { condition, body, span: start });
        }
        if self.cur_is(TokenKind::Match) {
            self.next_token();
            let condition = self.parse_expression();
            proof {
                if readable {
                    assert(infix_reading(toks, p0 + 1, 0, f0) is Some);
                }
            }
            if !self.cur_is(TokenKind::LBrace) {
                return None;
            }
            proof { self.lemma_eof(); }
            self.next_token();
            proof {
                if readable {
                    let ck = infix_reading(toks, p0 + 1, 0, f0).unwrap();
                    assert(arms_reading(toks, ck.1 + 1, (f0 - 1) as nat) is Some);
                    lemma_arms_end(toks, ck.1 + 1, (f0 - 1) as nat);
                }
            }
            let arms = self.parse_match_arms();
            if self.cur_is(TokenKind::RBrace) {
                proof { self.lemma_eof(); }
                self.next_token();
            }
            return Some(Statement::Match { condition, arms, span: start });
        }
        if self.cur_is(TokenKind::Unsafe) || self.cur_is(TokenKind::Spawn) {
            return self.parse_guarded_block(start);
        }
        let expr = self.parse_expression();
        if self.cur_is(TokenKind::Eq) {
            proof { self.lemma_eof(); }
            self.next_token();
            let value = self.parse_expression();
            if self.cur_is(TokenKind::Semicolon) {
                proof { self.lemma_eof(); }
                self.next_token();
            }
            Some(Statement::Assignment { target: expr, value, span: start })
        } else {
            if self.cur_is(TokenKind::Semicolon) {
                proof { self.lemma_eof(); }
                self.next_token();
            }
            Some(Statement::ExpressionStmt(expr, start))
        }
    }

    /// The text of an arm's pattern: a name or path (with struct field
    /// bindings `{f: x, ...}` written as `_{f:x,...}` after the name), an
    /// integer or integer range, or a string literal in quotes; `None`, with
    /// the token skipped, for anything else.
    #[verifier::spinoff_prover]
    #[verifier::rlimit(60)]
    fn parse_arm_pattern(&mut self) -> (r: Option<String>)
        requires
            old(self).wf(),
            old(self).rem() > 0,
        ensures
            consumed(*final(self), *old(self)),
            final(self).errors@ == old(self).errors@,
            arrow_pattern(old(self).stream(), old(self).pos()) is Some ==> (r matches Some(s)
                && s@ == arrow_pattern(old(self).stream(), old(self).pos()).unwrap().0
                && final(self).pos() == arrow_pattern(old(self).stream(), old(self).pos()).unwrap().1),
    {
        proof { self.lemma_eof(); }
        let ghost toks = old(self).stream();
        let ghost here = old(self).pos();
        let ghost ok = arrow_pattern(toks, here) is Some;
        let kind = self.current().kind.duplicate();
        match kind {
            TokenKind::Identifier(p) => {
                self.next_token();
                let mut pat: Vec<char> = Vec::new();
                push_str_chars(&mut pat, p.as_str());
                let ghost ppk = pattern_path(toks, here + 1, p@);
                let mut struct_fields: Vec<char> = Vec::new();
                let mut n_fields: usize = 0;
                if self.cur_is(TokenKind::LBrace) {
                    proof {
                        assert(ppk == (p@, here + 1));
                        assert(!ok);
                        self.lemma_eof();
                    }
                    self.next_token();
                    while !self.cur_is(TokenKind::RBrace) && !self.at_eof()
                        invariant
                            advanced(*self, *old(self)),
                            self.rem() < old(self).rem(),
                            self.errors@ == old(self).errors@,
                        decreases self.rem(),
                    {
                        let mut progressed = false;
                        if let Some(field_name) = self.cur_ident() {
                            self.next_token();
                            progressed = true;
                            if self.cur_is(TokenKind::Colon) {
                                proof { self.lemma_eof(); }
                                self.next_token();
                                if let Some(var_name) = self.cur_ident() {
                                    if n_fields > 0 {
                                        struct_fields.push(',');
                                    }
                                    push_str_chars(&mut struct_fields, field_name.as_str());
                                    struct_fields.push(':');
                                    push_str_chars(&mut struct_fields, var_name.as_str());
                                    n_fields = if n_fields < usize::MAX { n_fields + 1 } else { n_fields };
                                    self.next_token();
                                }
                            }
                        }
                        if self.cur_is(TokenKind::Comma) {
                            proof { self.lemma_eof(); }
                            self.next_token();
                            progressed = true;
                        }
                        if !progressed {
                            break;
                        }
                    }
                    if self.cur_is(TokenKind::RBrace) {
                        self.next_token();
                    }
                }
                if n_fields > 0 {
                    pat.push('_');
                    pat.push('{');
                    push_slice(&mut pat, &struct_fields);
                    pat.push('}');
                }
                while self.cur_is(TokenKind::DoubleColon) || self.cur_is(TokenKind::Dot)
                    invariant
                        advanced(*self, *old(self)),
                        self.rem() < old(self).rem(),
                        self.errors@ == old(self).errors@,
                        toks == self.stream(),
                        ok ==> pattern_path(toks, self.pos(), pat@) == ppk && 0 <= ppk.1 < toks.len()
                            && toks[ppk.1].kind is Arrow,
                    ensures
                        ok ==> pattern_path(toks, self.pos(), pat@) == (pat@, self.pos()),
                    decreases self.rem(),
                {
                    proof { self.lemma_eof(); }
                    let ghost k = self.pos();
                    let ghost pat0 = pat@;
                    let is_path = self.cur_is(TokenKind::DoubleColon);
                    self.next_token();
                    if let Some(sub) = self.cur_ident() {
                        if is_path {
                            pat.push(':');
                            pat.push(':');
                        } else {
                            pat.push('.');
                        }
                        push_str_chars(&mut pat, sub.as_str());
                        self.next_token();
                        proof {
                            assert(pat@ =~= pat0 + (if toks[k].kind is DoubleColon { seq![':', ':'] } else { seq!['.'] })
                                + sub@);
                        }
                    } else {
                        break;
                    }
                }
                Some(string_from_chars(&pat))
            },
            TokenKind::IntLiteral(n) => {
                let mut pat = i64_text(n);
                self.next_token();
                if self.cur_is(TokenKind::Range) {
                    proof {
                        assert(!ok);
                        self.lemma_eof();
                    }
                    self.next_token();
                    if let TokenKind::IntLiteral(end_n) = self.current().kind {
                        pat.push('.');
                        pat.push('.');
                        let e = i64_text(end_n);
                        push_slice(&mut pat, &e);
                        self.next_token();
                    }
                }
                Some(string_from_chars(&pat))
            },
            TokenKind::StringLiteral(sl) => {
                let pattern = joined("\"", sl.as_str(), "\"");
                self.next_token();
                Some(pattern)
            },
            _ => {
                self.next_token();
                None
            },
        }
    }

    /// The arms of a `match`, up to (not including) its `}`.
    #[verifier::spinoff_prover]
    #[verifier::rlimit(100)]
    fn parse_match_arms(&mut self) -> (arms: Vec<MatchArm>)
        requires
            old(self).wf(),
        ensures
            advanced(*final(self), *old(self)),
            final(self).errors@ == old(self).errors@,
            final(self).rem() == 0 || final(self).cur().kind is RBrace,
            (old(self).rem() == 0 || old(self).cur().kind is RBrace) ==> arms@.len() == 0 && final(self).pos() == old(self).pos(),
            forall|i: int| 0 <= i < arms@.len() ==> (#[trigger] arms@[i]).patterns@.len() > 0 || arms@[i].params@.len() > 0,
            forall|i: int| 0 <= i < arms@.len() && (#[trigger] arms@[i]).patterns@.len() > 0
                ==> arms@[i].patterns@[0]@ == arms@[i].pattern@,
            forall|fuel: nat| #[trigger] arms_reading(old(self).stream(), old(self).pos(), fuel) is Some
                ==> arms_match(arms@, arms_reading(old(self).stream(), old(self).pos(), fuel).unwrap().0)
                    && final(self).pos() == arms_reading(old(self).stream(), old(self).pos(), fuel).unwrap().1,
        decreases old(self).rem(), 5nat,
    {
        let ghost toks = old(self).stream();
        let ghost p0 = old(self).pos();
        let ghost readable = exists|f: nat| #[trigger] arms_reading(toks, p0, f) is Some;
        let ghost f0: nat = choose|f: nat| #[trigger] arms_reading(toks, p0, f) is Some;
        let ghost target = arms_reading(toks, p0, f0).unwrap();
        proof {
            if readable {
                lemma_arms_unique(toks, p0, f0);
            }
        }
        let ghost mut g: nat = f0;
        let mut arms: Vec<MatchArm> = Vec::new();
        proof {
            if old(self).rem() > 0 && !(old(self).cur().kind is RBrace) {
                assert(!token_kind_eq(old(self).cur().kind, TokenKind::RBrace));
            }
        }
        while !self.cur_is(TokenKind::RBrace) && !self.at_eof()
            invariant
                advanced(*self, *old(self)),
                self.errors@ == old(self).errors@,
                (old(self).rem() == 0 || old(self).cur().kind is RBrace) ==> self.pos() == old(self).pos() && arms@.len() == 0,
                forall|i: int| 0 <= i < arms@.len() ==> (#[trigger] arms@[i]).patterns@.len() > 0 || arms@[i].params@.len() > 0,
                forall|i: int| 0 <= i < arms@.len() && (#[trigger] arms@[i]).patterns@.len() > 0
                    ==> arms@[i].patterns@[0]@ == arms@[i].pattern@,
                toks == self.stream(),
                readable ==> (arms_reading(toks, self.pos(), g) matches Some(rest)
                    && arms@.len() + rest.0.len() == target.0.len()
                    && arms_match(arms@, target.0.subrange(0, arms@.len() as int))
                    && rest.0 == target.0.subrange(arms@.len() as int, target.0.len() as int)
                    && rest.1 == target.1),
            decreases self.rem(),
        {
            proof { self.lemma_eof(); }
            let ghost iter_rem = self.rem();
            let ghost here = self.pos();
            let ghost before = arms@;
            let ghost rest0 = arms_reading(toks, here, g);
            let ghost ak = arm_reading(toks, here, (g - 1) as nat).unwrap();
            let ghost pk = pattern_reading(toks, here).unwrap();
            proof {
                if readable {
                    assert(!(toks[here].kind is RBrace));
                    assert(arm_reading(toks, here, (g - 1) as nat) is Some);
                    assert(pattern_reading(toks, here) is Some);
                    assert(toks[pk.1].kind is Arrow);
                }
            }
            let parsed = self.parse_arm_pattern();
            if let Some(pattern) = parsed {
                let mut patterns: Vec<String> = Vec::new();
                patterns.push(pattern.clone());
                while self.cur_is(TokenKind::Pipe)
                    invariant
                        advanced(*self, *old(self)),
                        self.rem() < iter_rem,
                        self.errors@ == old(self).errors@,
                        patterns@.len() > 0,
                        patterns@[0]@ == pattern@,
                        toks == self.stream(),
                        readable ==> self.pos() == pk.1 && patterns@.len() == 1 && 0 <= pk.1 < toks.len()
                            && toks[pk.1].kind is Arrow,
                    decreases self.rem(),
                {
                    proof { self.lemma_eof(); }
                    self.next_token();
                    let k = self.current().kind.duplicate();
                    match k {
                        TokenKind::Identifier(p) => {
                            patterns.push(p);
                            self.next_token();
                        },
                        TokenKind::IntLiteral(n) => {
                            let t = i64_text(n);
                            patterns.push(string_from_chars(&t));
                            self.next_token();
                        },
                        TokenKind::StringLiteral(sl) => {
                            patterns.push(joined("\"", sl.as_str(), "\""));
                            self.next_token();
                        },
                        _ => {
                            break;
                        },
                    }
                }
                let mut params: Vec<String> = Vec::new();
                if patterns.len() == 1 {
                    let followed = self.cur_is(TokenKind::If) || self.cur_is(TokenKind::Arrow);
                    if followed && is_binding_name(patterns[0].as_str()) {
                        params.push(patterns[0].clone());
                        patterns.clear();
                    }
                }
                if self.cur_is(TokenKind::LParen) {
                    proof {
                        assert(!readable);
                        self.lemma_eof();
                    }
                    self.next_token();
                    while !self.cur_is(TokenKind::RParen) && !self.at_eof()
                        invariant
                            advanced(*self, *old(self)),
                            self.rem() < iter_rem,
                            self.errors@ == old(self).errors@,
                            patterns@.len() > 0 || params@.len() > 0,
                            patterns@.len() > 0 ==> patterns@[0]@ == pattern@,
                        decreases self.rem(),
                    {
                        if let Some(param) = self.cur_ident() {
                            params.push(param);
                        }
                        self.next_token();
                        if self.cur_is(TokenKind::Comma) {
                            proof { self.lemma_eof(); }
                            self.next_token();
                        }
                    }
                    if self.cur_is(TokenKind::RParen) {
                        self.next_token();
                    }
                }
                let guard = if self.cur_is(TokenKind::If) {
                    proof {
                        assert(!readable);
                        self.lemma_eof();
                    }
                    self.next_token();
                    let g = self.parse_expression();
                    Some(Box::new(g))
                } else {
                    None
                };
                if self.cur_is(TokenKind::Arrow) {
                    proof { self.lemma_eof(); }
                    self.next_token();
                    let ghost bpos = self.pos();
                    let body = if self.cur_is(TokenKind::LBrace) {
                        proof {
                            if readable {
                                assert(block_reading(toks, bpos, (g - 1) as nat) is Some);
                            }
                        }
                        self.parse_block()
                    } else {
                        proof {
                            if readable {
                                assert(stmt_reading(toks, bpos, (g - 1) as nat) is Some);
                            }
                        }
                        match self.parse_statement() {
                            Some(st) => {
                                let mut v: Vec<Statement> = Vec::new();
                                v.push(st);
                                proof {
                                    if readable {
                                        assert(stmts_match(v@, ak.0.1));
                                    }
                                }
                                v
                            },
                            None => Vec::new(),
                        }
                    };
                    let arm = MatchArm { pattern, patterns, guard, params, body };
                    proof {
                        if readable {
                            assert(arm_matches(arm, ak.0));
                            assert(self.pos() == ak.1);
                        }
                    }
                    arms.push(arm);
                    assert forall|i: int| 0 <= i < arms@.len() - 1 implies arms@[i] == before[i] by {}
                } else {
                    proof { assert(!readable); }
                }
            } else {
                proof { assert(!readable); }
            }
            if self.cur_is(TokenKind::Comma) {
                proof { self.lemma_eof(); }
                self.next_token();
            }
            proof {
                if readable {
                    assert(self.pos() == skip_comma(toks, ak.1));
                    let rest1 = arms_reading(toks, skip_comma(toks, ak.1), (g - 1) as nat).unwrap();
                    let total = target.0;
                    assert(rest0.unwrap().0 == seq![ak.0] + rest1.0);
                    assert(total[before.len() as int] == ak.0) by {
                        assert(rest0.unwrap().0[0] == total.subrange(before.len() as int, total.len() as int)[0]);
                    }
                    assert(rest1.0 =~= total.subrange(arms@.len() as int, total.len() as int)) by {
                        assert forall|k: int| 0 <= k < rest1.0.len() implies rest1.0[k]
                            == total.subrange(arms@.len() as int, total.len() as int)[k] by {
                            assert(rest0.unwrap().0[k + 1] == rest1.0[k]);
                            assert(rest0.unwrap().0[k + 1] == total.subrange(before.len() as int, total.len() as int)[k + 1]);
                        }
                    }
                    assert forall|i: int| 0 <= i < arms@.len() implies arm_matches(#[trigger] arms@[i],
                        total.subrange(0, arms@.len() as int)[i]) by {
                        if i < before.len() {
                            assert(arms@[i] == before[i]);
                            assert(total.subrange(0, arms@.len() as int)[i] == total.subrange(0, before.len() as int)[i]);
                        }
                    }
                    g = (g - 1) as nat;
                }
            }
        }
        proof {
            self.lemma_eof();
            if readable {
                if !(toks[self.pos()].kind is RBrace) {
                    assert(self.cur().kind is EOF);
                    assert(pattern_reading(toks, self.pos()) is None);
                    if g > 0 {
                        assert(arm_reading(toks, self.pos(), (g - 1) as nat) is None);
                    }
                    assert(arms_reading(toks, self.pos(), g) is None);
                }
                assert(target.0.subrange(0, arms@.len() as int) =~= target.0);
            }
        }
        arms
    }
}


/// Whether `mods` holds an `extern` modifier.
fn has_extern(mods: &Vec<Token>) -> (b: bool)
    ensures
        b <==> exists|i: int| 0 <= i < mods@.len() && (#[trigger] mods@[i]).kind is Extern,
{
    let mut i: usize = 0;
    while i < mods.len()
        invariant
            i <= mods@.len(),
            forall|j: int| 0 <= j < i ==> !((#[trigger] mods@[j]).kind is Extern),
        decreases mods@.len() - i,
    {
        if matches!(mods[i].kind, TokenKind::Extern) {
            return true;
        }
        i = i + 1;
    }
    false
}

/// Whether `attrs` holds an attribute named `intrinsic`.
fn has_intrinsic(attrs: &Vec<(String, String)>) -> (b: bool)
    ensures
        b <==> exists|i: int| 0 <= i < attrs@.len() && (#[trigger] attrs@[i]).0@ == "intrinsic"@,
{
    let mut i: usize = 0;
    while i < attrs.len()
        invariant
            i <= attrs@.len(),
            forall|j: int| 0 <= j < i ==> (#[trigger] attrs@[j]).0@ != "intrinsic"@,
        decreases attrs@.len() - i,
    {
        if crate::text::str_eq(attrs[i].0.as_str(), "intrinsic") {
            return true;
        }
        i = i + 1;
    }
    false
}

impl Parser {
    /// Consecutive documentation comments, joined by line breaks.
    fn take_doc_comments(&mut self) -> (doc: Option<String>)
        requires
            old(self).wf(),
        ensures
            advanced(*final(self), *old(self)),
            final(self).errors@ == old(self).errors@,
            !(final(self).cur().kind is DocComment),
            doc is Some <==> old(self).cur().kind is DocComment,
            !(old(self).cur().kind is DocComment) ==> final(self).pos() == old(self).pos(),
    {
        let mut text: Vec<char> = Vec::new();
        let mut found = false;
        loop
            invariant
                advanced(*self, *old(self)),
                self.errors@ == old(self).errors@,
                found <==> self.rem() < old(self).rem(),
                !found ==> self.cur() == old(self).cur(),
                found ==> old(self).cur().kind is DocComment,
            ensures
                advanced(*self, *old(self)),
                self.errors@ == old(self).errors@,
                found <==> self.rem() < old(self).rem(),
                !found ==> self.cur() == old(self).cur(),
                found ==> old(self).cur().kind is DocComment,
                !(self.cur().kind is DocComment),
            decreases self.rem(),
        {
            proof { self.lemma_eof(); }
            let kind = self.current().kind.duplicate();
            match kind {
                TokenKind::DocComment(line) => {
                    if found {
                        text.push('\n');
                    }
                    push_str_chars(&mut text, line.as_str());
                    found = true;
                    self.next_token();
                },
                _ => {
                    break;
                },
            }
        }
        if found {
            Some(string_from_chars(&text))
        } else {
            None
        }
    }

    /// A function after its modifiers and attributes: `fn name<T>(params) -> Type { body }`.
    /// Parameters are `self`, `mut self`, `mut name: Type`, `name: Type`,
    /// `name: Type = default` or a bare `name` (of type `i64`); the return
    /// type is `void` when none is written. Without a body, an `extern` or
    /// `@intrinsic` declaration consumes its `;`.
    #[verifier::spinoff_prover]
    #[verifier::rlimit(40)]
    fn parse_function(&mut self, modifiers: Vec<Token>, attributes: Vec<(String, String)>) -> (r: Option<Function>)
        requires
            old(self).wf(),
        ensures
            consumed(*final(self), *old(self)),
            final(self).errors@ == old(self).errors@,
            r matches Some(f) ==> f.modifiers@ == modifiers@ && f.attributes@ == attributes@ && f.doc_comment is None,
            forall|fuel: nat| #[trigger] fn_reading(old(self).stream(), old(self).pos(), fuel) is Some
                ==> (r matches Some(f) && fn_matches(f, fn_reading(old(self).stream(), old(self).pos(), fuel).unwrap())
                    && final(self).pos() == fn_reading(old(self).stream(), old(self).pos(), fuel).unwrap().end),
    {
        proof { self.lemma_eof(); }
        let ghost toks = old(self).stream();
        let ghost p0 = old(self).pos();
        let ghost readable = exists|f: nat| #[trigger] fn_reading(toks, p0, f) is Some;
        let ghost f0: nat = choose|f: nat| #[trigger] fn_reading(toks, p0, f) is Some;
        let ghost shape = fn_reading(toks, p0, f0).unwrap();
        let ghost ps_total = params_reading(toks, p0 + 3);
        proof {
            reveal_strlit("void");
            if readable {
                lemma_fn_unique(toks, p0, f0);
            }
        }
        self.next_token();
        let name = match self.cur_ident() {
            Some(n) => n,
            None => {
                return None;
            },
        };
        self.next_token();
        let generic_params = self.parse_generic_params();
        let mut params: Vec<(String, String, Option<Box<Expression>>)> = Vec::new();
        if self.cur_is(TokenKind::LParen) {
            proof { self.lemma_eof(); }
            self.next_token();
            while !self.cur_is(TokenKind::RParen) && !self.at_eof()
                invariant
                    consumed(*self, *old(self)),
                    self.errors@ == old(self).errors@,
                    toks == self.stream(),
                    readable ==> (params_reading(toks, self.pos()) matches Some(rest)
                        && param_views(params@) + rest.0 == ps_total.unwrap().0 && rest.1 == ps_total.unwrap().1),
                    readable ==> forall|i: int| 0 <= i < params@.len() ==> (#[trigger] params@[i]).2 is None,
                decreases self.rem(),
            {
                proof { self.lemma_eof(); }
                let ghost before = params@;
                let ghost rest0 = params_reading(toks, self.pos());
                if self.cur_is(TokenKind::SelfToken) {
                    params.push(("self".to_owned(), "Self".to_owned(), None));
                    self.next_token();
                } else if self.cur_is(TokenKind::Mut) {
                    self.next_token();
                    if self.cur_is(TokenKind::SelfToken) {
                        proof { self.lemma_eof(); }
                        params.push(("self".to_owned(), "Self".to_owned(), None));
                        self.next_token();
                    } else if let Some(p_name) = self.cur_ident() {
                        self.next_token();
                        if self.cur_is(TokenKind::Colon) {
                            proof { self.lemma_eof(); }
                            self.next_token();
                            let ty = self.parse_type_name();
                            params.push((p_name, ty, None));
                        }
                    }
                } else if let Some(p_name) = self.cur_ident() {
                    self.next_token();
                    if self.cur_is(TokenKind::Colon) {
                        proof { self.lemma_eof(); }
                        self.next_token();
                        let param_type = self.parse_type_name();
                        let mut default_val: Option<Box<Expression>> = None;
                        if self.cur_is(TokenKind::Eq) {
                            proof { self.lemma_eof(); }
                            self.next_token();
                            let d = self.parse_expression();
                            default_val = Some(Box::new(d));
                        }
                        params.push((p_name, param_type, default_val));
                    } else {
                        params.push((p_name, "i64".to_owned(), None));
                    }
                } else {
                    self.next_token();
                }
                if self.cur_is(TokenKind::Comma) {
                    proof { self.lemma_eof(); }
                    self.next_token();
                }
                proof {
                    if readable {
                        let rest1 = params_reading(toks, self.pos()).unwrap();
                        assert(param_views(params@) =~= param_views(before).push((params@.last().0@, params@.last().1@))) by {
                            assert(params@ == before.push(params@.last()));
                        }
                        assert(rest0.unwrap().0 == seq![(params@.last().0@, params@.last().1@)] + rest1.0);
                        assert(param_views(params@) + rest1.0 =~= param_views(before) + rest0.unwrap().0);
                    }
                }
            }
            if self.cur_is(TokenKind::RParen) {
                self.next_token();
            }
            proof {
                if readable {
                    assert(param_views(params@) + Seq::empty() =~= param_views(params@));
                }
            }
        } else {
            return None;
        }
        let mut return_type = "void".to_owned();
        if self.cur_is(TokenKind::Arrow) {
            proof { self.lemma_eof(); }
            self.next_token();
            return_type = self.parse_type_name();
        }
        let mut body: Option<Vec<Statement>> = None;
        if self.cur_is(TokenKind::LBrace) {
            body = Some(self.parse_block());
        } else {
            let is_extern = has_extern(&modifiers);
            let is_intrinsic = has_intrinsic(&attributes);
            if (is_extern || is_intrinsic) && self.cur_is(TokenKind::Semicolon) {
                proof { self.lemma_eof(); }
                self.next_token();
            }
        }
        Some(Function { name, generic_params, params, return_type, body, modifiers, attributes, doc_comment: None })
    }

    /// `struct Name<T> { field: Type, ... }`; of the attributes only the names are kept.
    #[verifier::spinoff_prover]
    #[verifier::rlimit(40)]
    fn parse_struct(&mut self, attributes: Vec<(String, String)>) -> (r: Option<Struct>)
        requires
            old(self).wf(),
        ensures
            consumed(*final(self), *old(self)),
            final(self).errors@ == old(self).errors@,
            r matches Some(st) ==> st.attributes@.len() == attributes@.len() && st.doc_comment is None,
            struct_reading(old(self).stream(), old(self).pos()) matches Some(DeclShape::Record { name, fields, end })
                ==> (r matches Some(st) && st.name@ == name && st.generic_params@.len() == 0
                    && pair_views(st.fields@) == fields && final(self).pos() == end),
    {
        proof { self.lemma_eof(); }
        let ghost toks = old(self).stream();
        let ghost p0 = old(self).pos();
        let ghost readable = struct_reading(toks, p0) is Some;
        let ghost total = fields_reading(toks, p0 + 3);
        self.next_token();
        let name = match self.cur_ident() {
            Some(n) => n,
            None => {
                return None;
            },
        };
        self.next_token();
        let generic_params = self.parse_generic_params();
        if !self.cur_is(TokenKind::LBrace) {
            return None;
        }
        proof { self.lemma_eof(); }
        self.next_token();
        let mut fields: Vec<(String, String)> = Vec::new();
        while !self.cur_is(TokenKind::RBrace) && !self.at_eof()
            invariant
                consumed(*self, *old(self)),
                self.errors@ == old(self).errors@,
                toks == self.stream(),
                readable ==> (fields_reading(toks, self.pos()) matches Some(rest)
                    && pair_views(fields@) + rest.0 == total.unwrap().0 && rest.1 == total.unwrap().1),
            ensures
                consumed(*self, *old(self)),
                self.errors@ == old(self).errors@,
                toks == self.stream(),
                readable ==> (fields_reading(toks, self.pos()) matches Some(rest)
                    && pair_views(fields@) + rest.0 == total.unwrap().0 && rest.1 == total.unwrap().1),
                readable ==> self.cur().kind is RBrace,
            decreases self.rem(),
        {
            let ghost before = fields@;
            let ghost rest0 = fields_reading(toks, self.pos());
            let mut progressed = false;
            if let Some(f_name) = self.cur_ident() {
                self.next_token();
                progressed = true;
                if self.cur_is(TokenKind::Colon) {
                    proof { self.lemma_eof(); }
                    self.next_token();
                    let ty = self.parse_type_name();
                    fields.push((f_name, ty));
                }
            }
            if self.cur_is(TokenKind::Comma) {
                proof { self.lemma_eof(); }
                self.next_token();
                progressed = true;
            }
            proof {
                if readable {
                    let rest1 = fields_reading(toks, self.pos()).unwrap();
                    assert(fields@ == before.push(fields@.last()));
                    assert(pair_views(fields@) =~= pair_views(before).push((fields@.last().0@, fields@.last().1@)));
                    assert(rest0.unwrap().0 == seq![(fields@.last().0@, fields@.last().1@)] + rest1.0);
                    assert(pair_views(fields@) + rest1.0 =~= pair_views(before) + rest0.unwrap().0);
                }
            }
            if !progressed {
                break;
            }
        }
        proof {
            if readable {
                assert(pair_views(fields@) + Seq::<(Seq<char>, Seq<char>)>::empty() =~= pair_views(fields@));
                assert(pair_views(fields@) == total.unwrap().0);
            }
        }
        if self.cur_is(TokenKind::RBrace) {
            self.next_token();
        }
        let mut attrs: Vec<String> = Vec::new();
        let mut i: usize = 0;
        while i < attributes.len()
            invariant
                i <= attributes@.len(),
                attrs@.len() == i,
                forall|j: int| 0 <= j < i ==> (#[trigger] attrs@[j])@ == attributes@[j].0@,
            decreases attributes@.len() - i,
        {
            attrs.push(attributes[i].0.clone());
            i = i + 1;
        }
        Some(Struct { name, generic_params, fields, attributes: attrs, doc_comment: None })
    }

    /// `enum Name<T> { Variant, Variant(Type, ...), ... }`
    fn parse_enum(&mut self) -> (r: Option<Enum>)
        requires
            old(self).wf(),
        ensures
            consumed(*final(self), *old(self)),
            final(self).errors@ == old(self).errors@,
            r matches Some(e) ==> e.doc_comment is None,
            enum_reading(old(self).stream(), old(self).pos()) matches Some(DeclShape::Variants { name, variants, end })
                ==> (r matches Some(e) && e.name@ == name && e.generic_params@.len() == 0
                    && variant_views(e.variants@) == variants && final(self).pos() == end),
    {
        proof { self.lemma_eof(); }
        let ghost toks = old(self).stream();
        let ghost p0 = old(self).pos();
        let ghost readable = enum_reading(toks, p0) is Some;
        let ghost total = variants_reading(toks, p0 + 3);
        self.next_token();
        let name = match self.cur_ident() {
            Some(n) => n,
            None => {
                return None;
            },
        };
        self.next_token();
        let generic_params = self.parse_generic_params();
        if !self.cur_is(TokenKind::LBrace) {
            return None;
        }
        proof { self.lemma_eof(); }
        self.next_token();
        let mut variants: Vec<EnumVariant> = Vec::new();
        while !self.cur_is(TokenKind::RBrace) && !self.at_eof()
            invariant
                consumed(*self, *old(self)),
                self.errors@ == old(self).errors@,
                toks == self.stream(),
                readable ==> (variants_reading(toks, self.pos()) matches Some(rest)
                    && variant_views(variants@) + rest.0 == total.unwrap().0 && rest.1 == total.unwrap().1),
            decreases self.rem(),
        {
            proof { self.lemma_eof(); }
            let ghost iter_rem = self.rem();
            let ghost j = self.pos();
            let ghost before = variants@;
            let ghost rest0 = variants_reading(toks, j);
            if let Some(v_name) = self.cur_ident() {
                self.next_token();
                let ghost ttotal = if toks[j + 1].kind is LParen {
                    types_reading(toks, j + 2)
                } else {
                    Some((Seq::<Seq<char>>::empty(), j + 1))
                };
                let mut data_types: Vec<String> = Vec::new();
                if self.cur_is(TokenKind::LParen) {
                    proof { self.lemma_eof(); }
                    self.next_token();
                    while !self.cur_is(TokenKind::RParen) && !self.at_eof()
                        invariant
                            consumed(*self, *old(self)),
                            self.rem() < iter_rem,
                            self.errors@ == old(self).errors@,
                            toks == self.stream(),
                            readable ==> (types_reading(toks, self.pos()) matches Some(trest)
                                && crate::text::string_views(data_types@) + trest.0 == ttotal.unwrap().0
                                && trest.1 == ttotal.unwrap().1),
                        decreases self.rem(),
                    {
                        let ghost tbefore = data_types@;
                        let ghost trest0 = types_reading(toks, self.pos());
                        let ty = self.parse_type_name();
                        data_types.push(ty);
                        if self.cur_is(TokenKind::Comma) {
                            proof { self.lemma_eof(); }
                            self.next_token();
                        }
                        proof {
                            if readable {
                                let trest1 = types_reading(toks, self.pos()).unwrap();
                                assert(crate::text::string_views(data_types@)
                                    =~= crate::text::string_views(tbefore).push(data_types@.last()@));
                                assert(trest0.unwrap().0 == seq![data_types@.last()@] + trest1.0);
                                assert(crate::text::string_views(data_types@) + trest1.0
                                    =~= crate::text::string_views(tbefore) + trest0.unwrap().0);
                            }
                        }
                    }
                    proof {
                        if readable {
                            self.lemma_eof();
                            assert(crate::text::string_views(data_types@) + Seq::<Seq<char>>::empty()
                                =~= crate::text::string_views(data_types@));
                        }
                    }
                    if self.cur_is(TokenKind::RParen) {
                        self.next_token();
                    }
                }
                proof {
                    if readable {
                        assert(crate::text::string_views(data_types@) == ttotal.unwrap().0);
                        assert(self.pos() == ttotal.unwrap().1);
                    }
                }
                variants.push(EnumVariant { name: v_name, data_types });
            } else if !self.cur_is(TokenKind::Comma) {
                self.next_token();
            }
            if self.cur_is(TokenKind::Comma) {
                proof { self.lemma_eof(); }
                self.next_token();
            }
            proof {
                if readable {
                    let rest1 = variants_reading(toks, self.pos()).unwrap();
                    let last = variants@.last();
                    assert(variants@ == before.push(last));
                    assert(variant_views(variants@) =~= variant_views(before).push(
                        (last.name@, crate::text::string_views(last.data_types@))));
                    assert(rest0.unwrap().0 == seq![(last.name@, crate::text::string_views(last.data_types@))] + rest1.0);
                    assert(variant_views(variants@) + rest1.0 =~= variant_views(before) + rest0.unwrap().0);
                }
            }
        }
        proof {
            if readable {
                self.lemma_eof();
                assert(variant_views(variants@) + Seq::<(Seq<char>, Seq<Seq<char>>)>::empty() =~= variant_views(variants@));
            }
        }
        if self.cur_is(TokenKind::RBrace) {
            self.next_token();
        }
        Some(Enum { name, generic_params, variants, doc_comment: None })
    }

    /// `interface Name { fn method(...) -> T; ... }`
    fn parse_interface(&mut self) -> (r: Option<Interface>)
        requires
            old(self).wf(),
        ensures
            consumed(*final(self), *old(self)),
            final(self).errors@ == old(self).errors@,
    {
        proof { self.lemma_eof(); }
        self.next_token();
        let name = match self.cur_ident() {
            Some(n) => n,
            None => {
                return None;
            },
        };
        self.next_token();
        if !self.cur_is(TokenKind::LBrace) {
            return None;
        }
        proof { self.lemma_eof(); }
        self.next_token();
        let mut methods: Vec<Function> = Vec::new();
        while !self.cur_is(TokenKind::RBrace) && !self.at_eof()
            invariant
                consumed(*self, *old(self)),
                self.errors@ == old(self).errors@,
            decreases self.rem(),
        {
            let ghost iter_rem = self.rem();
            let doc = self.take_doc_comments();
            if doc.is_some() && (self.cur_is(TokenKind::RBrace) || self.at_eof()) {
                break;
            }
            proof { self.lemma_eof(); }
            if let Some(mut f) = self.parse_function(Vec::new(), Vec::new()) {
                f.doc_comment = doc;
                methods.push(f);
            }
            if self.cur_is(TokenKind::Semicolon) {
                proof { self.lemma_eof(); }
                self.next_token();
            }
        }
        if self.cur_is(TokenKind::RBrace) {
            self.next_token();
        }
        Some(Interface { name, methods, doc_comment: None })
    }

    /// `impl Target<T> { ... }` or `impl Interface for Target { ... }`:
    /// its functions, each after optional `pub`, `async` and `unsafe`;
    /// other tokens in the body are skipped. Without `{` after the target a
    /// syntax error is reported.
    fn parse_impl(&mut self) -> (r: Option<ImplBlock>)
        requires
            old(self).wf(),
        ensures
            consumed(*final(self), *old(self)),
            errors_grew(final(self).error_log(), old(self).error_log()),
    {
        proof { self.lemma_eof(); }
        self.next_token();
        let name1 = match self.cur_ident() {
            Some(n) => n,
            None => {
                return None;
            },
        };
        self.next_token();
        let generic_params = self.parse_generic_params();
        let mut interface_name: Option<String> = None;
        let mut target_name = name1;
        if self.cur_is(TokenKind::For) {
            proof { self.lemma_eof(); }
            self.next_token();
            let target = match self.cur_ident() {
                Some(n) => n,
                None => {
                    return None;
                },
            };
            self.next_token();
            interface_name = Some(target_name);
            target_name = target;
        }
        if !self.cur_is(TokenKind::LBrace) {
            let ghost before = *self;
            self.report("Syntax Error: Expected '{' after impl target");
            proof {
                lemma_errors_push(self.errors@, old(self).errors@, "Syntax Error: Expected '{' after impl target"@, before.cur());
            }
            return None;
        }
        proof { self.lemma_eof(); }
        self.next_token();
        let mut functions: Vec<Function> = Vec::new();
        while !self.cur_is(TokenKind::RBrace) && !self.at_eof()
            invariant
                consumed(*self, *old(self)),
                self.errors@ == old(self).errors@,
            decreases self.rem(),
        {
            let ghost iter_rem = self.rem();
            let doc = self.take_doc_comments();
            let mut modifiers: Vec<Token> = Vec::new();
            while self.cur_is(TokenKind::Pub) || self.cur_is(TokenKind::Async) || self.cur_is(TokenKind::Unsafe)
                invariant
                    advanced(*self, *old(self)),
                    self.rem() <= iter_rem,
                    self.errors@ == old(self).errors@,
                decreases self.rem(),
            {
                proof { self.lemma_eof(); }
                modifiers.push(self.current().duplicate());
                self.next_token();
            }
            if self.at_eof() || self.cur_is(TokenKind::RBrace) {
                break;
            }
            if self.cur_is(TokenKind::Fn) {
                if let Some(mut f) = self.parse_function(modifiers, Vec::new()) {
                    f.doc_comment = doc;
                    functions.push(f);
                }
            } else {
                proof { self.lemma_eof(); }
                self.next_token();
            }
        }
        if self.cur_is(TokenKind::RBrace) {
            self.next_token();
        }
        Some(ImplBlock { target_name, generic_params, interface_name, functions })
    }

    /// A declaration: documentation comments, then `@name` or
    /// `@name("value")` attributes, then `pub`, `async`, `unsafe` and
    /// `extern` modifiers, then a function, struct, enum, interface or impl.
    /// The documentation comments go to the declared function, struct, enum
    /// or interface.
    #[verifier::spinoff_prover]
    #[verifier::rlimit(40)]
    fn parse_declaration(&mut self) -> (r: Option<Declaration>)
        requires
            old(self).wf(),
        ensures
            advanced(*final(self), *old(self)),
            errors_grew(final(self).error_log(), old(self).error_log()),
            r is Some ==> final(self).rem() < old(self).rem(),
            forall|fuel: nat| #[trigger] decl_reading(old(self).stream(), old(self).pos(), fuel) is Some
                ==> (r matches Some(d)
                    && decl_matches(d, decl_reading(old(self).stream(), old(self).pos(), fuel).unwrap())
                    && final(self).pos() == decl_reading(old(self).stream(), old(self).pos(), fuel).unwrap().end()
                    && final(self).error_log() == old(self).error_log()),
    {
        let ghost fn_case = old(self).cur().kind is Fn || old(self).cur().kind is Struct || old(self).cur().kind is Enum;
        let doc = self.take_doc_comments();
        proof {
            if fn_case {
                assert(self.pos() == old(self).pos());
            }
        }
        let mut attributes: Vec<(String, String)> = Vec::new();
        while self.cur_is(TokenKind::At)
            invariant
                advanced(*self, *old(self)),
                self.errors@ == old(self).errors@,
                fn_case == (old(self).cur().kind is Fn || old(self).cur().kind is Struct || old(self).cur().kind is Enum),
                fn_case ==> self.pos() == old(self).pos() && attributes@.len() == 0,
            decreases self.rem(),
        {
            proof { self.lemma_eof(); }
            self.next_token();
            match self.cur_ident() {
                Some(attr_name) => {
                    self.next_token();
                    let mut attr_val = String::new();
                    if self.cur_is(TokenKind::LParen) {
                        proof { self.lemma_eof(); }
                        self.next_token();
                        let k = self.current().kind.duplicate();
                        if let TokenKind::StringLiteral(v) = k {
                            proof { self.lemma_eof(); }
                            attr_val = v;
                            self.next_token();
                        }
                        if self.cur_is(TokenKind::RParen) {
                            self.next_token();
                        }
                    }
                    attributes.push((attr_name, attr_val));
                },
                None => {
                    break;
                },
            }
        }
        let mut modifiers: Vec<Token> = Vec::new();
        while self.cur_is(TokenKind::Pub) || self.cur_is(TokenKind::Async) || self.cur_is(TokenKind::Unsafe)
            || self.cur_is(TokenKind::Extern)
            invariant
                advanced(*self, *old(self)),
                self.errors@ == old(self).errors@,
                fn_case == (old(self).cur().kind is Fn || old(self).cur().kind is Struct || old(self).cur().kind is Enum),
                fn_case ==> self.pos() == old(self).pos(),
            decreases self.rem(),
        {
            proof { self.lemma_eof(); }
            modifiers.push(self.current().duplicate());
            self.next_token();
        }
        proof {
            assert(self.errors@.subrange(0, old(self).errors@.len() as int) =~= old(self).errors@);
        }
        if self.cur_is(TokenKind::Fn) {
            match self.parse_function(modifiers, attributes) {
                Some(mut f) => {
                    f.doc_comment = doc;
                    Some(Declaration::Function(f))
                },
                None => None,
            }
        } else if self.cur_is(TokenKind::Struct) {
            match self.parse_struct(attributes) {
                Some(mut st) => {
                    st.doc_comment = doc;
                    Some(Declaration::Struct(st))
                },
                None => None,
            }
        } else if self.cur_is(TokenKind::Enum) {
            match self.parse_enum() {
                Some(mut e) => {
                    e.doc_comment = doc;
                    Some(Declaration::Enum(e))
                },
                None => None,
            }
        } else if self.cur_is(TokenKind::Interface) {
            match self.parse_interface() {
                Some(mut i) => {
                    i.doc_comment = doc;
                    Some(Declaration::Interface(i))
                },
                None => None,
            }
        } else if self.cur_is(TokenKind::Impl) {
            match self.parse_impl() {
                Some(b) => Some(Declaration::Impl(b)),
                None => None,
            }
        } else {
            None
        }
    }

    /// The whole source: an optional `module a.b;`, imports and
    /// declarations. Unexpected tokens are skipped, each with a syntax error.
    #[verifier::spinoff_prover]
    #[verifier::rlimit(90)]
    pub fn parse_program(&mut self) -> (prog: Program)
        requires
            old(self).wf(),
        ensures
            advanced(*final(self), *old(self)),
            final(self).rem() == 0,
            errors_grew(final(self).error_log(), old(self).error_log()),
            forall|fuel: nat| #[trigger] program_items(old(self).stream(), old(self).pos(), fuel) is Some
                ==> (decls_match(prog.declarations@, program_items(old(self).stream(), old(self).pos(), fuel).unwrap().0)
                    && crate::error::opt_view(prog.module_name) == program_items(old(self).stream(), old(self).pos(), fuel).unwrap().1
                    && import_paths(prog.imports@) == program_items(old(self).stream(), old(self).pos(), fuel).unwrap().2
                    && (forall|k: int| 0 <= k < prog.imports@.len() ==> (#[trigger] prog.imports@[k]).alias is None)
                    && final(self).error_log() == old(self).error_log()),
    {
        let ghost toks = old(self).stream();
        let ghost p0 = old(self).pos();
        let ghost readable = exists|f: nat| #[trigger] program_items(toks, p0, f) is Some;
        let ghost f0: nat = choose|f: nat| #[trigger] program_items(toks, p0, f) is Some;
        let ghost target = program_items(toks, p0, f0).unwrap();
        let ghost mut g: nat = f0;
        let mut module_name: Option<String> = None;
        let mut imports: Vec<Import> = Vec::new();
        let mut declarations: Vec<Declaration> = Vec::new();
        proof {
            assert(decls_match(declarations@, target.0.subrange(0, 0)));
            assert(import_paths(imports@) =~= target.2.subrange(0, 0));
        }
        while !self.at_eof()
            invariant
                advanced(*self, *old(self)),
                errors_grew(self.errors@, old(self).errors@),
                toks == self.stream(),
                readable ==> (program_items(toks, self.pos(), g) matches Some(rest)
                    && declarations@.len() + rest.0.len() == target.0.len()
                    && rest.0 == target.0.subrange(declarations@.len() as int, target.0.len() as int)
                    && decls_match(declarations@, target.0.subrange(0, declarations@.len() as int))
                    && imports@.len() + rest.2.len() == target.2.len()
                    && rest.2 == target.2.subrange(imports@.len() as int, target.2.len() as int)
                    && import_paths(imports@) == target.2.subrange(0, imports@.len() as int)
                    && target.1 == (if rest.1 is Some { rest.1 } else { crate::error::opt_view(module_name) })
                    && self.errors@ == old(self).errors@),
                forall|k: int| 0 <= k < imports@.len() ==> (#[trigger] imports@[k]).alias is None,
            decreases self.rem(),
        {
            proof { self.lemma_eof(); }
            let ghost before = *self;
            let ghost n_before = declarations@.len();
            let ghost i_before = imports@.len();
            let ghost m_before = module_name;
            let ghost rest0 = program_items(toks, self.pos(), g);
            let is_module = match &self.current().kind {
                TokenKind::Identifier(id) => crate::text::str_eq(id.as_str(), "module"),
                _ => false,
            };
            proof {
                reveal_strlit("module");
                assert(is_module == is_module_word(toks[self.pos()]));
            }
            if is_module {
                self.next_token();
                let path = self.parse_path();
                let joined_path = crate::text::join_strings(path.as_slice(), ".");
                module_name = Some(string_from_chars(&joined_path));
                if self.cur_is(TokenKind::Semicolon) {
                    self.next_token();
                }
                proof {
                    if readable {
                        let pe = path_at(toks, before.pos() + 1);
                        assert(string_views(path@) == pe.0);
                        assert(self.pos() == skip_semicolon(toks, pe.1));
                        let rest1 = program_items(toks, self.pos(), (g - 1) as nat).unwrap();
                        assert(rest0.unwrap().2 == rest1.2);
                        assert(rest0.unwrap().0 == rest1.0);
                        g = (g - 1) as nat;
                    }
                }
            } else if self.cur_is(TokenKind::Use) {
                let imp = self.parse_import();
                let ghost iv = import_paths(imports@);
                imports.push(imp);
                proof {
                    assert(import_paths(imports@) =~= iv.push(string_views(imp.path@)));
                    if readable {
                        let pe = path_at(toks, before.pos() + 1);
                        let rest1 = program_items(toks, self.pos(), (g - 1) as nat).unwrap();
                        assert(rest0.unwrap().2 == seq![pe.0] + rest1.2);
                        assert(target.2[i_before as int] == pe.0) by {
                            assert(rest0.unwrap().2[0] == target.2.subrange(i_before as int, target.2.len() as int)[0]);
                        }
                        assert(rest1.2 =~= target.2.subrange(imports@.len() as int, target.2.len() as int)) by {
                            assert forall|k: int| 0 <= k < rest1.2.len() implies rest1.2[k]
                                == target.2.subrange(imports@.len() as int, target.2.len() as int)[k] by {
                                assert(rest0.unwrap().2[k + 1] == rest1.2[k]);
                                assert(rest0.unwrap().2[k + 1] == target.2.subrange(i_before as int, target.2.len() as int)[k + 1]);
                            }
                        }
                        assert(import_paths(imports@) =~= target.2.subrange(0, imports@.len() as int));
                        g = (g - 1) as nat;
                    }
                }
            } else if self.cur_is(TokenKind::DoubleColon) {
                proof {
                    if readable {
                        assert(decl_reading(toks, self.pos(), (g - 1) as nat) is Some);
                    }
                }
                let nxt = self.peek_at(0);
                if matches!(nxt.kind, TokenKind::Intent) {
                    self.next_token();
                    self.next_token();
                    if matches!(self.current().kind, TokenKind::StringLiteral(_)) {
                        self.next_token();
                    }
                } else {
                    let ghost mid = *self;
                    self.report("Syntax Error: Unexpected :: at top level");
                    proof {
                        lemma_errors_push(self.errors@, mid.errors@, "Syntax Error: Unexpected :: at top level"@, mid.cur());
                    }
                    self.next_token();
                }
            } else {
                proof {
                    if readable {
                        assert(decl_reading(toks, self.pos(), (g - 1) as nat) is Some);
                    }
                }
                match self.parse_declaration() {
                    Some(decl) => {
                        declarations.push(decl);
                    },
                    None => {
                        let ghost mid = *self;
                        proof { self.lemma_eof(); }
                        self.report("Syntax Error: Unexpected token in declaration");
                        proof {
                            lemma_errors_push(self.errors@, mid.errors@, "Syntax Error: Unexpected token in declaration"@, mid.cur());
                            lemma_errors_grew_trans(self.errors@, mid.errors@, before.errors@);
                        }
                        self.next_token();
                    },
                }
                proof {
                    if readable {
                        let sh = decl_reading(toks, before.pos(), (g - 1) as nat).unwrap();
                        let rest1 = program_items(toks, sh.end(), (g - 1) as nat).unwrap();
                        assert(rest0.unwrap().0 == seq![sh] + rest1.0);
                        assert(target.0[n_before as int] == sh) by {
                            assert(rest0.unwrap().0[0] == target.0.subrange(n_before as int, target.0.len() as int)[0]);
                        }
                        assert(rest1.0 =~= target.0.subrange(declarations@.len() as int, target.0.len() as int)) by {
                            assert forall|k: int| 0 <= k < rest1.0.len() implies rest1.0[k]
                                == target.0.subrange(declarations@.len() as int, target.0.len() as int)[k] by {
                                assert(rest0.unwrap().0[k + 1] == rest1.0[k]);
                                assert(rest0.unwrap().0[k + 1] == target.0.subrange(n_before as int, target.0.len() as int)[k + 1]);
                            }
                        }
                        assert forall|i: int| 0 <= i < declarations@.len() implies decl_matches(#[trigger] declarations@[i],
                            target.0.subrange(0, declarations@.len() as int)[i]) by {
                            if i < n_before {
                                assert(target.0.subrange(0, declarations@.len() as int)[i] == target.0.subrange(0, n_before as int)[i]);
                            }
                        }
                        g = (g - 1) as nat;
                    }
                }
            }
            proof {
                lemma_errors_grew_refl(before.errors@);
                lemma_errors_grew_trans(self.errors@, before.errors@, old(self).errors@);
            }
        }
        proof {
            if readable {
                assert forall|fuel: nat| #[trigger] program_items(toks, p0, fuel) is Some
                    implies program_items(toks, p0, fuel).unwrap() == target by {
                    if f0 <= fuel {
                        lemma_program_fuel(toks, p0, f0, fuel);
                    } else {
                        lemma_program_fuel(toks, p0, fuel, f0);
                    }
                }
                assert(target.0.subrange(0, declarations@.len() as int) =~= target.0);
                assert(target.2.subrange(0, imports@.len() as int) =~= target.2);
            }
        }
        Program { module_name, imports, declarations }
    }
}


/// Lexes and parses `source`: the program and the syntax errors reported,
/// or `None` when the lexer cannot read the text (it is too long to index,
/// or holds a date literal that cannot be converted).
pub fn parse_source(source: &str) -> (r: Option<(Program, Vec<String>)>)
    ensures
        r is Some <==> (source@.len() < usize::MAX && lexable_from(source@, 0)),
        r matches Some((_, errs)) ==> forall|i: int| 0 <= i < errs@.len() ==> is_syntax_error(#[trigger] errs@[i]@),
        r matches Some((prog, errs)) ==> exists|toks: Seq<Token>| {
            &&& toks.len() == token_stream(source@, 0).len() + 1
            &&& forall|i: int| 0 <= i < toks.len() - 1 ==> #[trigger] token_is(toks[i], token_stream(source@, 0)[i])
            &&& toks.last().kind is EOF
            &&& forall|fuel: nat| #[trigger] program_items(toks, 0, fuel) is Some ==> {
                &&& decls_match(prog.declarations@, program_items(toks, 0, fuel).unwrap().0)
                &&& crate::error::opt_view(prog.module_name) == program_items(toks, 0, fuel).unwrap().1
                &&& import_paths(prog.imports@) == program_items(toks, 0, fuel).unwrap().2
                &&& errs@.len() == 0
            }
        },
{
    let n = chars_of(source).len();
    if n == usize::MAX {
        return None;
    }
    let lexer = Lexer::new(source);
    if !lexer.is_lexable() {
        return None;
    }
    let mut parser = Parser::new(lexer);
    let ghost toks = parser.stream();
    let program = parser.parse_program();
    let errors = parser.errors().clone();
    proof {
        assert(toks.len() == token_stream(source@, 0).len() + 1);
        assert(toks.last().kind is EOF);
        assert(forall|i: int| 0 <= i < toks.len() - 1 ==> #[trigger] token_is(toks[i], token_stream(source@, 0)[i]));
    }
    Some((program, errors))
}

} // verus!
