//! Compiler diagnostics: the error type, source snippets and "did you mean"
//! suggestions.

use vstd::prelude::*;
use crate::text::{string_views, push_slice, push_spaces, push_str_chars, string_from_chars, chars_of, usize_text, nat_text, spaces};

verus! {

/// A diagnostic produced while compiling. Every variant carries the source
/// position (`line`/`col`, 1-based, `0` when unknown) and an optional
/// rendered snippet of the surrounding source lines.
#[derive(Debug, Clone)]
pub enum CompileError {
    Type { message: String, line: usize, col: usize, snippet: Option<String> },
    Unsafe { message: String, line: usize, col: usize, snippet: Option<String> },
    NotFound {
        kind: String,
        name: String,
        suggestion: String,
        line: usize,
        col: usize,
        snippet: Option<String>,
    },
    NotFunction { name: String, line: usize, col: usize, snippet: Option<String> },
    InvalidOperator {
        op: String,
        left: String,
        right: String,
        line: usize,
        col: usize,
        snippet: Option<String>,
    },
    Inkwell { message: String, line: usize, col: usize, snippet: Option<String> },
    Io { message: String, line: usize, col: usize, snippet: Option<String> },
    Import { message: String, line: usize, col: usize, snippet: Option<String> },
    Internal { message: String, line: usize, col: usize, snippet: Option<String> },
    Warning { message: String, line: usize, col: usize, snippet: Option<String> },
}

/// The text of an optional string.
pub open spec fn opt_view(o: Option<String>) -> Option<Seq<char>> {
    match o {
        Some(s) => Some(s@),
        None => None,
    }
}

impl CompileError {
    /// The line the diagnostic points at.
    pub open spec fn line_spec(self) -> usize {
        match self {
            CompileError::Type { line, .. } => line,
            CompileError::Unsafe { line, .. } => line,
            CompileError::NotFound { line, .. } => line,
            CompileError::NotFunction { line, .. } => line,
            CompileError::InvalidOperator { line, .. } => line,
            CompileError::Inkwell { line, .. } => line,
            CompileError::Io { line, .. } => line,
            CompileError::Import { line, .. } => line,
            CompileError::Internal { line, .. } => line,
            CompileError::Warning { line, .. } => line,
        }
    }

    /// The column the diagnostic points at.
    pub open spec fn col_spec(self) -> usize {
        match self {
            CompileError::Type { col, .. } => col,
            CompileError::Unsafe { col, .. } => col,
            CompileError::NotFound { col, .. } => col,
            CompileError::NotFunction { col, .. } => col,
            CompileError::InvalidOperator { col, .. } => col,
            CompileError::Inkwell { col, .. } => col,
            CompileError::Io { col, .. } => col,
            CompileError::Import { col, .. } => col,
            CompileError::Internal { col, .. } => col,
            CompileError::Warning { col, .. } => col,
        }
    }

    /// The rendered snippet the diagnostic carries.
    pub open spec fn snippet_spec(self) -> Option<Seq<char>> {
        match self {
            CompileError::Type { snippet, .. } => opt_view(snippet),
            CompileError::Unsafe { snippet, .. } => opt_view(snippet),
            CompileError::NotFound { snippet, .. } => opt_view(snippet),
            CompileError::NotFunction { snippet, .. } => opt_view(snippet),
            CompileError::InvalidOperator { snippet, .. } => opt_view(snippet),
            CompileError::Inkwell { snippet, .. } => opt_view(snippet),
            CompileError::Io { snippet, .. } => opt_view(snippet),
            CompileError::Import { snippet, .. } => opt_view(snippet),
            CompileError::Internal { snippet, .. } => opt_view(snippet),
            CompileError::Warning { snippet, .. } => opt_view(snippet),
        }
    }

    /// Same variant and same fields, apart from the snippet.
    pub open spec fn same_but_snippet(self, other: CompileError) -> bool {
        match (self, other) {
            (
                CompileError::Type { message: a, line: l1, col: c1, .. },
                CompileError::Type { message: b, line: l2, col: c2, .. },
            ) => a@ == b@ && l1 == l2 && c1 == c2,
            (
                CompileError::Unsafe { message: a, line: l1, col: c1, .. },
                CompileError::Unsafe { message: b, line: l2, col: c2, .. },
            ) => a@ == b@ && l1 == l2 && c1 == c2,
            (
                CompileError::NotFound { kind: k1, name: n1, suggestion: s1, line: l1, col: c1, .. },
                CompileError::NotFound { kind: k2, name: n2, suggestion: s2, line: l2, col: c2, .. },
            ) => k1@ == k2@ && n1@ == n2@ && s1@ == s2@ && l1 == l2 && c1 == c2,
            (
                CompileError::NotFunction { name: a, line: l1, col: c1, .. },
                CompileError::NotFunction { name: b, line: l2, col: c2, .. },
            ) => a@ == b@ && l1 == l2 && c1 == c2,
            (
                CompileError::InvalidOperator { op: o1, left: a1, right: r1, line: l1, col: c1, .. },
                CompileError::InvalidOperator { op: o2, left: a2, right: r2, line: l2, col: c2, .. },
            ) => o1@ == o2@ && a1@ == a2@ && r1@ == r2@ && l1 == l2 && c1 == c2,
            (
                CompileError::Inkwell { message: a, line: l1, col: c1, .. },
                CompileError::Inkwell { message: b, line: l2, col: c2, .. },
            ) => a@ == b@ && l1 == l2 && c1 == c2,
            (
                CompileError::Io { message: a, line: l1, col: c1, .. },
                CompileError::Io { message: b, line: l2, col: c2, .. },
            ) => a@ == b@ && l1 == l2 && c1 == c2,
            (
                CompileError::Import { message: a, line: l1, col: c1, .. },
                CompileError::Import { message: b, line: l2, col: c2, .. },
            ) => a@ == b@ && l1 == l2 && c1 == c2,
            (
                CompileError::Internal { message: a, line: l1, col: c1, .. },
                CompileError::Internal { message: b, line: l2, col: c2, .. },
            ) => a@ == b@ && l1 == l2 && c1 == c2,
            (
                CompileError::Warning { message: a, line: l1, col: c1, .. },
                CompileError::Warning { message: b, line: l2, col: c2, .. },
            ) => a@ == b@ && l1 == l2 && c1 == c2,
            _ => false,
        }
    }

    /// The diagnostic's text, as the compiler prints it.
    pub open spec fn text_spec(self) -> Seq<char> {
        match self {
            CompileError::Type { message, .. } => "Type Error: "@ + message@,
            CompileError::Unsafe { message, .. } => "Unsafe Error: "@ + message@,
            CompileError::NotFound { kind, name, suggestion, .. } =>
                "Not Found: "@ + kind@ + " '"@ + name@ + "' is not defined"@ + suggestion@,
            CompileError::NotFunction { name, .. } => "'"@ + name@ + "' is not a function"@,
            CompileError::InvalidOperator { op, left, right, .. } =>
                "Incompatible operator "@ + op@ + " for types "@ + left@ + " and "@ + right@,
            CompileError::Inkwell { message, .. } => "LLVM error: "@ + message@,
            CompileError::Io { message, .. } => "IO error: "@ + message@,
            CompileError::Import { message, .. } => "Import error: "@ + message@,
            CompileError::Internal { message, .. } => "internal compiler error: "@ + message@,
            CompileError::Warning { message, .. } => "warning: "@ + message@,
        }
    }

    /// A type error at `line`/`col`.
    pub fn new(message: &str, line: usize, col: usize) -> (e: CompileError)
        ensures
            e matches CompileError::Type { message: m, line: l, col: c, snippet: None }
                && m@ == message@ && l == line && c == col,
    {
        CompileError::Type { message: message.to_owned(), line, col, snippet: None }
    }

    /// An internal compiler error without a position.
    pub fn internal(message: &str) -> (e: CompileError)
        ensures
            e matches CompileError::Internal { message: m, line: 0, col: 0, snippet: None }
                && m@ == message@,
    {
        CompileError::Internal { message: message.to_owned(), line: 0, col: 0, snippet: None }
    }

    /// A code-generation backend error without a position.
    pub fn inkwell(message: &str) -> (e: CompileError)
        ensures
            e matches CompileError::Inkwell { message: m, line: 0, col: 0, snippet: None }
                && m@ == message@,
    {
        CompileError::Inkwell { message: message.to_owned(), line: 0, col: 0, snippet: None }
    }

    /// An I/O error without a position.
    pub fn io(message: &str) -> (e: CompileError)
        ensures
            e matches CompileError::Io { message: m, line: 0, col: 0, snippet: None }
                && m@ == message@,
    {
        CompileError::Io { message: message.to_owned(), line: 0, col: 0, snippet: None }
    }

    /// An import-resolution error without a position.
    pub fn import(message: &str) -> (e: CompileError)
        ensures
            e matches CompileError::Import { message: m, line: 0, col: 0, snippet: None }
                && m@ == message@,
    {
        CompileError::Import { message: message.to_owned(), line: 0, col: 0, snippet: None }
    }

    /// A non-fatal warning at `line`/`col`.
    pub fn warning(message: &str, line: usize, col: usize) -> (e: CompileError)
        ensures
            e matches CompileError::Warning { message: m, line: l, col: c, snippet: None }
                && m@ == message@ && l == line && c == col,
    {
        CompileError::Warning { message: message.to_owned(), line, col, snippet: None }
    }

    /// A "not defined" error; a non-empty `suggestion` is rendered as
    /// ` (did you mean '<suggestion>'?)`.
    pub fn not_found(kind: &str, name: &str, suggestion: &str, line: usize, col: usize) -> (e: CompileError)
        ensures
            e matches CompileError::NotFound { kind: k, name: n, suggestion: s, line: l, col: c, snippet: None }
                && k@ == kind@ && n@ == name@ && l == line && c == col
                && s@ == suggestion_text(suggestion@),
    {
        let s: String = if suggestion.is_empty() {
            suggestion.to_owned()
        } else {
            let mut v: Vec<char> = Vec::new();
            push_str_chars(&mut v, " (did you mean '");
            push_str_chars(&mut v, suggestion);
            push_str_chars(&mut v, "'?)");
            string_from_chars(&v)
        };
        CompileError::NotFound {
            kind: kind.to_owned(),
            name: name.to_owned(),
            suggestion: s,
            line,
            col,
            snippet: None,
        }
    }

    /// Attaches a rendering of the source lines around the error's position
    /// (when its line is known) as the snippet.
    pub fn with_snippet(self, source: &str) -> (e: CompileError)
        requires
            snippet_fits(source@, self.line_spec(), self.col_spec()),
        ensures
            e.same_but_snippet(self),
            self.line_spec() > 0 ==> e.snippet_spec() == snippet_spec(source@, self.line_spec() as nat, self.col_spec() as nat),
            self.line_spec() == 0 ==> e.snippet_spec() == self.snippet_spec(),
    {
        let line = self.line();
        if line > 0 {
            let col = self.col();
            let snippet = extract_snippet(source, line, col);
            match self {
                CompileError::Type { message, line, col, .. } => CompileError::Type { message, line, col, snippet },
                CompileError::Unsafe { message, line, col, .. } => CompileError::Unsafe { message, line, col, snippet },
                CompileError::NotFound { kind, name, suggestion, line, col, .. } =>
                    CompileError::NotFound { kind, name, suggestion, line, col, snippet },
                CompileError::NotFunction { name, line, col, .. } => CompileError::NotFunction { name, line, col, snippet },
                CompileError::InvalidOperator { op, left, right, line, col, .. } =>
                    CompileError::InvalidOperator { op, left, right, line, col, snippet },
                CompileError::Inkwell { message, line, col, .. } => CompileError::Inkwell { message, line, col, snippet },
                CompileError::Io { message, line, col, .. } => CompileError::Io { message, line, col, snippet },
                CompileError::Import { message, line, col, .. } => CompileError::Import { message, line, col, snippet },
                CompileError::Internal { message, line, col, .. } => CompileError::Internal { message, line, col, snippet },
                CompileError::Warning { message, line, col, .. } => CompileError::Warning { message, line, col, snippet },
            }
        } else {
            proof {
                lemma_same_but_snippet_refl(self);
            }
            self
        }
    }

    /// The line the diagnostic points at.
    pub fn line(&self) -> (l: usize)
        ensures
            l == self.line_spec(),
    {
        match self {
            CompileError::Type { line, .. }
            | CompileError::Unsafe { line, .. }
            | CompileError::NotFound { line, .. }
            | CompileError::NotFunction { line, .. }
            | CompileError::InvalidOperator { line, .. }
            | CompileError::Inkwell { line, .. }
            | CompileError::Io { line, .. }
            | CompileError::Import { line, .. }
            | CompileError::Internal { line, .. }
            | CompileError::Warning { line, .. } => *line,
        }
    }

    /// The column the diagnostic points at.
    pub fn col(&self) -> (c: usize)
        ensures
            c == self.col_spec(),
    {
        match self {
            CompileError::Type { col, .. }
            | CompileError::Unsafe { col, .. }
            | CompileError::NotFound { col, .. }
            | CompileError::NotFunction { col, .. }
            | CompileError::InvalidOperator { col, .. }
            | CompileError::Inkwell { col, .. }
            | CompileError::Io { col, .. }
            | CompileError::Import { col, .. }
            | CompileError::Internal { col, .. }
            | CompileError::Warning { col, .. } => *col,
        }
    }

    /// True exactly for warnings, which do not stop compilation.
    pub fn is_warning(&self) -> (b: bool)
        ensures
            b == (self is Warning),
    {
        match self {
            CompileError::Warning { .. } => true,
            _ => false,
        }
    }

    /// The diagnostic's text, as the compiler prints it.
    pub fn to_text(&self) -> (s: String)
        ensures
            s@ == self.text_spec(),
    {
        let mut v: Vec<char> = Vec::new();
        match self {
            CompileError::Type { message, .. } => {
                push_str_chars(&mut v, "Type Error: ");
                push_str_chars(&mut v, message.as_str());
            },
            CompileError::Unsafe { message, .. } => {
                push_str_chars(&mut v, "Unsafe Error: ");
                push_str_chars(&mut v, message.as_str());
            },
            CompileError::NotFound { kind, name, suggestion, .. } => {
                push_str_chars(&mut v, "Not Found: ");
                push_str_chars(&mut v, kind.as_str());
                push_str_chars(&mut v, " '");
                push_str_chars(&mut v, name.as_str());
                push_str_chars(&mut v, "' is not defined");
                push_str_chars(&mut v, suggestion.as_str());
            },
            CompileError::NotFunction { name, .. } => {
                push_str_chars(&mut v, "'");
                push_str_chars(&mut v, name.as_str());
                push_str_chars(&mut v, "' is not a function");
            },
            CompileError::InvalidOperator { op, left, right, .. } => {
                push_str_chars(&mut v, "Incompatible operator ");
                push_str_chars(&mut v, op.as_str());
                push_str_chars(&mut v, " for types ");
                push_str_chars(&mut v, left.as_str());
                push_str_chars(&mut v, " and ");
                push_str_chars(&mut v, right.as_str());
            },
            CompileError::Inkwell { message, .. } => {
                push_str_chars(&mut v, "LLVM error: ");
                push_str_chars(&mut v, message.as_str());
            },
            CompileError::Io { message, .. } => {
                push_str_chars(&mut v, "IO error: ");
                push_str_chars(&mut v, message.as_str());
            },
            CompileError::Import { message, .. } => {
                push_str_chars(&mut v, "Import error: ");
                push_str_chars(&mut v, message.as_str());
            },
            CompileError::Internal { message, .. } => {
                push_str_chars(&mut v, "internal compiler error: ");
                push_str_chars(&mut v, message.as_str());
            },
            CompileError::Warning { message, .. } => {
                push_str_chars(&mut v, "warning: ");
                push_str_chars(&mut v, message.as_str());
            },
        }
        string_from_chars(&v)
    }
}

/// Every diagnostic is itself up to its snippet.
pub proof fn lemma_same_but_snippet_refl(e: CompileError)
    ensures
        e.same_but_snippet(e),
{
}

/// Attaching the snippet of one source a second time changes nothing: when
/// `once` is what [`CompileError::with_snippet`] makes of `e`, a second call
/// on `once` is allowed, and the snippet it sets is the one `once` has.
pub proof fn lemma_with_snippet_twice(e: CompileError, once: CompileError, source: Seq<char>)
    requires
        snippet_fits(source, e.line_spec(), e.col_spec()),
        once.same_but_snippet(e),
        e.line_spec() > 0 ==> once.snippet_spec() == snippet_spec(source, e.line_spec() as nat, e.col_spec() as nat),
        e.line_spec() == 0 ==> once.snippet_spec() == e.snippet_spec(),
    ensures
        snippet_fits(source, once.line_spec(), once.col_spec()),
        once.line_spec() > 0 ==> snippet_spec(source, once.line_spec() as nat, once.col_spec() as nat)
            == once.snippet_spec(),
{
}

/// How a non-empty "did you mean" suggestion is rendered.
pub open spec fn suggestion_text(s: Seq<char>) -> Seq<char> {
    if s.len() == 0 {
        s
    } else {
        " (did you mean '"@ + s + "'?)"@
    }
}

// ---------------------------------------------------------------------------
// Source lines and snippets
// ---------------------------------------------------------------------------

/// Index of the first `'\n'` at or after `p`, or `s.len()` when there is none.
pub open spec fn line_end(s: Seq<char>, p: int) -> int
    decreases s.len() - p,
{
    if p >= s.len() {
        s.len() as int
    } else if s[p] == '\n' {
        p
    } else {
        line_end(s, p + 1)
    }
}

/// The lines of `s[p..]` as `str::lines` yields them: split at `'\n'`, a
/// `'\r'` just before a `'\n'` dropped, no empty line after a final `'\n'`.
pub open spec fn lines_from(s: Seq<char>, p: int) -> Seq<Seq<char>>
    decreases s.len() - p,
{
    if p < 0 || p >= s.len() {
        Seq::empty()
    } else {
        let e = line_end(s, p);
        let raw = s.subrange(p, e);
        let l = if e < s.len() && raw.len() > 0 && raw.last() == '\r' { raw.drop_last() } else { raw };
        if p <= e && e < s.len() {
            seq![l] + lines_from(s, e + 1)
        } else {
            seq![l]
        }
    }
}

/// The lines of `s`.
pub open spec fn source_lines(s: Seq<char>) -> Seq<Seq<char>> {
    lines_from(s, 0)
}

/// Where `line_end` lands.
pub proof fn lemma_line_end_bounds(s: Seq<char>, p: int)
    requires
        0 <= p <= s.len(),
    ensures
        p <= line_end(s, p) <= s.len(),
        line_end(s, p) < s.len() ==> s[line_end(s, p)] == '\n',
        forall|k: int| p <= k < line_end(s, p) ==> s[k] != '\n',
    decreases s.len() - p,
{
    if p < s.len() && s[p] != '\n' {
        lemma_line_end_bounds(s, p + 1);
    }
}

/// The views of a sequence of character vectors.
pub open spec fn vec_views(v: Seq<Vec<char>>) -> Seq<Seq<char>> {
    v.map_values(|x: Vec<char>| x@)
}

/// Splits `s` into lines (as `str::lines` does).
pub fn split_lines(s: &[char]) -> (r: Vec<Vec<char>>)
    ensures
        vec_views(r@) == source_lines(s@),
{
    let mut r: Vec<Vec<char>> = Vec::new();
    let mut p: usize = 0;
    while p < s.len()
        invariant
            p <= s@.len(),
            vec_views(r@) + lines_from(s@, p as int) == source_lines(s@),
        decreases s@.len() - p,
    {
        let mut line: Vec<char> = Vec::new();
        let mut e: usize = p;
        proof { lemma_line_end_bounds(s@, p as int); }
        while e < s.len() && s[e] != '\n'
            invariant
                p <= e <= s@.len(),
                line_end(s@, p as int) == line_end(s@, e as int),
                line@ == s@.subrange(p as int, e as int),
            decreases s@.len() - e,
        {
            line.push(s[e]);
            e = e + 1;
            assert(line@ =~= s@.subrange(p as int, e as int));
        }
        assert(e == line_end(s@, p as int));
        if e < s.len() && line.len() > 0 && line[line.len() - 1] == '\r' {
            line.pop();
        }
        let ghost lv = line@;
        let ghost old_views = vec_views(r@);
        let ghost old_p = p as int;
        assert(lines_from(s@, old_p) == seq![lv] + lines_from(s@, e + 1));
        r.push(line);
        assert(vec_views(r@) =~= old_views.push(lv));
        if e < s.len() {
            p = e + 1;
        } else {
            p = s.len();
        }
        assert(vec_views(r@) + lines_from(s@, p as int) =~= old_views + (seq![lv] + lines_from(s@, e + 1)));
    }
    r
}

/// `n` rendered right-aligned in a field of four characters (`{:4}`).
pub open spec fn pad4(n: nat) -> Seq<char> {
    let d = nat_text(n);
    if d.len() < 4 { spaces((4 - d.len()) as nat) + d } else { d }
}

/// One rendered row of a snippet: the marker, the line number, the text and,
/// on the error line with a known column, a caret line below.
pub open spec fn snippet_row(lines: Seq<Seq<char>>, line: nat, col: nat, i: nat) -> Seq<char> {
    let num = i + 1;
    let prefix = if num == line { " > "@ } else { "   "@ };
    let row = prefix + pad4(num) + " | "@ + lines[i as int] + "\n"@;
    if num == line && col > 0 {
        row + spaces(6 + col) + "^\n"@
    } else {
        row
    }
}

/// The rows `i..end` of a snippet, concatenated.
pub open spec fn snippet_rows(lines: Seq<Seq<char>>, line: nat, col: nat, i: nat, end: nat) -> Seq<char>
    decreases end - i,
{
    if i >= end {
        Seq::empty()
    } else {
        snippet_row(lines, line, col, i) + snippet_rows(lines, line, col, i + 1, end)
    }
}

/// The snippet for an error at `line`/`col` of `source`: the error line with
/// the line before and after it; `None` when `line` is not a line of the source.
pub open spec fn snippet_spec(source: Seq<char>, line: nat, col: nat) -> Option<Seq<char>> {
    let lines = source_lines(source);
    if line == 0 || line > lines.len() {
        None
    } else {
        let start: nat = if line > 1 { (line - 2) as nat } else { 0 };
        let end: nat = if line + 1 < lines.len() { line + 1 } else { lines.len() };
        Some(snippet_rows(lines, line, col, start, end))
    }
}

/// The caret offset of a snippet fits in a `usize`.
pub open spec fn snippet_fits(source: Seq<char>, line: usize, col: usize) -> bool {
    (line > 0 && line <= source_lines(source).len() && col > 0) ==> col + 6 <= usize::MAX
}

/// Appends one snippet row to `out`.
fn push_snippet_row(out: &mut Vec<char>, lines: &Vec<Vec<char>>, line: usize, col: usize, i: usize)
    requires
        i < lines@.len(),
        i + 1 <= usize::MAX,
        (i + 1 == line && col > 0) ==> col + 6 <= usize::MAX,
    ensures
        final(out)@ == old(out)@ + snippet_row(vec_views(lines@), line as nat, col as nat, i as nat),
{
    let num = i + 1;
    if num == line {
        push_str_chars(out, " > ");
    } else {
        push_str_chars(out, "   ");
    }
    let digits = usize_text(num);
    if digits.len() < 4 {
        push_spaces(out, 4 - digits.len());
    }
    push_slice(out, &digits);
    push_str_chars(out, " | ");
    push_slice(out, &lines[i]);
    push_str_chars(out, "\n");
    if num == line && col > 0 {
        push_spaces(out, 6 + col);
        push_str_chars(out, "^\n");
    }
    proof {
        let lv = vec_views(lines@);
        assert(lv[i as int] == lines@[i as int]@);
    }
}

/// Renders the source lines around `line` (1-based), marking the line and,
/// when `col > 0`, the column. `None` when `line` is not a line of `source`.
fn extract_snippet(source: &str, line: usize, col: usize) -> (r: Option<String>)
    requires
        snippet_fits(source@, line, col),
    ensures
        opt_view(r) == snippet_spec(source@, line as nat, col as nat),
{
    let chars = chars_of(source);
    let lines = split_lines(&chars);
    let ghost lv = vec_views(lines@);
    if line == 0 || line > lines.len() {
        return None;
    }
    let start: usize = if line > 1 { line - 2 } else { 0 };
    let end: usize = if line < lines.len() - 1 { line + 1 } else { lines.len() };
    let mut out: Vec<char> = Vec::new();
    let mut i: usize = start;
    while i < end
        invariant
            start <= i <= end,
            end <= lines@.len(),
            lv == vec_views(lines@),
            lv == source_lines(source@),
            snippet_fits(source@, line, col),
            line <= lines@.len(),
            snippet_rows(lv, line as nat, col as nat, start as nat, end as nat)
                == out@ + snippet_rows(lv, line as nat, col as nat, i as nat, end as nat),
        decreases end - i,
    {
        push_snippet_row(&mut out, &lines, line, col, i);
        i = i + 1;
    }
    Some(string_from_chars(&out))
}


// ---------------------------------------------------------------------------
// Edit distance and suggestions
// ---------------------------------------------------------------------------

/// The smallest of three numbers.
pub open spec fn min3(a: nat, b: nat, c: nat) -> nat {
    if a <= b && a <= c { a } else if b <= c { b } else { c }
}

/// Levenshtein edit distance: the fewest single-character insertions,
/// deletions and substitutions that turn `a` into `b`.
pub open spec fn edit_distance(a: Seq<char>, b: Seq<char>) -> nat
    decreases a.len() + b.len(),
{
    if a.len() == 0 {
        b.len()
    } else if b.len() == 0 {
        a.len()
    } else {
        let cost: nat = if a.last() == b.last() { 0 } else { 1 };
        min3(
            edit_distance(a.drop_last(), b) + 1,
            edit_distance(a, b.drop_last()) + 1,
            edit_distance(a.drop_last(), b.drop_last()) + cost,
        )
    }
}

proof fn lemma_edit_distance_le(a: Seq<char>, b: Seq<char>)
    ensures
        edit_distance(a, b) <= a.len() + b.len(),
    decreases a.len() + b.len(),
{
    if a.len() > 0 && b.len() > 0 {
        lemma_edit_distance_le(a.drop_last(), b);
    }
}

/// Edit distance is at most the longer length.
pub proof fn lemma_edit_distance_le_max(a: Seq<char>, b: Seq<char>)
    ensures
        edit_distance(a, b) <= if a.len() >= b.len() { a.len() } else { b.len() },
    decreases a.len() + b.len(),
{
    if a.len() > 0 && b.len() > 0 {
        lemma_edit_distance_le_max(a.drop_last(), b.drop_last());
    }
}

/// A sequence is at distance 0 from itself.
pub proof fn lemma_edit_distance_self(a: Seq<char>)
    ensures
        edit_distance(a, a) == 0,
    decreases a.len(),
{
    if a.len() > 0 {
        lemma_edit_distance_self(a.drop_last());
    }
}

/// Edit distance does not depend on the direction of the edit.
pub proof fn lemma_edit_distance_symmetric(a: Seq<char>, b: Seq<char>)
    ensures
        edit_distance(a, b) == edit_distance(b, a),
    decreases a.len() + b.len(),
{
    if a.len() > 0 && b.len() > 0 {
        lemma_edit_distance_symmetric(a.drop_last(), b);
        lemma_edit_distance_symmetric(a, b.drop_last());
        lemma_edit_distance_symmetric(a.drop_last(), b.drop_last());
    }
}

/// Edit distance is at least the difference of the lengths.
pub proof fn lemma_edit_distance_ge_len_diff(a: Seq<char>, b: Seq<char>)
    ensures
        edit_distance(a, b) >= a.len() - b.len(),
        edit_distance(a, b) >= b.len() - a.len(),
    decreases a.len() + b.len(),
{
    if a.len() > 0 && b.len() > 0 {
        lemma_edit_distance_ge_len_diff(a.drop_last(), b);
        lemma_edit_distance_ge_len_diff(a, b.drop_last());
        lemma_edit_distance_ge_len_diff(a.drop_last(), b.drop_last());
    }
}

/// Edit distance is 0 exactly for equal sequences.
pub proof fn lemma_edit_distance_zero_iff_equal(a: Seq<char>, b: Seq<char>)
    ensures
        edit_distance(a, b) == 0 <==> a == b,
    decreases a.len() + b.len(),
{
    lemma_edit_distance_self(a);
    if edit_distance(a, b) == 0 {
        if a.len() == 0 || b.len() == 0 {
            assert(a.len() == 0 && b.len() == 0);
            assert(a =~= b);
        } else {
            lemma_edit_distance_zero_iff_equal(a.drop_last(), b.drop_last());
            assert(edit_distance(a.drop_last(), b.drop_last()) == 0);
            assert(a.last() == b.last());
            assert(a =~= a.drop_last().push(a.last()));
            assert(b =~= b.drop_last().push(b.last()));
        }
    }
}

/// Edit distance between the character sequences of `a` and `b`.
pub fn levenshtein(a: &str, b: &str) -> (d: usize)
    requires
        a@.len() < usize::MAX,
        b@.len() < usize::MAX,
    ensures
        d == edit_distance(a@, b@),
{
    let a = chars_of(a);
    let b = chars_of(b);
    let m = a.len();
    let n = b.len();
    if m == 0 {
        return n;
    }
    if n == 0 {
        return m;
    }
    // prev[j] == edit_distance(a[..i-1], b[..j])
    let mut prev: Vec<usize> = Vec::new();
    let mut j: usize = 0;
    while j <= n
        invariant
            j <= n + 1,
            n == b@.len(),
            n < usize::MAX,
            prev@.len() == j,
            forall|k: int| 0 <= k < j ==> prev@[k] == edit_distance(a@.take(0), b@.take(k)),
        decreases n + 1 - j,
    {
        proof {
            assert(a@.take(0).len() == 0);
        }
        prev.push(j);
        j = j + 1;
    }
    let mut i: usize = 1;
    while i <= m
        invariant
            1 <= i <= m + 1,
            m == a@.len(),
            n == b@.len(),
            n < usize::MAX,
            m < usize::MAX,
            prev@.len() == n + 1,
            forall|k: int| 0 <= k <= n ==> prev@[k] == edit_distance(a@.take(i - 1), b@.take(k)),
        decreases m + 1 - i,
    {
        let mut curr: Vec<usize> = Vec::new();
        curr.push(i);
        proof {
            assert(b@.take(0).len() == 0);
            assert(a@.take(i as int).len() == i);
        }
        let mut j: usize = 1;
        while j <= n
            invariant
                1 <= i <= m,
                1 <= j <= n + 1,
                m == a@.len(),
                n == b@.len(),
                n < usize::MAX,
                m < usize::MAX,
                prev@.len() == n + 1,
                curr@.len() == j,
                forall|k: int| 0 <= k <= n ==> prev@[k] == edit_distance(a@.take(i - 1), b@.take(k)),
                forall|k: int| 0 <= k < j ==> curr@[k] == edit_distance(a@.take(i as int), b@.take(k)),
            decreases n + 1 - j,
        {
            let cost: usize = if a[i - 1] == b[j - 1] { 0 } else { 1 };
            proof {
                lemma_edit_distance_le_max(a@.take(i - 1), b@.take(j as int));
                lemma_edit_distance_le_max(a@.take(i as int), b@.take(j - 1));
                lemma_edit_distance_le_max(a@.take(i - 1), b@.take(j - 1));
                let aa = a@.take(i as int);
                let bb = b@.take(j as int);
                assert(aa.drop_last() =~= a@.take(i - 1));
                assert(bb.drop_last() =~= b@.take(j - 1));
                assert(aa.last() == a@[i - 1]);
                assert(a@.take(i as int).len() == i);
                assert(b@.take(j - 1).len() == j - 1);
                assert(a@.take(i - 1).len() == i - 1);
                assert(b@.take(j as int).len() == j);
                assert(bb.last() == b@[j - 1]);
            }
            assert(curr@[j - 1] == edit_distance(a@.take(i as int), b@.take(j - 1)));
            assert(curr@[j - 1] < usize::MAX);
            assert(prev@[j as int] < usize::MAX);
            let del = prev[j] + 1;
            let ins = curr[j - 1] + 1;
            let sub = prev[j - 1] + cost;
            let mut best = del;
            if ins < best {
                best = ins;
            }
            if sub < best {
                best = sub;
            }
            proof {
                let aa = a@.take(i as int);
                let bb = b@.take(j as int);
                assert(edit_distance(aa, bb) == min3(
                    edit_distance(aa.drop_last(), bb) + 1,
                    edit_distance(aa, bb.drop_last()) + 1,
                    edit_distance(aa.drop_last(), bb.drop_last()) + (if aa.last() == bb.last() { 0nat } else { 1nat }),
                ));
            }
            curr.push(best);
            j = j + 1;
        }
        prev = curr;
        i = i + 1;
    }
    proof {
        assert(a@.take(m as int) =~= a@);
        assert(b@.take(n as int) =~= b@);
    }
    prev[n]
}

/// The part of a name after its last `.` (the whole name when it has none),
/// as `rsplit('.').next()` yields it.
pub open spec fn last_segment(s: Seq<char>) -> Seq<char>
    decreases s.len(),
{
    if s.len() == 0 {
        s
    } else if s.last() == '.' {
        Seq::empty()
    } else {
        last_segment(s.drop_last()).push(s.last())
    }
}

/// Byte length of the UTF-8 encoding of `s` (what `str::len` reports).
pub open spec fn byte_len(s: Seq<char>) -> nat {
    vstd::utf8::encode_utf8(s).len()
}

/// The byte length `str::len` reports for `s`.
pub open spec fn str_len(s: Seq<char>) -> nat {
    (byte_len(s) as usize) as nat
}

/// How far a candidate may be from the typed name: at most a third of the
/// longer byte length, and at least 1.
pub open spec fn suggestion_threshold(name: Seq<char>, token: Seq<char>) -> nat {
    let longer = if str_len(name) >= str_len(token) { str_len(name) } else { str_len(token) };
    if longer / 3 >= 1 { longer / 3 } else { 1 }
}

/// The best suggestion among the first `k` candidates: the distance and the
/// simple name of the first candidate closest to `name` that is close enough.
pub open spec fn best_suggestion(name: Seq<char>, cands: Seq<Seq<char>>, k: int) -> Option<(nat, Seq<char>)>
    decreases k,
{
    if k <= 0 {
        None
    } else {
        let prior = best_suggestion(name, cands, k - 1);
        let c = cands[k - 1];
        let token = last_segment(c);
        if c == name || token.len() == 0 {
            prior
        } else {
            let d = edit_distance(name, token);
            if d <= 3 && d <= suggestion_threshold(name, token) && (match prior { None => true, Some((pd, _)) => d < pd }) {
                Some((d, token))
            } else {
                prior
            }
        }
    }
}

/// A suggestion is the simple name of a candidate other than the typed
/// name, at most three edits away from it.
pub proof fn lemma_best_suggestion_close(name: Seq<char>, cands: Seq<Seq<char>>, k: int)
    requires
        0 <= k <= cands.len(),
    ensures
        best_suggestion(name, cands, k) matches Some((d, t)) ==> d == edit_distance(name, t) && d <= 3 && exists|i: int|
            0 <= i < k && cands[i] != name && #[trigger] last_segment(cands[i]) == t,
    decreases k,
{
    if k > 0 {
        lemma_best_suggestion_close(name, cands, k - 1);
        if let Some((d, t)) = best_suggestion(name, cands, k) {
            if best_suggestion(name, cands, k - 1) != best_suggestion(name, cands, k) {
                assert(last_segment(cands[k - 1]) == t);
            }
        }
    }
}

/// What `suggest_closest` proposes is within three edits of the typed name
/// and is the simple name of some candidate other than the typed name.
pub proof fn lemma_suggestion_close(name: Seq<char>, cands: Seq<Seq<char>>)
    ensures
        suggest_spec(name, cands) matches Some(t) ==> edit_distance(name, t) <= 3 && exists|i: int|
            0 <= i < cands.len() && cands[i] != name && #[trigger] last_segment(cands[i]) == t,
{
    lemma_best_suggestion_close(name, cands, cands.len() as int);
}

/// Whether candidate `c` may be proposed for `name`: another name whose
/// simple name is non-empty and close enough.
pub open spec fn eligible_candidate(name: Seq<char>, c: Seq<char>) -> bool {
    let token = last_segment(c);
    &&& c != name
    &&& token.len() > 0
    &&& edit_distance(name, token) <= 3
    &&& edit_distance(name, token) <= suggestion_threshold(name, token)
}

proof fn lemma_best_suggestion_least(name: Seq<char>, cands: Seq<Seq<char>>, k: int)
    requires
        0 <= k <= cands.len(),
    ensures
        best_suggestion(name, cands, k) is None <==> forall|i: int| 0 <= i < k ==> !#[trigger] eligible_candidate(name, cands[i]),
        best_suggestion(name, cands, k) matches Some((d, t)) ==> forall|i: int|
            0 <= i < k && #[trigger] eligible_candidate(name, cands[i]) ==> d <= edit_distance(name, last_segment(cands[i])),
    decreases k,
{
    if k > 0 {
        lemma_best_suggestion_least(name, cands, k - 1);
        if best_suggestion(name, cands, k) is None {
            assert forall|i: int| 0 <= i < k implies !#[trigger] eligible_candidate(name, cands[i]) by {
                if i < k - 1 {
                } else {
                    assert(!eligible_candidate(name, cands[k - 1]));
                }
            }
        }
        if forall|i: int| 0 <= i < k ==> !#[trigger] eligible_candidate(name, cands[i]) {
            assert(!eligible_candidate(name, cands[k - 1]));
            assert forall|i: int| 0 <= i < k - 1 implies !#[trigger] eligible_candidate(name, cands[i]) by {
                assert(!eligible_candidate(name, cands[i]));
            }
            assert(best_suggestion(name, cands, k - 1) is None);
        }
    }
}

/// How close a candidate must be to be proposed, for any typed name and
/// candidate other than it with a non-empty simple name: one edit away is
/// always close enough; more than three edits never; two edits are too many
/// when both names are at most five long, and up to three edits are close
/// enough when the longer name is at least nine long.
pub proof fn lemma_suggestion_threshold(name: Seq<char>, c: Seq<char>)
    requires
        c != name,
        last_segment(c).len() > 0,
    ensures
        edit_distance(name, last_segment(c)) == 1 ==> eligible_candidate(name, c),
        edit_distance(name, last_segment(c)) > 3 ==> !eligible_candidate(name, c),
        (str_len(name) <= 5 && str_len(last_segment(c)) <= 5 && edit_distance(name, last_segment(c)) == 2)
            ==> !eligible_candidate(name, c),
        ((str_len(name) >= 9 || str_len(last_segment(c)) >= 9) && edit_distance(name, last_segment(c)) <= 3)
            ==> eligible_candidate(name, c),
{
}

/// `suggest_closest` proposes nothing exactly when no candidate may be
/// proposed, and otherwise a name no farther from the typed name than any
/// candidate that may be proposed.
pub proof fn lemma_suggestion_is_closest(name: Seq<char>, cands: Seq<Seq<char>>)
    ensures
        suggest_spec(name, cands) is None <==> forall|i: int| 0 <= i < cands.len() ==> !#[trigger] eligible_candidate(name, cands[i]),
        suggest_spec(name, cands) matches Some(t) ==> forall|i: int|
            0 <= i < cands.len() && #[trigger] eligible_candidate(name, cands[i])
                ==> edit_distance(name, t) <= edit_distance(name, last_segment(cands[i])),
{
    lemma_best_suggestion_least(name, cands, cands.len() as int);
    lemma_best_suggestion_close(name, cands, cands.len() as int);
}

/// The name `suggest_closest` proposes.
pub open spec fn suggest_spec(name: Seq<char>, cands: Seq<Seq<char>>) -> Option<Seq<char>> {
    match best_suggestion(name, cands, cands.len() as int) {
        Some((_, t)) => Some(t),
        None => None,
    }
}

proof fn lemma_last_segment_len(s: Seq<char>)
    ensures
        last_segment(s).len() <= s.len(),
    decreases s.len(),
{
    if s.len() > 0 {
        lemma_last_segment_len(s.drop_last());
    }
}

/// The simple name after the last `.` of `c`.
fn last_segment_of(c: &[char]) -> (r: Vec<char>)
    ensures
        r@ == last_segment(c@),
{
    let mut start: usize = c.len();
    assert(c@.take(start as int) =~= c@);
    assert(c@.subrange(start as int, c@.len() as int) =~= Seq::<char>::empty());
    while start > 0 && c[start - 1] != '.'
        invariant
            start <= c@.len(),
            last_segment(c@) == last_segment(c@.take(start as int)) + c@.subrange(start as int, c@.len() as int),
        decreases start,
    {
        assert(c@.take(start as int).drop_last() =~= c@.take(start - 1));
        assert(c@.subrange(start - 1, c@.len() as int) =~= seq![c@[start - 1]] + c@.subrange(start as int, c@.len() as int));
        start = start - 1;
    }
    let mut r: Vec<char> = Vec::new();
    let mut i = start;
    while i < c.len()
        invariant
            start <= i <= c@.len(),
            r@ == c@.subrange(start as int, i as int),
        decreases c@.len() - i,
    {
        r.push(c[i]);
        i = i + 1;
        assert(r@ =~= c@.subrange(start as int, i as int));
    }
    proof {
        if start > 0 {
            assert(c@.take(start as int).last() == '.');
        } else {
            assert(c@.take(0).len() == 0);
        }
        assert(last_segment(c@.take(start as int)).len() == 0);
        assert(last_segment(c@) =~= c@.subrange(start as int, c@.len() as int));
    }
    r
}

/// "Did you mean X?": the simple name (after the last `.`) of the candidate
/// closest to `name` by edit distance, skipping candidates equal to `name`;
/// `None` when no candidate is within 3 edits and within a third of the
/// longer name's byte length (at least 1). Among equally close candidates
/// the first wins.
pub fn suggest_closest(name: &str, candidates: &[String]) -> (r: Option<String>)
    requires
        name@.len() < usize::MAX,
        forall|k: int| 0 <= k < candidates@.len() ==> #[trigger] candidates@[k]@.len() < usize::MAX,
    ensures
        opt_view(r) == suggest_spec(name@, string_views(candidates@)),
{
    let ghost cands = string_views(candidates@);
    let mut best: Option<(usize, String)> = None;
    let name_s: String = name.to_owned();
    let mut i: usize = 0;
    while i < candidates.len()
        invariant
            i <= candidates@.len(),
            cands == string_views(candidates@),
            name_s@ == name@,
            name@.len() < usize::MAX,
            forall|k: int| 0 <= k < candidates@.len() ==> #[trigger] candidates@[k]@.len() < usize::MAX,
            match best {
                None => best_suggestion(name@, cands, i as int) is None,
                Some((d, t)) => best_suggestion(name@, cands, i as int) == Some((d as nat, t@)),
            },
        decreases candidates@.len() - i,
    {
        let c = &candidates[i];
        assert(cands[i as int] == c@);
        if *c == name_s {
            i = i + 1;
            continue;
        }
        let cchars = chars_of(c.as_str());
        let tok = last_segment_of(&cchars);
        proof { lemma_last_segment_len(c@); }
        if tok.len() == 0 {
            i = i + 1;
            continue;
        }
        let token = string_from_chars(&tok);
        let d = levenshtein(name, token.as_str());
        let nl = name.len();
        let tl = token.as_str().len();
        let longer = if nl >= tl { nl } else { tl };
        let threshold = if longer / 3 >= 1 { longer / 3 } else { 1 };
        if d <= 3 && d <= threshold {
            let better = match &best {
                Some((bd, _)) => d < *bd,
                None => true,
            };
            if better {
                best = Some((d, token));
            }
        }
        i = i + 1;
    }
    match best {
        Some((_, t)) => Some(t),
        None => None,
    }
}

} // verus!
