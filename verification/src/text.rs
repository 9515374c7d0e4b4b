//! Character-sequence helpers shared by the lexer, the type parser and the
//! text generators.

use vstd::prelude::*;

verus! {

/// The characters of `s`, in order.
pub fn chars_of(s: &str) -> (v: Vec<char>)
    ensures
        v@ == s@,
{
    let mut v: Vec<char> = Vec::new();
    for c in it: s.chars()
        invariant
            v@ == it.seq().take(it.index() as int),
    {
        v.push(c);
    }
    v
}

/// Collects characters into an owned string (std's `FromIterator<char> for String`).
#[verifier::external_body]
pub(crate) fn string_from_chars(v: &[char]) -> (s: String)
    ensures
        s@ == v@,
{
    v.iter().collect()
}

/// Appends the characters of `s` to `out`.
pub fn push_str_chars(out: &mut Vec<char>, s: &str)
    ensures
        final(out)@ == old(out)@ + s@,
{
    let ghost start = out@;
    for c in it: s.chars()
        invariant
            out@ == start + it.seq().take(it.index() as int),
    {
        out.push(c);
    }
}

/// Appends the characters of `s` to `out`.
pub fn push_slice(out: &mut Vec<char>, s: &[char])
    ensures
        final(out)@ == old(out)@ + s@,
{
    let ghost start = out@;
    let mut i: usize = 0;
    while i < s.len()
        invariant
            i <= s@.len(),
            out@ == start + s@.take(i as int),
        decreases s@.len() - i,
    {
        out.push(s[i]);
        i = i + 1;
        assert(s@.take(i as int) == s@.take(i - 1) + seq![s@[i - 1]]);
    }
    assert(s@.take(s@.len() as int) == s@);
}

/// Equality of two character sequences.
pub fn chars_eq(a: &[char], b: &[char]) -> (r: bool)
    ensures
        r == (a@ == b@),
{
    if a.len() != b.len() {
        return false;
    }
    let mut i: usize = 0;
    while i < a.len()
        invariant
            i <= a@.len(),
            a@.len() == b@.len(),
            forall|k: int| 0 <= k < i ==> a@[k] == b@[k],
        decreases a@.len() - i,
    {
        if a[i] != b[i] {
            return false;
        }
        i = i + 1;
    }
    assert(a@ =~= b@);
    true
}

/// The decimal digit character for `d < 10`.
pub open spec fn digit_char(d: nat) -> char {
    if d == 0 { '0' }
    else if d == 1 { '1' }
    else if d == 2 { '2' }
    else if d == 3 { '3' }
    else if d == 4 { '4' }
    else if d == 5 { '5' }
    else if d == 6 { '6' }
    else if d == 7 { '7' }
    else if d == 8 { '8' }
    else { '9' }
}

/// Decimal notation of a natural number, without leading zeros.
pub open spec fn nat_text(n: nat) -> Seq<char>
    decreases n,
{
    if n < 10 {
        seq![digit_char(n)]
    } else {
        nat_text(n / 10).push(digit_char(n % 10))
    }
}

/// Decimal notation of an integer, as Rust's `Display` for integers writes it.
pub open spec fn int_text(n: int) -> Seq<char> {
    if n < 0 {
        seq!['-'] + nat_text((-n) as nat)
    } else {
        nat_text(n as nat)
    }
}

fn digit_of(d: u64) -> (c: char)
    requires
        d < 10,
    ensures
        c == digit_char(d as nat),
{
    if d == 0 { '0' }
    else if d == 1 { '1' }
    else if d == 2 { '2' }
    else if d == 3 { '3' }
    else if d == 4 { '4' }
    else if d == 5 { '5' }
    else if d == 6 { '6' }
    else if d == 7 { '7' }
    else if d == 8 { '8' }
    else { '9' }
}

/// Decimal digits of `n`.
pub fn u64_text(n: u64) -> (v: Vec<char>)
    ensures
        v@ == nat_text(n as nat),
    decreases n,
{
    if n < 10 {
        let mut v: Vec<char> = Vec::new();
        v.push(digit_of(n));
        v
    } else {
        let mut v = u64_text(n / 10);
        v.push(digit_of(n % 10));
        v
    }
}

/// Decimal notation of `n`, with a leading `-` when negative.
pub fn i64_text(n: i64) -> (v: Vec<char>)
    ensures
        v@ == int_text(n as int),
{
    if n < 0 {
        let m: u64 = if n == i64::MIN { 9223372036854775808u64 } else { (-n) as u64 };
        let mut v: Vec<char> = Vec::new();
        v.push('-');
        let d = u64_text(m);
        push_slice(&mut v, &d);
        v
    } else {
        u64_text(n as u64)
    }
}

/// Decimal notation of `n`.
pub fn usize_text(n: usize) -> (v: Vec<char>)
    ensures
        v@ == nat_text(n as nat),
{
    u64_text(n as u64)
}

/// `n` spaces.
pub open spec fn spaces(n: nat) -> Seq<char> {
    Seq::new(n, |i: int| ' ')
}

/// Appends `n` spaces to `out`.
pub fn push_spaces(out: &mut Vec<char>, n: usize)
    ensures
        final(out)@ == old(out)@ + spaces(n as nat),
{
    let ghost start = out@;
    let mut i: usize = 0;
    while i < n
        invariant
            i <= n,
            out@ == start + spaces(i as nat),
        decreases n - i,
    {
        out.push(' ');
        i = i + 1;
        assert(spaces(i as nat) =~= spaces((i - 1) as nat).push(' '));
    }
}

/// The characters of `s` joined by `sep`.
pub open spec fn join_seqs(parts: Seq<Seq<char>>, sep: Seq<char>) -> Seq<char>
    decreases parts.len(),
{
    if parts.len() == 0 {
        Seq::empty()
    } else if parts.len() == 1 {
        parts[0]
    } else {
        join_seqs(parts.drop_last(), sep) + sep + parts.last()
    }
}

/// The sequences of `parts`, one after another.
pub open spec fn concat_seqs(parts: Seq<Seq<char>>) -> Seq<char>
    decreases parts.len(),
{
    if parts.len() == 0 {
        Seq::empty()
    } else {
        concat_seqs(parts.drop_last()) + parts.last()
    }
}

/// Concatenating one more part appends it.
pub proof fn lemma_concat_take(parts: Seq<Seq<char>>, i: int)
    requires
        0 <= i < parts.len(),
    ensures
        concat_seqs(parts.take(i + 1)) == concat_seqs(parts.take(i)) + parts[i],
{
    assert(parts.take(i + 1).drop_last() =~= parts.take(i));
}

/// Joining one more part appends the separator and the part.
pub proof fn lemma_join_take(parts: Seq<Seq<char>>, sep: Seq<char>, i: int)
    requires
        0 <= i < parts.len(),
    ensures
        join_seqs(parts.take(i + 1), sep) == if i == 0 { parts[0] } else { join_seqs(parts.take(i), sep) + sep + parts[i] },
{
    assert(parts.take(i + 1).drop_last() =~= parts.take(i));
}

/// The views of a slice of strings.
pub open spec fn string_views(v: Seq<String>) -> Seq<Seq<char>> {
    v.map_values(|s: String| s@)
}

/// `parts` joined by `sep` (as `[String]::join` does).
pub fn join_strings(parts: &[String], sep: &str) -> (r: Vec<char>)
    ensures
        r@ == join_seqs(string_views(parts@), sep@),
{
    let mut out: Vec<char> = Vec::new();
    let ghost views = string_views(parts@);
    let mut i: usize = 0;
    while i < parts.len()
        invariant
            i <= parts@.len(),
            views == string_views(parts@),
            out@ == join_seqs(views.take(i as int), sep@),
        decreases parts@.len() - i,
    {
        if i > 0 {
            push_str_chars(&mut out, sep);
        }
        push_str_chars(&mut out, parts[i].as_str());
        i = i + 1;
        assert(views.take(i as int).drop_last() =~= views.take(i - 1));
    }
    assert(views.take(parts@.len() as int) =~= views);
    out
}

/// `s` without leading and trailing characters for which `ws` holds.
pub open spec fn trim_by(s: Seq<char>, ws: spec_fn(char) -> bool) -> Seq<char> {
    trim_end_by(trim_start_by(s, ws), ws)
}

pub open spec fn trim_start_by(s: Seq<char>, ws: spec_fn(char) -> bool) -> Seq<char>
    decreases s.len(),
{
    if s.len() > 0 && ws(s[0]) {
        trim_start_by(s.drop_first(), ws)
    } else {
        s
    }
}

pub open spec fn trim_end_by(s: Seq<char>, ws: spec_fn(char) -> bool) -> Seq<char>
    decreases s.len(),
{
    if s.len() > 0 && ws(s.last()) {
        trim_end_by(s.drop_last(), ws)
    } else {
        s
    }
}

/// The Unicode `White_Space` property, as `char::is_whitespace` reports it:
/// tab through carriage return, space, next line, no-break space, ogham
/// space mark, the spaces from en quad to hair space, line and paragraph
/// separators, narrow no-break space, medium mathematical space and
/// ideographic space.
pub open spec fn is_whitespace_char(c: char) -> bool {
    ||| '\t' <= c <= '\r'
    ||| c == ' '
    ||| c == '\u{85}'
    ||| c == '\u{a0}'
    ||| c == '\u{1680}'
    ||| '\u{2000}' <= c <= '\u{200a}'
    ||| c == '\u{2028}'
    ||| c == '\u{2029}'
    ||| c == '\u{202f}'
    ||| c == '\u{205f}'
    ||| c == '\u{3000}'
}

/// The Unicode `Alphabetic` property beyond ASCII, as `char::is_alphabetic` reports it.
pub uninterp spec fn is_alphabetic_beyond_ascii(c: char) -> bool;

/// The Unicode numeric categories (`Nd`, `Nl`, `No`) beyond ASCII, as `char::is_numeric` reports them.
pub uninterp spec fn is_numeric_beyond_ascii(c: char) -> bool;

/// The Unicode `Lowercase` property beyond ASCII, as `char::is_lowercase` reports it.
pub uninterp spec fn is_lowercase_beyond_ascii(c: char) -> bool;

/// The Unicode `Alphabetic` property: the ASCII letters, and beyond ASCII
/// what [`is_alphabetic_beyond_ascii`] names.
pub open spec fn is_alphabetic_char(c: char) -> bool {
    if c <= '\x7f' { ('a' <= c <= 'z') || ('A' <= c <= 'Z') } else { is_alphabetic_beyond_ascii(c) }
}

/// The Unicode numeric categories: the ASCII digits, and beyond ASCII what
/// [`is_numeric_beyond_ascii`] names.
pub open spec fn is_numeric_char(c: char) -> bool {
    if c <= '\x7f' { '0' <= c <= '9' } else { is_numeric_beyond_ascii(c) }
}

/// The Unicode `Lowercase` property: the ASCII lowercase letters, and beyond
/// ASCII what [`is_lowercase_beyond_ascii`] names.
pub open spec fn is_lowercase_char(c: char) -> bool {
    if c <= '\x7f' { 'a' <= c <= 'z' } else { is_lowercase_beyond_ascii(c) }
}

/// Whether `c` has the Unicode `White_Space` property, as
/// `char::is_whitespace` decides it (see [`is_whitespace_char`]).
pub(crate) fn char_is_whitespace(c: char) -> (r: bool)
    ensures
        r == is_whitespace_char(c),
{
    ('\t' <= c && c <= '\r') || c == ' ' || c == '\u{85}' || c == '\u{a0}' || c == '\u{1680}'
        || ('\u{2000}' <= c && c <= '\u{200a}') || c == '\u{2028}' || c == '\u{2029}' || c == '\u{202f}'
        || c == '\u{205f}' || c == '\u{3000}'
}

/// Calls `char::is_alphabetic`, which std documents as the Unicode
/// `Alphabetic` property: within ASCII exactly the letters; beyond ASCII the
/// result is named [`is_alphabetic_beyond_ascii`].
#[verifier::external_body]
pub(crate) fn char_is_alphabetic(c: char) -> (r: bool)
    ensures
        r == is_alphabetic_char(c),
        c > '\x7f' ==> r == is_alphabetic_beyond_ascii(c),
{
    c.is_alphabetic()
}

/// Calls `char::is_numeric`, which std documents as the Unicode categories
/// `Nd`, `Nl` and `No`: within ASCII exactly the digits; beyond ASCII the
/// result is named [`is_numeric_beyond_ascii`].
#[verifier::external_body]
pub(crate) fn char_is_numeric(c: char) -> (r: bool)
    ensures
        r == is_numeric_char(c),
        c > '\x7f' ==> r == is_numeric_beyond_ascii(c),
{
    c.is_numeric()
}

/// Calls `char::is_alphanumeric`, which std documents as `is_alphabetic() || is_numeric()`.
#[verifier::external_body]
pub(crate) fn char_is_alphanumeric(c: char) -> (r: bool)
    ensures
        r == (is_alphabetic_char(c) || is_numeric_char(c)),
{
    c.is_alphanumeric()
}

/// Calls `char::is_lowercase`, which std documents as the Unicode
/// `Lowercase` property: within ASCII exactly `a` to `z`; beyond ASCII the
/// result is named [`is_lowercase_beyond_ascii`].
#[verifier::external_body]
pub(crate) fn char_is_lowercase(c: char) -> (r: bool)
    ensures
        r == is_lowercase_char(c),
        c > '\x7f' ==> r == is_lowercase_beyond_ascii(c),
{
    c.is_lowercase()
}

/// Whitespace as `str::trim` and `char::is_whitespace` define it.
pub open spec fn ws_pred() -> spec_fn(char) -> bool {
    |c: char| is_whitespace_char(c)
}

/// `s` with leading and trailing whitespace removed (as `str::trim` does).
pub open spec fn trim_ws(s: Seq<char>) -> Seq<char> {
    trim_by(s, ws_pred())
}

/// Removes leading and trailing whitespace.
pub fn trim_chars(s: &[char]) -> (r: Vec<char>)
    ensures
        r@ == trim_ws(s@),
{
    let mut lo: usize = 0;
    assert(s@.skip(0) =~= s@);
    while lo < s.len() && char_is_whitespace(s[lo])
        invariant
            lo <= s@.len(),
            trim_start_by(s@, ws_pred()) == trim_start_by(s@.skip(lo as int), ws_pred()),
        decreases s@.len() - lo,
    {
        assert(s@.skip(lo as int).drop_first() =~= s@.skip(lo + 1));
        lo = lo + 1;
    }
    let ghost front = s@.skip(lo as int);
    assert(trim_start_by(front, ws_pred()) == front) by {
        if front.len() > 0 {
            assert(front[0] == s@[lo as int]);
        }
    }
    let mut hi: usize = s.len();
    assert(front =~= s@.subrange(lo as int, hi as int));
    while hi > lo && char_is_whitespace(s[hi - 1])
        invariant
            lo <= hi <= s@.len(),
            front == s@.skip(lo as int),
            trim_end_by(front, ws_pred()) == trim_end_by(s@.subrange(lo as int, hi as int), ws_pred()),
        decreases hi,
    {
        assert(s@.subrange(lo as int, hi as int).drop_last() =~= s@.subrange(lo as int, hi - 1));
        hi = hi - 1;
    }
    let ghost mid = s@.subrange(lo as int, hi as int);
    assert(trim_end_by(mid, ws_pred()) == mid) by {
        if mid.len() > 0 {
            assert(mid.last() == s@[hi - 1]);
        }
    }
    let mut r: Vec<char> = Vec::new();
    let mut i: usize = lo;
    while i < hi
        invariant
            lo <= i <= hi,
            hi <= s@.len(),
            r@ == s@.subrange(lo as int, i as int),
        decreases hi - i,
    {
        r.push(s[i]);
        i = i + 1;
        assert(r@ =~= s@.subrange(lo as int, i as int));
    }
    assert(front == s@.subrange(lo as int, s@.len() as int));
    r
}

/// Whether the characters `t` spell the literal `lit`.
pub fn eq_lit(t: &[char], lit: &str) -> (r: bool)
    ensures
        r == (t@ == lit@),
{
    let l = chars_of(lit);
    chars_eq(t, &l)
}

/// Whether two strings hold the same characters.
pub fn str_eq(a: &str, b: &str) -> (r: bool)
    ensures
        r == (a@ == b@),
{
    let x = chars_of(a);
    let y = chars_of(b);
    chars_eq(&x, &y)
}

/// A copy of `s[lo..hi]`.
pub fn slice_chars(s: &[char], lo: usize, hi: usize) -> (r: Vec<char>)
    requires
        lo <= hi <= s@.len(),
    ensures
        r@ == s@.subrange(lo as int, hi as int),
{
    let mut r: Vec<char> = Vec::new();
    let mut i = lo;
    while i < hi
        invariant
            lo <= i <= hi,
            hi <= s@.len(),
            r@ == s@.subrange(lo as int, i as int),
        decreases hi - i,
    {
        r.push(s[i]);
        i = i + 1;
        assert(r@ =~= s@.subrange(lo as int, i as int));
    }
    r
}

/// Trimming never lengthens a sequence.
pub proof fn lemma_trim_len(s: Seq<char>)
    ensures
        trim_ws(s).len() <= s.len(),
{
    lemma_trim_start_len(s, ws_pred());
    lemma_trim_end_len(trim_start_by(s, ws_pred()), ws_pred());
}

pub proof fn lemma_trim_start_len(s: Seq<char>, ws: spec_fn(char) -> bool)
    ensures
        trim_start_by(s, ws).len() <= s.len(),
    decreases s.len(),
{
    if s.len() > 0 && ws(s[0]) {
        lemma_trim_start_len(s.drop_first(), ws);
    }
}

pub proof fn lemma_trim_end_len(s: Seq<char>, ws: spec_fn(char) -> bool)
    ensures
        trim_end_by(s, ws).len() <= s.len(),
    decreases s.len(),
{
    if s.len() > 0 && ws(s.last()) {
        lemma_trim_end_len(s.drop_last(), ws);
    }
}

} // verus!
