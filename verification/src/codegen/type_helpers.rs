//! Recovery of type-name strings: the type of a struct field or tuple
//! element from its container's type name, and the type name of an
//! expression from the declarations and the variables in scope.

use vstd::prelude::*;
use crate::analysis::rules::{ends_with, ends_with_chars};
use crate::analysis::types::{part_views, split_on, split_on_chars, split_scan};
use crate::ast::{Declaration, Expression, Span, Statement};
use crate::lexer::{all_ascii_digits, decimal_value};
use crate::text::{chars_eq, chars_of, join_seqs, string_from_chars, string_views, trim_chars, trim_ws};
use super::intrinsics::{subst_type_name, substitute_generic_params};

verus! {

/// The name tables the backend keeps while it lowers a program: every
/// declaration under its (qualified) name, and the names of the struct and
/// enum types registered so far. Lookups take the first entry of a name.
pub struct NameTables {
    pub decls: Vec<(String, Declaration)>,
    pub struct_types: Vec<String>,
    pub enum_types: Vec<String>,
}

// ---------------------------------------------------------------------------
// Text
// ---------------------------------------------------------------------------

/// `s` without its space characters.
pub open spec fn without_spaces(s: Seq<char>) -> Seq<char>
    decreases s.len(),
{
    if s.len() == 0 {
        s
    } else if s.last() == ' ' {
        without_spaces(s.drop_last())
    } else {
        without_spaces(s.drop_last()).push(s.last())
    }
}

/// `s` without its leading `*` characters.
pub open spec fn skip_stars(s: Seq<char>) -> Seq<char>
    decreases s.len(),
{
    if s.len() > 0 && s[0] == '*' {
        skip_stars(s.drop_first())
    } else {
        s
    }
}

/// A separator of generic arguments in a type name.
pub open spec fn angle_sep(c: char) -> bool {
    c == '<' || c == '>' || c == ','
}

/// `s` split at every `<`, `>` and `,` (as `str::split` does with several
/// separators; empty input gives one empty part).
pub open spec fn split_angle(s: Seq<char>) -> Seq<Seq<char>>
    decreases s.len(),
{
    if s.len() == 0 {
        seq![Seq::empty()]
    } else {
        let rest = split_angle(s.drop_last());
        if angle_sep(s.last()) {
            rest.push(Seq::empty())
        } else {
            rest.update(rest.len() - 1, rest.last().push(s.last()))
        }
    }
}

/// The non-empty parts, in order.
pub open spec fn nonempty_parts(ps: Seq<Seq<char>>) -> Seq<Seq<char>>
    decreases ps.len(),
{
    if ps.len() == 0 {
        Seq::empty()
    } else {
        let rest = nonempty_parts(ps.drop_last());
        if ps.last().len() > 0 { rest.push(ps.last()) } else { rest }
    }
}

/// A type name taken apart into its base name and its generic arguments
/// (trimmed): `Pair<i64,String>` gives `Pair` and `[i64, String]`; a name
/// without `<` is its own base. `None` for a name with `<` made of
/// separators only, on which the backend fails.
pub open spec fn generic_split(cs: Seq<char>) -> Option<(Seq<char>, Seq<Seq<char>>)> {
    if cs.contains('<') {
        let p = nonempty_parts(split_angle(cs));
        if p.len() == 0 {
            None
        } else {
            Some((p[0], p.skip(1).map_values(|x: Seq<char>| trim_ws(x))))
        }
    } else {
        Some((cs, Seq::empty()))
    }
}

/// What `str::parse::<usize>` gives: the value of an optional `+` followed
/// by at least one ASCII digit, when it fits.
pub open spec fn index_text(s: Seq<char>) -> Option<int> {
    let digits = if s.len() > 0 && s[0] == '+' { s.drop_first() } else { s };
    if digits.len() > 0 && all_ascii_digits(digits) && decimal_value(digits) <= usize::MAX {
        Some(decimal_value(digits))
    } else {
        None
    }
}

fn remove_spaces(s: &[char]) -> (r: Vec<char>)
    ensures
        r@ == without_spaces(s@),
{
    let mut r: Vec<char> = Vec::new();
    let mut i: usize = 0;
    while i < s.len()
        invariant
            i <= s@.len(),
            r@ == without_spaces(s@.take(i as int)),
        decreases s@.len() - i,
    {
        assert(s@.take(i + 1).drop_last() =~= s@.take(i as int));
        if s[i] != ' ' {
            r.push(s[i]);
        }
        i = i + 1;
    }
    assert(s@.take(s@.len() as int) =~= s@);
    r
}

fn strip_stars(s: &[char]) -> (r: Vec<char>)
    ensures
        r@ == skip_stars(s@),
{
    let mut k: usize = 0;
    assert(s@.skip(0) =~= s@);
    while k < s.len() && s[k] == '*'
        invariant
            k <= s@.len(),
            skip_stars(s@) == skip_stars(s@.skip(k as int)),
        decreases s@.len() - k,
    {
        assert(s@.skip(k as int).drop_first() =~= s@.skip(k + 1));
        k = k + 1;
    }
    let mut r: Vec<char> = Vec::new();
    let mut i: usize = k;
    while i < s.len()
        invariant
            k <= i <= s@.len(),
            r@ == s@.subrange(k as int, i as int),
        decreases s@.len() - i,
    {
        r.push(s[i]);
        i = i + 1;
        assert(r@ =~= s@.subrange(k as int, i as int));
    }
    assert(r@ =~= s@.skip(k as int));
    r
}

fn has_char(s: &[char], c: char) -> (b: bool)
    ensures
        b == s@.contains(c),
{
    let mut i: usize = 0;
    while i < s.len()
        invariant
            i <= s@.len(),
            forall|k: int| 0 <= k < i ==> s@[k] != c,
        decreases s@.len() - i,
    {
        if s[i] == c {
            assert(s@[i as int] == c);
            return true;
        }
        i = i + 1;
    }
    false
}

fn split_angle_chars(s: &[char]) -> (r: Vec<Vec<char>>)
    ensures
        part_views(r@) == split_angle(s@),
{
    let mut parts: Vec<Vec<char>> = Vec::new();
    let mut cur: Vec<char> = Vec::new();
    let mut i: usize = 0;
    while i < s.len()
        invariant
            i <= s@.len(),
            part_views(parts@).push(cur@) == split_angle(s@.take(i as int)),
        decreases s@.len() - i,
    {
        let c = s[i];
        let ghost pv = part_views(parts@);
        let ghost cv = cur@;
        assert(s@.take(i + 1).drop_last() =~= s@.take(i as int));
        if c == '<' || c == '>' || c == ',' {
            let done = cur;
            cur = Vec::new();
            parts.push(done);
            assert(part_views(parts@) =~= pv.push(cv));
            assert(part_views(parts@).push(cur@) =~= pv.push(cv).push(Seq::empty()));
        } else {
            cur.push(c);
            assert(part_views(parts@).push(cur@) =~= pv.push(cv).update(pv.len() as int, cv.push(c)));
        }
        i = i + 1;
    }
    assert(s@.take(s@.len() as int) =~= s@);
    let ghost pv = part_views(parts@);
    let ghost cv = cur@;
    parts.push(cur);
    assert(part_views(parts@) =~= pv.push(cv));
    parts
}

proof fn lemma_nonempty_parts_len(ps: Seq<Seq<char>>)
    ensures
        nonempty_parts(ps).len() > 0 <==> exists|i: int| 0 <= i < ps.len() && #[trigger] ps[i].len() > 0,
    decreases ps.len(),
{
    if ps.len() > 0 {
        let d = ps.drop_last();
        lemma_nonempty_parts_len(d);
        if exists|i: int| 0 <= i < d.len() && #[trigger] d[i].len() > 0 {
            let i = choose|i: int| 0 <= i < d.len() && #[trigger] d[i].len() > 0;
            assert(ps[i].len() > 0);
        }
        if exists|i: int| 0 <= i < ps.len() && #[trigger] ps[i].len() > 0 {
            let i = choose|i: int| 0 <= i < ps.len() && #[trigger] ps[i].len() > 0;
            if i < d.len() {
                assert(d[i].len() > 0);
            }
        }
    }
}

/// Whether a type name can be taken apart (see [`generic_split`]).
fn generic_split_ok(cs: &[char]) -> (b: bool)
    ensures
        b == (generic_split(cs@) is Some),
{
    if !has_char(cs, '<') {
        return true;
    }
    let parts = split_angle_chars(cs);
    let ghost all = split_angle(cs@);
    proof {
        lemma_nonempty_parts_len(all);
        crate::analysis::types::lemma_part_views(parts@);
    }
    let mut i: usize = 0;
    while i < parts.len()
        invariant
            i <= parts@.len(),
            part_views(parts@) == all,
            all == split_angle(cs@),
            cs@.contains('<'),
            forall|k: int| 0 <= k < i ==> all[k].len() == 0,
        decreases parts@.len() - i,
    {
        assert(all[i as int] == parts@[i as int]@);
        if parts[i].len() > 0 {
            proof {
                assert(all[i as int].len() > 0);
                lemma_nonempty_parts_len(all);
            }
            return true;
        }
        i = i + 1;
    }
    false
}

/// Takes a type name apart into its base name and its trimmed generic
/// arguments (see [`generic_split`]).
fn split_generic(cs: &[char]) -> (r: (Vec<char>, Vec<String>))
    requires
        generic_split(cs@) is Some,
    ensures
        r.0@ == generic_split(cs@).unwrap().0,
        string_views(r.1@) == generic_split(cs@).unwrap().1,
{
    if !has_char(cs, '<') {
        let mut base: Vec<char> = Vec::new();
        push_all(&mut base, cs);
        let args: Vec<String> = Vec::new();
        assert(string_views(args@) =~= Seq::<Seq<char>>::empty());
        return (base, args);
    }
    let parts = split_angle_chars(cs);
    let ghost all = split_angle(cs@);
    let mut kept: Vec<Vec<char>> = Vec::new();
    let mut i: usize = 0;
    while i < parts.len()
        invariant
            i <= parts@.len(),
            part_views(parts@) == all,
            part_views(kept@) == nonempty_parts(all.take(i as int)),
        decreases parts@.len() - i,
    {
        assert(all.take(i + 1).drop_last() =~= all.take(i as int));
        assert(all[i as int] == parts@[i as int]@);
        if parts[i].len() > 0 {
            let ghost kv = part_views(kept@);
            let mut copy: Vec<char> = Vec::new();
            push_all(&mut copy, &parts[i]);
            kept.push(copy);
            assert(part_views(kept@) =~= kv.push(all[i as int]));
        }
        i = i + 1;
    }
    assert(all.take(all.len() as int) =~= all);
    let ghost p = nonempty_parts(all);
    let mut base: Vec<char> = Vec::new();
    assert(kept@[0]@ == p[0]);
    push_all(&mut base, &kept[0]);
    let mut args: Vec<String> = Vec::new();
    let mut k: usize = 1;
    while k < kept.len()
        invariant
            1 <= k <= kept@.len(),
            part_views(kept@) == p,
            p.len() > 0,
            string_views(args@) == p.skip(1).take(k - 1).map_values(|x: Seq<char>| trim_ws(x)),
        decreases kept@.len() - k,
    {
        let t = trim_chars(&kept[k]);
        let ghost av = string_views(args@);
        args.push(string_from_chars(&t));
        assert(kept@[k as int]@ == p[k as int]);
        assert(string_views(args@) =~= p.skip(1).take(k as int).map_values(|x: Seq<char>| trim_ws(x))) by {
            assert(string_views(args@) =~= av.push(trim_ws(p[k as int])));
        }
        k = k + 1;
    }
    assert(p.skip(1).take(k - 1) =~= p.skip(1));
    (base, args)
}

fn push_all(out: &mut Vec<char>, s: &[char])
    ensures
        final(out)@ == old(out)@ + s@,
{
    crate::text::push_slice(out, s);
}

/// Reads an index as `str::parse::<usize>` does (see [`index_text`]).
fn parse_index(s: &[char]) -> (r: Option<usize>)
    ensures
        match r {
            Some(n) => index_text(s@) == Some(n as int),
            None => index_text(s@) is None,
        },
{
    let start: usize = if s.len() > 0 && s[0] == '+' { 1 } else { 0 };
    let ghost digits = if s@.len() > 0 && s@[0] == '+' { s@.drop_first() } else { s@ };
    assert(digits =~= s@.skip(start as int));
    if start >= s.len() {
        return None;
    }
    let mut i: usize = start;
    while i < s.len()
        invariant
            start <= i <= s@.len(),
            digits =~= s@.skip(start as int),
            digits == (if s@.len() > 0 && s@[0] == '+' { s@.drop_first() } else { s@ }),
            forall|k: int| start <= k < i ==> '0' <= #[trigger] s@[k] <= '9',
        decreases s@.len() - i,
    {
        if s[i] < '0' || s[i] > '9' {
            assert(digits[i - start] == s@[i as int]);
            assert(!('0' <= digits[i - start] <= '9'));
            assert(!all_ascii_digits(digits));
            return None;
        }
        i = i + 1;
    }
    assert(all_ascii_digits(digits)) by {
        assert forall|k: int| 0 <= k < digits.len() implies '0' <= #[trigger] digits[k] <= '9' by {
            assert(digits[k] == s@[k + start]);
        }
    }
    let mut v: usize = 0;
    let mut i: usize = start;
    while i < s.len()
        invariant
            start <= i <= s@.len(),
            digits =~= s@.skip(start as int),
            digits == (if s@.len() > 0 && s@[0] == '+' { s@.drop_first() } else { s@ }),
            all_ascii_digits(digits),
            v as int == decimal_value(digits.take(i - start)),
        decreases s@.len() - i,
    {
        assert(digits.take(i - start + 1).drop_last() =~= digits.take(i - start));
        assert(digits[i - start] == s@[i as int]);
        assert('0' <= digits[i - start] <= '9');
        let d = (s[i] as u32 - '0' as u32) as usize;
        proof {
            crate::lexer::lemma_decimal_value_grows(digits, i - start + 1);
        }
        if v > (usize::MAX - d) / 10 {
            proof {
                assert(v * 10 + d > usize::MAX) by (nonlinear_arith)
                    requires
                        v > (usize::MAX - d) / 10,
                        d <= 9,
                ;
                assert(decimal_value(digits.take(i - start + 1)) == v * 10 + d);
                crate::lexer::lemma_decimal_value_grows(digits, digits.len() as int);
                assert(digits.take(digits.len() as int) =~= digits);
                crate::lexer::lemma_decimal_value_grows(digits, i - start + 1);
            }
            return None;
        }
        v = v * 10 + d;
        i = i + 1;
    }
    assert(digits.take(i - start) =~= digits);
    Some(v)
}

// ---------------------------------------------------------------------------
// Lookups
// ---------------------------------------------------------------------------

/// The names the declarations are registered under, in order.
pub open spec fn decl_names(decls: Seq<(String, Declaration)>) -> Seq<Seq<char>> {
    decls.map_values(|d: (String, Declaration)| d.0@)
}

/// The index of the first key equal to `k`, from `from` on.
pub open spec fn first_index(keys: Seq<Seq<char>>, k: Seq<char>, from: int) -> Option<int>
    decreases keys.len() - from,
{
    if from < 0 || from >= keys.len() {
        None
    } else if keys[from] == k {
        Some(from)
    } else {
        first_index(keys, k, from + 1)
    }
}

/// The declaration registered under `key`.
pub open spec fn decl_lookup(decls: Seq<(String, Declaration)>, key: Seq<char>) -> Option<Declaration> {
    match first_index(decl_names(decls), key, 0) {
        Some(i) => Some(decls[i].1),
        None => None,
    }
}

/// The index of the first key that ends with `clean` or with which
/// `clean` ends, from `from` on.
pub open spec fn first_overlap(keys: Seq<Seq<char>>, clean: Seq<char>, from: int) -> Option<int>
    decreases keys.len() - from,
{
    if from < 0 || from >= keys.len() {
        None
    } else if ends_with(keys[from], clean) || ends_with(clean, keys[from]) {
        Some(from)
    } else {
        first_overlap(keys, clean, from + 1)
    }
}

/// The last dotted segment of a name.
pub open spec fn last_segment(s: Seq<char>) -> Seq<char> {
    split_on(s, '.').last()
}

/// The key a possibly qualified or partial name resolves to, spaces
/// removed: the name itself, else its last segment, else the first key
/// that one of the two ends with.
pub open spec fn fuzzy_name(keys: Seq<Seq<char>>, name: Seq<char>) -> Option<Seq<char>> {
    let clean = without_spaces(name);
    if first_index(keys, clean, 0) is Some {
        Some(clean)
    } else if first_index(keys, last_segment(clean), 0) is Some {
        Some(last_segment(clean))
    } else {
        match first_overlap(keys, clean, 0) {
            Some(i) => Some(keys[i]),
            None => None,
        }
    }
}

/// The value of the first entry named `name` (the type name of a field or
/// of a variable).
pub open spec fn entry_of(fields: Seq<(String, String)>, name: Seq<char>) -> Option<Seq<char>>
    decreases fields.len(),
{
    if fields.len() == 0 {
        None
    } else if fields[0].0@ == name {
        Some(fields[0].1@)
    } else {
        entry_of(fields.drop_first(), name)
    }
}

fn key_index(keys: &Vec<String>, k: &[char]) -> (r: Option<usize>)
    ensures
        match r {
            Some(i) => first_index(string_views(keys@), k@, 0) == Some(i as int),
            None => first_index(string_views(keys@), k@, 0) is None,
        },
{
    let ghost ks = string_views(keys@);
    let mut i: usize = 0;
    while i < keys.len()
        invariant
            i <= keys@.len(),
            ks == string_views(keys@),
            first_index(ks, k@, 0) == first_index(ks, k@, i as int),
        decreases keys@.len() - i,
    {
        let c = chars_of(keys[i].as_str());
        if chars_eq(&c, k) {
            return Some(i);
        }
        i = i + 1;
    }
    None
}

/// The resolution of a name among `keys` (see [`fuzzy_name`]).
fn fuzzy(keys: &Vec<String>, name: &[char]) -> (r: Option<Vec<char>>)
    ensures
        match r {
            Some(v) => fuzzy_name(string_views(keys@), name@) == Some(v@),
            None => fuzzy_name(string_views(keys@), name@) is None,
        },
{
    let ghost ks = string_views(keys@);
    let clean = remove_spaces(name);
    if key_index(keys, &clean).is_some() {
        return Some(clean);
    }
    let segs = split_on_chars(&clean, '.');
    proof {
        crate::analysis::types::lemma_split_on_shape(clean@, '.');
        crate::analysis::types::lemma_part_views(segs@);
    }
    let mut last: Vec<char> = Vec::new();
    push_all(&mut last, &segs[segs.len() - 1]);
    assert(last@ == last_segment(clean@));
    if key_index(keys, &last).is_some() {
        return Some(last);
    }
    let mut i: usize = 0;
    while i < keys.len()
        invariant
            i <= keys@.len(),
            ks == string_views(keys@),
            clean@ == without_spaces(name@),
            first_index(ks, clean@, 0) is None,
            first_index(ks, last_segment(clean@), 0) is None,
            first_overlap(ks, clean@, 0) == first_overlap(ks, clean@, i as int),
        decreases keys@.len() - i,
    {
        let k = chars_of(keys[i].as_str());
        if ends_with_chars(&k, &clean) || ends_with_chars(&clean, &k) {
            return Some(k);
        }
        i = i + 1;
    }
    None
}

impl NameTables {
    /// The registered names of the declarations, in order.
    fn decl_keys(&self) -> (r: Vec<String>)
        ensures
            string_views(r@) == decl_names(self.decls@),
    {
        let mut r: Vec<String> = Vec::new();
        let mut i: usize = 0;
        while i < self.decls.len()
            invariant
                i <= self.decls@.len(),
                string_views(r@) == decl_names(self.decls@).take(i as int),
            decreases self.decls@.len() - i,
        {
            let ghost rv = string_views(r@);
            r.push(self.decls[i].0.clone());
            assert(string_views(r@) =~= rv.push(self.decls@[i as int].0@));
            assert(decl_names(self.decls@).take(i + 1) =~= decl_names(self.decls@).take(i as int).push(self.decls@[i as int].0@));
            i = i + 1;
        }
        assert(decl_names(self.decls@).take(i as int) =~= decl_names(self.decls@));
        r
    }

    /// The index of the declaration registered under `key`.
    fn find_decl(&self, key: &[char]) -> (r: Option<usize>)
        ensures
            match r {
                Some(i) => i < self.decls@.len() && first_index(decl_names(self.decls@), key@, 0) == Some(i as int),
                None => first_index(decl_names(self.decls@), key@, 0) is None,
            },
    {
        let ghost ks = decl_names(self.decls@);
        let mut i: usize = 0;
        while i < self.decls.len()
            invariant
                i <= self.decls@.len(),
                ks == decl_names(self.decls@),
                first_index(ks, key@, 0) == first_index(ks, key@, i as int),
            decreases self.decls@.len() - i,
        {
            let c = chars_of(self.decls[i].0.as_str());
            if chars_eq(&c, key) {
                return Some(i);
            }
            i = i + 1;
        }
        None
    }
}

fn find_entry(fields: &Vec<(String, String)>, name: &str) -> (r: Option<usize>)
    ensures
        match r {
            Some(i) => i < fields@.len() && entry_of(fields@, name@) == Some(fields@[i as int].1@),
            None => entry_of(fields@, name@) is None,
        },
{
    let mut i: usize = 0;
    assert(fields@.skip(0) =~= fields@);
    while i < fields.len()
        invariant
            i <= fields@.len(),
            entry_of(fields@, name@) == entry_of(fields@.skip(i as int), name@),
        decreases fields@.len() - i,
    {
        assert(fields@.skip(i as int)[0] == fields@[i as int]);
        assert(fields@.skip(i as int).drop_first() =~= fields@.skip(i + 1));
        if crate::text::str_eq(fields[i].0.as_str(), name) {
            return Some(i);
        }
        i = i + 1;
    }
    assert(fields@.skip(i as int) =~= Seq::<(String, String)>::empty());
    None
}

// ---------------------------------------------------------------------------
// Field types
// ---------------------------------------------------------------------------

/// The element type names of the inside of a tuple type name: split at
/// commas outside `()` and `<>`, the last part always kept.
pub open spec fn tuple_parts(inner: Seq<char>) -> Seq<Seq<char>> {
    let (ps, cur, _) = split_scan(inner, inner.len() as int);
    ps.push(cur)
}

/// A tuple type name, `(` ... `)`.
pub open spec fn is_tuple_name(cs: Seq<char>) -> bool {
    cs.len() > 0 && cs[0] == '(' && cs.last() == ')'
}

/// The type name of member `fnm` of a value whose type name is `it`
/// (spaces and leading `*` ignored): for a tuple type and a numeric member,
/// that element's type name; for a struct (its name resolved among the
/// struct types), the declared type of that field with the struct's generic
/// parameters replaced by the type's generic arguments, spaces removed;
/// `unknown` otherwise. `None` where the type name cannot be taken apart
/// (see [`generic_split`]).
pub open spec fn field_type_spec(t: NameTables, it: Seq<char>, fnm: Seq<char>) -> Option<Seq<char>> {
    let cs = skip_stars(without_spaces(it));
    if is_tuple_name(cs) {
        Some(match index_text(fnm) {
            Some(idx) => {
                let parts = tuple_parts(cs.subrange(1, cs.len() - 1));
                if idx < parts.len() { trim_ws(parts[idx]) } else { "unknown"@ }
            },
            None => "unknown"@,
        })
    } else {
        match generic_split(cs) {
            None => None,
            Some((btn, tga)) => {
                let full = match fuzzy_name(string_views(t.struct_types@), btn) {
                    Some(f) => f,
                    None => btn,
                };
                Some(match decl_lookup(t.decls@, full) {
                    Some(Declaration::Struct(st)) => match entry_of(st.fields@, fnm) {
                        Some(ft) => without_spaces(subst_type_name(ft, string_views(st.generic_params@), tga)),
                        None => "unknown"@,
                    },
                    _ => "unknown"@,
                })
            },
        }
    }
}

fn tuple_split(s: &[char]) -> (r: Vec<Vec<char>>)
    ensures
        part_views(r@) == tuple_parts(s@),
{
    let mut parts: Vec<Vec<char>> = Vec::new();
    let mut cur: Vec<char> = Vec::new();
    let mut depth: i32 = 0;
    let mut i: usize = 0;
    while i < s.len()
        invariant
            i <= s@.len(),
            (part_views(parts@), cur@, depth) == split_scan(s@, i as int),
        decreases s@.len() - i,
    {
        let c = s[i];
        let ghost old_parts = part_views(parts@);
        if c == '<' || c == '(' {
            depth = depth.wrapping_add(1);
            cur.push(c);
        } else if c == '>' || c == ')' {
            depth = depth.wrapping_sub(1);
            cur.push(c);
        } else if c == ',' && depth == 0 {
            let done = cur;
            cur = Vec::new();
            let ghost dv = done@;
            parts.push(done);
            assert(part_views(parts@) =~= old_parts.push(dv));
        } else {
            cur.push(c);
        }
        i = i + 1;
    }
    let ghost old_parts = part_views(parts@);
    let ghost cv = cur@;
    parts.push(cur);
    assert(part_views(parts@) =~= old_parts.push(cv));
    parts
}

impl NameTables {
    /// The type name of member `fnm` of a value of type `it` (see
    /// [`field_type_spec`]), where the backend could take `it` apart.
    pub fn get_field_type(&self, it: &str, fnm: &str) -> (r: String)
        requires
            field_type_spec(*self, it@, fnm@) is Some,
        ensures
            r@ == field_type_spec(*self, it@, fnm@).unwrap(),
    {
        match self.get_field_type_checked(it, fnm) {
            Some(t) => t,
            None => "unknown".to_owned(),
        }
    }

    /// The type name of member `fnm` of a value of type `it` (see
    /// [`field_type_spec`]); `None` where `it` cannot be taken apart (on
    /// which the backend fails).
    pub fn get_field_type_checked(&self, it: &str, fnm: &str) -> (r: Option<String>)
        ensures
            crate::error::opt_view(r) == field_type_spec(*self, it@, fnm@),
    {
        let itc = chars_of(it);
        let clean = remove_spaces(&itc);
        let cs = strip_stars(&clean);
        if cs.len() > 0 && cs[0] == '(' && cs[cs.len() - 1] == ')' {
            let f = chars_of(fnm);
            match parse_index(&f) {
                Some(idx) => {
                    let inner = crate::text::slice_chars(&cs, 1, cs.len() - 1);
                    let parts = tuple_split(&inner);
                    proof {
                        crate::analysis::types::lemma_part_views(parts@);
                    }
                    if idx < parts.len() {
                        let t = trim_chars(&parts[idx]);
                        return Some(string_from_chars(&t));
                    }
                },
                None => {},
            }
            return Some("unknown".to_owned());
        }
        if !generic_split_ok(&cs) {
            return None;
        }
        let (btn, tga) = split_generic(&cs);
        let full = match fuzzy(&self.struct_types, &btn) {
            Some(f) => f,
            None => btn,
        };
        match self.find_decl(&full) {
            Some(i) => match &self.decls[i].1 {
                Declaration::Struct(st) => match find_entry(&st.fields, fnm) {
                    Some(k) => {
                        let sub = substitute_generic_params(st.fields[k].1.as_str(), st.generic_params.as_slice(), tga.as_slice());
                        let sc = chars_of(sub.as_str());
                        let nr = remove_spaces(&sc);
                        return Some(string_from_chars(&nr));
                    },
                    None => {},
                },
                _ => {},
            },
            None => {},
        }
        Some("unknown".to_owned())
    }
}

// ---------------------------------------------------------------------------
// Expression types
// ---------------------------------------------------------------------------

/// A type name that starts with `*` (a pointer).
pub open spec fn starts_star(s: Seq<char>) -> bool {
    s.len() > 0 && s[0] == '*'
}

/// `base<a,b,...>`, or `base` when there are no arguments.
pub open spec fn with_args(base: Seq<char>, args: Seq<Seq<char>>) -> Seq<char> {
    if args.len() == 0 {
        base
    } else {
        base + "<"@ + join_seqs(args, ","@) + ">"@
    }
}

/// The index of the last `c` in `s`, or -1.
pub open spec fn last_index_of(s: Seq<char>, c: char) -> int
    decreases s.len(),
{
    if s.len() == 0 {
        -1
    } else if s.last() == c {
        s.len() - 1
    } else {
        last_index_of(s.drop_last(), c)
    }
}

/// The declared type names of a function's parameters.
pub open spec fn param_types(params: Seq<(String, String, Option<Box<Expression>>)>) -> Seq<Seq<char>> {
    params.map_values(|p: (String, String, Option<Box<Expression>>)| p.1@)
}

/// The generic parameters of a struct or enum declaration.
pub open spec fn owner_params(d: Declaration) -> Seq<Seq<char>> {
    match d {
        Declaration::Struct(st) => string_views(st.generic_params@),
        Declaration::Enum(en) => string_views(en.generic_params@),
        _ => Seq::empty(),
    }
}

/// The declaration of method `m` of type `tp`: registered as `tp::m`, else
/// as `tp.m`.
pub open spec fn method_decl(t: NameTables, tp: Seq<char>, m: Seq<char>) -> Option<Declaration> {
    match decl_lookup(t.decls@, tp + "::"@ + m) {
        Some(d) => Some(d),
        None => decl_lookup(t.decls@, tp + "."@ + m),
    }
}

/// The type name of a variable or of a dotted access path through struct
/// fields (`p.pos.x`), or the signature `fn(..)->..` of a non-generic
/// function named as a value; `unknown` when none applies.
pub open spec fn ident_type(t: NameTables, vars: Seq<(String, String)>, name: Seq<char>) -> Option<Seq<char>> {
    let parts = split_on(name, '.');
    if parts.len() > 1 {
        let ct0 = match entry_of(vars, parts[0]) {
            Some(ty) => ty,
            None => "unknown"@,
        };
        match walk_fields(t, ct0, parts, 1) {
            Some(ct) => Some(without_spaces(ct)),
            None => None,
        }
    } else {
        match entry_of(vars, name) {
            Some(ty) => Some(without_spaces(ty)),
            None => match decl_lookup(t.decls@, name) {
                Some(Declaration::Function(f)) => if f.generic_params@.len() == 0 {
                    Some(without_spaces("fn("@ + join_seqs(param_types(f.params@), ","@) + ")->"@ + f.return_type@))
                } else {
                    Some("unknown"@)
                },
                _ => Some("unknown"@),
            },
        }
    }
}

/// Follows the field names `parts[i..]` from type name `ct`, stopping at
/// `unknown`.
pub open spec fn walk_fields(t: NameTables, ct: Seq<char>, parts: Seq<Seq<char>>, i: int) -> Option<Seq<char>>
    decreases parts.len() - i,
{
    if i < 0 || i >= parts.len() || ct == "unknown"@ {
        Some(ct)
    } else {
        match field_type_spec(t, ct, parts[i]) {
            Some(n) => walk_fields(t, n, parts, i + 1),
            None => None,
        }
    }
}

/// The result type name of a call of the named function (generic arguments
/// `gargs` written at the call).
pub open spec fn call_fallback(t: NameTables, name: Seq<char>, gargs: Seq<Seq<char>>) -> Option<Seq<char>> {
    let full = match fuzzy_name(decl_names(t.decls@), name) {
        Some(f) => f,
        None => name,
    };
    match decl_lookup(t.decls@, full) {
        Some(Declaration::Function(f)) => Some(without_spaces(subst_type_name(f.return_type@, string_views(f.generic_params@), gargs))),
        _ => Some("unknown"@),
    }
}

/// The result type name of a call `name(..)`: for a dotted name whose
/// receiver has a known type, the return type of that type's method (its
/// generic parameters bound to the call's generic arguments, else to the
/// receiver type's), `offset` on a pointer keeping the pointer type;
/// otherwise the return type of the function the name resolves to.
pub open spec fn call_type(t: NameTables, vars: Seq<(String, String)>, name: Seq<char>, gargs: Seq<Seq<char>>) -> Option<Seq<char>> {
    let dot = last_index_of(name, '.');
    if dot < 0 {
        call_fallback(t, name, gargs)
    } else {
        let rn = name.subrange(0, dot);
        let mn = name.subrange(dot + 1, name.len() as int);
        match ident_type(t, vars, rn) {
            None => None,
            Some(rt) => if mn == "offset"@ && starts_star(rt) {
                Some(without_spaces(rt))
            } else if rt != "unknown"@ {
                match generic_split(rt) {
                    None => None,
                    Some((btn, tga)) => {
                        let bc = skip_stars(btn);
                        let tp = match fuzzy_name(string_views(t.struct_types@), bc) {
                            Some(x) => x,
                            None => match fuzzy_name(string_views(t.enum_types@), bc) {
                                Some(x) => x,
                                None => btn,
                            },
                        };
                        match method_decl(t, tp, mn) {
                            Some(Declaration::Function(f)) => Some(without_spaces(subst_type_name(
                                f.return_type@,
                                string_views(f.generic_params@),
                                if gargs.len() == 0 { tga } else { gargs },
                            ))),
                            _ => call_fallback(t, name, gargs),
                        }
                    },
                }
            } else {
                call_fallback(t, name, gargs)
            },
        }
    }
}

/// The result type name of method `method` called on a value of type `rt`:
/// its return type with the method's generic parameters bound to `gargs`
/// and the owner's to the receiver type's arguments; `offset` on a pointer
/// keeps the pointer type.
pub open spec fn method_type(t: NameTables, rt: Seq<char>, method: Seq<char>, gargs: Seq<Seq<char>>) -> Option<Seq<char>> {
    if method == "offset"@ && starts_star(rt) {
        Some(rt)
    } else {
        match generic_split(rt) {
            None => None,
            Some((btn, tga)) => {
                let bc = skip_stars(btn);
                let full = match fuzzy_name(decl_names(t.decls@), bc) {
                    Some(x) => x,
                    None => btn,
                };
                match method_decl(t, full, method) {
                    Some(Declaration::Function(f)) => {
                        let res = subst_type_name(f.return_type@, string_views(f.generic_params@), gargs);
                        let res2 = match decl_lookup(t.decls@, full) {
                            Some(d) => subst_type_name(res, owner_params(d), tga),
                            None => res,
                        };
                        Some(without_spaces(res2))
                    },
                    _ => Some("unknown"@),
                }
            },
        }
    }
}

/// The type name of an expression, recovered from the declarations and
/// the type names of the variables `vars` (spaces removed): literals have
/// their own types; names, calls, field accesses and method calls go
/// through [`ident_type`], [`call_type`], [`field_type_spec`] and
/// [`method_type`]; a struct or enum literal has its (resolved) type with
/// its generic arguments, for an enum inferred from the variant's
/// arguments; a cast has its target type, a dereference the pointee type;
/// a block and a match the type of their final expression or `return`;
/// anything else is `unknown`. `None` where the backend fails.
pub open spec fn expr_type(t: NameTables, vars: Seq<(String, String)>, e: Expression) -> Option<Seq<char>>
    decreases e, 0nat,
{
    match e {
        Expression::Integer(..) => Some("i64"@),
        Expression::Float(..) => Some("f64"@),
        Expression::Char(..) => Some("i64"@),
        Expression::Boolean(..) => Some("bool"@),
        Expression::String(..) => Some("String"@),
        Expression::Identifier(name, _) => ident_type(t, vars, name@),
        Expression::Call { function, generic_args, .. } => call_type(t, vars, function@, string_views(generic_args@)),
        Expression::MemberAccess { receiver, member, .. } => match expr_type(t, vars, *receiver) {
            Some(rt) => match field_type_spec(t, rt, member@) {
                Some(x) => Some(without_spaces(x)),
                None => None,
            },
            None => None,
        },
        Expression::MethodCall { receiver, method, generic_args, .. } => match expr_type(t, vars, *receiver) {
            Some(rt) => method_type(t, rt, method@, string_views(generic_args@)),
            None => None,
        },
        Expression::StructInst { name, generic_args, .. } => {
            let sn = match fuzzy_name(string_views(t.struct_types@), name@) {
                Some(x) => x,
                None => name@,
            };
            Some(without_spaces(with_args(sn, string_views(generic_args@))))
        },
        Expression::EnumInst { name, variant, arguments, generic_args, .. } => match fuzzy_name(string_views(t.enum_types@), name@) {
            Some(en) => if generic_args@.len() > 0 {
                Some(without_spaces(with_args(en, string_views(generic_args@))))
            } else {
                let inferred = match decl_lookup(t.decls@, en) {
                    Some(Declaration::Enum(_)) => arg_types(t, vars, arguments@),
                    _ => Some(Seq::empty()),
                };
                match inferred {
                    Some(inf) => Some(without_spaces(with_args(en, inf))),
                    None => None,
                }
            },
            None => match call_type(t, vars, name@ + "."@ + variant@, string_views(generic_args@)) {
                Some(x) => Some(without_spaces(x)),
                None => None,
            },
        },
        Expression::Cast { target, .. } => Some(without_spaces(target@)),
        Expression::Block { statements, .. } => match tail_type(t, vars, statements@) {
            Some(x) => Some(without_spaces(x)),
            None => None,
        },
        Expression::Deref { expr, .. } => match expr_type(t, vars, *expr) {
            Some(x) => Some(if starts_star(x) { without_spaces(x.drop_first()) } else { "unknown"@ }),
            None => None,
        },
        Expression::TypeRef { name, generic_args, .. } => Some(without_spaces(with_args(name@, string_views(generic_args@)))),
        Expression::Match { arms, .. } => if arms@.len() > 0 {
            match tail_type(t, vars, arms@[0].body@) {
                Some(x) => Some(without_spaces(x)),
                None => None,
            }
        } else {
            Some("unknown"@)
        },
        _ => Some("unknown"@),
    }
}

/// Literals have fixed type names, whatever the tables and variables: an
/// integer or a character is `i64`, a float `f64`, a boolean `bool` and a
/// string `String`.
pub proof fn lemma_literal_type_names(t: NameTables, vars: Seq<(String, String)>, e: Expression)
    ensures
        (e is Integer || e is Char) ==> expr_type(t, vars, e) == Some(seq!['i', '6', '4']),
        e is Float ==> expr_type(t, vars, e) == Some(seq!['f', '6', '4']),
        e is Boolean ==> expr_type(t, vars, e) == Some(seq!['b', 'o', 'o', 'l']),
        e is String ==> expr_type(t, vars, e) == Some(seq!['S', 't', 'r', 'i', 'n', 'g']),
{
    reveal_strlit("i64");
    reveal_strlit("f64");
    reveal_strlit("bool");
    reveal_strlit("String");
}

/// A type name without spaces is left as it is.
pub proof fn lemma_without_spaces_unchanged(s: Seq<char>)
    requires
        !s.contains(' '),
    ensures
        without_spaces(s) == s,
    decreases s.len(),
{
    if s.len() > 0 {
        assert(!s.drop_last().contains(' ')) by {
            if s.drop_last().contains(' ') {
                let i = choose|i: int| 0 <= i < s.drop_last().len() && s.drop_last()[i] == ' ';
                assert(s[i] == ' ');
            }
        }
        lemma_without_spaces_unchanged(s.drop_last());
        assert(s.last() != ' ') by {
            assert(s[s.len() - 1] == s.last());
        }
        assert(s.drop_last().push(s.last()) =~= s);
    }
}

/// A cast has the type it names, and dereferencing an expression whose type
/// is a pointer `*T` gives `T` (for type names written without spaces).
pub proof fn lemma_cast_and_deref_types(t: NameTables, vars: Seq<(String, String)>, e: Expression, target: String,
    sp: Span, pointee: Seq<char>)
    requires
        !target@.contains(' '),
        !pointee.contains(' '),
    ensures
        expr_type(t, vars, Expression::Cast { expr: Box::new(e), target, span: sp }) == Some(target@),
        expr_type(t, vars, e) == Some(seq!['*'] + pointee)
            ==> expr_type(t, vars, Expression::Deref { expr: Box::new(e), span: sp }) == Some(pointee),
{
    lemma_without_spaces_unchanged(target@);
    lemma_without_spaces_unchanged(pointee);
    assert((seq!['*'] + pointee).drop_first() =~= pointee);
}

/// The type name of the value a statement list ends with: its final
/// expression statement or `return`; `unknown` otherwise.
pub open spec fn tail_type(t: NameTables, vars: Seq<(String, String)>, ss: Seq<Statement>) -> Option<Seq<char>>
    decreases ss, 1nat,
{
    if ss.len() > 0 {
        match ss[ss.len() - 1] {
            Statement::ExpressionStmt(x, _) => expr_type(t, vars, x),
            Statement::Return { value, .. } => expr_type(t, vars, value),
            _ => Some("unknown"@),
        }
    } else {
        Some("unknown"@)
    }
}

/// The type names of expressions, in order.
pub open spec fn arg_types(t: NameTables, vars: Seq<(String, String)>, es: Seq<Expression>) -> Option<Seq<Seq<char>>>
    decreases es, 1nat,
{
    if es.len() == 0 {
        Some(Seq::empty())
    } else {
        match (arg_types(t, vars, es.subrange(0, es.len() - 1)), expr_type(t, vars, es[es.len() - 1])) {
            (Some(a), Some(b)) => Some(a.push(b)),
            _ => None,
        }
    }
}

fn ws_str(s: &str) -> (r: String)
    ensures
        r@ == without_spaces(s@),
{
    let c = chars_of(s);
    let w = remove_spaces(&c);
    string_from_chars(&w)
}

fn ws_chars(s: &[char]) -> (r: String)
    ensures
        r@ == without_spaces(s@),
{
    let w = remove_spaces(s);
    string_from_chars(&w)
}

/// `base<a,b,...>`, or `base` (see [`with_args`]).
fn with_args_chars(base: &[char], args: &Vec<String>) -> (r: Vec<char>)
    ensures
        r@ == with_args(base@, string_views(args@)),
{
    let mut v: Vec<char> = Vec::new();
    push_all(&mut v, base);
    if args.len() > 0 {
        crate::text::push_str_chars(&mut v, "<");
        let j = crate::text::join_strings(args.as_slice(), ",");
        push_all(&mut v, &j);
        crate::text::push_str_chars(&mut v, ">");
    }
    v
}

/// The index of the last `c` in `s` (see [`last_index_of`]).
fn last_index(s: &[char], c: char) -> (r: Option<usize>)
    ensures
        match r {
            Some(i) => last_index_of(s@, c) == i as int && i < s@.len(),
            None => last_index_of(s@, c) == -1,
        },
{
    let mut k: usize = s.len();
    assert(s@.take(k as int) =~= s@);
    while k > 0
        invariant
            k <= s@.len(),
            last_index_of(s@, c) == last_index_of(s@.take(k as int), c),
        decreases k,
    {
        assert(s@.take(k as int).drop_last() =~= s@.take(k - 1));
        if s[k - 1] == c {
            return Some(k - 1);
        }
        k = k - 1;
    }
    None
}

proof fn lemma_arg_types_none_extends(t: NameTables, vars: Seq<(String, String)>, es: Seq<Expression>, i: int)
    requires
        0 <= i <= es.len(),
        arg_types(t, vars, es.subrange(0, i)) is None,
    ensures
        arg_types(t, vars, es) is None,
    decreases es.len() - i,
{
    if i == es.len() {
        assert(es.subrange(0, i) =~= es);
    } else {
        assert(es.subrange(0, i + 1).subrange(0, i) =~= es.subrange(0, i));
        lemma_arg_types_none_extends(t, vars, es, i + 1);
    }
}

impl NameTables {
    /// The declaration of method `m` of type `tp` (see [`method_decl`]).
    fn find_method(&self, tp: &[char], m: &[char]) -> (r: Option<usize>)
        ensures
            match r {
                Some(i) => i < self.decls@.len() && method_decl(*self, tp@, m@) == Some(self.decls@[i as int].1),
                None => method_decl(*self, tp@, m@) is None,
            },
    {
        let mut colon: Vec<char> = Vec::new();
        push_all(&mut colon, tp);
        crate::text::push_str_chars(&mut colon, "::");
        push_all(&mut colon, m);
        match self.find_decl(&colon) {
            Some(i) => Some(i),
            None => {
                let mut dot: Vec<char> = Vec::new();
                push_all(&mut dot, tp);
                crate::text::push_str_chars(&mut dot, ".");
                push_all(&mut dot, m);
                self.find_decl(&dot)
            },
        }
    }

    /// The type name of a variable, an access path or a function named as
    /// a value (see [`ident_type`]).
    fn ident_type_name(&self, name: &str, vars: &Vec<(String, String)>) -> (r: Option<String>)
        ensures
            crate::error::opt_view(r) == ident_type(*self, vars@, name@),
    {
        let nc = chars_of(name);
        let parts = split_on_chars(&nc, '.');
        proof {
            crate::analysis::types::lemma_split_on_shape(nc@, '.');
            crate::analysis::types::lemma_part_views(parts@);
        }
        let ghost ps = split_on(name@, '.');
        if parts.len() > 1 {
            let p0 = string_from_chars(&parts[0]);
            let mut ct: String = match find_entry(vars, p0.as_str()) {
                Some(k) => vars[k].1.clone(),
                None => "unknown".to_owned(),
            };
            let ghost ct0 = ct@;
            let mut i: usize = 1;
            while i < parts.len() && !crate::text::str_eq(ct.as_str(), "unknown")
                invariant
                    1 <= i <= parts@.len(),
                    part_views(parts@) == ps,
                    ps == split_on(name@, '.'),
                    walk_fields(*self, ct0, ps, 1) == walk_fields(*self, ct@, ps, i as int),
                    ident_type(*self, vars@, name@) == match walk_fields(*self, ct0, ps, 1) {
                        Some(c) => Some(without_spaces(c)),
                        None => None,
                    },
                decreases parts@.len() - i,
            {
                let pi = string_from_chars(&parts[i]);
                assert(pi@ == ps[i as int]);
                ct = match self.get_field_type_checked(ct.as_str(), pi.as_str()) {
                    Some(n) => n,
                    None => {
                        proof {
                            assert(ct@ != "unknown"@);
                            assert(walk_fields(*self, ct@, ps, i as int) is None);
                        }
                        return None;
                    },
                };
                i = i + 1;
            }
            return Some(ws_str(ct.as_str()));
        }
        match find_entry(vars, name) {
            Some(k) => Some(ws_str(vars[k].1.as_str())),
            None => match self.find_decl(&nc) {
                Some(i) => match &self.decls[i].1 {
                    Declaration::Function(f) => if f.generic_params.len() == 0 {
                        let mut pts: Vec<String> = Vec::new();
                        let mut k: usize = 0;
                        while k < f.params.len()
                            invariant
                                k <= f.params@.len(),
                                string_views(pts@) == param_types(f.params@).take(k as int),
                            decreases f.params@.len() - k,
                        {
                            let ghost pv = string_views(pts@);
                            pts.push(f.params[k].1.clone());
                            assert(string_views(pts@) =~= pv.push(f.params@[k as int].1@));
                            assert(param_types(f.params@).take(k + 1) =~= param_types(f.params@).take(k as int).push(f.params@[k as int].1@));
                            k = k + 1;
                        }
                        assert(param_types(f.params@).take(k as int) =~= param_types(f.params@));
                        let mut v: Vec<char> = Vec::new();
                        crate::text::push_str_chars(&mut v, "fn(");
                        let j = crate::text::join_strings(pts.as_slice(), ",");
                        push_all(&mut v, &j);
                        crate::text::push_str_chars(&mut v, ")->");
                        crate::text::push_str_chars(&mut v, f.return_type.as_str());
                        Some(ws_chars(&v))
                    } else {
                        Some("unknown".to_owned())
                    },
                    _ => Some("unknown".to_owned()),
                },
                None => Some("unknown".to_owned()),
            },
        }
    }

    /// The result type name of a call of the function `name` resolves to
    /// (see [`call_fallback`]).
    fn call_fallback_name(&self, name: &str, gargs: &Vec<String>) -> (r: String)
        ensures
            r@ == call_fallback(*self, name@, string_views(gargs@)).unwrap(),
    {
        let keys = self.decl_keys();
        let nc = chars_of(name);
        let full = match fuzzy(&keys, &nc) {
            Some(f) => f,
            None => nc,
        };
        match self.find_decl(&full) {
            Some(i) => match &self.decls[i].1 {
                Declaration::Function(f) => {
                    let sub = substitute_generic_params(f.return_type.as_str(), f.generic_params.as_slice(), gargs.as_slice());
                    ws_str(sub.as_str())
                },
                _ => "unknown".to_owned(),
            },
            None => "unknown".to_owned(),
        }
    }

    /// The result type name of a call (see [`call_type`]).
    fn call_type_name(&self, name: &str, gargs: &Vec<String>, vars: &Vec<(String, String)>) -> (r: Option<String>)
        ensures
            crate::error::opt_view(r) == call_type(*self, vars@, name@, string_views(gargs@)),
    {
        let nc = chars_of(name);
        match last_index(&nc, '.') {
            None => Some(self.call_fallback_name(name, gargs)),
            Some(d) => {
                assert(d < nc.len());
                let rn = crate::text::slice_chars(&nc, 0, d);
                let mn = crate::text::slice_chars(&nc, d + 1, nc.len());
                let rns = string_from_chars(&rn);
                let rt = match self.ident_type_name(rns.as_str(), vars) {
                    Some(t) => t,
                    None => {
                        return None;
                    },
                };
                let rtc = chars_of(rt.as_str());
                if crate::text::eq_lit(&mn, "offset") && rtc.len() > 0 && rtc[0] == '*' {
                    Some(ws_chars(&rtc))
                } else if !crate::text::eq_lit(&rtc, "unknown") {
                    if !generic_split_ok(&rtc) {
                        return None;
                    }
                    let (btn, tga) = split_generic(&rtc);
                    let bc = strip_stars(&btn);
                    let tp = match fuzzy(&self.struct_types, &bc) {
                        Some(x) => x,
                        None => match fuzzy(&self.enum_types, &bc) {
                            Some(x) => x,
                            None => btn,
                        },
                    };
                    match self.find_method(&tp, &mn) {
                        Some(i) => match &self.decls[i].1 {
                            Declaration::Function(f) => {
                                let args: &Vec<String> = if gargs.len() == 0 { &tga } else { gargs };
                                let sub = substitute_generic_params(f.return_type.as_str(), f.generic_params.as_slice(), args.as_slice());
                                Some(ws_str(sub.as_str()))
                            },
                            _ => Some(self.call_fallback_name(name, gargs)),
                        },
                        None => Some(self.call_fallback_name(name, gargs)),
                    }
                } else {
                    Some(self.call_fallback_name(name, gargs))
                }
            },
        }
    }

    /// The result type name of a method call on a value of type `rt` (see
    /// [`method_type`]).
    fn method_type_name(&self, rt: &str, method: &str, gargs: &Vec<String>) -> (r: Option<String>)
        ensures
            crate::error::opt_view(r) == method_type(*self, rt@, method@, string_views(gargs@)),
    {
        let rtc = chars_of(rt);
        let mc = chars_of(method);
        if crate::text::eq_lit(&mc, "offset") && rtc.len() > 0 && rtc[0] == '*' {
            return Some(rt.to_owned());
        }
        if !generic_split_ok(&rtc) {
            return None;
        }
        let (btn, tga) = split_generic(&rtc);
        let bc = strip_stars(&btn);
        let keys = self.decl_keys();
        let full = match fuzzy(&keys, &bc) {
            Some(x) => x,
            None => btn,
        };
        match self.find_method(&full, &mc) {
            Some(i) => match &self.decls[i].1 {
                Declaration::Function(f) => {
                    let res = substitute_generic_params(f.return_type.as_str(), f.generic_params.as_slice(), gargs.as_slice());
                    let res2 = match self.find_decl(&full) {
                        Some(k) => match &self.decls[k].1 {
                            Declaration::Struct(st) => substitute_generic_params(res.as_str(), st.generic_params.as_slice(), tga.as_slice()),
                            Declaration::Enum(en) => substitute_generic_params(res.as_str(), en.generic_params.as_slice(), tga.as_slice()),
                            _ => {
                                let none: Vec<String> = Vec::new();
                                assert(string_views(none@) =~= Seq::<Seq<char>>::empty());
                                substitute_generic_params(res.as_str(), none.as_slice(), tga.as_slice())
                            },
                        },
                        None => res,
                    };
                    Some(ws_str(res2.as_str()))
                },
                _ => Some("unknown".to_owned()),
            },
            None => Some("unknown".to_owned()),
        }
    }

    /// The type name of an expression, given the type names of the
    /// variables in scope (see [`expr_type`]); `None` where the backend
    /// cannot recover it.
    pub fn get_expr_type_name_checked(&self, e: &Expression, variables: &Vec<(String, String)>) -> (r: Option<String>)
        ensures
            crate::error::opt_view(r) == expr_type(*self, variables@, *e),
        decreases *e, 0nat,
    {
        match e {
            Expression::Integer(..) => Some("i64".to_owned()),
            Expression::Float(..) => Some("f64".to_owned()),
            Expression::Char(..) => Some("i64".to_owned()),
            Expression::Boolean(..) => Some("bool".to_owned()),
            Expression::String(..) => Some("String".to_owned()),
            Expression::Identifier(name, _) => self.ident_type_name(name.as_str(), variables),
            Expression::Call { function, generic_args, .. } => self.call_type_name(function.as_str(), generic_args, variables),
            Expression::MemberAccess { receiver, member, .. } => {
                let rt = match self.get_expr_type_name_checked(receiver, variables) {
                    Some(x) => x,
                    None => {
                        return None;
                    },
                };
                match self.get_field_type_checked(rt.as_str(), member.as_str()) {
                    Some(f) => Some(ws_str(f.as_str())),
                    None => None,
                }
            },
            Expression::MethodCall { receiver, method, generic_args, .. } => {
                let rt = match self.get_expr_type_name_checked(receiver, variables) {
                    Some(x) => x,
                    None => {
                        return None;
                    },
                };
                self.method_type_name(rt.as_str(), method.as_str(), generic_args)
            },
            Expression::StructInst { name, generic_args, .. } => {
                let nc = chars_of(name.as_str());
                let sn = match fuzzy(&self.struct_types, &nc) {
                    Some(x) => x,
                    None => nc,
                };
                let w = with_args_chars(&sn, generic_args);
                Some(ws_chars(&w))
            },
            Expression::EnumInst { name, variant, arguments, generic_args, .. } => {
                let nc = chars_of(name.as_str());
                match fuzzy(&self.enum_types, &nc) {
                    Some(en) => if generic_args.len() > 0 {
                        let w = with_args_chars(&en, generic_args);
                        Some(ws_chars(&w))
                    } else {
                        let inferred: Vec<String> = match self.find_decl(&en) {
                            Some(i) => match &self.decls[i].1 {
                                Declaration::Enum(_) => match self.arg_type_names(arguments, variables) {
                                    Some(v) => v,
                                    None => {
                                        return None;
                                    },
                                },
                                _ => Vec::new(),
                            },
                            None => Vec::new(),
                        };
                        proof {
                            if string_views(inferred@).len() == 0 {
                                assert(string_views(inferred@) =~= Seq::<Seq<char>>::empty());
                            }
                        }
                        let w = with_args_chars(&en, &inferred);
                        Some(ws_chars(&w))
                    },
                    None => {
                        let mut full: Vec<char> = nc;
                        crate::text::push_str_chars(&mut full, ".");
                        crate::text::push_str_chars(&mut full, variant.as_str());
                        let fs = string_from_chars(&full);
                        match self.call_type_name(fs.as_str(), generic_args, variables) {
                            Some(c) => Some(ws_str(c.as_str())),
                            None => None,
                        }
                    },
                }
            },
            Expression::Cast { target, .. } => Some(ws_str(target.as_str())),
            Expression::Block { statements, .. } => match self.tail_type_name(statements, variables) {
                Some(x) => Some(ws_str(x.as_str())),
                None => None,
            },
            Expression::Deref { expr, .. } => {
                let x = match self.get_expr_type_name_checked(expr, variables) {
                    Some(x) => x,
                    None => {
                        return None;
                    },
                };
                let xc = chars_of(x.as_str());
                if xc.len() > 0 && xc[0] == '*' {
                    let rest = crate::text::slice_chars(&xc, 1, xc.len());
                    assert(rest@ =~= xc@.drop_first());
                    Some(ws_chars(&rest))
                } else {
                    Some("unknown".to_owned())
                }
            },
            Expression::TypeRef { name, generic_args, .. } => {
                let nc = chars_of(name.as_str());
                let w = with_args_chars(&nc, generic_args);
                Some(ws_chars(&w))
            },
            Expression::Match { arms, .. } => if arms.len() > 0 {
                match self.tail_type_name(&arms[0].body, variables) {
                    Some(x) => Some(ws_str(x.as_str())),
                    None => None,
                }
            } else {
                Some("unknown".to_owned())
            },
            _ => Some("unknown".to_owned()),
        }
    }

    /// The type name of an expression whose type the backend recovers (see
    /// [`expr_type`]); it holds no space.
    pub fn get_expr_type_name(&self, e: &Expression, variables: &Vec<(String, String)>) -> (r: String)
        requires
            expr_type(*self, variables@, *e) is Some,
        ensures
            r@ == expr_type(*self, variables@, *e).unwrap(),
            !r@.contains(' '),
    {
        proof {
            lemma_expr_type_has_no_space(*self, variables@, *e);
        }
        match self.get_expr_type_name_checked(e, variables) {
            Some(x) => x,
            None => "unknown".to_owned(),
        }
    }

    /// The type name of the value a statement list ends with (see
    /// [`tail_type`]).
    fn tail_type_name(&self, ss: &Vec<Statement>, vars: &Vec<(String, String)>) -> (r: Option<String>)
        ensures
            crate::error::opt_view(r) == tail_type(*self, vars@, ss@),
        decreases ss@, 1nat,
    {
        if ss.len() > 0 {
            match &ss[ss.len() - 1] {
                Statement::ExpressionStmt(x, _) => self.get_expr_type_name_checked(x, vars),
                Statement::Return { value, .. } => self.get_expr_type_name_checked(value, vars),
                _ => Some("unknown".to_owned()),
            }
        } else {
            Some("unknown".to_owned())
        }
    }

    /// The type names of expressions, in order (see [`arg_types`]).
    fn arg_type_names(&self, es: &Vec<Expression>, vars: &Vec<(String, String)>) -> (r: Option<Vec<String>>)
        ensures
            match r {
                Some(v) => arg_types(*self, vars@, es@) == Some(string_views(v@)),
                None => arg_types(*self, vars@, es@) is None,
            },
        decreases es@, 1nat,
    {
        let mut r: Vec<String> = Vec::new();
        let mut i: usize = 0;
        assert(es@.subrange(0, 0) =~= Seq::<Expression>::empty());
        assert(string_views(r@) =~= Seq::<Seq<char>>::empty());
        while i < es.len()
            invariant
                i <= es@.len(),
                arg_types(*self, vars@, es@.subrange(0, i as int)) == Some(string_views(r@)),
            decreases es@.len() - i,
        {
            proof {
                assert(es@.subrange(0, i + 1).subrange(0, i as int) =~= es@.subrange(0, i as int));
                assert(es@.subrange(0, i + 1)[i as int] == es@[i as int]);
            }
            let x = match self.get_expr_type_name_checked(&es[i], vars) {
                Some(x) => x,
                None => {
                    proof {
                        lemma_arg_types_none_extends(*self, vars@, es@, i as int + 1);
                    }
                    return None;
                },
            };
            let ghost rv = string_views(r@);
            r.push(x);
            assert(string_views(r@) =~= rv.push(x@));
            i = i + 1;
        }
        assert(es@.subrange(0, i as int) =~= es@);
        Some(r)
    }
}

// ---------------------------------------------------------------------------
// Laws
// ---------------------------------------------------------------------------

/// Removing spaces leaves none.
pub proof fn lemma_without_spaces_has_none(s: Seq<char>)
    ensures
        !without_spaces(s).contains(' '),
    decreases s.len(),
{
    if s.len() > 0 {
        lemma_without_spaces_has_none(s.drop_last());
        let r = without_spaces(s.drop_last());
        if s.last() != ' ' {
            assert forall|i: int| 0 <= i < r.push(s.last()).len() implies r.push(s.last())[i] != ' ' by {
                if i < r.len() {
                    assert(r.push(s.last())[i] == r[i]);
                }
            }
        }
    }
}

proof fn lemma_literals_have_no_space()
    ensures
        !"unknown"@.contains(' '),
        !"i64"@.contains(' '),
        !"f64"@.contains(' '),
        !"bool"@.contains(' '),
        !"String"@.contains(' '),
{
    reveal_strlit("unknown");
    reveal_strlit("i64");
    reveal_strlit("f64");
    reveal_strlit("bool");
    reveal_strlit("String");
}

proof fn lemma_call_type_no_space(t: NameTables, vars: Seq<(String, String)>, name: Seq<char>, gargs: Seq<Seq<char>>)
    ensures
        call_type(t, vars, name, gargs) matches Some(x) ==> !x.contains(' '),
{
    lemma_literals_have_no_space();
    let full = match fuzzy_name(decl_names(t.decls@), name) {
        Some(f) => f,
        None => name,
    };
    match decl_lookup(t.decls@, full) {
        Some(Declaration::Function(f)) => lemma_without_spaces_has_none(
            subst_type_name(f.return_type@, string_views(f.generic_params@), gargs)),
        _ => {},
    }
    let dot = last_index_of(name, '.');
    if dot >= 0 {
        let rn = name.subrange(0, dot);
        let mn = name.subrange(dot + 1, name.len() as int);
        match ident_type(t, vars, rn) {
            Some(rt) => {
                lemma_without_spaces_has_none(rt);
                match generic_split(rt) {
                    Some((btn, tga)) => {
                        let bc = skip_stars(btn);
                        let tp = match fuzzy_name(string_views(t.struct_types@), bc) {
                            Some(x) => x,
                            None => match fuzzy_name(string_views(t.enum_types@), bc) {
                                Some(x) => x,
                                None => btn,
                            },
                        };
                        match method_decl(t, tp, mn) {
                            Some(Declaration::Function(f)) => lemma_without_spaces_has_none(subst_type_name(
                                f.return_type@,
                                string_views(f.generic_params@),
                                if gargs.len() == 0 { tga } else { gargs },
                            )),
                            _ => {},
                        }
                    },
                    None => {},
                }
            },
            None => {},
        }
    }
}

proof fn lemma_ident_type_no_space(t: NameTables, vars: Seq<(String, String)>, name: Seq<char>)
    ensures
        ident_type(t, vars, name) matches Some(x) ==> !x.contains(' '),
{
    lemma_literals_have_no_space();
    let parts = split_on(name, '.');
    if parts.len() > 1 {
        let ct0 = match entry_of(vars, parts[0]) {
            Some(ty) => ty,
            None => "unknown"@,
        };
        if let Some(ct) = walk_fields(t, ct0, parts, 1) {
            lemma_without_spaces_has_none(ct);
        }
    } else {
        match entry_of(vars, name) {
            Some(ty) => lemma_without_spaces_has_none(ty),
            None => match decl_lookup(t.decls@, name) {
                Some(Declaration::Function(f)) => lemma_without_spaces_has_none(
                    "fn("@ + join_seqs(param_types(f.params@), ","@) + ")->"@ + f.return_type@),
                _ => {},
            },
        }
    }
}

/// A recovered expression type name never contains a space.
pub proof fn lemma_expr_type_has_no_space(t: NameTables, vars: Seq<(String, String)>, e: Expression)
    ensures
        expr_type(t, vars, e) matches Some(x) ==> !x.contains(' '),
    decreases e,
{
    lemma_literals_have_no_space();
    match e {
        Expression::Identifier(name, _) => lemma_ident_type_no_space(t, vars, name@),
        Expression::Call { function, generic_args, .. } => lemma_call_type_no_space(t, vars, function@, string_views(generic_args@)),
        Expression::MemberAccess { receiver, member, .. } => {
            if let Some(rt) = expr_type(t, vars, *receiver) {
                if let Some(x) = field_type_spec(t, rt, member@) {
                    lemma_without_spaces_has_none(x);
                }
            }
        },
        Expression::MethodCall { receiver, method, generic_args, .. } => {
            lemma_expr_type_has_no_space(t, vars, *receiver);
            if let Some(rt) = expr_type(t, vars, *receiver) {
                if let Some((btn, tga)) = generic_split(rt) {
                    let bc = skip_stars(btn);
                    let full = match fuzzy_name(decl_names(t.decls@), bc) {
                        Some(x) => x,
                        None => btn,
                    };
                    if let Some(Declaration::Function(f)) = method_decl(t, full, method@) {
                        let res = subst_type_name(f.return_type@, string_views(f.generic_params@), string_views(generic_args@));
                        let res2 = match decl_lookup(t.decls@, full) {
                            Some(d) => subst_type_name(res, owner_params(d), tga),
                            None => res,
                        };
                        lemma_without_spaces_has_none(res2);
                    }
                }
            }
        },
        Expression::StructInst { name, generic_args, .. } => {
            let sn = match fuzzy_name(string_views(t.struct_types@), name@) {
                Some(x) => x,
                None => name@,
            };
            lemma_without_spaces_has_none(with_args(sn, string_views(generic_args@)));
        },
        Expression::EnumInst { name, variant, arguments, generic_args, .. } => {
            match fuzzy_name(string_views(t.enum_types@), name@) {
                Some(en) => {
                    lemma_without_spaces_has_none(with_args(en, string_views(generic_args@)));
                    let inferred = match decl_lookup(t.decls@, en) {
                        Some(Declaration::Enum(_)) => arg_types(t, vars, arguments@),
                        _ => Some(Seq::empty()),
                    };
                    if let Some(inf) = inferred {
                        lemma_without_spaces_has_none(with_args(en, inf));
                    }
                },
                None => {
                    if let Some(x) = call_type(t, vars, name@ + "."@ + variant@, string_views(generic_args@)) {
                        lemma_without_spaces_has_none(x);
                    }
                },
            }
        },
        Expression::Cast { target, .. } => lemma_without_spaces_has_none(target@),
        Expression::Block { statements, .. } => {
            if let Some(x) = tail_type(t, vars, statements@) {
                lemma_without_spaces_has_none(x);
            }
        },
        Expression::Deref { expr, .. } => {
            if let Some(x) = expr_type(t, vars, *expr) {
                lemma_without_spaces_has_none(x.drop_first());
            }
        },
        Expression::TypeRef { name, generic_args, .. } => lemma_without_spaces_has_none(with_args(name@, string_views(generic_args@))),
        Expression::Match { arms, .. } => {
            if arms@.len() > 0 {
                if let Some(x) = tail_type(t, vars, arms@[0].body@) {
                    lemma_without_spaces_has_none(x);
                }
            }
        },
        _ => {},
    }
}

} // verus!
