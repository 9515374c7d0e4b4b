//! Semantic types of the language and their textual notation.

use vstd::prelude::*;
use crate::text::{
    chars_of, eq_lit, join_seqs, join_strings, string_views, nat_text, push_slice, push_str_chars, slice_chars, string_from_chars, trim_chars, trim_ws,
    usize_text, is_whitespace_char, trim_start_by, trim_end_by, ws_pred,
};

verus! {

/// A semantic type. Integer types are sized: `signed` distinguishes `i*`
/// from `u*`, `bits` is 8, 16, 32 or 64. Integer literals default to `i64`.
#[derive(Debug)]
pub enum Type {
    Unit,
    Integer { signed: bool, bits: u8 },
    Float,
    Boolean,
    String,
    Duration,
    Date,
    Function { is_unsafe: bool, params: Vec<Type>, return_type: Box<Type> },
    Enum { name: String },
    Struct { name: String },
    Placeholder(String),
    GenericInstance(String, Vec<Type>),
    Pointer(Box<Type>),
    /// Heterogeneous fixed-size sequence: `(i64, String, bool)`.
    Tuple(Vec<Type>),
    Unknown,
}

/// A type as a mathematical value: what `Type` denotes, with strings as
/// character sequences and nested types as sequences.
pub enum TypeModel {
    Unit,
    Integer { signed: bool, bits: u8 },
    Float,
    Boolean,
    String,
    Duration,
    Date,
    Function { is_unsafe: bool, params: Seq<TypeModel>, return_type: Box<TypeModel> },
    Enum { name: Seq<char> },
    Struct { name: Seq<char> },
    Placeholder(Seq<char>),
    GenericInstance(Seq<char>, Seq<TypeModel>),
    Pointer(Box<TypeModel>),
    Tuple(Seq<TypeModel>),
    Unknown,
}

/// The models of a sequence of types.
pub open spec fn models(v: Seq<Type>) -> Seq<TypeModel>
    decreases v,
{
    Seq::new(v.len(), |i: int| if 0 <= i < v.len() { v[i].model() } else { TypeModel::Unknown })
}

/// The models of a sequence of types, element by element.
pub proof fn lemma_models(v: Seq<Type>)
    ensures
        models(v).len() == v.len(),
        forall|i: int| 0 <= i < v.len() ==> #[trigger] models(v)[i] == v[i].model(),
{
}

impl Type {
    /// The mathematical value of a type.
    pub open spec fn model(self) -> TypeModel
        decreases self,
    {
        match self {
            Type::Unit => TypeModel::Unit,
            Type::Integer { signed, bits } => TypeModel::Integer { signed, bits },
            Type::Float => TypeModel::Float,
            Type::Boolean => TypeModel::Boolean,
            Type::String => TypeModel::String,
            Type::Duration => TypeModel::Duration,
            Type::Date => TypeModel::Date,
            Type::Function { is_unsafe, params, return_type } => TypeModel::Function {
                is_unsafe,
                params: models(params@),
                return_type: Box::new((*return_type).model()),
            },
            Type::Enum { name } => TypeModel::Enum { name: name@ },
            Type::Struct { name } => TypeModel::Struct { name: name@ },
            Type::Placeholder(n) => TypeModel::Placeholder(n@),
            Type::GenericInstance(b, args) => TypeModel::GenericInstance(b@, models(args@)),
            Type::Pointer(inner) => TypeModel::Pointer(Box::new((*inner).model())),
            Type::Tuple(elems) => TypeModel::Tuple(models(elems@)),
            Type::Unknown => TypeModel::Unknown,
        }
    }
}

} // verus!

verus! {

// ---------------------------------------------------------------------------
// Splitting type lists
// ---------------------------------------------------------------------------

/// State after scanning `s[..k]` for top-level commas: the finished parts,
/// the current part and the bracket depth (an `i32` that wraps).
pub open spec fn split_scan(s: Seq<char>, k: int) -> (Seq<Seq<char>>, Seq<char>, i32)
    decreases k,
{
    if k <= 0 {
        (Seq::empty(), Seq::empty(), 0i32)
    } else {
        let (parts, cur, d) = split_scan(s, k - 1);
        let c = s[k - 1];
        if c == '<' || c == '(' {
            (parts, cur.push(c), d.wrapping_add(1))
        } else if c == '>' || c == ')' {
            (parts, cur.push(c), d.wrapping_sub(1))
        } else if c == ',' && d == 0 {
            (parts.push(cur), Seq::empty(), d)
        } else {
            (parts, cur.push(c), d)
        }
    }
}

/// `s` split at commas outside `<>` and `()`; empty input gives no parts.
pub open spec fn split_top_level_spec(s: Seq<char>) -> Seq<Seq<char>> {
    let (parts, cur, _) = split_scan(s, s.len() as int);
    if cur.len() > 0 || parts.len() > 0 { parts.push(cur) } else { parts }
}

proof fn lemma_split_scan_len(s: Seq<char>, k: int)
    requires
        0 <= k <= s.len(),
    ensures
        split_scan(s, k).1.len() <= k,
        forall|i: int| 0 <= i < split_scan(s, k).0.len() ==> #[trigger] split_scan(s, k).0[i].len() <= k,
    decreases k,
{
    if k > 0 {
        lemma_split_scan_len(s, k - 1);
    }
}

/// Every part of a top-level split is no longer than the input.
pub proof fn lemma_split_top_level_len(s: Seq<char>)
    ensures
        forall|i: int| 0 <= i < split_top_level_spec(s).len() ==> #[trigger] split_top_level_spec(s)[i].len() <= s.len(),
{
    lemma_split_scan_len(s, s.len() as int);
}

proof fn lemma_split_scan_joins(s: Seq<char>, k: int)
    requires
        0 <= k <= s.len(),
    ensures
        join_seqs(split_scan(s, k).0.push(split_scan(s, k).1), ","@) == s.take(k),
    decreases k,
{
    if k == 0 {
        assert(s.take(0) =~= Seq::<char>::empty());
    } else {
        lemma_split_scan_joins(s, k - 1);
        let (parts, cur, d) = split_scan(s, k - 1);
        let c = s[k - 1];
        assert(s.take(k) =~= s.take(k - 1).push(c));
        assert(parts.push(cur).drop_last() =~= parts);
        if c == ',' && d == 0 && !(c == '<' || c == '(') && !(c == '>' || c == ')') {
            let np = parts.push(cur);
            reveal_strlit(",");
            assert(np.push(Seq::empty()).drop_last() =~= np);
            assert(join_seqs(np.push(Seq::empty()), ","@) =~= join_seqs(np, ","@) + ","@ + Seq::<char>::empty());
            assert(join_seqs(np, ","@) + ","@ + Seq::<char>::empty() =~= s.take(k - 1).push(c));
        } else {
            let np = parts.push(cur.push(c));
            assert(np.drop_last() =~= parts);
            if parts.len() == 0 {
                assert(join_seqs(parts.push(cur), ","@) == cur);
                assert(join_seqs(np, ","@) == cur.push(c));
            } else {
                assert(join_seqs(np, ","@) =~= join_seqs(parts, ","@) + ","@ + cur.push(c));
                assert(join_seqs(parts.push(cur), ","@) =~= join_seqs(parts, ","@) + ","@ + cur);
                assert(join_seqs(parts, ","@) + ","@ + cur.push(c) =~= (join_seqs(parts, ","@) + ","@ + cur).push(c));
            }
        }
    }
}

/// The number of commas in `s[..k]` at bracket depth 0.
pub open spec fn top_level_commas(s: Seq<char>, k: int) -> nat
    decreases k,
{
    if k <= 0 {
        0
    } else {
        top_level_commas(s, k - 1) + if s[k - 1] == ',' && split_scan(s, k - 1).2 == 0 { 1nat } else { 0nat }
    }
}

proof fn lemma_split_scan_count(s: Seq<char>, k: int)
    requires
        0 <= k <= s.len(),
    ensures
        split_scan(s, k).0.len() == top_level_commas(s, k),
        k > 0 ==> split_scan(s, k).0.len() > 0 || split_scan(s, k).1.len() > 0,
    decreases k,
{
    if k > 0 {
        lemma_split_scan_count(s, k - 1);
    }
}

/// A top-level split of a non-empty string has one part more than the
/// string has commas at bracket depth 0; the empty string has no parts.
pub proof fn lemma_split_top_level_count(s: Seq<char>)
    ensures
        s.len() == 0 ==> split_top_level_spec(s).len() == 0,
        s.len() > 0 ==> split_top_level_spec(s).len() == top_level_commas(s, s.len() as int) + 1,
{
    lemma_split_scan_count(s, s.len() as int);
}

/// Joining the parts of a top-level split with commas gives the input back.
pub proof fn lemma_split_top_level_joins_back(s: Seq<char>)
    ensures
        join_seqs(split_top_level_spec(s), ","@) == s,
{
    lemma_split_scan_joins(s, s.len() as int);
    assert(s.take(s.len() as int) =~= s);
    let (parts, cur, _) = split_scan(s, s.len() as int);
    if !(cur.len() > 0 || parts.len() > 0) {
        assert(parts.push(cur).len() == 1);
        assert(s.len() == 0);
        assert(s =~= Seq::<char>::empty());
    }
}

/// The views of a vector of character vectors, element by element.
pub proof fn lemma_part_views(v: Seq<Vec<char>>)
    ensures
        part_views(v).len() == v.len(),
        forall|i: int| 0 <= i < v.len() ==> #[trigger] part_views(v)[i] == v[i]@,
{
}

/// Views of a vector of character vectors.
pub open spec fn part_views(v: Seq<Vec<char>>) -> Seq<Seq<char>> {
    v.map_values(|x: Vec<char>| x@)
}

/// Splits on commas at bracket depth 0, respecting nested `<>` and `()`:
/// `(i64, (String, bool))`'s inside splits into `"i64"` and `" (String, bool)"`.
pub fn split_top_level_commas(s: &str) -> (r: Vec<String>)
    ensures
        r@.map_values(|x: String| x@) == split_top_level_spec(s@),
{
    let chars = chars_of(s);
    let parts = split_top_level_chars(&chars);
    let mut r: Vec<String> = Vec::new();
    let mut i: usize = 0;
    while i < parts.len()
        invariant
            i <= parts@.len(),
            r@.len() == i,
            forall|k: int| 0 <= k < i ==> #[trigger] r@[k]@ == parts@[k]@,
        decreases parts@.len() - i,
    {
        r.push(string_from_chars(&parts[i]));
        i = i + 1;
    }
    assert(r@.map_values(|x: String| x@) =~= part_views(parts@));
    r
}

fn split_top_level_chars(s: &[char]) -> (r: Vec<Vec<char>>)
    ensures
        part_views(r@) == split_top_level_spec(s@),
{
    let mut parts: Vec<Vec<char>> = Vec::new();
    let mut cur: Vec<char> = Vec::new();
    let mut depth: i32 = 0;
    let mut i: usize = 0;
    while i < s.len()
        invariant
            i <= s@.len(),
            (part_views(parts@), cur@, depth) == split_scan(s@, i as int),
        decreases s@.len() - i,
    {
        let c = s[i];
        let ghost old_parts = part_views(parts@);
        if c == '<' || c == '(' {
            depth = depth.wrapping_add(1);
            cur.push(c);
        } else if c == '>' || c == ')' {
            depth = depth.wrapping_sub(1);
            cur.push(c);
        } else if c == ',' && depth == 0 {
            let done = cur;
            cur = Vec::new();
            let ghost dv = done@;
            parts.push(done);
            assert(part_views(parts@) =~= old_parts.push(dv));
        } else {
            cur.push(c);
        }
        i = i + 1;
    }
    if cur.len() > 0 || parts.len() > 0 {
        let ghost old_parts = part_views(parts@);
        let ghost cv = cur@;
        parts.push(cur);
        assert(part_views(parts@) =~= old_parts.push(cv));
    }
    parts
}

/// `s` split at every `sep` (as `str::split` does; empty input gives one empty part).
pub open spec fn split_on(s: Seq<char>, sep: char) -> Seq<Seq<char>>
    decreases s.len(),
{
    if s.len() == 0 {
        seq![Seq::empty()]
    } else {
        let rest = split_on(s.drop_last(), sep);
        if s.last() == sep {
            rest.push(Seq::empty())
        } else {
            rest.update(rest.len() - 1, rest.last().push(s.last()))
        }
    }
}

pub(crate) proof fn lemma_split_on_shape(s: Seq<char>, sep: char)
    ensures
        split_on(s, sep).len() >= 1,
        forall|i: int| 0 <= i < split_on(s, sep).len() ==> #[trigger] split_on(s, sep)[i].len() <= s.len(),
    decreases s.len(),
{
    if s.len() > 0 {
        lemma_split_on_shape(s.drop_last(), sep);
    }
}

pub fn split_on_chars(s: &[char], sep: char) -> (r: Vec<Vec<char>>)
    ensures
        part_views(r@) == split_on(s@, sep),
{
    let mut parts: Vec<Vec<char>> = Vec::new();
    let mut cur: Vec<char> = Vec::new();
    let mut i: usize = 0;
    while i < s.len()
        invariant
            i <= s@.len(),
            part_views(parts@).push(cur@) == split_on(s@.take(i as int), sep),
        decreases s@.len() - i,
    {
        let c = s[i];
        let ghost pv = part_views(parts@);
        let ghost cv = cur@;
        assert(s@.take(i + 1).drop_last() =~= s@.take(i as int));
        if c == sep {
            let done = cur;
            cur = Vec::new();
            parts.push(done);
            assert(part_views(parts@) =~= pv.push(cv));
            assert(part_views(parts@).push(cur@) =~= pv.push(cv).push(Seq::empty()));
        } else {
            cur.push(c);
            assert(part_views(parts@).push(cur@) =~= pv.push(cv).update(pv.len() as int, cv.push(c)));
        }
        i = i + 1;
    }
    assert(s@.take(s@.len() as int) =~= s@);
    let ghost pv = part_views(parts@);
    let ghost cv = cur@;
    parts.push(cur);
    assert(part_views(parts@) =~= pv.push(cv));
    parts
}

/// The trimmed, non-empty parts of a split, in order.
pub open spec fn clean_parts(ps: Seq<Seq<char>>) -> Seq<Seq<char>>
    decreases ps.len(),
{
    if ps.len() == 0 {
        Seq::empty()
    } else {
        let rest = clean_parts(ps.drop_last());
        let t = trim_ws(ps.last());
        if t.len() > 0 { rest.push(t) } else { rest }
    }
}

proof fn lemma_clean_parts_len(ps: Seq<Seq<char>>, bound: nat)
    requires
        forall|i: int| 0 <= i < ps.len() ==> #[trigger] ps[i].len() <= bound,
    ensures
        forall|i: int| 0 <= i < clean_parts(ps).len() ==> #[trigger] clean_parts(ps)[i].len() <= bound,
    decreases ps.len(),
{
    if ps.len() > 0 {
        assert forall|i: int| 0 <= i < ps.drop_last().len() implies #[trigger] ps.drop_last()[i].len() <= bound by {
            assert(ps.drop_last()[i] == ps[i]);
        }
        lemma_clean_parts_len(ps.drop_last(), bound);
        crate::text::lemma_trim_len(ps.last());
        let rest = clean_parts(ps.drop_last());
        let t = trim_ws(ps.last());
        assert(ps.last() == ps[ps.len() - 1]);
        if t.len() > 0 {
            assert forall|i: int| 0 <= i < rest.push(t).len() implies #[trigger] rest.push(t)[i].len() <= bound by {
                if i < rest.len() {
                    assert(rest.push(t)[i] == rest[i]);
                }
            }
        }
    }
}

fn clean_parts_exec(ps: &Vec<Vec<char>>) -> (r: Vec<Vec<char>>)
    ensures
        part_views(r@) == clean_parts(part_views(ps@)),
{
    let ghost pv = part_views(ps@);
    let mut r: Vec<Vec<char>> = Vec::new();
    let mut i: usize = 0;
    while i < ps.len()
        invariant
            i <= ps@.len(),
            pv == part_views(ps@),
            part_views(r@) == clean_parts(pv.take(i as int)),
        decreases ps@.len() - i,
    {
        let t = trim_chars(&ps[i]);
        assert(pv.take(i + 1).drop_last() =~= pv.take(i as int));
        assert(pv.take(i + 1).last() == ps@[i as int]@);
        if t.len() > 0 {
            let ghost rv = part_views(r@);
            let ghost tv = t@;
            r.push(t);
            assert(part_views(r@) =~= rv.push(tv));
        }
        i = i + 1;
    }
    assert(pv.take(ps@.len() as int) =~= pv);
    r
}

// ---------------------------------------------------------------------------
// Parsing type notation
// ---------------------------------------------------------------------------

/// The sized integer type.
pub open spec fn int_model(signed: bool, bits: u8) -> TypeModel {
    TypeModel::Integer { signed, bits }
}

/// The named primitive types, including the legacy aliases `int`/`Integer`
/// (for `i64`) and `Unit` (for `void`).
pub open spec fn primitive_type(t: Seq<char>) -> Option<TypeModel> {
    if t == "i64"@ { Some(int_model(true, 64)) }
    else if t == "u64"@ { Some(int_model(false, 64)) }
    else if t == "i32"@ { Some(int_model(true, 32)) }
    else if t == "u32"@ { Some(int_model(false, 32)) }
    else if t == "i8"@ { Some(int_model(true, 8)) }
    else if t == "u8"@ { Some(int_model(false, 8)) }
    else if t == "int"@ || t == "Integer"@ { Some(int_model(true, 64)) }
    else if t == "f64"@ { Some(TypeModel::Float) }
    else if t == "bool"@ { Some(TypeModel::Boolean) }
    else if t == "String"@ { Some(TypeModel::String) }
    else if t == "Date"@ { Some(TypeModel::Date) }
    else if t == "Duration"@ { Some(TypeModel::Duration) }
    else if t == "void"@ || t == "Unit"@ { Some(TypeModel::Unit) }
    else { None }
}

/// Index of the first occurrence of `c` in `s`, or `s.len()`.
pub open spec fn index_of(s: Seq<char>, c: char, from: int) -> int
    decreases s.len() - from,
{
    if from >= s.len() {
        s.len() as int
    } else if s[from] == c {
        from
    } else {
        index_of(s, c, from + 1)
    }
}

proof fn lemma_index_of(s: Seq<char>, c: char, from: int)
    requires
        0 <= from <= s.len(),
    ensures
        from <= index_of(s, c, from) <= s.len(),
        index_of(s, c, from) < s.len() ==> s[index_of(s, c, from)] == c,
        forall|k: int| from <= k < index_of(s, c, from) ==> s[k] != c,
    decreases s.len() - from,
{
    if from < s.len() && s[from] != c {
        lemma_index_of(s, c, from + 1);
    }
}

/// Whether `t` has the shape `(…)`.
pub open spec fn is_parenthesized(t: Seq<char>) -> bool {
    t.len() >= 2 && t[0] == '(' && t.last() == ')'
}

/// Whether `t` has the shape `Base<…>`.
pub open spec fn is_generic_shape(t: Seq<char>) -> bool {
    t.contains('<') && t.len() > 0 && t.last() == '>'
}

/// The type a type name denotes. Surrounding whitespace is ignored; `*T` is
/// a pointer; `(T, U, …)` a tuple (`(T)` is `T`, `()` is unit); the
/// primitive names map to their types; `Base<A, B>` is a generic instance
/// (its arguments split at every comma); any other name is a placeholder
/// to be resolved later.
pub open spec fn parse_type_spec(s: Seq<char>) -> TypeModel
    decreases s.len(), 1nat, 0nat,
{
    let t = trim_ws(s);
    proof {
        crate::text::lemma_trim_len(s);
    }
    if t.len() > 0 && t[0] == '*' {
        let rest = trim_ws(t.drop_first());
        proof {
            crate::text::lemma_trim_len(t.drop_first());
        }
        TypeModel::Pointer(Box::new(parse_type_spec(rest)))
    } else if is_parenthesized(t) {
        let elems = parse_list(clean_parts(split_top_level_spec(t.subrange(1, t.len() - 1))), s.len());
        if elems.len() >= 2 {
            TypeModel::Tuple(elems)
        } else if elems.len() == 1 {
            elems[0]
        } else {
            TypeModel::Unit
        }
    } else if primitive_type(t) is Some {
        primitive_type(t)->0
    } else if is_generic_shape(t) {
        let start = index_of(t, '<', 0);
        let args = parse_list(clean_parts(split_on(t.subrange(start + 1, t.len() - 1), ',')), s.len());
        TypeModel::GenericInstance(t.take(start), args)
    } else {
        TypeModel::Placeholder(t)
    }
}

/// The types of a list of type names, each shorter than `bound`.
pub open spec fn parse_list(parts: Seq<Seq<char>>, bound: nat) -> Seq<TypeModel>
    decreases bound, 0nat, parts.len(),
{
    if parts.len() == 0 {
        Seq::empty()
    } else {
        let first = if parts[0].len() < bound { parse_type_spec(parts[0]) } else { TypeModel::Unknown };
        seq![first] + parse_list(parts.drop_first(), bound)
    }
}

proof fn lemma_parse_list(parts: Seq<Seq<char>>, bound: nat)
    ensures
        parse_list(parts, bound).len() == parts.len(),
        forall|i: int| 0 <= i < parts.len() && parts[i].len() < bound ==>
            #[trigger] parse_list(parts, bound)[i] == parse_type_spec(parts[i]),
    decreases parts.len(),
{
    if parts.len() > 0 {
        lemma_parse_list(parts.drop_first(), bound);
        assert forall|i: int| 0 <= i < parts.len() && parts[i].len() < bound implies
            #[trigger] parse_list(parts, bound)[i] == parse_type_spec(parts[i]) by {
            if i > 0 {
                assert(parts.drop_first()[i - 1] == parts[i]);
            }
        }
    }
}


/// Parses each of `parts` (all shorter than `bound`).
fn parse_parts(parts: &Vec<Vec<char>>, Ghost(bound): Ghost<nat>) -> (r: Vec<Type>)
    requires
        forall|i: int| 0 <= i < parts@.len() ==> #[trigger] parts@[i]@.len() < bound,
    ensures
        models(r@) == parse_list(part_views(parts@), bound),
    decreases bound, 1nat,
{
    let ghost pv = part_views(parts@);
    proof {
        lemma_parse_list(pv, bound);
    }
    let mut r: Vec<Type> = Vec::new();
    let mut i: usize = 0;
    while i < parts.len()
        invariant
            i <= parts@.len(),
            pv == part_views(parts@),
            parse_list(pv, bound).len() == pv.len(),
            forall|k: int| 0 <= k < parts@.len() ==> #[trigger] parts@[k]@.len() < bound,
            forall|k: int| 0 <= k < pv.len() && pv[k].len() < bound ==>
                #[trigger] parse_list(pv, bound)[k] == parse_type_spec(pv[k]),
            r@.len() == i,
            forall|k: int| 0 <= k < i ==> #[trigger] r@[k].model() == parse_list(pv, bound)[k],
        decreases parts@.len() - i,
    {
        assert(pv[i as int] == parts@[i as int]@);
        let t = parse_chars(&parts[i], Ghost(bound));
        r.push(t);
        i = i + 1;
    }
    proof {
        lemma_models(r@);
    }
    assert(models(r@) =~= parse_list(pv, bound));
    r
}

/// Parses type notation given as characters (see [`parse_type_spec`]).
fn parse_chars(s: &Vec<char>, Ghost(bound): Ghost<nat>) -> (r: Type)
    requires
        s@.len() < bound,
    ensures
        r.model() == parse_type_spec(s@),
    decreases bound, 0nat,
{
    let t = trim_chars(s);
    proof {
        crate::text::lemma_trim_len(s@);
    }
    if t.len() > 0 && t[0] == '*' {
        let rest0 = slice_chars(&t, 1, t.len());
        assert(rest0@ == t@.drop_first());
        let rest = trim_chars(&rest0);
        proof {
            crate::text::lemma_trim_len(t@.drop_first());
        }
        let inner = parse_chars(&rest, Ghost(s@.len() as nat));
        return Type::Pointer(Box::new(inner));
    }
    if t.len() >= 2 && t[0] == '(' && t[t.len() - 1] == ')' {
        let inner = slice_chars(&t, 1, t.len() - 1);
        let parts = split_top_level_chars(&inner);
        let cleaned = clean_parts_exec(&parts);
        proof {
            lemma_split_top_level_len(inner@);
            lemma_clean_parts_len(part_views(parts@), inner@.len());
            assert forall|i: int| 0 <= i < cleaned@.len() implies #[trigger] cleaned@[i]@.len() < s@.len() by {
                assert(part_views(cleaned@)[i] == cleaned@[i]@);
            }
        }
        let mut elems = parse_parts(&cleaned, Ghost(s@.len() as nat));
        proof {
            let tt = trim_ws(s@);
            assert(tt == t@);
            assert(is_parenthesized(tt));
            assert(!(tt.len() > 0 && tt[0] == '*'));
            assert(parse_type_spec(s@) == (if models(elems@).len() >= 2 {
                TypeModel::Tuple(models(elems@))
            } else if models(elems@).len() == 1 {
                models(elems@)[0]
            } else {
                TypeModel::Unit
            }));
        }
        if elems.len() >= 2 {
            return Type::Tuple(elems);
        }
        if elems.len() == 1 {
            let e = elems.remove(0);
            return e;
        }
        return Type::Unit;
    }
    if let Some(p) = primitive_exec(&t) {
        return p;
    }
    if t.len() > 0 && t[t.len() - 1] == '>' {
        let mut start: usize = 0;
        while start < t.len() && t[start] != '<'
            invariant
                start <= t@.len(),
                index_of(t@, '<', 0) == index_of(t@, '<', start as int),
            decreases t@.len() - start,
        {
            start = start + 1;
        }
        proof {
            lemma_index_of(t@, '<', 0);
        }
        if start < t.len() {
            assert(t@.contains('<'));
            let base = slice_chars(&t, 0, start);
            let args_src = slice_chars(&t, start + 1, t.len() - 1);
            let parts = split_on_chars(&args_src, ',');
            let cleaned = clean_parts_exec(&parts);
            proof {
                lemma_split_on_shape(args_src@, ',');
                lemma_clean_parts_len(part_views(parts@), args_src@.len());
                assert forall|i: int| 0 <= i < cleaned@.len() implies #[trigger] cleaned@[i]@.len() < s@.len() by {
                    assert(part_views(cleaned@)[i] == cleaned@[i]@);
                }
            }
            let args = parse_parts(&cleaned, Ghost(s@.len() as nat));
            assert(base@ == t@.take(start as int));
            let r = Type::GenericInstance(string_from_chars(&base), args);
            return r;
        } else {
            assert(!t@.contains('<'));
        }
    }
    Type::Placeholder(string_from_chars(&t))
}

fn primitive_exec(t: &Vec<char>) -> (r: Option<Type>)
    ensures
        match r {
            Some(ty) => primitive_type(t@) == Some(ty.model()),
            None => primitive_type(t@) is None,
        },
{
    if eq_lit(t, "i64") { Some(Type::i64()) }
    else if eq_lit(t, "u64") { Some(Type::u64()) }
    else if eq_lit(t, "i32") { Some(Type::i32()) }
    else if eq_lit(t, "u32") { Some(Type::u32()) }
    else if eq_lit(t, "i8") { Some(Type::i8()) }
    else if eq_lit(t, "u8") { Some(Type::u8()) }
    else if eq_lit(t, "int") || eq_lit(t, "Integer") { Some(Type::i64()) }
    else if eq_lit(t, "f64") { Some(Type::Float) }
    else if eq_lit(t, "bool") { Some(Type::Boolean) }
    else if eq_lit(t, "String") { Some(Type::String) }
    else if eq_lit(t, "Date") { Some(Type::Date) }
    else if eq_lit(t, "Duration") { Some(Type::Duration) }
    else if eq_lit(t, "void") || eq_lit(t, "Unit") { Some(Type::Unit) }
    else { None }
}

impl Type {
    /// `i64`, the default integer type for literals and unannotated bindings.
    pub fn i64() -> (t: Type)
        ensures
            t.model() == int_model(true, 64),
    {
        Type::Integer { signed: true, bits: 64 }
    }

    /// `u64`.
    pub fn u64() -> (t: Type)
        ensures
            t.model() == int_model(false, 64),
    {
        Type::Integer { signed: false, bits: 64 }
    }

    /// `i32`.
    pub fn i32() -> (t: Type)
        ensures
            t.model() == int_model(true, 32),
    {
        Type::Integer { signed: true, bits: 32 }
    }

    /// `u32`.
    pub fn u32() -> (t: Type)
        ensures
            t.model() == int_model(false, 32),
    {
        Type::Integer { signed: false, bits: 32 }
    }

    /// `i8`.
    pub fn i8() -> (t: Type)
        ensures
            t.model() == int_model(true, 8),
    {
        Type::Integer { signed: true, bits: 8 }
    }

    /// `u8`.
    pub fn u8() -> (t: Type)
        ensures
            t.model() == int_model(false, 8),
    {
        Type::Integer { signed: false, bits: 8 }
    }

    /// True for every integer type, whatever its signedness and width.
    pub fn is_integer(&self) -> (b: bool)
        ensures
            b == (self.model() is Integer),
    {
        match self {
            Type::Integer { .. } => true,
            _ => false,
        }
    }

    /// The type that the notation `s` denotes (see [`parse_type_spec`]).
    pub fn parse(s: &str) -> (t: Type)
        ensures
            t.model() == parse_type_spec(s@),
    {
        let chars = chars_of(s);
        parse_chars(&chars, Ghost(s@.len() + 1))
    }
}


// ---------------------------------------------------------------------------
// Rendering types
// ---------------------------------------------------------------------------

/// The notation of a type, as diagnostics and generated code spell it.
pub open spec fn type_name_spec(t: TypeModel) -> Seq<char>
    decreases t,
{
    match t {
        TypeModel::Unit => "void"@,
        TypeModel::Integer { signed, bits } => {
            if signed && bits == 64 { "i64"@ }
            else if !signed && bits == 64 { "u64"@ }
            else if signed && bits == 32 { "i32"@ }
            else if !signed && bits == 32 { "u32"@ }
            else if signed && bits == 8 { "i8"@ }
            else if !signed && bits == 8 { "u8"@ }
            else if signed { seq!['i'] + nat_text(bits as nat) }
            else { seq!['u'] + nat_text(bits as nat) }
        },
        TypeModel::Float => "f64"@,
        TypeModel::Boolean => "bool"@,
        TypeModel::String => "String"@,
        TypeModel::Duration => "Duration"@,
        TypeModel::Date => "Date"@,
        TypeModel::Pointer(inner) => seq!['*'] + type_name_spec(*inner),
        TypeModel::Tuple(elems) => seq!['('] + join_seqs(type_names_spec(elems), ", "@) + seq![')'],
        TypeModel::Struct { name } => name,
        TypeModel::Enum { name } => name,
        TypeModel::GenericInstance(base, args) =>
            base + seq!['<'] + join_seqs(type_names_spec(args), ", "@) + seq!['>'],
        TypeModel::Placeholder(name) => name,
        TypeModel::Function { params, return_type, .. } =>
            "fn("@ + join_seqs(type_names_spec(params), ", "@) + ") -> "@ + type_name_spec(*return_type),
        TypeModel::Unknown => "unknown"@,
    }
}

/// The names of the scalar types: `void`, `i64`, `u64`, `i32`, `u32`,
/// `i8`, `u8`, `f64`, `bool`, `String`, `Duration`, `Date` and `unknown`;
/// a pointer's name is `*` before its target's, and a struct or enum is
/// named by its own name.
pub proof fn lemma_scalar_type_names(t: TypeModel, name: Seq<char>)
    ensures
        type_name_spec(TypeModel::Unit) == seq!['v', 'o', 'i', 'd'],
        type_name_spec(int_model(true, 64)) == seq!['i', '6', '4'],
        type_name_spec(int_model(false, 64)) == seq!['u', '6', '4'],
        type_name_spec(int_model(true, 32)) == seq!['i', '3', '2'],
        type_name_spec(int_model(false, 32)) == seq!['u', '3', '2'],
        type_name_spec(int_model(true, 8)) == seq!['i', '8'],
        type_name_spec(int_model(false, 8)) == seq!['u', '8'],
        type_name_spec(TypeModel::Float) == seq!['f', '6', '4'],
        type_name_spec(TypeModel::Boolean) == seq!['b', 'o', 'o', 'l'],
        type_name_spec(TypeModel::String) == seq!['S', 't', 'r', 'i', 'n', 'g'],
        type_name_spec(TypeModel::Duration) == seq!['D', 'u', 'r', 'a', 't', 'i', 'o', 'n'],
        type_name_spec(TypeModel::Date) == seq!['D', 'a', 't', 'e'],
        type_name_spec(TypeModel::Unknown) == seq!['u', 'n', 'k', 'n', 'o', 'w', 'n'],
        type_name_spec(TypeModel::Pointer(Box::new(t))) == seq!['*'] + type_name_spec(t),
        type_name_spec(TypeModel::Struct { name }) == name,
        type_name_spec(TypeModel::Enum { name }) == name,
{
    reveal_strlit("Date");
    assert("Date"@ =~= seq!['D', 'a', 't', 'e']);
    reveal_strlit("Duration");
    assert("Duration"@ =~= seq!['D', 'u', 'r', 'a', 't', 'i', 'o', 'n']);
    reveal_strlit("String");
    assert("String"@ =~= seq!['S', 't', 'r', 'i', 'n', 'g']);
    reveal_strlit("bool");
    assert("bool"@ =~= seq!['b', 'o', 'o', 'l']);
    reveal_strlit("f64");
    assert("f64"@ =~= seq!['f', '6', '4']);
    reveal_strlit("i32");
    assert("i32"@ =~= seq!['i', '3', '2']);
    reveal_strlit("i64");
    assert("i64"@ =~= seq!['i', '6', '4']);
    reveal_strlit("i8");
    assert("i8"@ =~= seq!['i', '8']);
    reveal_strlit("u32");
    assert("u32"@ =~= seq!['u', '3', '2']);
    reveal_strlit("u64");
    assert("u64"@ =~= seq!['u', '6', '4']);
    reveal_strlit("u8");
    assert("u8"@ =~= seq!['u', '8']);
    reveal_strlit("unknown");
    assert("unknown"@ =~= seq!['u', 'n', 'k', 'n', 'o', 'w', 'n']);
    reveal_strlit("void");
    assert("void"@ =~= seq!['v', 'o', 'i', 'd']);
}

/// The notations of a sequence of types.
pub open spec fn type_names_spec(ts: Seq<TypeModel>) -> Seq<Seq<char>>
    decreases ts,
{
    Seq::new(ts.len(), |i: int| if 0 <= i < ts.len() { type_name_spec(ts[i]) } else { Seq::empty() })
}

fn names_joined(ts: &Vec<Type>) -> (r: Vec<char>)
    ensures
        r@ == join_seqs(type_names_spec(models(ts@)), ", "@),
    decreases ts@, 0nat,
{
    let mut names: Vec<String> = Vec::new();
    let ghost ms = models(ts@);
    proof {
        lemma_models(ts@);
    }
    let mut i: usize = 0;
    while i < ts.len()
        invariant
            i <= ts@.len(),
            ms == models(ts@),
            ms.len() == ts@.len(),
            forall|k: int| 0 <= k < ts@.len() ==> #[trigger] ms[k] == ts@[k].model(),
            names@.len() == i,
            forall|k: int| 0 <= k < i ==> #[trigger] names@[k]@ == type_name_spec(ms[k]),
        decreases ts@.len() - i,
    {
        let n = ts[i].name();
        names.push(n);
        i = i + 1;
    }
    assert(string_views(names@) =~= type_names_spec(ms));
    join_strings(&names, ", ")
}

impl Type {
    /// The notation of the type (see [`type_name_spec`]).
    pub fn name(&self) -> (r: String)
        ensures
            r@ == type_name_spec(self.model()),
        decreases self, 1nat,
    {
        let mut v: Vec<char> = Vec::new();
        match self {
            Type::Unit => push_str_chars(&mut v, "void"),
            Type::Integer { signed, bits } => {
                let signed = *signed;
                let bits = *bits;
                if signed && bits == 64 { push_str_chars(&mut v, "i64") }
                else if !signed && bits == 64 { push_str_chars(&mut v, "u64") }
                else if signed && bits == 32 { push_str_chars(&mut v, "i32") }
                else if !signed && bits == 32 { push_str_chars(&mut v, "u32") }
                else if signed && bits == 8 { push_str_chars(&mut v, "i8") }
                else if !signed && bits == 8 { push_str_chars(&mut v, "u8") }
                else {
                    if signed { v.push('i'); } else { v.push('u'); }
                    let d = usize_text(bits as usize);
                    push_slice(&mut v, &d);
                }
            },
            Type::Float => push_str_chars(&mut v, "f64"),
            Type::Boolean => push_str_chars(&mut v, "bool"),
            Type::String => push_str_chars(&mut v, "String"),
            Type::Duration => push_str_chars(&mut v, "Duration"),
            Type::Date => push_str_chars(&mut v, "Date"),
            Type::Pointer(inner) => {
                v.push('*');
                let n = inner.name();
                push_str_chars(&mut v, n.as_str());
            },
            Type::Tuple(elems) => {
                v.push('(');
                let j = names_joined(elems);
                push_slice(&mut v, &j);
                v.push(')');
            },
            Type::Struct { name } => push_str_chars(&mut v, name.as_str()),
            Type::Enum { name } => push_str_chars(&mut v, name.as_str()),
            Type::GenericInstance(base, args) => {
                push_str_chars(&mut v, base.as_str());
                v.push('<');
                let j = names_joined(args);
                push_slice(&mut v, &j);
                v.push('>');
            },
            Type::Placeholder(name) => push_str_chars(&mut v, name.as_str()),
            Type::Function { params, return_type, .. } => {
                push_str_chars(&mut v, "fn(");
                let j = names_joined(params);
                push_slice(&mut v, &j);
                push_str_chars(&mut v, ") -> ");
                let n = return_type.name();
                push_str_chars(&mut v, n.as_str());
            },
            Type::Unknown => push_str_chars(&mut v, "unknown"),
        }
        string_from_chars(&v)
    }
}


fn clone_types(ts: &Vec<Type>) -> (r: Vec<Type>)
    ensures
        models(r@) == models(ts@),
    decreases ts@, 0nat,
{
    let mut r: Vec<Type> = Vec::new();
    let mut i: usize = 0;
    proof {
        lemma_models(ts@);
    }
    while i < ts.len()
        invariant
            i <= ts@.len(),
            r@.len() == i,
            forall|k: int| 0 <= k < i ==> #[trigger] r@[k].model() == ts@[k].model(),
        decreases ts@.len() - i,
    {
        r.push(ts[i].clone_type());
        i = i + 1;
    }
    proof {
        lemma_models(r@);
        lemma_models(ts@);
    }
    assert(models(r@) =~= models(ts@));
    r
}

impl Type {
    /// A copy of the type.
    pub fn clone_type(&self) -> (r: Type)
        ensures
            r.model() == self.model(),
        decreases self, 1nat,
    {
        match self {
            Type::Unit => Type::Unit,
            Type::Integer { signed, bits } => Type::Integer { signed: *signed, bits: *bits },
            Type::Float => Type::Float,
            Type::Boolean => Type::Boolean,
            Type::String => Type::String,
            Type::Duration => Type::Duration,
            Type::Date => Type::Date,
            Type::Function { is_unsafe, params, return_type } => Type::Function {
                is_unsafe: *is_unsafe,
                params: clone_types(params),
                return_type: Box::new(return_type.clone_type()),
            },
            Type::Enum { name } => Type::Enum { name: name.clone() },
            Type::Struct { name } => Type::Struct { name: name.clone() },
            Type::Placeholder(n) => Type::Placeholder(n.clone()),
            Type::GenericInstance(b, args) => Type::GenericInstance(b.clone(), clone_types(args)),
            Type::Pointer(inner) => Type::Pointer(Box::new(inner.clone_type())),
            Type::Tuple(elems) => Type::Tuple(clone_types(elems)),
            Type::Unknown => Type::Unknown,
        }
    }
}


// ---------------------------------------------------------------------------
// Reading a notation back
// ---------------------------------------------------------------------------

/// The types whose notation reads back as the same type: the scalar types
/// with a name of their own, and pointers to such types.
pub open spec fn reads_back(t: TypeModel) -> bool
    decreases t,
{
    match t {
        TypeModel::Unit => true,
        TypeModel::Float => true,
        TypeModel::Boolean => true,
        TypeModel::String => true,
        TypeModel::Duration => true,
        TypeModel::Date => true,
        TypeModel::Integer { bits, .. } => bits == 64 || bits == 32 || bits == 8,
        TypeModel::Pointer(inner) => reads_back(*inner),
        _ => false,
    }
}

pub(crate) proof fn lemma_trim_keeps(s: Seq<char>)
    requires
        s.len() > 0,
        !is_whitespace_char(s[0]),
        !is_whitespace_char(s.last()),
    ensures
        trim_ws(s) == s,
{
    assert(trim_start_by(s, ws_pred()) == s);
    assert(trim_end_by(s, ws_pred()) == s);
}

proof fn lemma_scalar_name_ends(t: TypeModel)
    requires
        reads_back(t),
    ensures
        type_name_spec(t).len() > 0,
        !is_whitespace_char(type_name_spec(t)[0]),
        !is_whitespace_char(type_name_spec(t).last()),
        type_name_spec(t)[0] != '(',
    decreases t,
{
    reveal_strlit("void");
    reveal_strlit("f64");
    reveal_strlit("bool");
    reveal_strlit("String");
    reveal_strlit("Duration");
    reveal_strlit("Date");
    reveal_strlit("i64");
    reveal_strlit("u64");
    reveal_strlit("i32");
    reveal_strlit("u32");
    reveal_strlit("i8");
    reveal_strlit("u8");
    if let TypeModel::Pointer(inner) = t {
        lemma_scalar_name_ends(*inner);
        let n = type_name_spec(*inner);
        assert((seq!['*'] + n).last() == n.last());
    }
}

/// Reading back the notation of a scalar type, or of a pointer to one,
/// gives the type itself.
pub proof fn lemma_name_reads_back(t: TypeModel)
    requires
        reads_back(t),
    ensures
        parse_type_spec(type_name_spec(t)) == t,
    decreases t,
{
    lemma_scalar_name_ends(t);
    let n = type_name_spec(t);
    lemma_trim_keeps(n);
    reveal_strlit("void");
    reveal_strlit("f64");
    reveal_strlit("bool");
    reveal_strlit("String");
    reveal_strlit("Duration");
    reveal_strlit("Date");
    reveal_strlit("i64");
    reveal_strlit("u64");
    reveal_strlit("i32");
    reveal_strlit("u32");
    reveal_strlit("i8");
    reveal_strlit("u8");
    match t {
        TypeModel::Pointer(inner) => {
            lemma_name_reads_back(*inner);
            lemma_scalar_name_ends(*inner);
            let m = type_name_spec(*inner);
            lemma_trim_keeps(m);
            assert(n.drop_first() =~= m);
        },
        _ => {
            reveal_strlit("int");
            reveal_strlit("Integer");
            reveal_strlit("Unit");
            assert(primitive_type(n) == Some(t));
        },
    }
}

} // verus!
