//! The type checker: declarations are registered first, then every function
//! body is checked statement by statement against the typing rules.

use vstd::prelude::*;
use super::environment::Environment;
use super::rules::{check_cast_pair, check_compatibility, ends_with, ends_with_chars, types_unify};
use super::types::{Type, TypeModel};
use crate::ast::{Declaration, Expression, Function, MatchArm, Program, Span, Statement};
use crate::error::{CompileError, opt_view, suggest_closest, suggest_spec};
use crate::text::{
    char_is_alphanumeric, char_is_lowercase, chars_eq, chars_of, eq_lit, push_slice, push_str_chars, str_eq,
    string_from_chars, usize_text,
};
use crate::token::{Token, TokenKind};

verus! {

// ---------------------------------------------------------------------------
// Declarations as the checker records them
// ---------------------------------------------------------------------------

/// What the checker keeps of a declaration.
pub enum DeclInfo {
    /// A function, with the name of its first parameter.
    Function { first_param: Option<String> },
    /// A struct, with its (field name, type name) pairs.
    Struct { fields: Vec<(String, String)> },
    /// An enum, with its generic parameters and its variants (name, payload type names).
    Enum { generic_params: Vec<String>, variants: Vec<(String, Vec<String>)> },
}

/// The names of a declaration table, in order.
pub open spec fn decl_keys(decls: Seq<(String, DeclInfo)>) -> Seq<Seq<char>> {
    decls.map_values(|d: (String, DeclInfo)| d.0@)
}

/// No name occurs twice in a declaration table.
pub open spec fn decls_unique(decls: Seq<(String, DeclInfo)>) -> bool {
    forall|i: int, j: int| 0 <= i < j < decls.len() ==> decls[i].0@ != decls[j].0@
}

/// A key names `name` qualified by a module path: it is `name` or ends
/// with `.name`.
pub open spec fn fuzzy_key(key: Seq<char>, name: Seq<char>) -> bool {
    ends_with(key, name) && (key.len() == name.len() || key[key.len() - name.len() - 1] == '.')
}

/// The first index in `keys` at or after `i` whose key names `name` qualified.
pub open spec fn first_fuzzy(keys: Seq<Seq<char>>, name: Seq<char>, i: int) -> Option<int>
    decreases keys.len() - i,
{
    if i < 0 || i >= keys.len() {
        None
    } else if fuzzy_key(keys[i], name) {
        Some(i)
    } else {
        first_fuzzy(keys, name, i + 1)
    }
}

/// The declared name that `name` resolves to: `name` itself when declared,
/// else the first declared name that is `name` qualified by a module path.
pub open spec fn resolve_fuzzy_spec(keys: Seq<Seq<char>>, name: Seq<char>) -> Option<Seq<char>> {
    if keys.contains(name) {
        Some(name)
    } else {
        match first_fuzzy(keys, name, 0) {
            Some(i) => Some(keys[i]),
            None => None,
        }
    }
}

fn copy_strings(v: &Vec<String>) -> (r: Vec<String>)
    ensures
        r@.len() == v@.len(),
        forall|i: int| 0 <= i < v@.len() ==> (#[trigger] r@[i])@ == v@[i]@,
{
    let mut r: Vec<String> = Vec::new();
    let mut i: usize = 0;
    while i < v.len()
        invariant
            i <= v@.len(),
            r@.len() == i,
            forall|k: int| 0 <= k < i ==> (#[trigger] r@[k])@ == v@[k]@,
        decreases v@.len() - i,
    {
        r.push(v[i].clone());
        i = i + 1;
    }
    r
}

/// The first index at or after `i` of a declaration named `name`.
pub open spec fn decl_index_from(decls: Seq<(String, DeclInfo)>, name: Seq<char>, i: int) -> Option<int>
    decreases decls.len() - i,
{
    if i < 0 || i >= decls.len() {
        None
    } else if decls[i].0@ == name {
        Some(i)
    } else {
        decl_index_from(decls, name, i + 1)
    }
}

/// The declaration recorded under `name` (the first one, should there be several).
pub open spec fn decl_lookup(decls: Seq<(String, DeclInfo)>, name: Seq<char>) -> Option<DeclInfo> {
    match decl_index_from(decls, name, 0) {
        Some(i) => Some(decls[i].1),
        None => None,
    }
}

/// The index of `name` in the table.
fn decl_index(decls: &Vec<(String, DeclInfo)>, name: &str) -> (r: Option<usize>)
    ensures
        match r {
            Some(i) => i < decls@.len() && decls@[i as int].0@ == name@,
            None => forall|k: int| 0 <= k < decls@.len() ==> (#[trigger] decls@[k]).0@ != name@,
        },
        r matches Some(i) ==> decl_index_from(decls@, name@, 0) == Some(i as int),
        r is None ==> decl_index_from(decls@, name@, 0) is None,
{
    let mut i: usize = 0;
    while i < decls.len()
        invariant
            i <= decls@.len(),
            forall|k: int| 0 <= k < i ==> (#[trigger] decls@[k]).0@ != name@,
            decl_index_from(decls@, name@, 0) == decl_index_from(decls@, name@, i as int),
        decreases decls@.len() - i,
    {
        if str_eq(decls[i].0.as_str(), name) {
            return Some(i);
        }
        i = i + 1;
    }
    None
}

/// Records `info` under `name`, replacing an earlier declaration of that name.
fn decl_insert(decls: &mut Vec<(String, DeclInfo)>, name: String, info: DeclInfo)
    ensures
        decl_keys(final(decls)@).contains(name@),
        forall|k: Seq<char>| #[trigger] decl_keys(old(decls)@).contains(k) ==> decl_keys(final(decls)@).contains(k),
        !decl_keys(old(decls)@).contains(name@) ==> final(decls)@ == old(decls)@.push((name, info)),
{
    match decl_index(decls, name.as_str()) {
        Some(i) => {
            let ghost before = decls@;
            decls.set(i, (name, info));
            proof {
                assert(decl_keys(decls@) =~= decl_keys(before));
                assert(decl_keys(decls@)[i as int] == name@);
            }
        },
        None => {
            let ghost before = decls@;
            proof {
                if decl_keys(before).contains(name@) {
                    let idx = choose|idx: int| 0 <= idx < decl_keys(before).len() && decl_keys(before)[idx] == name@;
                    assert(before[idx].0@ == name@);
                }
            }
            decls.push((name, info));
            proof {
                assert(decl_keys(decls@) =~= decl_keys(before).push(name@));
                assert(decl_keys(decls@)[before.len() as int] == name@);
                assert forall|k: Seq<char>| #[trigger] decl_keys(before).contains(k) implies decl_keys(decls@).contains(k) by {
                    let idx = choose|idx: int| 0 <= idx < decl_keys(before).len() && decl_keys(before)[idx] == k;
                    assert(decl_keys(decls@)[idx] == k);
                }
            }
        },
    }
}

/// Whether `key` names `name` qualified by a module path (see [`fuzzy_key`]).
fn is_fuzzy_key(key: &str, name: &str) -> (b: bool)
    ensures
        b == fuzzy_key(key@, name@),
{
    let k = chars_of(key);
    let n = chars_of(name);
    if !ends_with_chars(&k, &n) {
        return false;
    }
    k.len() == n.len() || k[k.len() - n.len() - 1] == '.'
}

/// The declared name `name` resolves to (see [`resolve_fuzzy_spec`]).
pub fn resolve_fuzzy_name(decls: &Vec<(String, DeclInfo)>, name: &str) -> (r: Option<String>)
    ensures
        match r {
            Some(s) => resolve_fuzzy_spec(decl_keys(decls@), name@) == Some(s@),
            None => resolve_fuzzy_spec(decl_keys(decls@), name@) is None,
        },
{
    let ghost keys = decl_keys(decls@);
    match decl_index(decls, name) {
        Some(i) => {
            assert(keys[i as int] == name@);
            return Some(name.to_owned());
        },
        None => {
            assert(!keys.contains(name@));
        },
    }
    let mut i: usize = 0;
    while i < decls.len()
        invariant
            i <= decls@.len(),
            keys == decl_keys(decls@),
            !keys.contains(name@),
            first_fuzzy(keys, name@, 0) == first_fuzzy(keys, name@, i as int),
        decreases decls@.len() - i,
    {
        if is_fuzzy_key(decls[i].0.as_str(), name) {
            assert(keys[i as int] == decls@[i as int].0@);
            return Some(decls[i].0.clone());
        }
        i = i + 1;
    }
    None
}

// ---------------------------------------------------------------------------
// Generic substitution inside type names
// ---------------------------------------------------------------------------

/// The replacement for one word of a type name: the name of the argument
/// of the first generic parameter (that has an argument) equal to it, or
/// the word itself.
pub open spec fn subst_word(w: Seq<char>, params: Seq<Seq<char>>, args: Seq<TypeModel>, i: int) -> Seq<char>
    decreases params.len() - i,
{
    if i < 0 || i >= params.len() {
        w
    } else if i < args.len() && params[i] == w {
        super::types::type_name_spec(args[i])
    } else {
        subst_word(w, params, args, i + 1)
    }
}

/// A word of a pending type name, replaced (nothing for an empty word).
pub open spec fn flush_word(w: Seq<char>, params: Seq<Seq<char>>, args: Seq<TypeModel>) -> Seq<char> {
    if w.len() == 0 {
        Seq::empty()
    } else {
        subst_word(w, params, args, 0)
    }
}

/// Characters that belong to a word of a type name.
pub open spec fn word_char(c: char) -> bool {
    crate::text::is_alphabetic_char(c) || crate::text::is_numeric_char(c) || c == '_' || c == '.'
}

/// Scanning `s[..k]`: the text produced and the pending word.
pub open spec fn subst_scan(s: Seq<char>, k: int, params: Seq<Seq<char>>, args: Seq<TypeModel>) -> (Seq<char>, Seq<char>)
    decreases k,
{
    if k <= 0 {
        (Seq::empty(), Seq::empty())
    } else {
        let (o, w) = subst_scan(s, k - 1, params, args);
        let c = s[k - 1];
        if word_char(c) {
            (o, w.push(c))
        } else {
            (o + flush_word(w, params, args) + seq![c], Seq::empty())
        }
    }
}

/// `s` with every word that equals a generic parameter replaced by the
/// name of that parameter's argument.
pub open spec fn substitute_generics_spec(s: Seq<char>, params: Seq<Seq<char>>, args: Seq<TypeModel>) -> Seq<char> {
    if params.len() == 0 || s.len() == 0 {
        s
    } else {
        let (o, w) = subst_scan(s, s.len() as int, params, args);
        o + flush_word(w, params, args)
    }
}

fn flush_generic_word(w: &Vec<char>, out: &mut Vec<char>, params: &Vec<String>, args: &Vec<Type>)
    ensures
        final(out)@ == old(out)@ + flush_word(w@, crate::text::string_views(params@), super::types::models(args@)),
{
    let ghost ps = crate::text::string_views(params@);
    let ghost ms = super::types::models(args@);
    proof {
        super::types::lemma_models(args@);
    }
    if w.len() == 0 {
        return;
    }
    let mut i: usize = 0;
    while i < params.len()
        invariant
            i <= params@.len(),
            ps == crate::text::string_views(params@),
            ms == super::types::models(args@),
            ms.len() == args@.len(),
            forall|k: int| 0 <= k < args@.len() ==> #[trigger] ms[k] == args@[k].model(),
            w@.len() > 0,
            subst_word(w@, ps, ms, 0) == subst_word(w@, ps, ms, i as int),
            out@ == old(out)@,
        decreases params@.len() - i,
    {
        let p = chars_of(params[i].as_str());
        assert(ps[i as int] == params@[i as int]@);
        if i < args.len() && chars_eq(&p, w) {
            let n = args[i].name();
            push_str_chars(out, n.as_str());
            return;
        }
        i = i + 1;
    }
    push_slice(out, w);
}

/// `type_str` with each word equal to a generic parameter replaced by the
/// name of the corresponding argument (see [`substitute_generics_spec`]).
pub fn substitute_generics(type_str: &str, params: &Vec<String>, args: &Vec<Type>) -> (r: String)
    ensures
        r@ == substitute_generics_spec(type_str@, crate::text::string_views(params@), super::types::models(args@)),
{
    let ghost ps = crate::text::string_views(params@);
    let ghost ms = super::types::models(args@);
    let s = chars_of(type_str);
    if params.len() == 0 || s.len() == 0 {
        return type_str.to_owned();
    }
    let mut out: Vec<char> = Vec::new();
    let mut w: Vec<char> = Vec::new();
    let mut i: usize = 0;
    while i < s.len()
        invariant
            i <= s@.len(),
            s@ == type_str@,
            ps == crate::text::string_views(params@),
            ms == super::types::models(args@),
            (out@, w@) == subst_scan(s@, i as int, ps, ms),
        decreases s@.len() - i,
    {
        let c = s[i];
        if char_is_alphanumeric(c) || c == '_' || c == '.' {
            w.push(c);
        } else {
            flush_generic_word(&w, &mut out, params, args);
            out.push(c);
            w = Vec::new();
        }
        i = i + 1;
    }
    flush_generic_word(&w, &mut out, params, args);
    string_from_chars(&out)
}

// ---------------------------------------------------------------------------
// Match arms
// ---------------------------------------------------------------------------

/// A plain lower-case name: non-empty, of letters, digits and `_`, starting
/// with a lower-case letter.
pub open spec fn is_plain_name(p: Seq<char>) -> bool {
    &&& p.len() > 0
    &&& forall|i: int| 0 <= i < p.len() ==> #[trigger] crate::text::is_alphabetic_char(p[i])
        || crate::text::is_numeric_char(p[i]) || p[i] == '_'
    &&& crate::text::is_lowercase_char(p[0])
}

/// An arm that binds the whole value: parameters and no alternative
/// patterns, a plain lower-case pattern that names no variant.
pub open spec fn is_binding_arm_spec(arm: MatchArm, variants: Seq<Seq<char>>) -> bool {
    &&& arm.params@.len() > 0
    &&& arm.patterns@.len() == 0
    &&& is_plain_name(arm.pattern@)
    &&& !variants.contains(arm.pattern@)
}

fn is_plain_name_exec(p: &str) -> (b: bool)
    ensures
        b == is_plain_name(p@),
{
    let c = chars_of(p);
    if c.len() == 0 {
        return false;
    }
    let mut i: usize = 0;
    while i < c.len()
        invariant
            i <= c@.len(),
            c@ == p@,
            forall|k: int| 0 <= k < i ==> #[trigger] crate::text::is_alphabetic_char(c@[k])
                || crate::text::is_numeric_char(c@[k]) || c@[k] == '_',
        decreases c@.len() - i,
    {
        if !(char_is_alphanumeric(c[i]) || c[i] == '_') {
            return false;
        }
        i = i + 1;
    }
    char_is_lowercase(c[0])
}

/// The names of enum variants.
pub open spec fn variant_names(vs: Seq<(String, Vec<String>)>) -> Seq<Seq<char>> {
    vs.map_values(|v: (String, Vec<String>)| v.0@)
}

/// Whether the arm binds the whole value (see [`is_binding_arm_spec`]).
pub fn is_binding_arm(arm: &MatchArm, variants: &Vec<(String, Vec<String>)>) -> (b: bool)
    ensures
        b == is_binding_arm_spec(*arm, variant_names(variants@)),
{
    if arm.params.len() == 0 || arm.patterns.len() != 0 {
        return false;
    }
    if !is_plain_name_exec(arm.pattern.as_str()) {
        return false;
    }
    let ghost names = variant_names(variants@);
    let mut i: usize = 0;
    while i < variants.len()
        invariant
            i <= variants@.len(),
            names == variant_names(variants@),
            forall|k: int| 0 <= k < i ==> names[k] != arm.pattern@,
        decreases variants@.len() - i,
    {
        if variants[i].0 == arm.pattern {
            assert(names[i as int] == arm.pattern@);
            return false;
        }
        i = i + 1;
    }
    assert(!names.contains(arm.pattern@));
    true
}

/// The patterns an arm matches: its alternatives, or its pattern when it has none.
pub open spec fn arm_patterns(arm: MatchArm) -> Seq<Seq<char>> {
    if arm.patterns@.len() == 0 {
        seq![arm.pattern@]
    } else {
        crate::text::string_views(arm.patterns@)
    }
}

/// A pattern covers variant `v`: `_`, the variant's name, or a path ending
/// in `.v` or `::v`.
pub open spec fn pattern_covers(p: Seq<char>, v: Seq<char>) -> bool {
    p == "_"@ || p == v || ends_with(p, seq!['.'] + v) || ends_with(p, "::"@ + v)
}

/// The names of the variants among `variants[..n]` that no arm covers, in
/// declaration order.
pub open spec fn missing_variants(arms: Seq<MatchArm>, variants: Seq<(String, Vec<String>)>, n: int) -> Seq<Seq<char>>
    decreases n,
{
    if n <= 0 {
        Seq::empty()
    } else {
        let rest = missing_variants(arms, variants, n - 1);
        if variant_covered(arms, variants[n - 1].0@, variant_names(variants)) {
            rest
        } else {
            rest.push(variants[n - 1].0@)
        }
    }
}

/// Some arm covers variant `v`.
pub open spec fn variant_covered(arms: Seq<MatchArm>, v: Seq<char>, variants: Seq<Seq<char>>) -> bool {
    exists|j: int| 0 <= j < arms.len() && (
        is_binding_arm_spec(#[trigger] arms[j], variants)
        || exists|k: int| 0 <= k < arm_patterns(arms[j]).len() && pattern_covers(#[trigger] arm_patterns(arms[j])[k], v)
    )
}

fn pattern_covers_exec(p: &str, v: &str) -> (b: bool)
    ensures
        b == pattern_covers(p@, v@),
{
    let pc = chars_of(p);
    let vc = chars_of(v);
    let mut dot: Vec<char> = Vec::new();
    dot.push('.');
    push_slice(&mut dot, &vc);
    let mut colons: Vec<char> = Vec::new();
    colons.push(':');
    colons.push(':');
    push_slice(&mut colons, &vc);
    assert(dot@ =~= seq!['.'] + v@);
    assert(colons@ =~= "::"@ + v@) by {
        reveal_strlit("::");
    }
    eq_lit(&pc, "_") || chars_eq(&pc, &vc) || ends_with_chars(&pc, &dot) || ends_with_chars(&pc, &colons)
}

/// Whether one of the arm's patterns covers the variant named `v`.
fn arm_covers(arm: &MatchArm, v: &String) -> (b: bool)
    ensures
        b == exists|k: int| 0 <= k < arm_patterns(*arm).len() && pattern_covers(#[trigger] arm_patterns(*arm)[k], v@),
{
    let ghost pats = arm_patterns(*arm);
    if arm.patterns.len() == 0 {
        let hit = pattern_covers_exec(arm.pattern.as_str(), v.as_str());
        proof {
            if hit {
                assert(pattern_covers(pats[0], v@));
            }
        }
        return hit;
    }
    let mut k: usize = 0;
    while k < arm.patterns.len()
        invariant
            k <= arm.patterns@.len(),
            arm.patterns@.len() > 0,
            pats == arm_patterns(*arm),
            pats == crate::text::string_views(arm.patterns@),
            pats.len() == arm.patterns@.len(),
            forall|q: int| 0 <= q < k ==> !pattern_covers(#[trigger] pats[q], v@),
        decreases arm.patterns@.len() - k,
    {
        if pattern_covers_exec(arm.patterns[k].as_str(), v.as_str()) {
            assert(pattern_covers(pats[k as int], v@));
            return true;
        }
        k = k + 1;
    }
    false
}

/// Whether some arm covers the variant named `v`.
fn covered(arms: &Vec<MatchArm>, v: &String, variants: &Vec<(String, Vec<String>)>) -> (b: bool)
    ensures
        b == variant_covered(arms@, v@, variant_names(variants@)),
{
    let mut j: usize = 0;
    while j < arms.len()
        invariant
            j <= arms@.len(),
            forall|q: int| 0 <= q < j ==> !(is_binding_arm_spec(#[trigger] arms@[q], variant_names(variants@))
                || exists|k: int| 0 <= k < arm_patterns(arms@[q]).len() && pattern_covers(#[trigger] arm_patterns(arms@[q])[k], v@)),
        decreases arms@.len() - j,
    {
        if arm_covers(&arms[j], v) || is_binding_arm(&arms[j], variants) {
            return true;
        }
        j = j + 1;
    }
    false
}

// ---------------------------------------------------------------------------
// Intrinsics
// ---------------------------------------------------------------------------

/// The index of the first row from `from` on whose language-level name or
/// runtime symbol is `name`.
pub open spec fn first_builtin(rows: Seq<(Seq<char>, Seq<char>, Seq<char>)>, name: Seq<char>, from: int) -> Option<int>
    decreases rows.len() - from,
{
    if from < 0 || from >= rows.len() {
        None
    } else if rows[from].0 == name || rows[from].1 == name {
        Some(from)
    } else {
        first_builtin(rows, name, from + 1)
    }
}

/// The types of the runtime's helper intrinsics that are not builtins.
pub open spec fn helper_intrinsic(name: Seq<char>) -> Option<TypeModel> {
    if name == "str_len"@ || name == "fs_exists"@ {
        Some(super::types::int_model(true, 64))
    } else if name == "str_concat"@ || name == "int_to_str"@ || name == "float_to_str"@
        || name == "char_to_str"@ || name == "str_substr"@ {
        Some(TypeModel::String)
    } else if name == "str_ptr"@ {
        Some(TypeModel::Pointer(Box::new(super::types::int_model(true, 64))))
    } else if name == "mem_is_null"@ {
        Some(TypeModel::Boolean)
    } else {
        None
    }
}

/// The result type of the intrinsic `name`: the return type of the first
/// builtin with that language-level name or runtime symbol, else that of a
/// helper intrinsic.
pub open spec fn intrinsic_type(name: Seq<char>) -> Option<TypeModel> {
    match first_builtin(crate::builtins::builtin_rows(), name, 0) {
        Some(i) => Some(super::types::parse_type_spec(crate::builtins::builtin_rows()[i].2)),
        None => helper_intrinsic(name),
    }
}

/// What `@intrinsic("name", ..)` calls: the name given in its first
/// argument when that is a string literal; otherwise the intrinsic's own
/// name. The second component is the index of the first real argument.
pub open spec fn intrinsic_target(name: Seq<char>, args: Seq<Expression>) -> (Seq<char>, int) {
    if name == "intrinsic"@ && args.len() > 0 {
        match args[0] {
            Expression::String(s, _) => (s@, 1),
            _ => (name, 0),
        }
    } else {
        (name, 0)
    }
}

/// The type of a call of the intrinsic `name` with `n` arguments none of
/// which names a type: `mem_zero()` is a null pointer, `mem_zero(..)` an
/// integer, the tensor intrinsics give a tensor, the rest their listed
/// type or an integer.
pub open spec fn intrinsic_result(name: Seq<char>, n: int) -> TypeModel {
    if name == "mem_zero"@ {
        if n <= 0 {
            TypeModel::Pointer(Box::new(TypeModel::Unknown))
        } else {
            super::types::int_model(true, 64)
        }
    } else if "ai_tensor_"@.len() <= name.len() && name.take("ai_tensor_"@.len() as int) == "ai_tensor_"@ {
        TypeModel::Struct { name: "std.ai.tensor.Tensor"@ }
    } else {
        match intrinsic_type(name) {
            Some(t) => t,
            None => super::types::int_model(true, 64),
        }
    }
}

/// The result type of an intrinsic named `name`: the return type of the
/// builtin with that language-level or runtime name, else the type of one
/// of the runtime's helper intrinsics.
pub fn intrinsic_ret_type(name: &str) -> (r: Option<Type>)
    ensures
        match r {
            Some(t) => intrinsic_type(name@) == Some(t.model()),
            None => intrinsic_type(name@) is None,
        },
{
    let table = crate::builtins::builtins();
    let ghost rows = crate::builtins::builtin_rows();
    let mut i: usize = 0;
    while i < table.len()
        invariant
            i <= table@.len(),
            rows == crate::builtins::builtin_rows(),
            table@.len() == rows.len(),
            forall|j: int| 0 <= j < table@.len() ==> #[trigger] crate::builtins::builtin_row(table@[j]) == rows[j],
            first_builtin(rows, name@, 0) == first_builtin(rows, name@, i as int),
        decreases table@.len() - i,
    {
        proof {
            assert(crate::builtins::builtin_row(table@[i as int]) == rows[i as int]);
        }
        if str_eq(table[i].aion_name, name) || str_eq(table[i].llvm_name, name) {
            let t = Type::parse(table[i].ret_aion);
            proof {
                assert(rows[i as int].0 == name@ || rows[i as int].1 == name@);
                assert(first_builtin(rows, name@, i as int) == Some(i as int));
            }
            return Some(t);
        }
        i = i + 1;
    }
    if str_eq(name, "str_len") || str_eq(name, "fs_exists") {
        Some(Type::i64())
    } else if str_eq(name, "str_concat") || str_eq(name, "int_to_str") || str_eq(name, "float_to_str")
        || str_eq(name, "char_to_str") || str_eq(name, "str_substr") {
        Some(Type::String)
    } else if str_eq(name, "str_ptr") {
        Some(Type::Pointer(Box::new(Type::i64())))
    } else if str_eq(name, "mem_is_null") {
        Some(Type::Boolean)
    } else {
        None
    }
}


// ---------------------------------------------------------------------------
// Text helpers
// ---------------------------------------------------------------------------

/// The strings `parts`, one after another.
fn text_of(parts: &[&str]) -> (r: String)
    ensures
        r@ == crate::text::concat_seqs(parts@.map_values(|p: &str| p@)),
{
    let ghost views = parts@.map_values(|p: &str| p@);
    let mut v: Vec<char> = Vec::new();
    let mut i: usize = 0;
    while i < parts.len()
        invariant
            i <= parts@.len(),
            views == parts@.map_values(|p: &str| p@),
            v@ == crate::text::concat_seqs(views.take(i as int)),
        decreases parts@.len() - i,
    {
        proof { crate::text::lemma_concat_take(views, i as int); }
        push_str_chars(&mut v, parts[i]);
        i = i + 1;
    }
    assert(views.take(parts@.len() as int) =~= views);
    string_from_chars(&v)
}

/// Decimal notation of `n`.
fn num_text(n: usize) -> (r: String)
    ensures
        r@ == crate::text::nat_text(n as nat),
{
    let d = usize_text(n);
    string_from_chars(&d)
}

/// Whether `c` occurs in `s`.
pub open spec fn has_char(s: Seq<char>, c: char) -> bool {
    exists|i: int| 0 <= i < s.len() && s[i] == c
}

/// `head` is the part of `s` before its first `c` (all of `s` when it has none).
pub open spec fn is_head_before(head: Seq<char>, s: Seq<char>, c: char) -> bool {
    &&& head.len() <= s.len()
    &&& s.take(head.len() as int) == head
    &&& !has_char(head, c)
    &&& (head.len() == s.len() || s[head.len() as int] == c)
}

/// The index of the first `c` in `s` (`s.len()` when there is none).
fn find_char(s: &Vec<char>, c: char) -> (i: usize)
    ensures
        i <= s@.len(),
        forall|k: int| 0 <= k < i ==> s@[k] != c,
        i < s@.len() ==> s@[i as int] == c,
{
    let mut i: usize = 0;
    while i < s.len() && s[i] != c
        invariant
            i <= s@.len(),
            forall|k: int| 0 <= k < i ==> s@[k] != c,
        decreases s@.len() - i,
    {
        i = i + 1;
    }
    i
}

/// The part of `s` before its first `ch`.
fn before_char(s: &str, ch: char) -> (r: String)
    ensures
        is_head_before(r@, s@, ch),
{
    let c = chars_of(s);
    let i = find_char(&c, ch);
    let head = crate::text::slice_chars(&c, 0, i);
    assert(head@ =~= s@.take(i as int));
    string_from_chars(&head)
}

/// The part of `s` before its first `.` (all of `s` when it has none).
fn first_segment(s: &str) -> (r: String)
    ensures
        is_head_before(r@, s@, '.'),
{
    before_char(s, '.')
}

/// `s` split at its first `.` (`str::split_once`).
fn split_first_dot(s: &str) -> (r: Option<(String, String)>)
    ensures
        r is None <==> !has_char(s@, '.'),
        r matches Some((h, t)) ==> s@ == h@ + seq!['.'] + t@ && !has_char(h@, '.'),
{
    let c = chars_of(s);
    let i = find_char(&c, '.');
    if i == c.len() {
        return None;
    }
    let head = crate::text::slice_chars(&c, 0, i);
    let tail = crate::text::slice_chars(&c, i + 1, c.len());
    assert(s@ =~= head@ + seq!['.'] + tail@);
    Some((string_from_chars(&head), string_from_chars(&tail)))
}

/// `s` split at its last `.` (`str::rsplit_once`).
fn split_last_dot(s: &str) -> (r: Option<(String, String)>)
    ensures
        r is None <==> !has_char(s@, '.'),
        r matches Some((h, t)) ==> s@ == h@ + seq!['.'] + t@ && !has_char(t@, '.'),
{
    let c = chars_of(s);
    let mut i: usize = c.len();
    while i > 0 && c[i - 1] != '.'
        invariant
            i <= c@.len(),
            c@ == s@,
            forall|k: int| i <= k < c@.len() ==> c@[k] != '.',
        decreases i,
    {
        i = i - 1;
    }
    if i == 0 {
        return None;
    }
    let head = crate::text::slice_chars(&c, 0, i - 1);
    let tail = crate::text::slice_chars(&c, i, c.len());
    assert(s@ =~= head@ + seq!['.'] + tail@);
    assert forall|k: int| 0 <= k < tail@.len() implies tail@[k] != '.' by {
        assert(tail@[k] == c@[i + k]);
    }
    Some((string_from_chars(&head), string_from_chars(&tail)))
}

/// The part of `s` after its last `.` (all of `s` when it has none).
pub open spec fn after_last_dot(s: Seq<char>) -> Seq<char>
    decreases s.len(),
{
    if s.len() == 0 {
        s
    } else if s.last() == '.' {
        Seq::empty()
    } else {
        after_last_dot(s.drop_last()).push(s.last())
    }
}

proof fn lemma_after_last_dot(h: Seq<char>, t: Seq<char>)
    requires
        !has_char(t, '.'),
    ensures
        after_last_dot(h + seq!['.'] + t) == t,
        after_last_dot(t) == t,
    decreases t.len(),
{
    if t.len() == 0 {
        assert(h + seq!['.'] + t =~= h.push('.'));
    } else {
        let t0 = t.drop_last();
        assert(!has_char(t0, '.')) by {
            if has_char(t0, '.') {
                let i = choose|i: int| 0 <= i < t0.len() && t0[i] == '.';
                assert(t[i] == '.');
            }
        }
        lemma_after_last_dot(h, t0);
        assert((h + seq!['.'] + t).drop_last() =~= h + seq!['.'] + t0);
        assert(t[t.len() - 1] != '.');
        assert(t0.push(t.last()) =~= t);
    }
}

/// The part of `s` after its last `.` (all of `s` when it has none).
fn last_segment_text(s: &str) -> (r: String)
    ensures
        r@ == after_last_dot(s@),
        !has_char(r@, '.'),
        r@.len() <= s@.len(),
        r@ == s@.skip(s@.len() - r@.len()),
{
    match split_last_dot(s) {
        Some((h, tail)) => {
            assert(s@.skip(s@.len() - tail@.len()) =~= tail@);
            proof { lemma_after_last_dot(h@, tail@); }
            tail
        },
        None => {
            assert(s@.skip(0) =~= s@);
            proof { lemma_after_last_dot(Seq::empty(), s@); }
            s.to_owned()
        },
    }
}

/// `a` followed by `b`.
fn concat_text(a: &str, b: &str) -> (r: String)
    ensures
        r@ == a@ + b@,
{
    let mut v: Vec<char> = Vec::new();
    push_str_chars(&mut v, a);
    push_str_chars(&mut v, b);
    string_from_chars(&v)
}

/// `a`, `b` and `c` one after another.
fn concat3_text(a: &str, b: &str, c: &str) -> (r: String)
    ensures
        r@ == a@ + b@ + c@,
{
    let mut v: Vec<char> = Vec::new();
    push_str_chars(&mut v, a);
    push_str_chars(&mut v, b);
    push_str_chars(&mut v, c);
    string_from_chars(&v)
}

/// The suggestion candidates for an undefined function: the last segment
/// of the name of every declared function, in order.
pub open spec fn fn_candidates(decls: Seq<(String, DeclInfo)>) -> Seq<Seq<char>>
    decreases decls.len(),
{
    if decls.len() == 0 {
        Seq::empty()
    } else {
        let rest = fn_candidates(decls.drop_last());
        if decls.last().1 is Function { rest.push(after_last_dot(decls.last().0@)) } else { rest }
    }
}

/// The names of struct fields, in order.
pub open spec fn field_names(fields: Seq<(String, String)>) -> Seq<Seq<char>> {
    fields.map_values(|f: (String, String)| f.0@)
}

/// The suggestion candidates for an undefined method of `owner`: what
/// follows `owner.` or `owner::` in the declared names, in order.
pub open spec fn method_candidates(keys: Seq<Seq<char>>, owner: Seq<char>) -> Seq<Seq<char>>
    decreases keys.len(),
{
    if keys.len() == 0 {
        Seq::empty()
    } else {
        let rest = method_candidates(keys.drop_last(), owner);
        let k = keys.last();
        let pd = owner + "."@;
        let pc = owner + "::"@;
        if pd.len() <= k.len() && k.take(pd.len() as int) == pd {
            rest.push(k.skip(pd.len() as int))
        } else if pc.len() <= k.len() && k.take(pc.len() as int) == pc {
            rest.push(k.skip(pc.len() as int))
        } else {
            rest
        }
    }
}

/// Every name is short enough to measure.
pub open spec fn all_measurable(c: Seq<Seq<char>>) -> bool {
    forall|k: int| 0 <= k < c.len() ==> #[trigger] c[k].len() < usize::MAX
}

/// The index of the first generic parameter binding named `name`.
pub open spec fn type_param_index(tps: Seq<(String, Type)>, name: Seq<char>, from: int) -> Option<int>
    decreases tps.len() - from,
{
    if from < 0 || from >= tps.len() {
        None
    } else if tps[from].0@ == name {
        Some(from)
    } else {
        type_param_index(tps, name, from + 1)
    }
}

/// A match arm whose guard, if any, is built from literals and whose body
/// is made of fitting `let` bindings of literal values only.
pub open spec fn literal_arm(arm: MatchArm) -> bool {
    &&& arm.guard matches Some(g) ==> pure_type(*g) is Some
    &&& forall|i: int| 0 <= i < arm.body@.len() ==> #[trigger] literal_let_fits(arm.body@[i]) == Some(true)
}

/// A match arm whose guard is an infix expression of literals to which its
/// operator does not apply.
pub open spec fn guard_misfit(arm: MatchArm) -> bool {
    arm.guard matches Some(g) && infix_misfit(*g)
}

/// A match arm whose guard is an operator misfit of literals, or whose guard
/// (if any) is a literal and whose body opens with a `let` binding of a
/// literal that its annotation rejects.
pub open spec fn arm_misfit(arm: MatchArm) -> bool {
    ||| guard_misfit(arm)
    ||| ((arm.guard matches Some(g) ==> pure_type(*g) is Some) && arm.body@.len() > 0
        && literal_let_fits(arm.body@[0]) == Some(false))
}

/// The first arm that is not a literal arm misfits (see [`arm_misfit`]).
pub open spec fn first_arm_misfit(arms: Seq<MatchArm>) -> bool {
    exists|j: int| 0 <= j < arms.len() && #[trigger] arm_misfit(arms[j]) && forall|k: int| 0 <= k < j ==> #[trigger] literal_arm(arms[k])
}

/// The type name a match on a value of type `m` dispatches on (see
/// [`TypeChecker::match_subject`]).
pub open spec fn subject_name(m: TypeModel) -> Seq<char> {
    match m {
        TypeModel::Enum { name } => name,
        TypeModel::GenericInstance(name, _) => name,
        TypeModel::Integer { .. } => "i64"@,
        TypeModel::String => "String"@,
        TypeModel::Struct { name } => name,
        TypeModel::Placeholder(n) => n,
        _ => "unknown"@,
    }
}

/// The receiver part of a dotted name (before its last `.`).
pub open spec fn dot_receiver(f: Seq<char>) -> Seq<char> {
    f.take(f.len() - after_last_dot(f).len() - 1)
}

/// The suggestion offered for an undefined function `f`: the closest
/// declared function name, or nothing.
pub open spec fn function_suggestion(decls: Seq<(String, DeclInfo)>, f: Seq<char>) -> Seq<char> {
    match suggest_spec(f, fn_candidates(decls)) {
        Some(x) => x,
        None => Seq::empty(),
    }
}

/// An infix expression of literals to which its operator does not apply.
pub open spec fn infix_misfit(e: Expression) -> bool {
    e matches Expression::Infix { left, operator, right, .. } && pure_type(*left) is Some && pure_type(*right) is Some
        && !(super::rules::infix_outcome(pure_type(*left).unwrap(), pure_type(*right).unwrap(), operator.kind) is Typed)
}

/// Whether an argument of type `m` is accepted for a parameter of type
/// `p`: the two unify, or (for `io.println`/`io.print` with the conversion
/// on) an integer is passed for a string.
pub open spec fn arg_accepted(function: Seq<char>, io_conversion: bool, p: TypeModel, m: TypeModel) -> bool {
    super::rules::unify_spec(p, m)
        || (io_conversion && (function == "io.println"@ || function == "io.print"@) && p is String && m is Integer)
}

/// Whether `s` starts with `prefix`.
fn starts_with_text(s: &str, prefix: &str) -> (b: bool)
    ensures
        b == (prefix@.len() <= s@.len() && s@.take(prefix@.len() as int) == prefix@),
{
    let c = chars_of(s);
    let p = chars_of(prefix);
    if p.len() > c.len() {
        return false;
    }
    let mut i: usize = 0;
    while i < p.len()
        invariant
            i <= p@.len(),
            p@.len() <= c@.len(),
            c@ == s@,
            p@ == prefix@,
            forall|k: int| 0 <= k < i ==> c@[k] == p@[k],
        decreases p@.len() - i,
    {
        if c[i] != p[i] {
            assert(s@.take(prefix@.len() as int)[i as int] != prefix@[i as int]);
            return false;
        }
        i = i + 1;
    }
    assert(s@.take(prefix@.len() as int) =~= prefix@);
    true
}

/// `s` without a leading `prefix`, if it has one.
fn strip_prefix_text(s: &str, prefix: &str) -> (r: Option<String>)
    ensures
        r is Some <==> (prefix@.len() <= s@.len() && s@.take(prefix@.len() as int) == prefix@),
        r matches Some(t) ==> t@ == s@.skip(prefix@.len() as int),
{
    if !starts_with_text(s, prefix) {
        return None;
    }
    let c = chars_of(s);
    let n = chars_of(prefix).len();
    let rest = crate::text::slice_chars(&c, n, c.len());
    assert(rest@ =~= s@.skip(prefix@.len() as int));
    Some(string_from_chars(&rest))
}

/// Whether `s` holds the character `ch`.
fn contains_char(s: &str, ch: char) -> (b: bool)
    ensures
        b == has_char(s@, ch),
{
    let c = chars_of(s);
    let i = find_char(&c, ch);
    i < c.len()
}

/// "Did you mean" suggestion among `cands`; names too long to measure are skipped.
fn suggest(name: &str, cands: &Vec<String>) -> (r: Option<String>)
    ensures
        name@.len() < usize::MAX && (forall|k: int| 0 <= k < cands@.len() ==> #[trigger] cands@[k]@.len() < usize::MAX)
            ==> opt_view(r) == suggest_spec(name@, crate::text::string_views(cands@)),
{
    if chars_of(name).len() == usize::MAX {
        return None;
    }
    let ghost all_fit = forall|k: int| 0 <= k < cands@.len() ==> #[trigger] cands@[k]@.len() < usize::MAX;
    let mut fit: Vec<String> = Vec::new();
    let mut i: usize = 0;
    while i < cands.len()
        invariant
            i <= cands@.len(),
            forall|k: int| 0 <= k < fit@.len() ==> #[trigger] fit@[k]@.len() < usize::MAX,
            all_fit == forall|k: int| 0 <= k < cands@.len() ==> #[trigger] cands@[k]@.len() < usize::MAX,
            all_fit ==> crate::text::string_views(fit@) == crate::text::string_views(cands@.take(i as int)),
        decreases cands@.len() - i,
    {
        let ghost before = fit@;
        if chars_of(cands[i].as_str()).len() < usize::MAX {
            fit.push(cands[i].clone());
        }
        proof {
            if all_fit {
                assert(cands@[i as int]@.len() < usize::MAX);
                assert(fit@ == before.push(cands@[i as int]));
                assert(cands@.take(i + 1) =~= cands@.take(i as int).push(cands@[i as int]));
                assert(crate::text::string_views(fit@) =~= crate::text::string_views(before).push(cands@[i as int]@));
                assert(crate::text::string_views(cands@.take(i + 1))
                    =~= crate::text::string_views(cands@.take(i as int)).push(cands@[i as int]@));
            }
        }
        i = i + 1;
    }
    proof {
        assert(cands@.take(cands@.len() as int) =~= cands@);
    }
    suggest_closest(name, fit.as_slice())
}

/// A copy of a list of types.
fn copy_types(ts: &Vec<Type>) -> (r: Vec<Type>)
    ensures
        super::types::models(r@) == super::types::models(ts@),
{
    let mut r: Vec<Type> = Vec::new();
    let mut i: usize = 0;
    while i < ts.len()
        invariant
            i <= ts@.len(),
            r@.len() == i,
            forall|k: int| 0 <= k < i ==> #[trigger] r@[k].model() == ts@[k].model(),
        decreases ts@.len() - i,
    {
        r.push(ts[i].clone_type());
        i = i + 1;
    }
    proof {
        super::types::lemma_models(r@);
        super::types::lemma_models(ts@);
    }
    assert(super::types::models(r@) =~= super::types::models(ts@));
    r
}

/// Whether a function's modifiers include `unsafe`.
fn has_unsafe_modifier(mods: &Vec<Token>) -> (b: bool)
    ensures
        b == exists|i: int| 0 <= i < mods@.len() && (#[trigger] mods@[i]).kind is Unsafe,
{
    let mut i: usize = 0;
    while i < mods.len()
        invariant
            i <= mods@.len(),
            forall|k: int| 0 <= k < i ==> !((#[trigger] mods@[k]).kind is Unsafe),
        decreases mods@.len() - i,
    {
        if matches!(mods[i].kind, TokenKind::Unsafe) {
            return true;
        }
        i = i + 1;
    }
    false
}

/// The name of a function's first parameter.
fn first_param_name(f: &Function) -> (r: Option<String>)
    ensures
        r == (if f.params@.len() == 0 { None::<String> } else { Some(f.params@[0].0) }),
{
    if f.params.len() == 0 {
        None
    } else {
        Some(f.params[0].0.clone())
    }
}

// ---------------------------------------------------------------------------
// The checker
// ---------------------------------------------------------------------------

/// The type of a literal expression (characters are `i64`); `None` for
/// any other expression.
pub open spec fn literal_type(e: Expression) -> Option<TypeModel> {
    match e {
        Expression::Integer(..) => Some(super::types::int_model(true, 64)),
        Expression::Char(..) => Some(super::types::int_model(true, 64)),
        Expression::Float(..) => Some(TypeModel::Float),
        Expression::Boolean(..) => Some(TypeModel::Boolean),
        Expression::String(..) => Some(TypeModel::String),
        Expression::Duration(..) => Some(TypeModel::Duration),
        Expression::Date(..) => Some(TypeModel::Date),
        _ => None,
    }
}

/// The type of an expression built from literals by infix operators, as
/// the operator rules give it; `None` for other expressions and when an
/// operator does not apply to its operands.
pub open spec fn pure_type(e: Expression) -> Option<TypeModel>
    decreases e,
{
    match e {
        Expression::Infix { left, operator, right, .. } => match (pure_type(*left), pure_type(*right)) {
            (Some(a), Some(b)) => match super::rules::infix_outcome(a, b, operator.kind) {
                super::rules::InfixOutcome::Typed(t) => Some(t),
                _ => None,
            },
            _ => None,
        },
        _ => literal_type(e),
    }
}

/// For a `let` binding whose value is built from literals: whether its
/// annotation, if it has one, accepts the value's type (an integer
/// annotation accepts any integer); `None` for any other statement.
pub open spec fn literal_let_fits(s: Statement) -> Option<bool> {
    match s {
        Statement::Let { value, explicit_type, .. } => match pure_type(value) {
            Some(m) => Some(match explicit_type {
                None => true,
                Some(et) => m == super::types::parse_type_spec(et@)
                    || (m is Integer && super::types::parse_type_spec(et@) is Integer),
            }),
            None => None,
        },
        _ => None,
    }
}

/// A function without a body, or whose body is made of `let` bindings of
/// literal values only, each fitting its annotation.
pub open spec fn literal_body(f: Function) -> bool {
    match f.body {
        None => true,
        Some(b) => forall|i: int| 0 <= i < b@.len() ==> #[trigger] literal_let_fits(b@[i]) == Some(true),
    }
}

/// Checking leaves the generic parameters and the current module as they were.
pub closed spec fn frame_kept(a: TypeChecker, b: TypeChecker) -> bool {
    a.type_params == b.type_params && a.current_module == b.current_module
}

/// For a function whose body opens by returning a literal: its declared
/// return type resolves in `c` to some type `d`, and where `d` does not
/// accept the literal's type, `r` is the type error that says so, at the
/// `return`.
pub open spec fn return_outcome(c: TypeChecker, f: Function, r: Result<(), CompileError>) -> bool {
    fn_opening_return(f) matches Some((m, sp)) ==> exists|d: TypeModel| #[trigger] c.resolves_to(f.return_type@, d)
        && (!super::rules::unify_spec(d, m) ==> (r matches Err(e) && type_error_at(e, return_mismatch_text(m, d), sp)))
}

/// Declaration `i` is a function whose body opens by returning a literal,
/// and every declaration before it has literal bodies only.
pub open spec fn return_checked_first(decls: Seq<Declaration>, i: int) -> bool {
    &&& 0 <= i < decls.len()
    &&& forall|j: int| 0 <= j < i ==> #[trigger] literal_decl(decls[j])
    &&& decls[i] is Function
    &&& fn_opening_return(decls[i]->Function_0) is Some
}

proof fn lemma_outcome_transfer(a: TypeChecker, b: TypeChecker, f: Function, r0: Result<(), CompileError>, r: Result<(), CompileError>)
    requires
        frame_kept(a, b),
        a.env == b.env,
        return_outcome(b, f, r0),
        r0 is Ok || r0 == r,
    ensures
        return_outcome(a, f, r),
{
    if let Some((m, sp)) = fn_opening_return(f) {
        let d = choose|d: TypeModel| #[trigger] b.resolves_to(f.return_type@, d)
            && (!super::rules::unify_spec(d, m) ==> (r0 matches Err(e) && type_error_at(e, return_mismatch_text(m, d), sp)));
        assert(a.resolves_to(f.return_type@, d));
    }
}

/// The text of the error for a returned value of type `m` in a function
/// declared to return `d`.
pub open spec fn return_mismatch_text(m: TypeModel, d: TypeModel) -> Seq<char> {
    "return value of type '"@ + super::types::type_name_spec(m) + "' does not match declared return type '"@
        + super::types::type_name_spec(d) + "'"@
}

/// The text of the error for assigning a value of type `v` to a target of
/// type `t`, the value at `sp`.
pub open spec fn assign_mismatch_text(v: TypeModel, t: TypeModel, sp: Span) -> Seq<char> {
    "cannot assign value of type '"@ + super::types::type_name_spec(v) + "' to target of type '"@
        + super::types::type_name_spec(t) + "' (line "@ + crate::text::nat_text(sp.line as nat) + " col "@
        + crate::text::nat_text(sp.col as nat) + ")"@
}

/// `e` is a type error with the message `text` at `sp`.
pub open spec fn type_error_at(e: CompileError, text: Seq<char>, sp: Span) -> bool {
    e matches CompileError::Type { message, line, col, .. } && message@ == text && line == sp.line && col == sp.col
}

/// The type of the literal a statement list opens by returning, with the
/// position of that `return`.
pub open spec fn opening_return(ss: Seq<Statement>) -> Option<(TypeModel, Span)> {
    if ss.len() > 0 {
        match ss[0] {
            Statement::Return { value, span, .. } => match pure_type(value) {
                Some(m) => Some((m, span)),
                None => None,
            },
            _ => None,
        }
    } else {
        None
    }
}

/// The opening return of a function's body (see [`opening_return`]).
pub open spec fn fn_opening_return(f: Function) -> Option<(TypeModel, Span)> {
    match f.body {
        Some(b) => opening_return(b@),
        None => None,
    }
}

/// A statement list opens by returning a literal that the expected return
/// type `crt` does not accept.
pub open spec fn opening_return_misfit(ss: Seq<Statement>, crt: Option<Type>) -> bool {
    opening_return(ss) matches Some((m, _)) && crt matches Some(et) && !super::rules::unify_spec(et.model(), m)
}

/// A checker whose scope is a fresh scope over the environment of another,
/// with the same generic parameters and module, resolves type names alike.
proof fn lemma_resolves_alike(a: TypeChecker, b: TypeChecker, name: Seq<char>, m: TypeModel)
    requires
        a.type_params == b.type_params,
        a.current_module == b.current_module,
        a.env.scope() == Map::<Seq<char>, TypeModel>::empty(),
        a.env.enclosing() matches Some(o) && super::environment::same_scopes(o, b.env),
    ensures
        a.resolves_to(name, m) <==> b.resolves_to(name, m),
{
    let o = a.env.enclosing().unwrap();
    assert forall|n: Seq<char>, x: Option<TypeModel>| #[trigger] a.env.lookup_ok(n, x) <==> b.env.lookup_ok(n, x) by {
        super::environment::lemma_enclosed_lookup(a.env, n, x);
        super::environment::lemma_same_scopes_lookup(o, b.env, n, x);
    }
}

/// The type name whose methods a receiver of type `m` has: a generic
/// instance's, struct's or enum's name, `i64` for integers, `String`;
/// `None` for the other types.
pub open spec fn method_owner(m: TypeModel) -> Option<Seq<char>> {
    match m {
        TypeModel::GenericInstance(n, _) => Some(n),
        TypeModel::Struct { name } => Some(name),
        TypeModel::Enum { name } => Some(name),
        TypeModel::Integer { .. } => Some("i64"@),
        TypeModel::String => Some("String"@),
        _ => None,
    }
}

/// What dereferencing a value of type `m` gives: the pointee of a pointer,
/// the value itself for composite, placeholder and unknown types; `None`
/// (an error) for the other types.
pub open spec fn deref_result(m: TypeModel) -> Option<TypeModel> {
    match m {
        TypeModel::Pointer(t) => Some(*t),
        TypeModel::Struct { .. } => Some(m),
        TypeModel::Enum { .. } => Some(m),
        TypeModel::GenericInstance(..) => Some(m),
        TypeModel::String => Some(m),
        TypeModel::Tuple(_) => Some(m),
        TypeModel::Placeholder(_) => Some(m),
        TypeModel::Unknown => Some(m),
        _ => None,
    }
}

/// Whether a member can be looked up on a value of type `m`: a generic
/// instance, a struct or a placeholder.
pub open spec fn has_members(m: TypeModel) -> bool {
    m is GenericInstance || m is Struct || m is Placeholder
}

/// The checker's tables for values of a type, for any type `t`, name and
/// integer type: literals have their own type (characters are `i64`);
/// integers take the methods of `i64` and strings those of `String`, a
/// struct, enum or generic instance those of its name, and booleans, floats
/// and pointers have no methods; dereferencing a pointer gives its target,
/// and dereferencing an integer, float or boolean is refused; members are
/// looked up on structs and generic instances, not on integers, strings or
/// pointers.
pub proof fn lemma_value_type_tables(t: TypeModel, name: Seq<char>, args: Seq<TypeModel>, signed: bool, bits: u8, e: Expression)
    ensures
        (e is Integer || e is Char) ==> literal_type(e) == Some(super::types::int_model(true, 64)),
        e is Float ==> literal_type(e) == Some(TypeModel::Float),
        e is Boolean ==> literal_type(e) == Some(TypeModel::Boolean),
        e is String ==> literal_type(e) == Some(TypeModel::String),
        e is Duration ==> literal_type(e) == Some(TypeModel::Duration),
        e is Date ==> literal_type(e) == Some(TypeModel::Date),
        (e is Identifier || e is Call || e is Infix) ==> literal_type(e) is None,
        method_owner(TypeModel::Integer { signed, bits }) == Some(seq!['i', '6', '4']),
        method_owner(TypeModel::String) == Some(seq!['S', 't', 'r', 'i', 'n', 'g']),
        method_owner(TypeModel::Struct { name }) == Some(name),
        method_owner(TypeModel::Enum { name }) == Some(name),
        method_owner(TypeModel::GenericInstance(name, args)) == Some(name),
        method_owner(TypeModel::Boolean) is None,
        method_owner(TypeModel::Float) is None,
        method_owner(TypeModel::Pointer(Box::new(t))) is None,
        deref_result(TypeModel::Pointer(Box::new(t))) == Some(t),
        deref_result(TypeModel::Integer { signed, bits }) is None,
        deref_result(TypeModel::Float) is None,
        deref_result(TypeModel::Boolean) is None,
        has_members(TypeModel::Struct { name }),
        has_members(TypeModel::GenericInstance(name, args)),
        !has_members(TypeModel::Integer { signed, bits }),
        !has_members(TypeModel::String),
        !has_members(TypeModel::Pointer(Box::new(t))),
        subject_name(TypeModel::Enum { name }) == name,
        subject_name(TypeModel::Integer { signed, bits }) == seq!['i', '6', '4'],
        subject_name(TypeModel::String) == seq!['S', 't', 'r', 'i', 'n', 'g'],
{
    reveal_strlit("String");
    assert("String"@ =~= seq!['S', 't', 'r', 'i', 'n', 'g']);
    reveal_strlit("i64");
    assert("i64"@ =~= seq!['i', '6', '4']);
}

/// Whether every statement of a block is a literal `let` its annotation
/// accepts.
pub open spec fn literal_block(ss: Seq<Statement>) -> bool {
    forall|i: int| 0 <= i < ss.len() ==> #[trigger] literal_let_fits(ss[i]) == Some(true)
}

/// A function whose body opens with a `let` binding of a literal value
/// that its annotation does not accept.
pub open spec fn opens_with_misfit(f: Function) -> bool {
    f.body matches Some(b) && b@.len() > 0 && literal_let_fits(b@[0]) == Some(false)
}

/// Every function body of a declaration (those of an impl block included)
/// is a literal body.
pub open spec fn literal_decl(d: Declaration) -> bool {
    match d {
        Declaration::Function(f) => literal_body(f),
        Declaration::Impl(b) => forall|k: int| 0 <= k < b.functions@.len() ==> #[trigger] literal_body(b.functions@[k]),
        _ => true,
    }
}

/// Some function body of a declaration (those of an impl block included)
/// opens with a misfitting literal binding.
pub open spec fn misfit_decl(d: Declaration) -> bool {
    match d {
        Declaration::Function(f) => opens_with_misfit(f),
        Declaration::Impl(b) => exists|k: int| 0 <= k < b.functions@.len() && #[trigger] opens_with_misfit(b.functions@[k]),
        _ => false,
    }
}

/// The name a declaration is registered under, for those registered by
/// their own name (functions, structs and enums).
pub open spec fn registered_name(d: Declaration) -> Option<Seq<char>> {
    match d {
        Declaration::Function(f) => Some(f.name@),
        Declaration::Struct(st) => Some(st.name@),
        Declaration::Enum(e) => Some(e.name@),
        _ => None,
    }
}

/// Every name bound in `a` is bound in `b`.
pub open spec fn scope_grew(b: Map<Seq<char>, TypeModel>, a: Map<Seq<char>, TypeModel>) -> bool {
    forall|k: Seq<char>| #[trigger] a.contains_key(k) ==> b.contains_key(k)
}

/// The globals every checker starts with besides the builtin table: the
/// program arguments and the runtime helpers.
pub open spec fn builtin_globals(m: Map<Seq<char>, TypeModel>) -> bool {
    &&& m.contains_key("argc"@) && m["argc"@] == super::types::int_model(true, 64)
    &&& m.contains_key("argv"@) && m["argv"@] == TypeModel::String
    &&& m.contains_key("string.concat"@) && m["string.concat"@] == (TypeModel::Function {
        is_unsafe: false,
        params: seq![TypeModel::String, TypeModel::String],
        return_type: Box::new(TypeModel::String),
    })
    &&& m.contains_key("mem.is_null"@) && m["mem.is_null"@] == (TypeModel::Function {
        is_unsafe: false,
        params: seq![TypeModel::Pointer(Box::new(TypeModel::Unknown))],
        return_type: Box::new(TypeModel::Boolean),
    })
    &&& m.contains_key("env.var"@) && m["env.var"@] == (TypeModel::Function {
        is_unsafe: false,
        params: seq![TypeModel::String],
        return_type: Box::new(TypeModel::GenericInstance("Option"@, seq![TypeModel::String])),
    })
    &&& m.contains_key("aion_str_ptr"@) && m["aion_str_ptr"@] == (TypeModel::Function {
        is_unsafe: true,
        params: seq![TypeModel::String],
        return_type: Box::new(TypeModel::Pointer(Box::new(super::types::int_model(true, 64)))),
    })
}

/// A declaration recorded for a function whose first parameter is `self`.
pub open spec fn self_method_decl(d: DeclInfo) -> bool {
    d matches DeclInfo::Function { first_param: Some(p) } && p@ == "self"@
}

/// The type a type name of the builtin table stands for.
pub open spec fn builtin_type_model(t: Seq<char>) -> TypeModel {
    if t == "String"@ {
        TypeModel::String
    } else if t == "i64"@ {
        super::types::int_model(true, 64)
    } else if t == "f64"@ {
        TypeModel::Float
    } else if t == "void"@ {
        TypeModel::Unit
    } else {
        TypeModel::Placeholder(t)
    }
}

/// The function type a fresh checker binds row `i` of the builtin table to.
pub open spec fn builtin_model(i: int) -> TypeModel {
    TypeModel::Function {
        is_unsafe: crate::builtins::builtin_sigs()[i].1,
        params: crate::builtins::builtin_sigs()[i].0.map_values(|t: Seq<char>| builtin_type_model(t)),
        return_type: Box::new(builtin_type_model(crate::builtins::builtin_rows()[i].2)),
    }
}

/// The bindings of the first `n` rows of the builtin table.
pub open spec fn builtin_scope(n: int) -> Map<Seq<char>, TypeModel>
    decreases n,
{
    if n <= 0 {
        Map::empty()
    } else {
        builtin_scope(n - 1).insert(crate::builtins::builtin_rows()[n - 1].0, builtin_model(n - 1))
    }
}

/// The names, in table order, of the first `n` builtins whose first
/// parameter is `self`.
pub open spec fn builtin_method_names(n: int) -> Seq<Seq<char>>
    decreases n,
{
    if n <= 0 {
        Seq::empty()
    } else if crate::builtins::builtin_sigs()[n - 1].2 {
        builtin_method_names(n - 1).push(crate::builtins::builtin_rows()[n - 1].0)
    } else {
        builtin_method_names(n - 1)
    }
}

/// The scope of a fresh checker: every builtin, then the checker's own
/// globals.
pub open spec fn initial_scope() -> Map<Seq<char>, TypeModel> {
    builtin_scope(crate::builtins::builtin_rows().len() as int)
        .insert("aion_str_ptr"@, TypeModel::Function {
            is_unsafe: true,
            params: seq![TypeModel::String],
            return_type: Box::new(TypeModel::Pointer(Box::new(super::types::int_model(true, 64)))),
        })
        .insert("env.var"@, TypeModel::Function {
            is_unsafe: false,
            params: seq![TypeModel::String],
            return_type: Box::new(TypeModel::GenericInstance("Option"@, seq![TypeModel::String])),
        })
        .insert("mem.is_null"@, TypeModel::Function {
            is_unsafe: false,
            params: seq![TypeModel::Pointer(Box::new(TypeModel::Unknown))],
            return_type: Box::new(TypeModel::Boolean),
        })
        .insert("string.concat"@, TypeModel::Function {
            is_unsafe: false,
            params: seq![TypeModel::String, TypeModel::String],
            return_type: Box::new(TypeModel::String),
        })
        .insert("argc"@, super::types::int_model(true, 64))
        .insert("argv"@, TypeModel::String)
}

proof fn lemma_builtin_scope_keys(n: int)
    requires
        0 <= n <= crate::builtins::builtin_rows().len(),
    ensures
        forall|k: Seq<char>| #[trigger] builtin_scope(n).contains_key(k)
            ==> exists|j: int| 0 <= j < n && crate::builtins::builtin_rows()[j].0 == k,
        forall|j: int| 0 <= j < n ==> #[trigger] builtin_scope(n).contains_key(crate::builtins::builtin_rows()[j].0)
            && builtin_scope(n)[crate::builtins::builtin_rows()[j].0] == builtin_model(j),
    decreases n,
{
    if n > 0 {
        lemma_builtin_scope_keys(n - 1);
        crate::builtins::lemma_builtin_names_distinct();
        assert forall|k: Seq<char>| #[trigger] builtin_scope(n).contains_key(k)
            implies exists|j: int| 0 <= j < n && crate::builtins::builtin_rows()[j].0 == k by {
            if k != crate::builtins::builtin_rows()[n - 1].0 {
                assert(builtin_scope(n - 1).contains_key(k));
            }
        }
        assert forall|j: int| 0 <= j < n implies #[trigger] builtin_scope(n).contains_key(crate::builtins::builtin_rows()[j].0)
            && builtin_scope(n)[crate::builtins::builtin_rows()[j].0] == builtin_model(j) by {
            if j < n - 1 {
                assert(crate::builtins::builtin_rows()[j].0 != crate::builtins::builtin_rows()[n - 1].0);
            }
        }
    }
}

proof fn lemma_builtin_method_names_value()
    ensures
        builtin_method_names(crate::builtins::builtin_rows().len() as int)
            == seq!["i64.abs"@, "i64.max"@, "i64.min"@, "string.len"@, "String.len"@],
{
    reveal_with_fuel(builtin_method_names, 36);
    assert(builtin_method_names(35) =~= seq!["i64.abs"@, "i64.max"@, "i64.min"@, "string.len"@, "String.len"@]);
}

proof fn lemma_builtin_method_names(n: int)
    requires
        0 <= n <= crate::builtins::builtin_rows().len(),
    ensures
        forall|i: int| 0 <= i < builtin_method_names(n).len()
            ==> exists|j: int| 0 <= j < n && crate::builtins::builtin_rows()[j].0 == #[trigger] builtin_method_names(n)[i],
    decreases n,
{
    if n > 0 {
        lemma_builtin_method_names(n - 1);
        assert forall|i: int| 0 <= i < builtin_method_names(n).len()
            implies exists|j: int| 0 <= j < n && crate::builtins::builtin_rows()[j].0 == #[trigger] builtin_method_names(n)[i] by {
            if i < builtin_method_names(n - 1).len() {
                assert(builtin_method_names(n)[i] == builtin_method_names(n - 1)[i]);
            } else {
                assert(builtin_method_names(n)[i] == crate::builtins::builtin_rows()[n - 1].0);
            }
        }
    }
}

/// A type name of the builtin table denotes the type
/// [`builtin_type_model`] gives.
proof fn lemma_builtin_type_parse(t: Seq<char>)
    requires
        crate::builtins::is_builtin_type_name(t),
    ensures
        super::types::parse_type_spec(t) == builtin_type_model(t),
        crate::text::trim_ws(t) == t,
{
    reveal_strlit("String");
    reveal_strlit("i64");
    reveal_strlit("f64");
    reveal_strlit("void");
    reveal_strlit("ptr");
    super::types::lemma_trim_keeps(t);
    if t == "String"@ {
        super::types::lemma_name_reads_back(TypeModel::String);
    } else if t == "i64"@ {
        super::types::lemma_name_reads_back(super::types::int_model(true, 64));
    } else if t == "f64"@ {
        super::types::lemma_name_reads_back(TypeModel::Float);
    } else if t == "void"@ {
        super::types::lemma_name_reads_back(TypeModel::Unit);
    } else {
        reveal_strlit("u64");
        reveal_strlit("i32");
        reveal_strlit("u32");
        reveal_strlit("i8");
        reveal_strlit("u8");
        reveal_strlit("int");
        reveal_strlit("Integer");
        reveal_strlit("bool");
        reveal_strlit("Date");
        reveal_strlit("Duration");
        reveal_strlit("Unit");
        assert(!t.contains('<'));
        assert(super::types::primitive_type(t) is None);
    }
}

proof fn lemma_builtin_type_resolves(c: TypeChecker, n: int, t: Seq<char>, m: TypeModel)
    requires
        0 <= n <= crate::builtins::builtin_rows().len(),
        c.env.scope() == builtin_scope(n),
        c.env.enclosing() is None,
        c.type_params@.len() == 0,
        c.current_module is None,
        crate::builtins::is_builtin_type_name(t),
        c.resolves_to(t, m),
    ensures
        m == builtin_type_model(t),
{
    lemma_builtin_type_parse(t);
    lemma_builtin_scope_keys(n);
    crate::builtins::lemma_builtin_names_apart();
    assert(type_param_index(c.type_params@, t, 0) is None);
    let sc = c.env.scope();
    assert(!sc.contains_key(t)) by {
        if sc.contains_key(t) {
            let j = choose|j: int| 0 <= j < n && crate::builtins::builtin_rows()[j].0 == t;
            assert(crate::builtins::builtin_rows()[j].0 != t);
        }
    }
    assert(!(exists|k: Seq<char>| sc.contains_key(k) && super::environment::qualified_match(k, t))) by {
        if exists|k: Seq<char>| sc.contains_key(k) && super::environment::qualified_match(k, t) {
            let k = choose|k: Seq<char>| sc.contains_key(k) && super::environment::qualified_match(k, t);
            let j = choose|j: int| 0 <= j < n && crate::builtins::builtin_rows()[j].0 == k;
            assert(!super::environment::qualified_match(crate::builtins::builtin_rows()[j].0, t));
        }
    }
    assert(!c.env.lookup_ok(t, Some(m)));
    assert(c.env.lookup_ok(t, None));
}

proof fn lemma_builtin_type_model_values()
    ensures
        builtin_type_model("void"@) == TypeModel::Unit,
        builtin_type_model("i64"@) == super::types::int_model(true, 64),
        builtin_type_model("String"@) == TypeModel::String,
{
    reveal_strlit("String");
    reveal_strlit("i64");
    reveal_strlit("f64");
    reveal_strlit("void");
    assert("void"@ != "String"@ && "void"@ != "i64"@ && "void"@ != "f64"@) by {
        assert("void"@.len() == 4);
        assert("void"@[0] != "f64"@[0]);
    }
    assert("i64"@ != "String"@) by {
        assert("i64"@.len() == 3);
    }
}

/// In a fresh checker, `io.println` takes a `String` and returns nothing,
/// `string.len` takes a `String` and returns an `i64`, and `exit` is an
/// unsafe function taking an `i64`.
pub proof fn lemma_fresh_builtin_types()
    ensures
        initial_scope().contains_key("io.println"@),
        initial_scope()["io.println"@] == (TypeModel::Function {
            is_unsafe: false,
            params: seq![TypeModel::String],
            return_type: Box::new(TypeModel::Unit),
        }),
        initial_scope().contains_key("string.len"@),
        initial_scope()["string.len"@] == (TypeModel::Function {
            is_unsafe: false,
            params: seq![TypeModel::String],
            return_type: Box::new(super::types::int_model(true, 64)),
        }),
        initial_scope().contains_key("exit"@),
        initial_scope()["exit"@] == (TypeModel::Function {
            is_unsafe: true,
            params: seq![super::types::int_model(true, 64)],
            return_type: Box::new(TypeModel::Unit),
        }),
{
    lemma_builtin_scope_keys(crate::builtins::builtin_rows().len() as int);
    crate::builtins::lemma_builtin_names_apart();
    let rows = crate::builtins::builtin_rows();
    lemma_builtin_type_model_values();
    assert(rows[0].0 == "io.println"@);
    assert(rows[16].0 == "exit"@);
    assert(rows[33].0 == "string.len"@);
    assert(crate::builtins::builtin_sigs()[0].0.map_values(|t: Seq<char>| builtin_type_model(t)) =~= seq![TypeModel::String]);
    assert(crate::builtins::builtin_sigs()[33].0.map_values(|t: Seq<char>| builtin_type_model(t)) =~= seq![TypeModel::String]);
    assert(crate::builtins::builtin_sigs()[16].0.map_values(|t: Seq<char>| builtin_type_model(t)) =~= seq![super::types::int_model(true, 64)]);
    assert(rows[0].2 == "void"@);
    assert(rows[16].2 == "void"@);
    assert(crate::builtins::builtin_sigs()[16].1);
    assert(!crate::builtins::builtin_sigs()[0].1);
    assert(builtin_model(0) == (TypeModel::Function {
        is_unsafe: false,
        params: seq![TypeModel::String],
        return_type: Box::new(TypeModel::Unit),
    }));
    assert(builtin_model(16) == (TypeModel::Function {
        is_unsafe: true,
        params: seq![super::types::int_model(true, 64)],
        return_type: Box::new(TypeModel::Unit),
    }));
    lemma_initial_scope_row(0);
    lemma_initial_scope_row(16);
    lemma_initial_scope_row(33);
}

/// A fresh checker binds neither `io` nor `lenn`, nor any path ending in
/// either: `io.println(..)` is resolved by the callee's own name and `lenn`
/// is not found.
pub proof fn lemma_fresh_names_unbound()
    ensures
        !initial_scope().contains_key("io"@),
        forall|k: Seq<char>| #[trigger] initial_scope().contains_key(k) ==> !super::environment::qualified_match(k, "io"@),
        !initial_scope().contains_key("lenn"@),
        forall|k: Seq<char>| #[trigger] initial_scope().contains_key(k) ==> !super::environment::qualified_match(k, "lenn"@),
{
    lemma_builtin_scope_keys(crate::builtins::builtin_rows().len() as int);
    crate::builtins::lemma_no_builtin_named_io();
    crate::builtins::lemma_no_builtin_named_lenn();
    reveal_strlit("io");
    reveal_strlit("lenn");
    reveal_strlit("aion_str_ptr");
    reveal_strlit("env.var");
    reveal_strlit("mem.is_null");
    reveal_strlit("string.concat");
    reveal_strlit("argc");
    reveal_strlit("argv");
    assert forall|k: Seq<char>| #[trigger] initial_scope().contains_key(k)
        implies !super::environment::qualified_match(k, "io"@) && !super::environment::qualified_match(k, "lenn"@) && k != "io"@ && k != "lenn"@ by {
        if builtin_scope(35).contains_key(k) {
            let j = choose|j: int| 0 <= j < 35 && crate::builtins::builtin_rows()[j].0 == k;
            assert(crate::builtins::builtin_rows()[j].0 != "io"@);
        } else {
        assert(!super::environment::qualified_match("aion_str_ptr"@, "io"@)) by { assert("aion_str_ptr"@.last() != "io"@.last()); }
        assert(!super::environment::qualified_match("aion_str_ptr"@, "lenn"@)) by { assert("aion_str_ptr"@.last() != "lenn"@.last() || "aion_str_ptr"@[("aion_str_ptr"@.len() - 2) as int] != 'n'); }
        assert("aion_str_ptr"@ != "io"@ && "aion_str_ptr"@ != "lenn"@) by { assert("aion_str_ptr"@.last() != 'o'); assert("aion_str_ptr"@.len() != 4 || "aion_str_ptr"@[0] != 'l'); }
        assert(!super::environment::qualified_match("env.var"@, "io"@)) by { assert("env.var"@.last() != "io"@.last()); }
        assert(!super::environment::qualified_match("env.var"@, "lenn"@)) by { assert("env.var"@.last() != "lenn"@.last() || "env.var"@[("env.var"@.len() - 2) as int] != 'n'); }
        assert("env.var"@ != "io"@ && "env.var"@ != "lenn"@) by { assert("env.var"@.last() != 'o'); assert("env.var"@.len() != 4 || "env.var"@[0] != 'l'); }
        assert(!super::environment::qualified_match("mem.is_null"@, "io"@)) by { assert("mem.is_null"@.last() != "io"@.last()); }
        assert(!super::environment::qualified_match("mem.is_null"@, "lenn"@)) by { assert("mem.is_null"@.last() != "lenn"@.last() || "mem.is_null"@[("mem.is_null"@.len() - 2) as int] != 'n'); }
        assert("mem.is_null"@ != "io"@ && "mem.is_null"@ != "lenn"@) by { assert("mem.is_null"@.last() != 'o'); assert("mem.is_null"@.len() != 4 || "mem.is_null"@[0] != 'l'); }
        assert(!super::environment::qualified_match("string.concat"@, "io"@)) by { assert("string.concat"@.last() != "io"@.last()); }
        assert(!super::environment::qualified_match("string.concat"@, "lenn"@)) by { assert("string.concat"@.last() != "lenn"@.last() || "string.concat"@[("string.concat"@.len() - 2) as int] != 'n'); }
        assert("string.concat"@ != "io"@ && "string.concat"@ != "lenn"@) by { assert("string.concat"@.last() != 'o'); assert("string.concat"@.len() != 4 || "string.concat"@[0] != 'l'); }
        assert(!super::environment::qualified_match("argc"@, "io"@)) by { assert("argc"@.last() != "io"@.last()); }
        assert(!super::environment::qualified_match("argc"@, "lenn"@)) by { assert("argc"@.subrange(0, 4) =~= "argc"@); assert("argc"@[0] != "lenn"@[0]); assert("argc"@.last() != "lenn"@.last() || "argc"@[("argc"@.len() - 2) as int] != 'n'); }
        assert("argc"@ != "io"@ && "argc"@ != "lenn"@) by { assert("argc"@.last() != 'o'); assert("argc"@.len() != 4 || "argc"@[0] != 'l'); }
        assert(!super::environment::qualified_match("argv"@, "io"@)) by { assert("argv"@.last() != "io"@.last()); }
        assert(!super::environment::qualified_match("argv"@, "lenn"@)) by { assert("argv"@.subrange(0, 4) =~= "argv"@); assert("argv"@[0] != "lenn"@[0]); assert("argv"@.last() != "lenn"@.last() || "argv"@[("argv"@.len() - 2) as int] != 'n'); }
        assert("argv"@ != "io"@ && "argv"@ != "lenn"@) by { assert("argv"@.last() != 'o'); assert("argv"@.len() != 4 || "argv"@[0] != 'l'); }
        }
    }
}

/// Row `j` of the builtin table keeps its binding in a fresh checker's scope.
proof fn lemma_initial_scope_row(j: int)
    requires
        0 <= j < crate::builtins::builtin_rows().len(),
    ensures
        initial_scope().contains_key(crate::builtins::builtin_rows()[j].0),
        initial_scope()[crate::builtins::builtin_rows()[j].0] == builtin_model(j),
{
    lemma_builtin_scope_keys(crate::builtins::builtin_rows().len() as int);
    crate::builtins::lemma_builtin_names_apart();
    let n = crate::builtins::builtin_rows()[j].0;
    assert(builtin_scope(35).contains_key(n));
    assert(n != "aion_str_ptr"@ && n != "env.var"@ && n != "mem.is_null"@ && n != "string.concat"@
        && n != "argc"@ && n != "argv"@);
}

/// The models of a list of `String` types.
proof fn string_params(v: Seq<Type>)
    requires
        forall|i: int| 0 <= i < v.len() ==> #[trigger] v[i] == Type::String,
    ensures
        super::types::models(v) == Seq::new(v.len(), |i: int| TypeModel::String),
        v.len() == 1 ==> super::types::models(v) == seq![TypeModel::String],
        v.len() == 2 ==> super::types::models(v) == seq![TypeModel::String, TypeModel::String],
{
    super::types::lemma_models(v);
    assert(super::types::models(v) =~= Seq::new(v.len(), |i: int| TypeModel::String));
    if v.len() == 1 {
        assert(super::types::models(v) =~= seq![TypeModel::String]);
    }
    if v.len() == 2 {
        assert(super::types::models(v) =~= seq![TypeModel::String, TypeModel::String]);
    }
}

/// Every argument has a [`pure_type`] that unifies with its parameter, the
/// first `skip` parameters left out.
pub open spec fn args_fit(args: Seq<Expression>, params: Seq<Type>, skip: int) -> bool {
    forall|i: int| 0 <= i < args.len() ==> (#[trigger] pure_type(args[i])) is Some
        && super::rules::unify_spec(params[skip + i].model(), pure_type(args[i]).unwrap())
}

/// The type checker: the scopes of names in view, what it knows of every
/// declaration, the enclosing module, whether the code being checked is in
/// an unsafe context, the return type expected by the function being
/// checked, the global scope (for spawn bodies) and the source text (for
/// snippets).
pub struct TypeChecker {
    pub env: Environment,
    pub type_params: Vec<(String, Type)>,
    pub decls: Vec<(String, DeclInfo)>,
    pub current_module: Option<String>,
    in_unsafe_context: bool,
    current_return_type: Option<Type>,
    global_env: Option<Environment>,
    source: String,
}

impl TypeChecker {
    /// What the checker knows of the declarations, by name.
    pub closed spec fn decl_table(self) -> Seq<(String, DeclInfo)> {
        self.decls@
    }

    /// The innermost scope of names in view.
    pub closed spec fn names_in_scope(self) -> Map<Seq<char>, TypeModel> {
        self.env.scope()
    }

    /// The module being checked.
    pub closed spec fn module(self) -> Option<Seq<char>> {
        opt_view(self.current_module)
    }

    /// The declared name `name` resolves to (itself when nothing matches).
    pub closed spec fn resolved(self, name: Seq<char>) -> Seq<char> {
        match resolve_fuzzy_spec(decl_keys(self.decls@), name) {
            Some(f) => f,
            None => name,
        }
    }

    /// A checker with the builtins registered and no source text.
    pub fn new() -> (c: TypeChecker)
        ensures
            builtin_globals(c.names_in_scope()),
            c.module() is None,
            c.source_text().len() == 0,
            forall|i: int| 0 <= i < crate::builtins::builtin_rows().len()
                ==> c.names_in_scope().contains_key(#[trigger] crate::builtins::builtin_rows()[i].0),            c.names_in_scope() == initial_scope(),
            c.at_top_level(),
            c.generic_bindings().len() == 0,
            !c.in_unsafe(),
            forall|i: int| 0 <= i < crate::builtins::builtin_rows().len()
                ==> c.names_in_scope()[#[trigger] crate::builtins::builtin_rows()[i].0] == builtin_model(i),
            decl_keys(c.declarations()) == seq!["i64.abs"@, "i64.max"@, "i64.min"@, "string.len"@, "String.len"@],
            forall|j: int| 0 <= j < c.declarations().len() ==> self_method_decl((#[trigger] c.declarations()[j]).1),
    {
        proof { reveal_strlit(""); }
        TypeChecker::with_source("")
    }

    /// The source text diagnostics quote.
    pub closed spec fn source_text(self) -> Seq<char> {
        self.source@
    }

    /// A checker with the builtins registered, for diagnostics on `source`.
    pub fn with_source(source: &str) -> (c: TypeChecker)
        ensures
            builtin_globals(c.names_in_scope()),
            c.module() is None,
            c.source_text() == source@,
            forall|i: int| 0 <= i < crate::builtins::builtin_rows().len()
                ==> c.names_in_scope().contains_key(#[trigger] crate::builtins::builtin_rows()[i].0),            c.names_in_scope() == initial_scope(),
            c.at_top_level(),
            c.generic_bindings().len() == 0,
            !c.in_unsafe(),
            forall|i: int| 0 <= i < crate::builtins::builtin_rows().len()
                ==> c.names_in_scope()[#[trigger] crate::builtins::builtin_rows()[i].0] == builtin_model(i),
            decl_keys(c.declarations()) == seq!["i64.abs"@, "i64.max"@, "i64.min"@, "string.len"@, "String.len"@],
            forall|j: int| 0 <= j < c.declarations().len() ==> self_method_decl((#[trigger] c.declarations()[j]).1),
    {
        let mut checker = TypeChecker {
            env: Environment::new(),
            type_params: Vec::new(),
            decls: Vec::new(),
            current_module: None,
            in_unsafe_context: false,
            current_return_type: None,
            global_env: None,
            source: source.to_owned(),
        };
        checker.register_builtins();
        proof {
            lemma_builtin_scope_keys(crate::builtins::builtin_rows().len() as int);
            crate::builtins::lemma_builtin_names_apart();
            lemma_builtin_method_names_value();
        }
        checker
    }

    /// Whether the checker is inside an unsafe function or block.
    pub closed spec fn in_unsafe(self) -> bool {
        self.in_unsafe_context
    }

    /// The scope in view has no enclosing scope.
    pub closed spec fn at_top_level(self) -> bool {
        self.env.enclosing() is None
    }

    /// The generic parameters in force, with the types they stand for.
    pub closed spec fn generic_bindings(self) -> Seq<(String, Type)> {
        self.type_params@
    }

    /// The declaration table: each declared name with what was recorded for it.
    pub closed spec fn declarations(self) -> Seq<(String, DeclInfo)> {
        self.decls@
    }

    /// What a type name may resolve to here (see [`Self::resolve_type`]):
    /// the binding of the generic parameter of that name, else the binding
    /// in scope of the trimmed name, else of the name qualified by the
    /// current module, else the type the notation denotes.
    pub closed spec fn resolves_to(self, name: Seq<char>, m: TypeModel) -> bool {
        match type_param_index(self.type_params@, name, 0) {
            Some(i) => m == self.type_params@[i].1.model(),
            None => {
                let tr = crate::text::trim_ws(name);
                ||| self.env.lookup_ok(tr, Some(m))
                ||| self.env.lookup_ok(tr, None) && match self.current_module {
                    Some(md) => {
                        ||| self.env.lookup_ok(md@ + "."@ + tr, Some(m))
                        ||| self.env.lookup_ok(md@ + "."@ + tr, None) && m == super::types::parse_type_spec(tr)
                    },
                    None => m == super::types::parse_type_spec(tr),
                }
            },
        }
    }

    /// A call the checker resolves by the callee's own name: a name without
    /// `.`, or a dotted name whose receiver is a plain name bound nowhere.
    pub closed spec fn by_name_call(self, f: Seq<char>) -> bool {
        !has_char(f, '.') || (!has_char(dot_receiver(f), '.') && self.env.lookup_ok(dot_receiver(f), None))
    }

    /// `e` is a call, by the callee's own name, of a function bound in the
    /// innermost scope that may be called here (safe, or inside unsafe
    /// code), with as many literal arguments as it has parameters, each of
    /// which it accepts.
    pub open spec fn fitting_call(self, e: Expression) -> bool {
        match e {
            Expression::Call { function, arguments, .. } => {
                &&& self.by_name_call(function@)
                &&& self.names_in_scope().contains_key(function@)
                &&& match self.names_in_scope()[function@] {
                    TypeModel::Function { is_unsafe, params, .. } => {
                        &&& (!is_unsafe || self.in_unsafe())
                        &&& arguments@.len() == params.len()
                        &&& forall|i: int| 0 <= i < arguments@.len() ==> (#[trigger] pure_type(arguments@[i])) is Some
                            && arg_accepted(function@, true, params[i], pure_type(arguments@[i]).unwrap())
                    },
                    _ => false,
                }
            },
            _ => false,
        }
    }

    /// `ss` is a list of statements each of which is a fitting call (see
    /// [`Self::fitting_call`]).
    pub open spec fn fitting_calls(self, ss: Seq<Statement>) -> bool {
        forall|i: int| 0 <= i < ss.len() ==> self.fitting_call_stmt(#[trigger] ss[i])
    }

    /// The type of a list of fitting calls (see [`Self::fitting_calls`]):
    /// the last call's return type, `Unit` for an empty list.
    pub open spec fn calls_type(self, ss: Seq<Statement>) -> TypeModel {
        if ss.len() == 0 {
            TypeModel::Unit
        } else {
            match ss.last() {
                Statement::ExpressionStmt(e, _) => match self.operand_type(e) {
                    Some(m) => m,
                    None => TypeModel::Unknown,
                },
                _ => TypeModel::Unknown,
            }
        }
    }

    /// `s` is an expression statement that is a fitting call.
    pub open spec fn fitting_call_stmt(self, s: Statement) -> bool {
        match s {
            Statement::ExpressionStmt(e, _) => self.fitting_call(e),
            _ => false,
        }
    }

    /// This checker inside an unsafe block.
    pub closed spec fn entering_unsafe(self) -> TypeChecker {
        TypeChecker { in_unsafe_context: true, ..self }
    }

    /// The arms cover every variant of the enum that `name` resolves to, if
    /// it resolves to one (see [`Self::check_match_exhaustive`]).
    pub open spec fn match_covers(self, name: Seq<char>, arms: Seq<MatchArm>) -> bool {
        match decl_lookup(self.decl_table(), self.resolved(name)) {
            Some(DeclInfo::Enum { variants, .. }) => forall|i: int| 0 <= i < variants@.len()
                ==> variant_covered(arms, #[trigger] variants@[i].0@, variant_names(variants@)),
            _ => true,
        }
    }

    /// The type an expression has without changing the checker: a literal's
    /// type, a name bound in the innermost scope, a fitting call's return
    /// type (see [`Self::fitting_call`]), or an operator applied to two
    /// such operands, typed by the operator rules.
    pub open spec fn operand_type(self, e: Expression) -> Option<TypeModel>
        decreases e,
    {
        match pure_type(e) {
            Some(m) => Some(m),
            None => match e {
                Expression::Identifier(n, _) => if self.names_in_scope().contains_key(n@) {
                    Some(self.names_in_scope()[n@])
                } else {
                    None
                },
                Expression::Infix { left, operator, right, .. } => match (self.operand_type(*left), self.operand_type(*right)) {
                    (Some(a), Some(b)) => match super::rules::infix_outcome(a, b, operator.kind) {
                        super::rules::InfixOutcome::Typed(t) => Some(t),
                        _ => None,
                    },
                    _ => None,
                },
                Expression::Call { function, .. } => if self.fitting_call(e) {
                    match self.names_in_scope()[function@] {
                        TypeModel::Function { return_type, .. } => Some(*return_type),
                        _ => None,
                    }
                } else {
                    None
                },
                _ => None,
            },
        }
    }


    /// Whether the declaration under `name` is a function taking `self` first.
    pub closed spec fn is_method_spec(self, name: Seq<char>) -> bool {
        decl_lookup(self.decls@, name) matches Some(DeclInfo::Function { first_param: Some(p) }) && p@ == "self"@
    }

    /// `e` with a snippet of the source around its position.
    fn with_snippet(&self, e: CompileError) -> (r: CompileError)
        ensures
            r.same_but_snippet(e),
            (e.col_spec() <= usize::MAX - 6 && e.line_spec() > 0)
                ==> r.snippet_spec() == crate::error::snippet_spec(self.source@, e.line_spec() as nat, e.col_spec() as nat),
            (e.col_spec() > usize::MAX - 6 || e.line_spec() == 0) ==> r.snippet_spec() == e.snippet_spec(),
    {
        if e.col() <= usize::MAX - 6 {
            e.with_snippet(self.source.as_str())
        } else {
            proof { crate::error::lemma_same_but_snippet_refl(e); }
            e
        }
    }

    /// A type error with `message` at `line`/`col`, with a snippet.
    fn error_at(&self, message: &str, line: usize, col: usize) -> (e: CompileError)
        ensures
            e matches CompileError::Type { message: m, line: l, col: c, .. } && m@ == message@ && l == line && c == col,
    {
        let e = CompileError::new(message, line, col);
        self.with_snippet(e)
    }

    /// A type error with `message` at the position of `expr`, with a snippet.
    fn err(&self, message: &str, expr: &Expression) -> (e: CompileError)
        ensures
            e matches CompileError::Type { message: m, line: l, col: c, .. } && m@ == message@
                && l == expr.span_spec().line && c == expr.span_spec().col,
    {
        let span = expr.span();
        self.error_at(message, span.line, span.col)
    }

    /// The declaration recorded under `name`.
    fn decl_get(&self, name: &str) -> (r: Option<&DeclInfo>)
        ensures
            match r {
                Some(d) => decl_lookup(self.decls@, name@) == Some(*d),
                None => decl_lookup(self.decls@, name@) is None,
            },
    {
        match decl_index(&self.decls, name) {
            Some(i) => Some(&self.decls[i].1),
            None => None,
        }
    }

    /// `name`, resolved against the declared names (itself when nothing matches).
    fn full_name(&self, name: &str) -> (r: String)
        ensures
            r@ == match resolve_fuzzy_spec(decl_keys(self.decls@), name@) {
                Some(f) => f,
                None => name@,
            },
    {
        match resolve_fuzzy_name(&self.decls, name) {
            Some(f) => f,
            None => name.to_owned(),
        }
    }

    /// Whether the declaration under `name` is a function whose first parameter is `self`.
    fn is_method(&self, name: &str) -> (b: bool)
        ensures
            b == (decl_lookup(self.decls@, name@) matches Some(DeclInfo::Function { first_param: Some(p) })
                && p@ == "self"@),
    {
        match self.decl_get(name) {
            Some(DeclInfo::Function { first_param: Some(p) }) => str_eq(p.as_str(), "self"),
            _ => false,
        }
    }

    /// "Did you mean" suggestion for an undefined function: the last segment
    /// of every declared function's name.
    fn suggest_function(&self, typed: &str) -> (r: Option<String>)
        ensures
            typed@.len() < usize::MAX && all_measurable(fn_candidates(self.decls@))
                ==> opt_view(r) == suggest_spec(typed@, fn_candidates(self.decls@)),
    {
        let mut fns: Vec<String> = Vec::new();
        let mut i: usize = 0;
        while i < self.decls.len()
            invariant
                i <= self.decls@.len(),
                crate::text::string_views(fns@) == fn_candidates(self.decls@.take(i as int)),
            decreases self.decls@.len() - i,
        {
            assert(self.decls@.take(i + 1).drop_last() =~= self.decls@.take(i as int));
            assert(self.decls@.take(i + 1).last() == self.decls@[i as int]);
            let ghost before = crate::text::string_views(fns@);
            if let DeclInfo::Function { .. } = &self.decls[i].1 {
                let seg = last_segment_text(self.decls[i].0.as_str());
                fns.push(seg);
                assert(crate::text::string_views(fns@) =~= before.push(seg@));
            }
            i = i + 1;
        }
        assert(self.decls@.take(i as int) =~= self.decls@);
        proof {
            if all_measurable(fn_candidates(self.decls@)) {
                assert forall|k: int| 0 <= k < fns@.len() implies #[trigger] fns@[k]@.len() < usize::MAX by {
                    assert(crate::text::string_views(fns@)[k] == fns@[k]@);
                }
            }
        }
        suggest(typed, &fns)
    }

    /// "Did you mean" suggestion for an undefined field of `struct_name`.
    fn suggest_field(&self, struct_name: &str, typed: &str) -> (r: Option<String>)
        ensures
            match decl_lookup(self.decls@, self.resolved(struct_name@)) {
                Some(DeclInfo::Struct { fields }) => typed@.len() < usize::MAX && all_measurable(field_names(fields@))
                    ==> opt_view(r) == suggest_spec(typed@, field_names(fields@)),
                _ => r is None,
            },
    {
        let full = self.full_name(struct_name);
        match self.decl_get(full.as_str()) {
            Some(DeclInfo::Struct { fields }) => {
                let mut names: Vec<String> = Vec::new();
                let mut i: usize = 0;
                while i < fields.len()
                    invariant
                        i <= fields@.len(),
                        crate::text::string_views(names@) == field_names(fields@).take(i as int),
                    decreases fields@.len() - i,
                {
                    let ghost before = crate::text::string_views(names@);
                    names.push(fields[i].0.clone());
                    assert(crate::text::string_views(names@) =~= before.push(fields@[i as int].0@));
                    assert(field_names(fields@).take(i + 1) =~= field_names(fields@).take(i as int).push(fields@[i as int].0@));
                    i = i + 1;
                }
                assert(field_names(fields@).take(i as int) =~= field_names(fields@));
                proof {
                    if all_measurable(field_names(fields@)) {
                        assert forall|k: int| 0 <= k < names@.len() implies #[trigger] names@[k]@.len() < usize::MAX by {
                            assert(crate::text::string_views(names@)[k] == names@[k]@);
                        }
                    }
                }
                suggest(typed, &names)
            },
            _ => None,
        }
    }

    /// "Did you mean" suggestion for an undefined method of `owner`:
    /// the method names declared for it as `Type.method` or `Type::method`.
    fn suggest_method(&self, owner: &str, typed: &str) -> (r: Option<String>)
        ensures
            typed@.len() < usize::MAX && all_measurable(method_candidates(decl_keys(self.decls@), self.resolved(owner@)))
                ==> opt_view(r) == suggest_spec(typed@, method_candidates(decl_keys(self.decls@), self.resolved(owner@))),
    {
        let full = self.full_name(owner);
        let prefix_dot = concat_text(full.as_str(), ".");
        let prefix_colon = concat_text(full.as_str(), "::");
        let ghost keys = decl_keys(self.decls@);
        let mut methods: Vec<String> = Vec::new();
        let mut i: usize = 0;
        while i < self.decls.len()
            invariant
                i <= self.decls@.len(),
                keys == decl_keys(self.decls@),
                prefix_dot@ == full@ + "."@,
                prefix_colon@ == full@ + "::"@,
                crate::text::string_views(methods@) == method_candidates(keys.take(i as int), full@),
            decreases self.decls@.len() - i,
        {
            assert(keys.take(i + 1).drop_last() =~= keys.take(i as int));
            assert(keys.take(i + 1).last() == self.decls@[i as int].0@);
            let ghost before = crate::text::string_views(methods@);
            let k = self.decls[i].0.as_str();
            match strip_prefix_text(k, prefix_dot.as_str()) {
                Some(m) => {
                    methods.push(m);
                    assert(crate::text::string_views(methods@) =~= before.push(m@));
                },
                None => match strip_prefix_text(k, prefix_colon.as_str()) {
                    Some(m) => {
                        methods.push(m);
                        assert(crate::text::string_views(methods@) =~= before.push(m@));
                    },
                    None => {},
                },
            }
            i = i + 1;
        }
        assert(keys.take(i as int) =~= keys);
        proof {
            if all_measurable(method_candidates(keys, full@)) {
                assert forall|k: int| 0 <= k < methods@.len() implies #[trigger] methods@[k]@.len() < usize::MAX by {
                    assert(crate::text::string_views(methods@)[k] == methods@[k]@);
                }
            }
        }
        suggest(typed, &methods)
    }

    /// The type a type name denotes here: a generic parameter's binding, a
    /// name bound in scope (also qualified by the current module), or the
    /// type the notation denotes.
    fn resolve_type(&self, name: &str) -> (t: Type)
        ensures
            self.resolves_to(name@, t.model()),
    {
        let mut i: usize = 0;
        while i < self.type_params.len()
            invariant
                i <= self.type_params@.len(),
                type_param_index(self.type_params@, name@, 0) == type_param_index(self.type_params@, name@, i as int),
            decreases self.type_params@.len() - i,
        {
            if str_eq(self.type_params[i].0.as_str(), name) {
                return self.type_params[i].1.clone_type();
            }
            i = i + 1;
        }
        let c = chars_of(name);
        let t = crate::text::trim_chars(&c);
        let trimmed = string_from_chars(&t);
        if let Some(ty) = self.env.get(trimmed.as_str()) {
            return ty;
        }
        if let Some(module) = &self.current_module {
            let full = concat3_text(module.as_str(), ".", trimmed.as_str());
            if let Some(ty) = self.env.get(full.as_str()) {
                return ty;
            }
        }
        Type::parse(trimmed.as_str())
    }

    /// Binds the parameters of a match arm: to the payload types of the
    /// matched enum variant (generic parameters replaced by `generic_args`),
    /// to the fields of a matched struct, or to `i64`/`String` for integer
    /// and string matches; parameters without a payload are `i64`.
    fn bind_match_params(&mut self, cond_name: &str, generic_args: &Vec<Type>, all_patterns: &Vec<String>, params: &Vec<String>)
        ensures
            frame_kept(*final(self), *old(self)),
            params@.len() == 0 ==> *final(self) == *old(self),
            params@.len() > 0 ==> final(self).env.scope().contains_key(params@[0]@),
            (!(decl_lookup(old(self).decls@, old(self).resolved(cond_name@)) matches Some(DeclInfo::Struct { .. }))
                && !(decl_lookup(old(self).decls@, old(self).resolved(cond_name@)) matches Some(DeclInfo::Enum { .. }))
                && cond_name@ != "i64"@ && cond_name@ != "String"@)
                ==> forall|i: int| 0 <= i < params@.len() ==> final(self).env.scope().contains_key(#[trigger] params@[i]@)
                    && final(self).env.scope()[params@[i]@] == super::types::int_model(true, 64),
            final(self).decls@ == old(self).decls@,
            final(self).current_module == old(self).current_module,
            final(self).source == old(self).source,
    {
        if params.len() == 0 {
            return;
        }
        let full_cond = self.full_name(cond_name);
        let ghost no_payload = !(decl_lookup(old(self).decls@, old(self).resolved(cond_name@)) matches Some(DeclInfo::Struct { .. }))
            && !(decl_lookup(old(self).decls@, old(self).resolved(cond_name@)) matches Some(DeclInfo::Enum { .. }))
            && cond_name@ != "i64"@ && cond_name@ != "String"@;
        let mut data_types: Vec<String> = Vec::new();
        let mut matched_struct: Option<String> = None;
        let mut enum_generics: Option<Vec<String>> = None;
        match self.decl_get(full_cond.as_str()) {
            Some(DeclInfo::Enum { generic_params, variants }) => {
                enum_generics = Some(copy_strings(generic_params));
                let mut p: usize = 0;
                let mut found = false;
                while p < all_patterns.len() && !found
                    invariant
                        frame_kept(*self, *old(self)),
                        p <= all_patterns@.len(),
                    decreases all_patterns@.len() - p,
                {
                    let pat = all_patterns[p].as_str();
                    let mut v: usize = 0;
                    while v < variants.len()
                        invariant
                            frame_kept(*self, *old(self)),
                            v <= variants@.len(),
                        decreases variants@.len() - v,
                    {
                        let vname = variants[v].0.as_str();
                        let dotted = text_of(&[".", vname]);
                        let pathed = text_of(&["::", vname]);
                        let pc = chars_of(pat);
                        let dc = chars_of(dotted.as_str());
                        let cc = chars_of(pathed.as_str());
                        if str_eq(pat, vname) || ends_with_chars(&pc, &dc) || ends_with_chars(&pc, &cc) {
                            data_types = copy_strings(&variants[v].1);
                            found = true;
                            break;
                        }
                        v = v + 1;
                    }
                    p = p + 1;
                }
            },
            Some(DeclInfo::Struct { .. }) => {
                if str_eq(cond_name, "i64") {
                    data_types.push("i64".to_owned());
                } else if str_eq(cond_name, "String") {
                    data_types.push("String".to_owned());
                } else {
                    matched_struct = Some(full_cond.clone());
                }
            },
            _ => {
                if str_eq(cond_name, "i64") {
                    data_types.push("i64".to_owned());
                } else if str_eq(cond_name, "String") {
                    data_types.push("String".to_owned());
                }
            },
        }
        match matched_struct {
            Some(sname) => {
                let mut fields: Vec<(String, String)> = Vec::new();
                if let Some(DeclInfo::Struct { fields: fs }) = self.decl_get(sname.as_str()) {
                    let mut k: usize = 0;
                    while k < fs.len()
                        invariant
                            frame_kept(*self, *old(self)),
                            k <= fs@.len(),
                        decreases fs@.len() - k,
                    {
                        fields.push((fs[k].0.clone(), fs[k].1.clone()));
                        k = k + 1;
                    }
                }
                let mut k: usize = 0;
                while k < fields.len()
                    invariant
                        frame_kept(*self, *old(self)),
                        k <= fields@.len(),
                        params@.len() > 0,
                        self.decls@ == old(self).decls@,
                        self.current_module == old(self).current_module,
                        self.source == old(self).source,
                    decreases fields@.len() - k,
                {
                    let field_type = self.resolve_type(fields[k].1.as_str());
                    let key = text_of(&[params[0].as_str(), ".", fields[k].0.as_str()]);
                    self.env.set(key, field_type);
                    k = k + 1;
                }
                self.env.set(params[0].clone(), Type::Struct { name: sname });
            },
            None => {
                let mut i: usize = 0;
                while i < params.len()
                    invariant
                        frame_kept(*self, *old(self)),
                        i <= params@.len(),
                        params@.len() > 0,
                        self.decls@ == old(self).decls@,
                        self.current_module == old(self).current_module,
                        self.source == old(self).source,
                        i > 0 ==> self.env.scope().contains_key(params@[0]@),
                        no_payload ==> data_types@.len() == 0,
                        no_payload ==> forall|k: int| 0 <= k < i ==> self.env.scope().contains_key(#[trigger] params@[k]@)
                            && self.env.scope()[params@[k]@] == super::types::int_model(true, 64),
                    decreases params@.len() - i,
                {
                    let payload = if i < data_types.len() {
                        let dt = match &enum_generics {
                            Some(gp) => substitute_generics(data_types[i].as_str(), gp, generic_args),
                            None => data_types[i].clone(),
                        };
                        self.resolve_type(dt.as_str())
                    } else {
                        Type::i64()
                    };
                    self.env.set(params[i].clone(), payload);
                    i = i + 1;
                }
            },
        }
    }

    fn set_function(&mut self, name: String, is_unsafe: bool, params: Vec<Type>, ret: Type)
        ensures
            final(self).env.scope() == old(self).env.scope().insert(name@, TypeModel::Function {
                is_unsafe,
                params: super::types::models(params@),
                return_type: Box::new(ret.model()),
            }),
            final(self).decls@ == old(self).decls@,
            final(self).current_module == old(self).current_module,
            final(self).source == old(self).source,
            final(self).env.enclosing() == old(self).env.enclosing(),
            final(self).type_params == old(self).type_params,
            final(self).in_unsafe_context == old(self).in_unsafe_context,
    {
        self.env.set(name, Type::Function { is_unsafe, params, return_type: Box::new(ret) });
    }

    /// Registers the builtin functions and the checker-only globals.
    #[verifier::spinoff_prover]
    #[verifier::rlimit(40)]
    fn register_builtins(&mut self)
        requires
            old(self).env.scope() == Map::<Seq<char>, TypeModel>::empty(),
            old(self).env.enclosing() is None,
            old(self).type_params@.len() == 0,
            old(self).current_module is None,
            old(self).decls@.len() == 0,
        ensures
            final(self).env.scope() == initial_scope(),
            final(self).env.enclosing() is None,
            final(self).type_params == old(self).type_params,
            final(self).in_unsafe_context == old(self).in_unsafe_context,
            decl_keys(final(self).decls@) == builtin_method_names(crate::builtins::builtin_rows().len() as int),
            forall|j: int| 0 <= j < final(self).decls@.len() ==> self_method_decl((#[trigger] final(self).decls@[j]).1),
            builtin_globals(final(self).env.scope()),
            forall|i: int| 0 <= i < crate::builtins::builtin_rows().len()
                ==> final(self).env.scope().contains_key(#[trigger] crate::builtins::builtin_rows()[i].0),
            final(self).current_module == old(self).current_module,
            final(self).source == old(self).source,
    {
        let table = crate::builtins::builtins();
        let ghost rows = crate::builtins::builtin_rows();
        let mut i: usize = 0;
        proof {
            assert(decl_keys(self.decls@) =~= builtin_method_names(0));
            assert(self.env.scope() =~= builtin_scope(0));
        }
        while i < table.len()
            invariant
                i <= table@.len(),
                rows == crate::builtins::builtin_rows(),
                table@.len() == rows.len(),
                forall|j: int| 0 <= j < table@.len() ==> #[trigger] crate::builtins::builtin_row(table@[j]) == rows[j],
                forall|j: int| 0 <= j < i ==> self.env.scope().contains_key(#[trigger] rows[j].0),
                self.current_module == old(self).current_module,
                self.source == old(self).source,
                forall|j: int| 0 <= j < table@.len() ==> #[trigger] crate::builtins::builtin_sig(table@[j]) == crate::builtins::builtin_sigs()[j],
                self.env.scope() == builtin_scope(i as int),
                self.env.enclosing() is None,
                self.type_params == old(self).type_params,
                self.type_params@.len() == 0,
                self.current_module is None,
                self.in_unsafe_context == old(self).in_unsafe_context,
                decl_keys(self.decls@) == builtin_method_names(i as int),
                forall|j: int| 0 <= j < self.decls@.len() ==> self_method_decl((#[trigger] self.decls@[j]).1),
            decreases table@.len() - i,
        {
            proof {
                assert(crate::builtins::builtin_row(table@[i as int]) == rows[i as int]);
                assert(crate::builtins::builtin_sig(table@[i as int]) == crate::builtins::builtin_sigs()[i as int]);
                crate::builtins::lemma_builtin_type_names();
                lemma_builtin_scope_keys(i as int);
            }
            let b = table[i];
            let ghost sig = crate::builtins::builtin_sigs()[i as int];
            let mut params: Vec<Type> = Vec::new();
            let mut k: usize = 0;
            assert(super::types::models(params@) =~= sig.0.take(0).map_values(|t: Seq<char>| builtin_type_model(t)));
            while k < b.params_aion.len()
                invariant
                    k <= b.params_aion@.len(),
                    self.current_module == old(self).current_module,
                    self.source == old(self).source,
                    i < table@.len(),
                    b == table@[i as int],
                    crate::builtins::builtin_sig(b) == sig,
                    sig == crate::builtins::builtin_sigs()[i as int],
                    i < crate::builtins::builtin_sigs().len(),
                    forall|ii: int, kk: int| 0 <= ii < crate::builtins::builtin_sigs().len() && 0 <= kk < crate::builtins::builtin_sigs()[ii].0.len()
                        ==> crate::builtins::is_builtin_type_name(#[trigger] crate::builtins::builtin_sigs()[ii].0[kk]),
                    self.env.scope() == builtin_scope(i as int),
                    0 <= i < crate::builtins::builtin_rows().len(),
                    self.env.enclosing() is None,
                    self.type_params@.len() == 0,
                    self.current_module is None,
                    super::types::models(params@) == sig.0.take(k as int).map_values(|t: Seq<char>| builtin_type_model(t)),
                decreases b.params_aion@.len() - k,
            {
                assert(b.params_aion@[k as int].1@ == sig.0[k as int]);
                let t = self.resolve_type(b.params_aion[k].1);
                proof {
                    lemma_builtin_type_resolves(*self, i as int, sig.0[k as int], t.model());
                }
                let ghost before = params@;
                params.push(t);
                proof {
                    super::types::lemma_models(before);
                    super::types::lemma_models(params@);
                    let f = |t: Seq<char>| builtin_type_model(t);
                    assert(t.model() == builtin_type_model(sig.0[k as int]));
                    assert forall|j: int| 0 <= j < k + 1 implies super::types::models(params@)[j]
                        == #[trigger] sig.0.take(k + 1).map_values(f)[j] by {
                        if j < k {
                            assert(params@[j] == before[j]);
                            assert(super::types::models(before)[j] == sig.0.take(k as int).map_values(f)[j]);
                        }
                    }
                    assert(super::types::models(params@) =~= sig.0.take(k + 1).map_values(f));
                }
                k = k + 1;
            }
            proof {
                assert(sig.0.len() == b.params_aion@.len());
                assert(sig.0.take(k as int) =~= sig.0);
                assert(b.ret_aion@ == rows[i as int].2);
            }
            let ret = self.resolve_type(b.ret_aion);
            proof {
                lemma_builtin_type_resolves(*self, i as int, rows[i as int].2, ret.model());
            }
            self.set_function(b.aion_name.to_owned(), b.is_unsafe, params, ret);
            proof {
                assert(self.env.scope() =~= builtin_scope(i + 1));
            }
            let is_method = b.params_aion.len() > 0 && str_eq(b.params_aion[0].0, "self");
            proof {
                reveal_strlit("self");
                assert(is_method == sig.2);
            }
            if is_method {
                proof {
                    lemma_builtin_method_names(i as int);
                    crate::builtins::lemma_builtin_names_distinct();
                    if decl_keys(self.decls@).contains(rows[i as int].0) {
                        let x = choose|x: int| 0 <= x < decl_keys(self.decls@).len() && decl_keys(self.decls@)[x] == rows[i as int].0;
                        let j = choose|j: int| 0 <= j < i && crate::builtins::builtin_rows()[j].0 == #[trigger] builtin_method_names(i as int)[x];
                        assert(builtin_method_names(i as int)[x] == rows[i as int].0);
                    }
                }
                let ghost before = self.decls@;
                decl_insert(&mut self.decls, b.aion_name.to_owned(), DeclInfo::Function { first_param: Some("self".to_owned()) });
                proof {
                    assert(decl_keys(self.decls@) =~= builtin_method_names(i + 1));
                    assert forall|j: int| 0 <= j < self.decls@.len() implies self_method_decl((#[trigger] self.decls@[j]).1) by {
                        if j < before.len() {
                            assert(self.decls@[j] == before[j]);
                        }
                    }
                }
            } else {
                assert(builtin_method_names(i + 1) == builtin_method_names(i as int));
            }
            i = i + 1;
        }
        let mut p: Vec<Type> = Vec::new();
        p.push(Type::String);
        proof { string_params(p@); }
        self.set_function("aion_str_ptr".to_owned(), true, p, Type::Pointer(Box::new(Type::i64())));
        let mut p: Vec<Type> = Vec::new();
        p.push(Type::String);
        let mut opt_args: Vec<Type> = Vec::new();
        opt_args.push(Type::String);
        proof {
            string_params(p@);
            string_params(opt_args@);
        }
        self.set_function("env.var".to_owned(), false, p, Type::GenericInstance("Option".to_owned(), opt_args));
        let mut p: Vec<Type> = Vec::new();
        p.push(Type::Pointer(Box::new(Type::Unknown)));
        proof {
            super::types::lemma_models(p@);
            assert(Type::Unknown.model() == TypeModel::Unknown);
            assert(p@[0].model() == TypeModel::Pointer(Box::new(TypeModel::Unknown)));
            assert(super::types::models(p@) =~= seq![TypeModel::Pointer(Box::new(TypeModel::Unknown))]);
        }
        self.set_function("mem.is_null".to_owned(), false, p, Type::Boolean);
        let mut p: Vec<Type> = Vec::new();
        p.push(Type::String);
        p.push(Type::String);
        proof { string_params(p@); }
        self.set_function("string.concat".to_owned(), false, p, Type::String);
        self.env.set("argc".to_owned(), Type::i64());
        self.env.set("argv".to_owned(), Type::String);
        proof {
            reveal_strlit("aion_str_ptr");
            reveal_strlit("env.var");
            reveal_strlit("mem.is_null");
            reveal_strlit("string.concat");
            reveal_strlit("argc");
            reveal_strlit("argv");
            reveal_strlit("Option");
            assert("argc"@[3] != "argv"@[3]);
            assert("argc"@ != "argv"@);
            assert("mem.is_null"@[0] != "string.concat"@[0]);
            assert("env.var"@[0] != "mem.is_null"@[0] && "env.var"@[0] != "string.concat"@[0]
                && "env.var"@[0] != "argc"@[0] && "env.var"@[0] != "argv"@[0]);
            assert("mem.is_null"@[0] != "argc"@[0] && "mem.is_null"@[0] != "argv"@[0]);
            assert("aion_str_ptr"@[0] != "env.var"@[0] && "aion_str_ptr"@[0] != "mem.is_null"@[0]
                && "aion_str_ptr"@[0] != "string.concat"@[0] && "aion_str_ptr"@[1] != "argc"@[1]
                && "aion_str_ptr"@[1] != "argv"@[1]);
            assert("string.concat"@[0] != "argc"@[0] && "string.concat"@[0] != "argv"@[0]);
            assert("mem.is_null"@ != "string.concat"@);
            assert("env.var"@ != "mem.is_null"@ && "env.var"@ != "string.concat"@ && "env.var"@ != "argc"@
                && "env.var"@ != "argv"@);
            assert("mem.is_null"@ != "argc"@ && "mem.is_null"@ != "argv"@);
            assert("aion_str_ptr"@ != "env.var"@ && "aion_str_ptr"@ != "mem.is_null"@
                && "aion_str_ptr"@ != "string.concat"@ && "aion_str_ptr"@ != "argc"@ && "aion_str_ptr"@ != "argv"@);
            assert("string.concat"@ != "argc"@ && "string.concat"@ != "argv"@);
            assert(self.env.scope() =~= initial_scope());
        }
    }

    /// Registers a function's signature under `name`; `self_type` replaces
    /// the type name `Self` in it.
    fn register_function(&mut self, name: String, f: &Function, self_type: Option<&String>)
        ensures
            final(self).env.scope().contains_key(name@),
            final(self).env.scope()[name@] is Function,
            scope_grew(final(self).env.scope(), old(self).env.scope()),
            decl_keys(final(self).decls@).contains(name@),
            forall|k: Seq<char>| #[trigger] decl_keys(old(self).decls@).contains(k) ==> decl_keys(final(self).decls@).contains(k),
    {
        decl_insert(&mut self.decls, name.clone(), DeclInfo::Function { first_param: first_param_name(f) });
        let is_unsafe = has_unsafe_modifier(&f.modifiers);
        let ret_name = match self_type {
            Some(t) => if str_eq(f.return_type.as_str(), "Self") { t.clone() } else { f.return_type.clone() },
            None => f.return_type.clone(),
        };
        let ret = self.resolve_type(ret_name.as_str());
        let mut params: Vec<Type> = Vec::new();
        let mut k: usize = 0;
        while k < f.params.len()
            invariant
                k <= f.params@.len(),
            decreases f.params@.len() - k,
        {
            let pt = match self_type {
                Some(t) => if str_eq(f.params[k].1.as_str(), "Self") { t.clone() } else { f.params[k].1.clone() },
                None => f.params[k].1.clone(),
            };
            params.push(self.resolve_type(pt.as_str()));
            k = k + 1;
        }
        self.set_function(name, is_unsafe, params, ret);
    }

    /// Registers one declaration: its signature, fields or variants.
    #[verifier::spinoff_prover]
    #[verifier::rlimit(40)]
    fn register_declaration(&mut self, decl: &Declaration)
        ensures
            scope_grew(final(self).env.scope(), old(self).env.scope()),
            forall|k: Seq<char>| #[trigger] decl_keys(old(self).decls@).contains(k) ==> decl_keys(final(self).decls@).contains(k),
            registered_name(*decl) matches Some(n) ==> final(self).env.scope().contains_key(n)
                && decl_keys(final(self).decls@).contains(n),
            match *decl {
                Declaration::Struct(st) => final(self).env.scope()[st.name@] == (TypeModel::Struct { name: st.name@ }),
                Declaration::Enum(e) => final(self).env.scope()[e.name@] == (TypeModel::Enum { name: e.name@ }),
                Declaration::Function(f) => final(self).env.scope()[f.name@] is Function,
                _ => true,
            },
    {
        match decl {
            Declaration::Function(f) => {
                self.register_function(f.name.clone(), f, None);
            },
            Declaration::Enum(e) => {
                let mut variants: Vec<(String, Vec<String>)> = Vec::new();
                let mut k: usize = 0;
                while k < e.variants.len()
                    invariant
                        k <= e.variants@.len(),
                        *self == *old(self),
                    decreases e.variants@.len() - k,
                {
                    variants.push((e.variants[k].name.clone(), copy_strings(&e.variants[k].data_types)));
                    k = k + 1;
                }
                decl_insert(&mut self.decls, e.name.clone(), DeclInfo::Enum { generic_params: copy_strings(&e.generic_params), variants });
                self.env.set(e.name.clone(), Type::Enum { name: e.name.clone() });
            },
            Declaration::Struct(st) => {
                let mut fields: Vec<(String, String)> = Vec::new();
                let mut k: usize = 0;
                while k < st.fields.len()
                    invariant
                        k <= st.fields@.len(),
                        *self == *old(self),
                    decreases st.fields@.len() - k,
                {
                    fields.push((st.fields[k].0.clone(), st.fields[k].1.clone()));
                    k = k + 1;
                }
                decl_insert(&mut self.decls, st.name.clone(), DeclInfo::Struct { fields });
                self.env.set(st.name.clone(), Type::Struct { name: st.name.clone() });
                let ghost decls_now = self.decls@;
                let mut k: usize = 0;
                while k < st.fields.len()
                    invariant
                        k <= st.fields@.len(),
                        *decl == Declaration::Struct(*st),
                        self.decls@ == decls_now,
                        forall|n: Seq<char>| #[trigger] decl_keys(old(self).decls@).contains(n) ==> decl_keys(decls_now).contains(n),
                        decl_keys(decls_now).contains(st.name@),
                        scope_grew(self.env.scope(), old(self).env.scope()),
                        self.env.scope().contains_key(st.name@),
                        self.env.scope()[st.name@] == (TypeModel::Struct { name: st.name@ }),
                    decreases st.fields@.len() - k,
                {
                    let ft = self.resolve_type(st.fields[k].1.as_str());
                    let mut kv: Vec<char> = Vec::new();
                    push_str_chars(&mut kv, st.name.as_str());
                    kv.push('.');
                    push_str_chars(&mut kv, st.fields[k].0.as_str());
                    let key = string_from_chars(&kv);
                    assert(key@.len() > st.name@.len());
                    self.env.set(key, ft);
                    k = k + 1;
                }
            },
            Declaration::Impl(b) => {
                let full_target = if b.generic_params.len() == 0 {
                    b.target_name.clone()
                } else {
                    let joined = crate::text::join_strings(b.generic_params.as_slice(), ", ");
                    let j = string_from_chars(&joined);
                    text_of(&[b.target_name.as_str(), "<", j.as_str(), ">"])
                };
                let base_target = if contains_char(b.target_name.as_str(), '<') {
                    before_char(b.target_name.as_str(), '<')
                } else {
                    b.target_name.clone()
                };
                let mut k: usize = 0;
                while k < b.functions.len()
                    invariant
                        k <= b.functions@.len(),
                        *decl == Declaration::Impl(*b),
                        forall|n: Seq<char>| #[trigger] decl_keys(old(self).decls@).contains(n) ==> decl_keys(self.decls@).contains(n),
                        scope_grew(self.env.scope(), old(self).env.scope()),
                    decreases b.functions@.len() - k,
                {
                    let f = &b.functions[k];
                    let name = text_of(&[base_target.as_str(), "::", f.name.as_str()]);
                    self.register_function(name, f, Some(&full_target));
                    k = k + 1;
                }
            },
            _ => {},
        }
    }

    /// Checks a program: registers every declaration, then checks every
    /// function body (those of impl blocks included), stopping at the first
    /// error.
    #[verifier::spinoff_prover]
    #[verifier::rlimit(40)]
    pub fn check_program(&mut self, program: &Program) -> (r: Result<(), CompileError>)
        ensures
            scope_grew(final(self).names_in_scope(), old(self).names_in_scope()),
            forall|i: int| 0 <= i < program.declarations@.len()
                && #[trigger] registered_name(program.declarations@[i]) is Some
                ==> final(self).names_in_scope().contains_key(registered_name(program.declarations@[i]).unwrap()),
            (forall|i: int| 0 <= i < program.declarations@.len() ==> #[trigger] literal_decl(program.declarations@[i]))
                ==> r is Ok,
            (exists|i: int| 0 <= i < program.declarations@.len() && #[trigger] misfit_decl(program.declarations@[i]))
                ==> r is Err,
            forall|i: int| #[trigger] return_checked_first(program.declarations@, i)
                ==> return_outcome(*final(self), program.declarations@[i]->Function_0, r),
    {
        self.current_module = match &program.module_name {
            Some(m) => Some(m.clone()),
            None => None,
        };
        let mut i: usize = 0;
        while i < program.declarations.len()
            invariant
                i <= program.declarations@.len(),
                scope_grew(self.env.scope(), old(self).env.scope()),
                forall|j: int| 0 <= j < i && #[trigger] registered_name(program.declarations@[j]) is Some
                    ==> self.env.scope().contains_key(registered_name(program.declarations@[j]).unwrap())
                        && decl_keys(self.decls@).contains(registered_name(program.declarations@[j]).unwrap()),
            decreases program.declarations@.len() - i,
        {
            self.register_declaration(&program.declarations[i]);
            i = i + 1;
        }
        self.global_env = Some(self.env.duplicate());
        let ghost env_after = self.env;
        let ghost s1 = *self;
        let mut i: usize = 0;
        while i < program.declarations.len()
            invariant
                i <= program.declarations@.len(),
                self.env == env_after,
                s1.env == env_after,
                frame_kept(*self, s1),
                forall|j: int| 0 <= j < i && #[trigger] return_checked_first(program.declarations@, j)
                    ==> return_outcome(s1, program.declarations@[j]->Function_0, Ok(())),
                scope_grew(env_after.scope(), old(self).env.scope()),
                forall|j: int| 0 <= j < program.declarations@.len() && #[trigger] registered_name(program.declarations@[j]) is Some
                    ==> env_after.scope().contains_key(registered_name(program.declarations@[j]).unwrap()),
                forall|j: int| 0 <= j < i ==> !#[trigger] misfit_decl(program.declarations@[j]),
            decreases program.declarations@.len() - i,
        {
            match &program.declarations[i] {
                Declaration::Function(f) => {
                    assert(literal_decl(program.declarations@[i as int]) ==> literal_body(*f));
                    let ghost before = *self;
                    let res = self.check_fn_body(f, None);
                    match res {
                        Ok(()) => {
                            proof {
                                lemma_outcome_transfer(s1, before, *f, Ok(()), Ok(()));
                            }
                        },
                        Err(e) => {
                            proof {
                                assert(!literal_decl(program.declarations@[i as int]));
                                assert forall|j: int| #[trigger] return_checked_first(program.declarations@, j)
                                    implies return_outcome(*self, program.declarations@[j]->Function_0, Err(e)) by {
                                    if j < i {
                                        lemma_outcome_transfer(*self, s1, program.declarations@[j]->Function_0, Ok(()), Err(e));
                                    } else if j == i {
                                        lemma_outcome_transfer(*self, before, *f, Err(e), Err(e));
                                    } else {
                                        assert(literal_decl(program.declarations@[i as int]));
                                    }
                                }
                            }
                            return Err(e);
                        },
                    }
                },
                Declaration::Impl(b) => {
                    let mut k: usize = 0;
                    while k < b.functions.len()
                        invariant
                            k <= b.functions@.len(),
                            self.env == env_after,
                            scope_grew(env_after.scope(), old(self).env.scope()),
                            forall|j: int| 0 <= j < program.declarations@.len()
                                && #[trigger] registered_name(program.declarations@[j]) is Some
                                ==> env_after.scope().contains_key(registered_name(program.declarations@[j]).unwrap()),
                            forall|j: int| 0 <= j < i ==> !#[trigger] misfit_decl(program.declarations@[j]),
                            i < program.declarations@.len(),
                            program.declarations@[i as int] matches Declaration::Impl(bb) && bb == *b,
                            forall|kk: int| 0 <= kk < k ==> !#[trigger] opens_with_misfit(b.functions@[kk]),
                            s1.env == env_after,
                            frame_kept(*self, s1),
                            forall|j: int| 0 <= j < i && #[trigger] return_checked_first(program.declarations@, j)
                                ==> return_outcome(s1, program.declarations@[j]->Function_0, Ok(())),
                        decreases b.functions@.len() - k,
                    {
                        assert(literal_decl(program.declarations@[i as int]) ==> literal_body(b.functions@[k as int]));
                        let res = self.check_fn_body(&b.functions[k], Some(&b.target_name));
                        if let Err(e) = res {
                            proof {
                                assert(!literal_decl(program.declarations@[i as int]));
                                assert forall|j: int| #[trigger] return_checked_first(program.declarations@, j)
                                    implies return_outcome(*self, program.declarations@[j]->Function_0, Err(e)) by {
                                    if j < i {
                                        lemma_outcome_transfer(*self, s1, program.declarations@[j]->Function_0, Ok(()), Err(e));
                                    } else if j > i {
                                        assert(literal_decl(program.declarations@[i as int]));
                                    }
                                }
                            }
                            return Err(e);
                        }
                        k = k + 1;
                    }
                },
                _ => {},
            }
            i = i + 1;
        }
        proof {
            assert forall|j: int| #[trigger] return_checked_first(program.declarations@, j)
                implies return_outcome(*self, program.declarations@[j]->Function_0, Ok(())) by {
                lemma_outcome_transfer(*self, s1, program.declarations@[j]->Function_0, Ok(()), Ok(()));
            }
        }
        Ok(())
    }

    /// Checks one function body in a fresh enclosed scope holding its
    /// parameters, against its declared return type; `self_target` replaces
    /// the type name `Self`.
    fn check_fn_body(&mut self, f: &Function, self_target: Option<&String>) -> (r: Result<(), CompileError>)
        ensures
            final(self).env == old(self).env,
            final(self).type_params == old(self).type_params,
            final(self).current_module == old(self).current_module,
            literal_body(*f) ==> r is Ok,
            opens_with_misfit(*f) ==> r is Err,
            self_target is None ==> return_outcome(*old(self), *f, r),
    {
        let body = match &f.body {
            Some(b) => b,
            None => {
                return Ok(());
            },
        };
        let was_unsafe = self.in_unsafe_context;
        if has_unsafe_modifier(&f.modifiers) {
            self.in_unsafe_context = true;
        }
        let mut scope = Environment::new_enclosed(self.env.duplicate());
        std::mem::swap(&mut scope, &mut self.env);
        let old_env = scope;
        let ret_name = match self_target {
            Some(t) => if str_eq(f.return_type.as_str(), "Self") { t.clone() } else { f.return_type.clone() },
            None => f.return_type.clone(),
        };
        let resolved_ret = self.resolve_type(ret_name.as_str());
        let ghost rm = resolved_ret.model();
        proof {
            if self_target is None {
                assert(ret_name@ == f.return_type@);
                lemma_resolves_alike(*self, *old(self), ret_name@, rm);
            }
        }
        let mut old_ret: Option<Type> = Some(resolved_ret);
        std::mem::swap(&mut old_ret, &mut self.current_return_type);
        let mut k: usize = 0;
        while k < f.params.len()
            invariant
                k <= f.params@.len(),
                self.current_return_type matches Some(t) && t.model() == rm,
                self.type_params == old(self).type_params,
                self.current_module == old(self).current_module,
            decreases f.params@.len() - k,
        {
            let pt = match self_target {
                Some(t) => if str_eq(f.params[k].1.as_str(), "Self") { t.clone() } else { f.params[k].1.clone() },
                None => f.params[k].1.clone(),
            };
            let ty = self.resolve_type(pt.as_str());
            self.env.set(f.params[k].0.clone(), ty);
            k = k + 1;
        }
        let result = self.check_block(body);
        self.current_return_type = old_ret;
        self.env = old_env;
        self.in_unsafe_context = was_unsafe;
        match result {
            Ok(_) => Ok(()),
            Err(e) => Err(e),
        }
    }

    /// Checks statements in order; the type of the last one (unit when there are none).
    fn check_block(&mut self, ss: &Vec<Statement>) -> (r: Result<Type, CompileError>)
        ensures
            frame_kept(*final(self), *old(self)),
            (forall|i: int| 0 <= i < ss@.len() ==> #[trigger] literal_let_fits(ss@[i]) == Some(true))
                ==> (r matches Ok(t) && t.model() == TypeModel::Unit),
            (ss@.len() > 0 && literal_let_fits(ss@[0]) == Some(false)) ==> r is Err,
            old(self).fitting_calls(ss@) ==> (r matches Ok(t) && t.model() == old(self).calls_type(ss@) && *final(self) == *old(self)),
            opening_return_misfit(ss@, old(self).current_return_type) ==> (r matches Err(e) && type_error_at(e,
                return_mismatch_text(opening_return(ss@).unwrap().0, old(self).current_return_type.unwrap().model()),
                opening_return(ss@).unwrap().1)),
        decreases ss@, 1nat,
    {
        let mut last = Type::Unit;
        let mut i: usize = 0;
        while i < ss.len()
            invariant
                frame_kept(*self, *old(self)),
                i <= ss@.len(),
                i == 0 ==> *self == *old(self),
                i > 0 ==> !(ss@.len() > 0 && literal_let_fits(ss@[0]) == Some(false)),
                i > 0 ==> !opening_return_misfit(ss@, old(self).current_return_type),
                old(self).fitting_calls(ss@) ==> *self == *old(self) && last.model() == old(self).calls_type(ss@.take(i as int)),
                (forall|k: int| 0 <= k < ss@.len() ==> #[trigger] literal_let_fits(ss@[k]) == Some(true))
                    ==> last.model() == TypeModel::Unit,
            decreases ss@.len() - i,
        {
            last = self.check_statement(&ss[i])?;
            i = i + 1;
        }
        Ok(last)
    }

    /// Checks each expression, stopping at the first error.
    fn check_each(&mut self, args: &Vec<Expression>, from: usize) -> (r: Result<(), CompileError>)
        ensures
            frame_kept(*final(self), *old(self)),
            (forall|k: int| from <= k < args@.len() ==> (#[trigger] pure_type(args@[k])) is Some) ==> r is Ok,
            (from < args@.len() && infix_misfit(args@[from as int])) ==> r is Err,
        decreases args@, 1nat,
    {
        let mut i: usize = from;
        while i < args.len()
            invariant
                frame_kept(*self, *old(self)),
                from <= i,
                i > from ==> !(from < args@.len() && infix_misfit(args@[from as int])),
            decreases args@.len() - i,
        {
            self.check_expression(&args[i])?;
            i = i + 1;
        }
        Ok(())
    }

    /// The type of each expression (unknown where checking fails).
    fn infer_each(&mut self, args: &Vec<Expression>) -> (r: Vec<Type>)
        ensures
            frame_kept(*final(self), *old(self)),
            r@.len() == args@.len(),
            forall|k: int| 0 <= k < args@.len() ==> (#[trigger] pure_type(args@[k]) matches Some(m) ==> r@[k].model() == m),
            forall|k: int| 0 <= k < args@.len() ==> (#[trigger] infix_misfit(args@[k]) ==> r@[k].model() == TypeModel::Unknown),
        decreases args@, 1nat,
    {
        let mut tys: Vec<Type> = Vec::new();
        let mut i: usize = 0;
        while i < args.len()
            invariant
                frame_kept(*self, *old(self)),
                i <= args@.len(),
                tys@.len() == i,
                forall|k: int| 0 <= k < i ==> (#[trigger] pure_type(args@[k]) matches Some(m) ==> tys@[k].model() == m),
                forall|k: int| 0 <= k < i ==> (#[trigger] infix_misfit(args@[k]) ==> tys@[k].model() == TypeModel::Unknown),
            decreases args@.len() - i,
        {
            let t = match self.check_expression(&args[i]) {
                Ok(t) => t,
                Err(_) => Type::Unknown,
            };
            let ghost before = tys@;
            tys.push(t);
            assert forall|k: int| 0 <= k < i + 1 implies (#[trigger] pure_type(args@[k]) matches Some(m) ==> tys@[k].model() == m) by {
                if k < i {
                    assert(tys@[k] == before[k]);
                }
            }
            assert forall|k: int| 0 <= k < i + 1 implies (#[trigger] infix_misfit(args@[k]) ==> tys@[k].model() == TypeModel::Unknown) by {
                if k < i {
                    assert(tys@[k] == before[k]);
                }
            }
            i = i + 1;
        }
        tys
    }

    /// The type of the `i`-th expression.
    fn check_nth(&mut self, args: &Vec<Expression>, i: usize) -> (r: Result<Type, CompileError>)
        requires
            i < args@.len(),
        ensures
            frame_kept(*final(self), *old(self)),
            pure_type(args@[i as int]) matches Some(m) ==> (r matches Ok(t) && t.model() == m && *final(self) == *old(self)),
            infix_misfit(args@[i as int]) ==> r is Err,
        decreases args@, 1nat,
    {
        self.check_expression(&args[i])
    }

    /// Checks call arguments against the parameter types from `skip` on
    /// (as many as there are arguments); `io.println`/`io.print` accept
    /// integers for a string parameter when `io_conversion` is set.
    fn check_call_args(&mut self, function: &str, args: &Vec<Expression>, params: &Vec<Type>, skip: usize, io_conversion: bool) -> (r: Result<(), CompileError>)
        requires
            skip + args@.len() == params@.len(),
        ensures
            frame_kept(*final(self), *old(self)),
            args_fit(args@, params@, skip as int) ==> r is Ok,
            (forall|k: int| 0 <= k < args@.len() ==> (#[trigger] pure_type(args@[k])) is Some) ==> (r is Ok <==>
                forall|k: int| 0 <= k < args@.len() ==> arg_accepted(function@, io_conversion,
                    params@[skip + k].model(), #[trigger] pure_type(args@[k]).unwrap())),
        (forall|k: int| 0 <= k < args@.len() ==> (#[trigger] pure_type(args@[k])) is Some) ==> *final(self) == *old(self),
        decreases args@, 1nat,
    {
        let is_io = io_conversion && (str_eq(function, "io.println") || str_eq(function, "io.print"));
        let total = params.len();
        let mut i: usize = 0;
        while i < args.len()
            invariant
                frame_kept(*self, *old(self)),
                i <= args@.len(),
                skip + args@.len() == params@.len(),
                total == params@.len(),
                is_io == (io_conversion && (function@ == "io.println"@ || function@ == "io.print"@)),
                (forall|k: int| 0 <= k < args@.len() ==> (#[trigger] pure_type(args@[k])) is Some) ==> *self == *old(self),
                (forall|k: int| 0 <= k < args@.len() ==> (#[trigger] pure_type(args@[k])) is Some) ==>
                    forall|k: int| 0 <= k < i ==> arg_accepted(function@, io_conversion,
                        params@[skip + k].model(), #[trigger] pure_type(args@[k]).unwrap()),
            decreases args@.len() - i,
        {
            proof {
                if args_fit(args@, params@, skip as int) {
                    assert(pure_type(args@[i as int]) is Some);
                }
            }
            let at = self.check_expression(&args[i])?;
            let param = &params[skip + i];
            let io_conv = is_io && matches!(param, Type::String) && at.is_integer();
            proof {
                assert((*param is String) == (param.model() is String));
            }
            if !types_unify(param, &at) && !io_conv {
                let span = args[i].span();
                let an = at.name();
                let pn = param.name();
                let l = num_text(span.line);
                let c = num_text(span.col);
                let m = text_of(&["argument of type '", an.as_str(), "' does not match parameter type '", pn.as_str(),
                    "' (line ", l.as_str(), " col ", c.as_str(), ")"]);
                return Err(self.err(m.as_str(), &args[i]));
            }
            i = i + 1;
        }
        Ok(())
    }

    /// The type of a name: its binding, or for `var.field` the field of
    /// `var`'s struct or generic type; unknown otherwise.
    fn identifier_type(&self, name: &str) -> (t: Type)
        ensures
            self.env.scope().contains_key(name@) ==> t.model() == self.env.scope()[name@],
            (!has_char(name@, '.') && self.env.lookup_ok(name@, None)) ==> t.model() == TypeModel::Unknown,
    {
        if let Some(t) = self.env.get(name) {
            proof {
                super::environment::lemma_lookup_found(self.env, name@, t.model());
            }
            return t;
        }
        proof {
            if self.env.scope().contains_key(name@) {
                super::environment::lemma_get_after_set(self.env, name@, self.env.scope()[name@]);
            }
        }
        if let Some((var, field)) = split_first_dot(name) {
            let rt = match self.env.get(var.as_str()) {
                Some(t) => t,
                None => Type::Unknown,
            };
            let tn = match rt {
                Type::GenericInstance(n, _) => n,
                Type::Struct { name: n } => n,
                Type::Placeholder(n) => n,
                _ => String::new(),
            };
            if chars_of(tn.as_str()).len() > 0 {
                let full = self.full_name(tn.as_str());
                let key = text_of(&[full.as_str(), ".", field.as_str()]);
                if let Some(t) = self.env.get(key.as_str()) {
                    return t;
                }
            }
        }
        Type::Unknown
    }

    /// The type the function registered as `Type::method` or `Type.method` has.
    fn method_type(&self, full: &str, method: &str) -> (r: (Option<Type>, String, String))
        ensures
            r.1@ == full@ + "::"@ + method@,
            r.2@ == full@ + "."@ + method@,
            match r.0 {
                Some(t) => self.env.lookup_ok(r.1@, Some(t.model()))
                    || (self.env.lookup_ok(r.1@, None) && self.env.lookup_ok(r.2@, Some(t.model()))),
                None => self.env.lookup_ok(r.1@, None) && self.env.lookup_ok(r.2@, None),
            },
    {
        let cand_colon = concat3_text(full, "::", method);
        let cand_dot = concat3_text(full, ".", method);
        let ft = match self.env.get(cand_colon.as_str()) {
            Some(t) => Some(t),
            None => self.env.get(cand_dot.as_str()),
        };
        (ft, cand_colon, cand_dot)
    }

    /// Whether the method declared as `cand_colon` (else `cand_dot`) takes `self` first.
    fn method_has_self(&self, cand_colon: &str, cand_dot: &str) -> (b: bool)
        ensures
            b == if decl_lookup(self.decls@, cand_colon@) is Some {
                self.is_method_spec(cand_colon@)
            } else {
                self.is_method_spec(cand_dot@)
            },
    {
        if self.decl_get(cand_colon).is_some() {
            self.is_method(cand_colon)
        } else {
            self.is_method(cand_dot)
        }
    }

    /// Checks a call of a method-style function with `params`, the receiver
    /// parameter skipped when it has one: arity, then each argument.
    fn check_method_args(&mut self, method: &str, has_self: bool, params: &Vec<Type>, args: &Vec<Expression>, span: Span) -> (r: Result<(), CompileError>)
        ensures
            frame_kept(*final(self), *old(self)),
            ({
                let skip: int = if has_self && params@.len() > 0 { 1 } else { 0 };
                &&& args@.len() != params@.len() - skip ==> (r matches Err(e)
                    && e matches CompileError::Type { line, col, .. } && line == span.line && col == span.col)
                &&& (args@.len() == params@.len() - skip && args_fit(args@, params@, skip)) ==> r is Ok
                &&& (args@.len() == params@.len() - skip
                    && forall|k: int| 0 <= k < args@.len() ==> (#[trigger] pure_type(args@[k])) is Some) ==> (r is Ok <==>
                    forall|k: int| 0 <= k < args@.len() ==> super::rules::unify_spec(params@[skip + k].model(),
                        #[trigger] pure_type(args@[k]).unwrap()))
            }),
        decreases args@, 2nat,
    {
        let skip: usize = if has_self && params.len() > 0 { 1 } else { 0 };
        let expected = params.len() - skip;
        if args.len() != expected {
            let e = num_text(expected);
            let g = num_text(args.len());
            let m = text_of(&["method '", method, "' expects ", e.as_str(), " arguments, got ", g.as_str()]);
            return Err(self.error_at(m.as_str(), span.line, span.col));
        }
        self.check_call_args(method, args, params, skip, false)
    }

    /// The name of the type a match is on, with its generic arguments.
    fn match_subject(cond_type: &Type) -> (r: (String, Vec<Type>))
        ensures
            r.0@ == match cond_type.model() {
                TypeModel::Enum { name } => name,
                TypeModel::GenericInstance(name, _) => name,
                TypeModel::Integer { .. } => "i64"@,
                TypeModel::String => "String"@,
                TypeModel::Struct { name } => name,
                TypeModel::Placeholder(n) => n,
                _ => "unknown"@,
            },
            super::types::models(r.1@) == match cond_type.model() {
                TypeModel::GenericInstance(_, args) => args,
                _ => Seq::<TypeModel>::empty(),
            },
    {
        match cond_type {
            Type::Enum { name } => (name.clone(), Vec::new()),
            Type::GenericInstance(name, args) => (name.clone(), copy_types(args)),
            Type::Integer { .. } => ("i64".to_owned(), Vec::new()),
            Type::String => ("String".to_owned(), Vec::new()),
            Type::Struct { name } => (name.clone(), Vec::new()),
            Type::Placeholder(n) => (n.clone(), Vec::new()),
            _ => ("unknown".to_owned(), Vec::new()),
        }
    }

    /// Every variant of a matched enum must be covered by some arm.
    #[verifier::spinoff_prover]
    #[verifier::rlimit(40)]
    pub fn check_match_exhaustive(&self, cond_name: &str, arms: &Vec<MatchArm>, at: &Expression) -> (r: Result<(), CompileError>)
        ensures
            match decl_lookup(self.decl_table(), self.resolved(cond_name@)) {
                Some(DeclInfo::Enum { variants, .. }) => (r is Ok <==> forall|i: int| 0 <= i < variants@.len()
                    ==> variant_covered(arms@, #[trigger] variants@[i].0@, variant_names(variants@))),
                _ => r is Ok,
            },
            r matches Err(e) ==> e is Type,
            r matches Err(e) ==> match decl_lookup(self.decl_table(), self.resolved(cond_name@)) {
                Some(DeclInfo::Enum { variants, .. }) => e matches CompileError::Type { message, line, col, .. }
                    && line == at.span_spec().line && col == at.span_spec().col
                    && message@ == "non-exhaustive match on "@ + self.resolved(cond_name@) + " \u{2014} missing variant(s): "@
                        + crate::text::join_seqs(missing_variants(arms@, variants@, variants@.len() as int), ", "@),
                _ => false,
            },
    {
        let full = self.full_name(cond_name);
        let variants = match self.decl_get(full.as_str()) {
            Some(DeclInfo::Enum { variants, .. }) => variants,
            _ => {
                return Ok(());
            },
        };
        let mut missing: Vec<String> = Vec::new();
        let mut i: usize = 0;
        while i < variants.len()
            invariant
                i <= variants@.len(),
                missing@.len() == 0 <==> forall|k: int| 0 <= k < i
                    ==> variant_covered(arms@, #[trigger] variants@[k].0@, variant_names(variants@)),
                crate::text::string_views(missing@) == missing_variants(arms@, variants@, i as int),
            decreases variants@.len() - i,
        {
            let ghost before = crate::text::string_views(missing@);
            if !covered(arms, &variants[i].0, variants) {
                missing.push(variants[i].0.clone());
                assert(crate::text::string_views(missing@) =~= before.push(variants@[i as int].0@));
            }
            i = i + 1;
        }
        if missing.len() > 0 {
            let joined = crate::text::join_strings(missing.as_slice(), ", ");
            let j = string_from_chars(&joined);
            let head = concat3_text("non-exhaustive match on ", full.as_str(), " \u{2014} missing variant(s): ");
            let m = concat_text(head.as_str(), j.as_str());
            return Err(self.err(m.as_str(), at));
        }
        Ok(())
    }

    /// Checks one match arm in a copy of the current scope (its parameters
    /// bound in an enclosed scope): the guard, then the body; the type of
    /// the body's last statement.
    fn check_arm(&mut self, arm: &MatchArm, cond_name: &str, cond_args: &Vec<Type>) -> (r: Result<Type, CompileError>)
        ensures
            frame_kept(*final(self), *old(self)),
            literal_arm(*arm) ==> (r matches Ok(t) && t.model() == TypeModel::Unit),
            guard_misfit(*arm) ==> r is Err,
            arm_misfit(*arm) ==> r is Err,
            r is Ok ==> super::environment::same_scopes(final(self).env, old(self).env),
        decreases *arm, 0nat,
    {
        let old_env = self.env.duplicate();
        let all_patterns: Vec<String> = if arm.patterns.len() == 0 {
            let mut v: Vec<String> = Vec::new();
            v.push(arm.pattern.clone());
            v
        } else {
            copy_strings(&arm.patterns)
        };
        if arm.params.len() > 0 {
            self.env = Environment::new_enclosed(old_env.duplicate());
            self.bind_match_params(cond_name, cond_args, &all_patterns, &arm.params);
        }
        if let Some(g) = &arm.guard {
            self.check_expression(g)?;
        }
        let arm_type = self.check_block(&arm.body)?;
        self.env = old_env;
        Ok(arm_type)
    }

    /// Checks the arms of a match. For a match used as a value, the types
    /// of the arms that give one must unify; the result is the first such
    /// type, replaced by a later concrete one while it is a generic
    /// parameter or unknown.
    fn check_arms(&mut self, arms: &Vec<MatchArm>, cond_name: &str, cond_args: &Vec<Type>, condition: &Expression, as_value: bool) -> (r: Result<Option<Type>, CompileError>)
        ensures
            frame_kept(*final(self), *old(self)),
            (forall|j: int| 0 <= j < arms@.len() ==> #[trigger] literal_arm(arms@[j])) ==> r matches Ok(None),
            (arms@.len() > 0 && guard_misfit(arms@[0])) ==> r is Err,
            first_arm_misfit(arms@) ==> r is Err,
        decreases arms@, 1nat,
    {
        let mut result_type: Option<Type> = None;
        let mut j: usize = 0;
        while j < arms.len()
            invariant
                frame_kept(*self, *old(self)),
                j <= arms@.len(),
                (forall|k: int| 0 <= k < arms@.len() ==> #[trigger] literal_arm(arms@[k])) ==> result_type is None,
                j > 0 ==> !(arms@.len() > 0 && guard_misfit(arms@[0])),
                forall|k: int| 0 <= k < j ==> !(#[trigger] arm_misfit(arms@[k]) && forall|m: int| 0 <= m < k ==> #[trigger] literal_arm(arms@[m])),
            decreases arms@.len() - j,
        {
            let arm_type = self.check_arm(&arms[j], cond_name, cond_args)?;
            if as_value && !matches!(arm_type, Type::Unit) {
                let mut replace = false;
                match &result_type {
                    None => {
                        replace = true;
                    },
                    Some(rt) => {
                        if !types_unify(rt, &arm_type) {
                            let a = rt.name();
                            let b = arm_type.name();
                            let m = text_of(&["match arms return incompatible types '", a.as_str(), "' and '", b.as_str(), "'"]);
                            return Err(self.err(m.as_str(), condition));
                        }
                        let rt_vague = matches!(rt, Type::Placeholder(_) | Type::Unknown);
                        let at_vague = matches!(arm_type, Type::Placeholder(_) | Type::Unknown);
                        if rt_vague && !at_vague {
                            replace = true;
                        }
                    },
                }
                if replace {
                    result_type = Some(arm_type);
                }
            }
            j = j + 1;
        }
        Ok(result_type)
    }

    /// Checks a statement; the type of an expression statement, unit otherwise.
    #[verifier::spinoff_prover]
    #[verifier::rlimit(40)]
    fn check_statement(&mut self, stmt: &Statement) -> (r: Result<Type, CompileError>)
        ensures
            frame_kept(*final(self), *old(self)),
            literal_let_fits(*stmt) == Some(true) ==> (r matches Ok(t) && t.model() == TypeModel::Unit),
            literal_let_fits(*stmt) == Some(false) ==> r is Err,
            old(self).fitting_call_stmt(*stmt) ==> (r is Ok && *final(self) == *old(self)),
            *stmt matches Statement::Match { condition, arms, .. } ==> (old(self).operand_type(condition) matches Some(m) ==> {
                &&& !old(self).match_covers(subject_name(m), arms@) ==> r is Err
                &&& (old(self).match_covers(subject_name(m), arms@) && first_arm_misfit(arms@)) ==> r is Err
                &&& (old(self).match_covers(subject_name(m), arms@)
                    && forall|j: int| 0 <= j < arms@.len() ==> #[trigger] literal_arm(arms@[j]))
                    ==> (r matches Ok(t) && t.model() == TypeModel::Unit)
            }),
            match *stmt {
                Statement::Let { name, value, explicit_type, .. } => {
                    &&& r is Ok ==> final(self).env.scope().contains_key(name@)
                    &&& (r is Ok && explicit_type is Some)
                        ==> final(self).env.scope()[name@] == super::types::parse_type_spec(explicit_type.unwrap()@)
                    &&& pure_type(value) matches Some(m) ==> (match explicit_type {
                        None => r is Ok && final(self).env.scope()[name@] == m,
                        Some(et) => {
                            &&& r is Ok <==> (m == super::types::parse_type_spec(et@)
                                || (m is Integer && super::types::parse_type_spec(et@) is Integer))
                            &&& r matches Err(e) ==> (e matches CompileError::Type { message, line, col, .. }
                                && message@ == "let annotation '"@ + super::types::type_name_spec(super::types::parse_type_spec(et@))
                                    + "' does not match value type '"@ + super::types::type_name_spec(m) + "'"@
                                && line == value.span_spec().line && col == value.span_spec().col)
                        },
                    })
                },
                Statement::Match { condition, arms, .. } => match condition {
                    Expression::Identifier(x, _) => old(self).env.scope().contains_key(x@) ==> match old(self).env.scope()[x@] {
                        TypeModel::Enum { name } => match decl_lookup(old(self).decls@, old(self).resolved(name)) {
                            Some(DeclInfo::Enum { variants, .. }) => (exists|i: int| 0 <= i < variants@.len()
                                && !variant_covered(arms@, #[trigger] variants@[i].0@, variant_names(variants@))) ==> r is Err,
                            _ => true,
                        },
                        _ => true,
                    },
                    _ => true,
                },
                Statement::Spawn(body, _) => (exists|k: int| 0 <= k < spawn_free(body@).len()
                    && !old(self).spawn_global(#[trigger] spawn_free(body@)[k])) ==> r is Err,
                Statement::Assignment { target, value, .. } => (old(self).operand_type(target) is Some
                    && old(self).operand_type(value) is Some) ==> {
                    let tm = old(self).operand_type(target).unwrap();
                    let vm = old(self).operand_type(value).unwrap();
                    &&& r is Ok <==> super::rules::unify_spec(tm, vm)
                    &&& r matches Ok(t) ==> t.model() == TypeModel::Unit
                    &&& r matches Err(e) ==> type_error_at(e, assign_mismatch_text(vm, tm, value.span_spec()), value.span_spec())
                },
                Statement::ExpressionStmt(e, _) => old(self).operand_type(e) matches Some(m)
                    ==> (r matches Ok(t) && t.model() == m),
                Statement::If { condition, then_branch, else_branch, .. } => (old(self).operand_type(condition) is Some
                    && literal_block(then_branch@) && (else_branch matches Some(eb) ==> literal_block(eb@)))
                    ==> (r matches Ok(t) && t.model() == TypeModel::Unit),
                Statement::UnsafeBlock(body, _) => old(self).entering_unsafe().fitting_calls(body@)
                    ==> (r is Ok && *final(self) == *old(self)),
                Statement::While { condition, body, .. } => (old(self).operand_type(condition) is Some
                    && literal_block(body@)) ==> (r matches Ok(t) && t.model() == TypeModel::Unit),
                Statement::Return { value, span, .. } => pure_type(value) matches Some(m) ==> {
                    &&& r is Ok <==> (match old(self).current_return_type {
                        Some(et) => super::rules::unify_spec(et.model(), m),
                        None => true,
                    })
                    &&& r matches Err(e) ==> (e matches CompileError::Type { message, line, col, .. }
                        && old(self).current_return_type is Some
                        && message@ == "return value of type '"@ + super::types::type_name_spec(m)
                            + "' does not match declared return type '"@
                            + super::types::type_name_spec(old(self).current_return_type.unwrap().model()) + "'"@
                        && line == span.line && col == span.col)
                },
                _ => r matches Ok(t) && t.model() == TypeModel::Unit && *final(self) == *old(self),
            },
        decreases *stmt, 0nat,
    {
        match stmt {
            Statement::Let { name, value, explicit_type, .. } => {
                let val_type = self.check_expression(value)?;
                let final_type = match explicit_type {
                    Some(et) => {
                        let annotated = Type::parse(et.as_str());
                        if val_type.same(&annotated) || (annotated.is_integer() && val_type.is_integer()) {
                            annotated
                        } else {
                            let a = annotated.name();
                            let v = val_type.name();
                            let m1 = concat3_text("let annotation '", a.as_str(), "' does not match value type '");
                            let m = concat3_text(m1.as_str(), v.as_str(), "'");
                            return Err(self.err(m.as_str(), value));
                        }
                    },
                    None => val_type,
                };
                self.env.set(name.clone(), final_type);
                Ok(Type::Unit)
            },
            Statement::Assignment { target, value, .. } => {
                let tt = self.check_expression(target)?;
                let vt = self.check_expression(value)?;
                if !types_unify(&tt, &vt) {
                    let span = value.span();
                    let vn = vt.name();
                    let tn = tt.name();
                    let l = num_text(span.line);
                    let c = num_text(span.col);
                    let m1 = concat3_text("cannot assign value of type '", vn.as_str(), "' to target of type '");
                    let m2 = concat3_text(m1.as_str(), tn.as_str(), "' (line ");
                    let m3 = concat3_text(m2.as_str(), l.as_str(), " col ");
                    let m = concat3_text(m3.as_str(), c.as_str(), ")");
                    return Err(self.err(m.as_str(), value));
                }
                Ok(Type::Unit)
            },
            Statement::Return { value, span, .. } => {
                let ty = self.check_expression(value)?;
                if let Some(expected) = &self.current_return_type {
                    if !types_unify(expected, &ty) {
                        let a = ty.name();
                        let b = expected.name();
                        let m1 = concat3_text("return value of type '", a.as_str(), "' does not match declared return type '");
                        let m = concat3_text(m1.as_str(), b.as_str(), "'");
                        return Err(self.error_at(m.as_str(), span.line, span.col));
                    }
                }
                Ok(Type::Unit)
            },
            Statement::ExpressionStmt(e, _) => self.check_expression(e),
            Statement::If { condition, then_branch, else_branch, .. } => {
                self.check_expression(condition)?;
                self.check_block(then_branch)?;
                if let Some(eb) = else_branch {
                    self.check_block(eb)?;
                }
                Ok(Type::Unit)
            },
            Statement::While { condition, body, .. } => {
                self.check_expression(condition)?;
                self.check_block(body)?;
                Ok(Type::Unit)
            },
            Statement::Break(_) => Ok(Type::Unit),
            Statement::Continue(_) => Ok(Type::Unit),
            Statement::UnsafeBlock(body, _) => {
                let was = self.in_unsafe_context;
                self.in_unsafe_context = true;
                self.check_block(body)?;
                self.in_unsafe_context = was;
                Ok(Type::Unit)
            },
            Statement::Match { condition, arms, .. } => {
                let cond_type = self.check_expression(condition)?;
                let (cond_name, cond_args) = TypeChecker::match_subject(&cond_type);
                self.check_match_exhaustive(cond_name.as_str(), arms, condition)?;
                self.check_arms(arms, cond_name.as_str(), &cond_args, condition, false)?;
                Ok(Type::Unit)
            },
            Statement::Spawn(body, span) => {
                let mut bound: Vec<String> = Vec::new();
                let mut free: Vec<String> = Vec::new();
                proof {
                    assert(crate::text::string_views(bound@) =~= Seq::<Seq<char>>::empty());
                    assert(crate::text::string_views(free@) =~= Seq::<Seq<char>>::empty());
                }
                walk_spawn_block(body, &mut bound, &mut free);
                let mut i: usize = 0;
                while i < free.len()
                    invariant
                        frame_kept(*self, *old(self)),
                        i <= free@.len(),
                        *stmt is Spawn,
                        *self == *old(self),
                        crate::text::string_views(free@) == spawn_free(body@),
                        forall|k: int| 0 <= k < i ==> old(self).spawn_global(#[trigger] spawn_free(body@)[k]),
                    decreases free@.len() - i,
                {
                    if !self.is_spawn_global(free[i].as_str()) {
                        let m = text_of(&["spawn block captures variable '", free[i].as_str(),
                            "' \u{2014} spawn bodies run on a separate thread and cannot capture locals (#176)"]);
                        return Err(self.error_at(m.as_str(), span.line, span.col));
                    }
                    i = i + 1;
                }
                let globals = match &self.global_env {
                    Some(g) => g.duplicate(),
                    None => Environment::new(),
                };
                let mut scope = Environment::new_enclosed(globals);
                std::mem::swap(&mut scope, &mut self.env);
                let result = self.check_block(body);
                self.env = scope;
                result?;
                Ok(Type::Unit)
            },
            _ => Ok(Type::Unit),
        }
    }

    /// Checks the arguments of an intrinsic call and gives its type (see
    /// [`intrinsic_result`]; `mem_zero(T)` of a declared struct or enum `T`
    /// has that type).
    fn check_intrinsic(&mut self, name: &String, arguments: &Vec<Expression>) -> (r: Result<Type, CompileError>)
        ensures
            frame_kept(*final(self), *old(self)),
            (forall|k: int| intrinsic_target(name@, arguments@).1 <= k < arguments@.len()
                ==> (#[trigger] pure_type(arguments@[k])) is Some)
                ==> (r matches Ok(t) && t.model() == intrinsic_result(intrinsic_target(name@, arguments@).0,
                    arguments@.len() - intrinsic_target(name@, arguments@).1)),
        decreases arguments@, 2nat,
    {
        let mut actual_name = name.clone();
        let mut start: usize = 0;
        if str_eq(name.as_str(), "intrinsic") && arguments.len() > 0 {
            if let Expression::String(s, _) = &arguments[0] {
                actual_name = s.clone();
                start = 1;
            }
        }
        assert(actual_name@ == intrinsic_target(name@, arguments@).0);
        assert(start as int == intrinsic_target(name@, arguments@).1);
        self.check_each(arguments, start)?;
        let ghost res_m = intrinsic_result(actual_name@, arguments@.len() - start);
        if str_eq(actual_name.as_str(), "mem_zero") {
            if start < arguments.len() {
                let ghost pure_args = forall|k: int| start <= k < arguments@.len()
                    ==> (#[trigger] pure_type(arguments@[k])) is Some;
                let tnm: String = match &arguments[start] {
                    Expression::Identifier(s, _) => {
                        assert(!pure_args) by {
                            assert(pure_type(arguments@[start as int]) is None);
                        }
                        s.clone()
                    },
                    Expression::TypeRef { name: s, .. } => {
                        assert(!pure_args) by {
                            assert(pure_type(arguments@[start as int]) is None);
                        }
                        s.clone()
                    },
                    _ => {
                        return Ok(Type::i64());
                    },
                };
                let full = self.full_name(tnm.as_str());
                match self.decl_get(full.as_str()) {
                    Some(DeclInfo::Struct { .. }) => Ok(Type::Struct { name: full }),
                    Some(DeclInfo::Enum { .. }) => Ok(Type::Enum { name: full }),
                    _ => Ok(Type::i64()),
                }
            } else {
                let p = Type::Pointer(Box::new(Type::Unknown));
                assert(res_m == TypeModel::Pointer(Box::new(TypeModel::Unknown)));
                assert(p.model() == TypeModel::Pointer(Box::new(TypeModel::Unknown))) by {
                    assert(Type::Unknown.model() == TypeModel::Unknown);
                }
                Ok(p)
            }
        } else if starts_with_text(actual_name.as_str(), "ai_tensor_") {
            let tensor = "std.ai.tensor.Tensor".to_owned();
            assert(tensor@ == "std.ai.tensor.Tensor"@);
            let t = Type::Struct { name: tensor };
            assert(t.model() == res_m);
            Ok(t)
        } else {
            match intrinsic_ret_type(actual_name.as_str()) {
                Some(t) => {
                    assert(t.model() == res_m);
                    Ok(t)
                },
                None => {
                    let t = Type::i64();
                    assert(t.model() == res_m);
                    Ok(t)
                },
            }
        }
    }

    /// Checks an expression and gives its type. Literals have their own
    /// type (characters are `i64`); a struct literal has its struct's type;
    /// a call of a plain name bound only to unsafe functions is rejected
    /// outside an unsafe context.
    #[verifier::spinoff_prover]
    #[verifier::rlimit(40)]
    fn check_expression(&mut self, expr: &Expression) -> (r: Result<Type, CompileError>)
        ensures
            frame_kept(*final(self), *old(self)),
            pure_type(*expr) matches Some(m) ==> (r matches Ok(t) && t.model() == m && *final(self) == *old(self)),
            old(self).fitting_call(*expr) ==> (r is Ok && *final(self) == *old(self)),
            old(self).operand_type(*expr) matches Some(m) ==> (r matches Ok(t) && t.model() == m && *final(self) == *old(self)),
            *expr is Range ==> (r matches Err(e) && e matches CompileError::Internal { message, line: 0, col: 0, snippet: None }
                && message@ == "Unsupported expression "@ + crate::ast::debug::expr_debug(*expr)),
            *expr matches Expression::Match { condition, arms, .. } ==> (old(self).operand_type(*condition) matches Some(m) ==> {
                &&& !old(self).match_covers(subject_name(m), arms@) ==> r is Err
                &&& (old(self).match_covers(subject_name(m), arms@) && first_arm_misfit(arms@)) ==> r is Err
                &&& (old(self).match_covers(subject_name(m), arms@)
                    && forall|j: int| 0 <= j < arms@.len() ==> #[trigger] literal_arm(arms@[j]))
                    ==> (r matches Ok(t) && t.model() == TypeModel::Unit)
            }),
            match *expr {
                Expression::Infix { left, operator, right, .. } => (old(self).operand_type(*left) is Some
                    && old(self).operand_type(*right) is Some) ==> {
                    let a = old(self).operand_type(*left).unwrap();
                    let b = old(self).operand_type(*right).unwrap();
                    match super::rules::infix_outcome(a, b, operator.kind) {
                        super::rules::InfixOutcome::Typed(t) => r matches Ok(x) && x.model() == t,
                        o => r matches Err(e) && super::rules::infix_error_ok(e, a, b, operator, o),
                    }
                },
                Expression::Identifier(name, _) => r matches Ok(t) && *final(self) == *old(self)
                    && (old(self).env.scope().contains_key(name@) ==> t.model() == old(self).env.scope()[name@]),
                Expression::StructInst { name, .. } => r matches Ok(t)
                    && t.model() == (TypeModel::Struct { name: old(self).resolved(name@) }),
                Expression::Call { function, arguments, span, .. } => {
                    &&& (old(self).by_name_call(function@) && !old(self).in_unsafe_context
                        && forall|t: Option<TypeModel>| #[trigger] old(self).env.lookup_ok(function@, t)
                        ==> (t matches Some(TypeModel::Function { is_unsafe: true, .. }))) ==> r is Err
                    &&& (old(self).by_name_call(function@) && !old(self).in_unsafe_context
                        && old(self).env.scope().contains_key(function@)
                        && old(self).env.scope()[function@] matches TypeModel::Function { is_unsafe: true, .. })
                        ==> (r matches Err(e) && e matches CompileError::Type { message, line, col, .. }
                            && message@ == "call to unsafe function '"@ + function@ + "' requires unsafe block"@
                            && line == span.line && col == span.col)
                    &&& (old(self).by_name_call(function@) && old(self).env.lookup_ok(function@, None)
                        && !(old(self).in_unsafe_context && "aion_"@.len() <= function@.len()
                            && function@.take("aion_"@.len() as int) == "aion_"@)
                        && function@.len() < usize::MAX && all_measurable(fn_candidates(old(self).decls@)))
                        ==> (r matches Err(e) && e matches CompileError::NotFound { kind, name, suggestion, line, col, .. }
                            && kind@ == "function"@ && name@ == function@ && line == span.line && col == span.col
                            && suggestion@ == crate::error::suggestion_text(function_suggestion(old(self).decls@, function@))
                            && e.snippet_spec() == (if span.line > 0 && span.col <= usize::MAX - 6 {
                                crate::error::snippet_spec(old(self).source@, span.line as nat, span.col as nat)
                            } else {
                                None
                            }))
                    &&& (old(self).by_name_call(function@) && old(self).env.scope().contains_key(function@)
                        && old(self).env.scope()[function@] is Function
                        && (!old(self).env.scope()[function@]->is_unsafe || old(self).in_unsafe_context))
                        ==> {
                            let params = old(self).env.scope()[function@]->params;
                            &&& arguments@.len() != params.len() ==> (r matches Err(e)
                                && e matches CompileError::Type { message, line, col, .. }
                                && message@ == "function '"@ + function@ + "' expects "@ + crate::text::nat_text(params.len())
                                    + " arguments, got "@ + crate::text::nat_text(arguments@.len())
                                && line == span.line && col == span.col)
                            &&& (arguments@.len() == params.len() && forall|i: int| 0 <= i < arguments@.len()
                                ==> (#[trigger] pure_type(arguments@[i])) is Some
                                    && super::rules::unify_spec(params[i], pure_type(arguments@[i]).unwrap()))
                                ==> (r matches Ok(t) && t.model() == *old(self).env.scope()[function@]->return_type)
                            &&& (arguments@.len() == params.len() && forall|i: int| 0 <= i < arguments@.len()
                                ==> (#[trigger] pure_type(arguments@[i])) is Some)
                                ==> ((r is Ok <==> forall|i: int| 0 <= i < arguments@.len() ==> arg_accepted(function@, true,
                                        params[i], #[trigger] pure_type(arguments@[i]).unwrap()))
                                    && (r matches Ok(t) ==> t.model() == *old(self).env.scope()[function@]->return_type))
                        }
                },
                Expression::Cast { expr: inner, target, .. } => pure_type(*inner) matches Some(m) ==>
                    exists|d: TypeModel| #[trigger] old(self).resolves_to(target@, d) && if super::rules::cast_allowed(m, d) {
                        r matches Ok(t) && t.model() == d
                    } else {
                        r matches Err(e) && e matches CompileError::Type { message, line, col, .. }
                            && message@ == "cannot cast "@ + super::types::type_name_spec(m) + " to "@ + super::types::type_name_spec(d)
                            && line == inner.span_spec().line && col == inner.span_spec().col
                    },
                Expression::MethodCall { receiver, method, arguments, span, .. } => old(self).operand_type(*receiver) matches Some(rt) ==> {
                    let is_offset = method@ == "offset"@ && rt is Pointer;
                    &&& (is_offset && arguments@.len() == 0) ==> (r matches Ok(t) && t.model() == rt)
                    &&& (!is_offset && method_owner(rt) is None) ==> (r matches Err(e)
                        && type_error_at(e, "method call on "@ + super::types::type_name_spec(rt), span))
                    &&& (!is_offset && method_owner(rt) is Some) ==> {
                        let full = old(self).resolved(method_owner(rt).unwrap());
                        let colon = full + "::"@ + method@;
                        let dot = full + "."@ + method@;
                        &&& (old(self).env.lookup_ok(colon, None) && old(self).env.lookup_ok(dot, None)) ==> (r matches Err(e)
                            && e matches CompileError::NotFound { kind, name, line, col, .. }
                            && kind@ == "method"@ && name@ == method@ && line == span.line && col == span.col)
                        &&& forall|tm: TypeModel| (old(self).env.lookup_ok(colon, Some(tm))
                            || (old(self).env.lookup_ok(colon, None) && old(self).env.lookup_ok(dot, Some(tm))))
                            ==> match tm {
                                TypeModel::Function { is_unsafe, .. } => (is_unsafe && !old(self).in_unsafe_context)
                                    ==> (r matches Err(e) && type_error_at(e, "unsafe method call '"@ + method@ + "'"@, span)),
                                _ => r is Err,
                            }
                    }
                },
                Expression::TypeRef { name, generic_args, .. } => r matches Ok(t)
                    && t.model() matches TypeModel::GenericInstance(n, args) && n == name@
                    && args.len() == generic_args@.len()
                    && forall|i: int| 0 <= i < args.len() ==> (old(self).env.lookup_ok(#[trigger] generic_args@[i]@,
                        Some(args[i])) || (old(self).env.lookup_ok(generic_args@[i]@, None) && args[i] == TypeModel::Unknown)),
                Expression::Intrinsic { name, arguments, .. } => (forall|k: int| intrinsic_target(name@, arguments@).1 <= k
                    < arguments@.len() ==> (#[trigger] pure_type(arguments@[k])) is Some)
                    ==> (r matches Ok(t) && t.model() == intrinsic_result(intrinsic_target(name@, arguments@).0,
                        arguments@.len() - intrinsic_target(name@, arguments@).1)),
                Expression::Deref { expr: inner, .. } => old(self).operand_type(*inner) matches Some(m) ==>
                    match deref_result(m) {
                        Some(d) => r matches Ok(t) && t.model() == d,
                        None => r matches Err(e) && e matches CompileError::Type { message, line, col, .. }
                            && message@ == "cannot dereference non-pointer type "@ + super::types::type_name_spec(m)
                            && line == inner.span_spec().line && col == inner.span_spec().col,
                    },
                Expression::MemberAccess { receiver, .. } => old(self).operand_type(*receiver) matches Some(m)
                    ==> (!has_members(m) ==> (r matches Err(e) && e matches CompileError::Type { message, line, col, .. }
                        && message@ == "member access on "@ + super::types::type_name_spec(m)
                        && line == receiver.span_spec().line && col == receiver.span_spec().col)),
                Expression::EnumInst { name, variant, arguments, .. } => (arguments@.len() == 0
                    && old(self).env.lookup_ok(old(self).resolved(name@) + "::"@ + variant@, None)
                    && old(self).env.lookup_ok(old(self).resolved(name@) + "."@ + variant@, None))
                    ==> (r matches Ok(t) && t.model() == if decl_lookup(old(self).decls@, old(self).resolved(name@))
                        matches Some(DeclInfo::Struct { .. }) {
                        TypeModel::Struct { name: old(self).resolved(name@) }
                    } else {
                        TypeModel::Enum { name: old(self).resolved(name@) }
                    }),
                Expression::If { condition, then_branch, else_branch, .. } => (old(self).operand_type(*condition) is Some
                    && literal_block(then_branch@) && (else_branch matches Some(eb) ==> literal_block(eb@)))
                    ==> (r matches Ok(t) && t.model() == TypeModel::Unit),
                Expression::Block { statements, is_unsafe, .. } => {
                    &&& (if is_unsafe { old(self).entering_unsafe() } else { *old(self) }).fitting_calls(statements@)
                        ==> (r matches Ok(t) && *final(self) == *old(self)
                            && t.model() == (if is_unsafe { old(self).entering_unsafe() } else { *old(self) }).calls_type(statements@))
                    &&& (is_unsafe && r is Ok) ==> final(self).in_unsafe_context == old(self).in_unsafe_context
                    &&& (forall|i: int| 0 <= i < statements@.len() ==> #[trigger] literal_let_fits(statements@[i]) == Some(true))
                        ==> (r matches Ok(t) && t.model() == TypeModel::Unit)
                },
                _ => true,
            },
        decreases *expr, 0nat,
    {
        match expr {
            Expression::Integer(..) => Ok(Type::i64()),
            Expression::Char(..) => Ok(Type::i64()),
            Expression::Float(..) => Ok(Type::Float),
            Expression::Boolean(..) => Ok(Type::Boolean),
            Expression::String(..) => Ok(Type::String),
            Expression::Duration(..) => Ok(Type::Duration),
            Expression::Date(..) => Ok(Type::Date),
            Expression::TypeRef { name, generic_args, .. } => {
                let mut ga: Vec<Type> = Vec::new();
                let mut i: usize = 0;
                while i < generic_args.len()
                    invariant
                        frame_kept(*self, *old(self)),
                        *self == *old(self),
                        i <= generic_args@.len(),
                        ga@.len() == i,
                        forall|k: int| 0 <= k < i ==> (self.env.lookup_ok(#[trigger] generic_args@[k]@, Some(ga@[k].model()))
                            || (self.env.lookup_ok(generic_args@[k]@, None) && ga@[k].model() == TypeModel::Unknown)),
                    decreases generic_args@.len() - i,
                {
                    let t = match self.env.get(generic_args[i].as_str()) {
                        Some(t) => t,
                        None => Type::Unknown,
                    };
                    ga.push(t);
                    i = i + 1;
                }
                let r = Type::GenericInstance(name.clone(), ga);
                proof {
                    super::types::lemma_models(ga@);
                }
                Ok(r)
            },
            Expression::Identifier(name, _) => Ok(self.identifier_type(name.as_str())),
            Expression::Infix { left, operator, right, .. } => {
                let t1 = self.check_expression(left)?;
                let t2 = self.check_expression(right)?;
                check_compatibility(t1, t2, operator)
            },
            Expression::Call { function, arguments, .. } => {
                let span = expr.span();
                let ghost s0 = *self;
                if let Some((receiver_name, method_name)) = split_last_dot(function.as_str()) {
                    proof {
                        lemma_after_last_dot(receiver_name@, method_name@);
                        assert(dot_receiver(function@) =~= receiver_name@);
                    }
                    let rt = self.identifier_type(receiver_name.as_str());
                    let is_ptr = matches!(rt, Type::Pointer(_));
                    if is_ptr && str_eq(method_name.as_str(), "offset") {
                        self.check_each(arguments, 0)?;
                        return Ok(rt);
                    }
                    if !matches!(rt, Type::Unknown) {
                        let tn: String = match &rt {
                            Type::GenericInstance(n, _) => n.clone(),
                            Type::Struct { name: n } => n.clone(),
                            Type::Enum { name: n } => n.clone(),
                            Type::Integer { .. } => "i64".to_owned(),
                            Type::String => "String".to_owned(),
                            _ => String::new(),
                        };
                        if chars_of(tn.as_str()).len() > 0 {
                            let full = self.full_name(tn.as_str());
                            let (ft, _, _) = self.method_type(full.as_str(), method_name.as_str());
                            if let Some(Type::Function { is_unsafe, return_type, .. }) = ft {
                                if is_unsafe && !self.in_unsafe_context {
                                    let m = text_of(&["unsafe method call '", method_name.as_str(), "'"]);
                                    return Err(self.error_at(m.as_str(), span.line, span.col));
                                }
                                self.check_each(arguments, 0)?;
                                return Ok(*return_type);
                            }
                        }
                    }
                }
                proof {
                    if self.env.scope().contains_key(function@) {
                        super::environment::lemma_get_after_set(self.env, function@, self.env.scope()[function@]);
                    }
                }
                let ft = match self.env.get(function.as_str()) {
                    Some(t) => {
                        proof {
                            super::environment::lemma_lookup_found(self.env, function@, t.model());
                        }
                        t
                    },
                    None => {
                        if self.in_unsafe_context && starts_with_text(function.as_str(), "aion_") {
                            let mut ps: Vec<Type> = Vec::new();
                            let mut i: usize = 0;
                            while i < arguments.len()
                                invariant
                                    frame_kept(*self, *old(self)),
                                    i <= arguments@.len(),
                                decreases arguments@.len() - i,
                            {
                                ps.push(Type::Unknown);
                                i = i + 1;
                            }
                            Type::Function { is_unsafe: true, params: ps, return_type: Box::new(Type::Unknown) }
                        } else {
                            let suggestion = match self.suggest_function(function.as_str()) {
                                Some(s) => s,
                                None => String::new(),
                            };
                            let e = CompileError::not_found("function", function.as_str(), suggestion.as_str(), span.line, span.col);
                            return Err(self.with_snippet(e));
                        }
                    },
                };
                match ft {
                    Type::Function { is_unsafe, return_type, params } => {
                        proof {
                            super::types::lemma_models(params@);
                        }
                        if is_unsafe && !self.in_unsafe_context {
                            let m = concat3_text("call to unsafe function '", function.as_str(), "' requires unsafe block");
                            return Err(self.error_at(m.as_str(), span.line, span.col));
                        }
                        if arguments.len() != params.len() {
                            let p = num_text(params.len());
                            let a = num_text(arguments.len());
                            let m1 = concat3_text("function '", function.as_str(), "' expects ");
                            let m2 = concat3_text(m1.as_str(), p.as_str(), " arguments, got ");
                            let m = concat_text(m2.as_str(), a.as_str());
                            return Err(self.error_at(m.as_str(), span.line, span.col));
                        }
                        self.check_call_args(function.as_str(), arguments, &params, 0, true)?;
                        Ok(*return_type)
                    },
                    _ => {
                        let m = text_of(&["'", function.as_str(), "' is not a function"]);
                        Err(self.error_at(m.as_str(), span.line, span.col))
                    },
                }
            },
            Expression::MemberAccess { receiver, member, .. } => {
                let rt = self.check_expression(receiver)?;
                let span = receiver.span();
                let tn: String = match &rt {
                    Type::GenericInstance(n, _) => n.clone(),
                    Type::Struct { name: n } => n.clone(),
                    Type::Placeholder(n) => n.clone(),
                    _ => {
                        let rn = rt.name();
                        let m = concat_text("member access on ", rn.as_str());
                        return Err(self.error_at(m.as_str(), span.line, span.col));
                    },
                };
                let full = self.full_name(tn.as_str());
                let suggestion = match self.suggest_field(full.as_str(), member.as_str()) {
                    Some(s) => s,
                    None => String::new(),
                };
                let key = text_of(&[full.as_str(), ".", member.as_str()]);
                match self.env.get(key.as_str()) {
                    Some(t) => Ok(t),
                    None => {
                        let e = CompileError::not_found("field", member.as_str(), suggestion.as_str(), span.line, span.col);
                        Err(self.with_snippet(e))
                    },
                }
            },
            Expression::MethodCall { receiver, method, arguments, .. } => {
                let span = expr.span();
                let rt = self.check_expression(receiver)?;
                if str_eq(method.as_str(), "offset") && matches!(rt, Type::Pointer(_)) {
                    if arguments.len() > 0 {
                        let arg_type = self.check_nth(arguments, 0)?;
                        if !arg_type.is_integer() {
                            return Err(self.error_at("offset argument must be an integer", span.line, span.col));
                        }
                    }
                    return Ok(rt);
                }
                let tn: String = match &rt {
                    Type::GenericInstance(n, _) => n.clone(),
                    Type::Struct { name: n } => n.clone(),
                    Type::Enum { name: n } => n.clone(),
                    Type::Integer { .. } => "i64".to_owned(),
                    Type::String => "String".to_owned(),
                    _ => {
                        let rn = rt.name();
                        let m = concat_text("method call on ", rn.as_str());
                        return Err(self.error_at(m.as_str(), span.line, span.col));
                    },
                };
                let full = self.full_name(tn.as_str());
                let (ft, cand_colon, cand_dot) = self.method_type(full.as_str(), method.as_str());
                proof {
                    let env = self.env;
                    if ft is Some && env.lookup_ok(cand_colon@, None) && env.lookup_ok(cand_dot@, None) {
                        let t = ft.unwrap().model();
                        if env.lookup_ok(cand_colon@, Some(t)) {
                            super::environment::lemma_lookup_unique(env, cand_colon@, Some(t), None);
                        } else {
                            super::environment::lemma_lookup_unique(env, cand_dot@, Some(t), None);
                        }
                    }
                    assert forall|tm: TypeModel| (env.lookup_ok(cand_colon@, Some(tm))
                        || (env.lookup_ok(cand_colon@, None) && env.lookup_ok(cand_dot@, Some(tm))))
                        implies (ft matches Some(t) && t.model() == tm) by {
                        match ft {
                            Some(t) => {
                                if env.lookup_ok(cand_colon@, Some(tm)) {
                                    if env.lookup_ok(cand_colon@, Some(t.model())) {
                                        super::environment::lemma_lookup_unique(env, cand_colon@, Some(tm), Some(t.model()));
                                    } else {
                                        super::environment::lemma_lookup_unique(env, cand_colon@, Some(tm), None);
                                    }
                                } else {
                                    if env.lookup_ok(cand_colon@, Some(t.model())) {
                                        super::environment::lemma_lookup_unique(env, cand_colon@, Some(t.model()), None);
                                    } else {
                                        super::environment::lemma_lookup_unique(env, cand_dot@, Some(tm), Some(t.model()));
                                    }
                                }
                            },
                            None => {
                                if env.lookup_ok(cand_colon@, Some(tm)) {
                                    super::environment::lemma_lookup_unique(env, cand_colon@, Some(tm), None);
                                } else {
                                    super::environment::lemma_lookup_unique(env, cand_dot@, Some(tm), None);
                                }
                            },
                        }
                    }
                }
                let ft = match ft {
                    Some(t) => t,
                    None => {
                        let suggestion = match self.suggest_method(full.as_str(), method.as_str()) {
                            Some(s) => s,
                            None => String::new(),
                        };
                        let e = CompileError::not_found("method", method.as_str(), suggestion.as_str(), span.line, span.col);
                        return Err(self.with_snippet(e));
                    },
                };
                match ft {
                    Type::Function { is_unsafe, return_type, params } => {
                        if is_unsafe && !self.in_unsafe_context {
                            let m = concat3_text("unsafe method call '", method.as_str(), "'");
                            return Err(self.error_at(m.as_str(), span.line, span.col));
                        }
                        let has_self = self.method_has_self(cand_colon.as_str(), cand_dot.as_str());
                        self.check_method_args(method.as_str(), has_self, &params, arguments, span)?;
                        Ok(*return_type)
                    },
                    _ => {
                        let m = text_of(&["'", cand_colon.as_str(), "' is not a function"]);
                        Err(self.error_at(m.as_str(), span.line, span.col))
                    },
                }
            },
            Expression::Cast { target, expr: inner, .. } => {
                let src = self.check_expression(inner)?;
                let dst = self.resolve_type(target.as_str());
                match check_cast_pair(&src, &dst) {
                    Ok(()) => Ok(dst),
                    Err(msg) => Err(self.err(msg.as_str(), inner)),
                }
            },
            Expression::StructInst { name, .. } => {
                let full = self.full_name(name.as_str());
                proof {
                    assert(full@ == self.resolved(name@));
                }
                Ok(Type::Struct { name: full })
            },
            Expression::EnumInst { name, variant, arguments, .. } => {
                let span = expr.span();
                let full = self.full_name(name.as_str());
                let (ft, cand_colon, cand_dot) = self.method_type(full.as_str(), variant.as_str());
                proof {
                    if ft is Some {
                        let tm = ft.unwrap().model();
                        if self.env.lookup_ok(cand_colon@, Some(tm)) {
                            super::environment::lemma_lookup_found(self.env, cand_colon@, tm);
                        }
                        if self.env.lookup_ok(cand_dot@, Some(tm)) {
                            super::environment::lemma_lookup_found(self.env, cand_dot@, tm);
                        }
                    }
                }
                if let Some(Type::Function { is_unsafe, return_type, params }) = ft {
                    if is_unsafe && !self.in_unsafe_context {
                        let m = text_of(&["unsafe method call '", variant.as_str(), "'"]);
                        return Err(self.error_at(m.as_str(), span.line, span.col));
                    }
                    let has_self = self.method_has_self(cand_colon.as_str(), cand_dot.as_str());
                    self.check_method_args(variant.as_str(), has_self, &params, arguments, span)?;
                    return Ok(*return_type);
                }
                let mut is_struct = false;
                if let Some(DeclInfo::Struct { .. }) = self.decl_get(full.as_str()) {
                    is_struct = true;
                }
                if is_struct {
                    return Ok(Type::Struct { name: full });
                }
                let type_args = self.infer_each(arguments);
                let mut generic = false;
                if type_args.len() > 0 {
                    if let Some(DeclInfo::Enum { generic_params, variants }) = self.decl_get(full.as_str()) {
                        let mut has_payload = false;
                        let mut k: usize = 0;
                        while k < variants.len()
                            invariant
                                frame_kept(*self, *old(self)),
                                k <= variants@.len(),
                            decreases variants@.len() - k,
                        {
                            if variants[k].0 == *variant && variants[k].1.len() > 0 {
                                has_payload = true;
                            }
                            k = k + 1;
                        }
                        generic = has_payload && type_args.len() == generic_params.len();
                    }
                }
                if generic {
                    return Ok(Type::GenericInstance(full, type_args));
                }
                Ok(Type::Enum { name: full })
            },
            Expression::Deref { expr: inner, .. } => {
                let rt = self.check_expression(inner)?;
                match rt {
                    Type::Pointer(t) => Ok(*t),
                    Type::Struct { .. } | Type::Enum { .. } | Type::GenericInstance(..) | Type::String | Type::Tuple(_)
                    | Type::Placeholder(_) | Type::Unknown => Ok(rt),
                    _ => {
                        let rn = rt.name();
                        let m = concat_text("cannot dereference non-pointer type ", rn.as_str());
                        Err(self.err(m.as_str(), inner))
                    },
                }
            },
            Expression::Intrinsic { name, arguments, .. } => self.check_intrinsic(name, arguments),
            Expression::If { condition, then_branch, else_branch, .. } => {
                self.check_expression(condition)?;
                let mut lt = self.check_block(then_branch)?;
                if let Some(eb) = else_branch {
                    let et = self.check_block(eb)?;
                    let lt_unit = matches!(lt, Type::Unit);
                    if !lt_unit && !matches!(et, Type::Unit) && !types_unify(&lt, &et) {
                        let a = lt.name();
                        let b = et.name();
                        let m = text_of(&["if branches return incompatible types '", a.as_str(), "' and '", b.as_str(), "'"]);
                        return Err(self.err(m.as_str(), condition));
                    }
                    if lt_unit {
                        lt = et;
                    }
                }
                Ok(lt)
            },
            Expression::Block { statements, is_unsafe, .. } => {
                let was = self.in_unsafe_context;
                if *is_unsafe {
                    self.in_unsafe_context = true;
                }
                let lt = self.check_block(statements)?;
                if *is_unsafe {
                    self.in_unsafe_context = was;
                }
                Ok(lt)
            },
            Expression::Match { condition, arms, .. } => {
                let cond_type = self.check_expression(condition)?;
                let (cond_name, cond_args) = TypeChecker::match_subject(&cond_type);
                self.check_match_exhaustive(cond_name.as_str(), arms, condition)?;
                let result = self.check_arms(arms, cond_name.as_str(), &cond_args, condition, true)?;
                match result {
                    Some(t) => Ok(t),
                    None => Ok(Type::Unit),
                }
            },
            Expression::Range { .. } => {
                let d = crate::ast::expression_debug(expr);
                let m = concat_text("Unsupported expression ", d.as_str());
                Err(CompileError::internal(m.as_str()))
            },
        }
    }

    /// Whether a spawn body may use `name`: its first segment is bound in
    /// the global scope, is the module prefix of a global name (`io` for
    /// `io.println`), or names a declaration; never `self`, `argc` or `argv`.
    pub closed spec fn spawn_global(self, name: Seq<char>) -> bool {
        let seg = head_of(name);
        &&& !(name == "self"@ || name == "argc"@ || name == "argv"@)
        &&& {
            ||| (self.global_env matches Some(g) && (!g.lookup_ok(seg, None)
                || exists|k: Seq<char>| #[trigger] g.all_names().contains(k) && k.len() >= seg.len() + 1
                    && k.take(seg.len() as int + 1) == seg.push('.')))
            ||| decl_index_from(self.decls@, seg, 0) is Some
            ||| resolve_fuzzy_spec(decl_keys(self.decls@), seg) is Some
        }
    }

    /// A name a spawn body may use: a global declaration or builtin, a
    /// module prefix of a global (`io` for `io.println`), or a declared
    /// name; never `self`, `argc` or `argv`.
    #[verifier::spinoff_prover]
    #[verifier::rlimit(40)]
    fn is_spawn_global(&self, name: &str) -> (b: bool)
        ensures
            b == self.spawn_global(name@),
    {
        proof {
            reveal_strlit("self");
            reveal_strlit("argc");
            reveal_strlit("argv");
        }
        if str_eq(name, "self") || str_eq(name, "argc") || str_eq(name, "argv") {
            return false;
        }
        let seg = first_segment(name);
        proof { lemma_head_of(seg@, name@); }
        let ghost via_global = false;
        if let Some(g) = &self.global_env {
            let found = g.get(seg.as_str());
            if found.is_some() {
                proof {
                    super::environment::lemma_lookup_found(*g, seg@, found.unwrap().model());
                }
                return true;
            }
            let mut pv: Vec<char> = Vec::new();
            push_str_chars(&mut pv, seg.as_str());
            pv.push('.');
            let prefix = string_from_chars(&pv);
            let names = g.visible_names();
            let mut i: usize = 0;
            while i < names.len()
                invariant
                    i <= names@.len(),
                    !(name@ == "self"@ || name@ == "argc"@ || name@ == "argv"@),
                    seg@ == head_of(name@),
                    self.global_env == Some(*g),
                    prefix@ == seg@.push('.'),
                    forall|k: Seq<char>| #[trigger] g.all_names().contains(k) <==> super::environment::has_name(names@, k),
                    forall|k: int| 0 <= k < i ==> !((#[trigger] names@[k])@.len() >= prefix@.len()
                        && names@[k]@.take(prefix@.len() as int) == prefix@),
                decreases names@.len() - i,
            {
                if starts_with_text(names[i].as_str(), prefix.as_str()) {
                    proof {
                        assert(super::environment::has_name(names@, names@[i as int]@));
                        assert(g.all_names().contains(names@[i as int]@));
                    }
                    return true;
                }
                i = i + 1;
            }
            proof {
                assert(!exists|k: Seq<char>| #[trigger] g.all_names().contains(k) && k.len() >= seg@.len() + 1
                    && k.take(seg@.len() as int + 1) == seg@.push('.')) by {
                    if exists|k: Seq<char>| #[trigger] g.all_names().contains(k) && k.len() >= seg@.len() + 1
                        && k.take(seg@.len() as int + 1) == seg@.push('.') {
                        let k = choose|k: Seq<char>| #[trigger] g.all_names().contains(k) && k.len() >= seg@.len() + 1
                            && k.take(seg@.len() as int + 1) == seg@.push('.');
                        assert(super::environment::has_name(names@, k));
                        let j = choose|j: int| 0 <= j < names@.len() && names@[j]@ == k;
                        assert(!(names@[j]@.len() >= prefix@.len() && names@[j]@.take(prefix@.len() as int) == prefix@));
                    }
                }
            }
        }
        decl_index(&self.decls, seg.as_str()).is_some() || resolve_fuzzy_name(&self.decls, seg.as_str()).is_some()
    }
}

// ---------------------------------------------------------------------------
// Names a spawn body uses
// ---------------------------------------------------------------------------

/// The part of `s` before its first `.` (all of `s` when it has none).
pub open spec fn head_of(s: Seq<char>) -> Seq<char>
    decreases s.len(),
{
    if s.len() == 0 {
        s
    } else if s[0] == '.' {
        Seq::empty()
    } else {
        seq![s[0]] + head_of(s.drop_first())
    }
}

proof fn lemma_head_of(h: Seq<char>, s: Seq<char>)
    requires
        is_head_before(h, s, '.'),
    ensures
        h == head_of(s),
    decreases s.len(),
{
    if s.len() == 0 {
        assert(h =~= s);
    } else if h.len() == 0 {
        assert(s[0] == '.');
    } else {
        assert(h[0] == s.take(h.len() as int)[0]);
        assert(s[0] != '.') by {
            assert(h[0] == s[0]);
        }
        let h2 = h.drop_first();
        let s2 = s.drop_first();
        assert(s2.take(h2.len() as int) =~= h2) by {
            assert forall|k: int| 0 <= k < h2.len() implies s2.take(h2.len() as int)[k] == h2[k] by {
                assert(s.take(h.len() as int)[k + 1] == h[k + 1]);
            }
        }
        assert(!has_char(h2, '.')) by {
            if has_char(h2, '.') {
                let k = choose|k: int| 0 <= k < h2.len() && h2[k] == '.';
                assert(h[k + 1] == '.');
            }
        }
        assert(h2.len() == s2.len() || s2[h2.len() as int] == '.');
        lemma_head_of(h2, s2);
        assert(h =~= seq![s[0]] + h2);
    }
}

/// What a walk of a spawn body has seen: the names bound so far and the
/// names used free so far, in order.
pub type WalkState = (Seq<Seq<char>>, Seq<Seq<char>>);

/// The walk state held in `bound` and `free`.
pub open spec fn walk_state(bound: Seq<String>, free: Seq<String>) -> WalkState {
    (crate::text::string_views(bound), crate::text::string_views(free))
}

/// The names a spawn body uses without binding them first, in order of
/// first use (first segments only).
pub open spec fn spawn_free(body: Seq<Statement>) -> Seq<Seq<char>> {
    walk_stmts_spec(body, (Seq::empty(), Seq::empty())).1
}

/// A use of `name`: its first segment is free unless bound.
pub open spec fn note_spec(name: Seq<char>, st: WalkState) -> WalkState {
    if st.0.contains(head_of(name)) {
        st
    } else {
        (st.0, st.1.push(head_of(name)))
    }
}

/// The walk of an expression: its names in order of appearance, with the
/// bindings of the statements and match arms inside it.
pub open spec fn walk_expr_spec(e: Expression, st: WalkState) -> WalkState
    decreases e, 0nat,
{
    match e {
        Expression::Identifier(name, _) => note_spec(name@, st),
        Expression::Infix { left, right, .. } => walk_expr_spec(*right, walk_expr_spec(*left, st)),
        Expression::Call { arguments, .. } => walk_exprs_spec(arguments@, st),
        Expression::StructInst { fields, .. } => walk_fields_spec(fields@, st),
        Expression::Range { start, end, .. } => walk_expr_spec(*end, walk_expr_spec(*start, st)),
        Expression::Block { statements, .. } => walk_stmts_spec(statements@, st),
        Expression::If { condition, then_branch, else_branch, .. } => {
            let s1 = walk_stmts_spec(then_branch@, walk_expr_spec(*condition, st));
            match else_branch {
                Some(eb) => walk_stmts_spec(eb@, s1),
                None => s1,
            }
        },
        Expression::Deref { expr, .. } => walk_expr_spec(*expr, st),
        Expression::Cast { expr, .. } => walk_expr_spec(*expr, st),
        Expression::Intrinsic { arguments, .. } => walk_exprs_spec(arguments@, st),
        Expression::EnumInst { arguments, .. } => walk_exprs_spec(arguments@, st),
        Expression::MemberAccess { receiver, .. } => walk_expr_spec(*receiver, st),
        Expression::MethodCall { receiver, arguments, .. } => walk_exprs_spec(arguments@, walk_expr_spec(*receiver, st)),
        Expression::Match { condition, arms, .. } => walk_arms_spec(arms@, walk_expr_spec(*condition, st)),
        _ => st,
    }
}

/// The walk of expressions, one after another.
pub open spec fn walk_exprs_spec(es: Seq<Expression>, st: WalkState) -> WalkState
    decreases es, 1nat,
{
    if es.len() == 0 {
        st
    } else {
        walk_expr_spec(es[es.len() - 1], walk_exprs_spec(es.subrange(0, es.len() - 1), st))
    }
}

/// The walk of the values of struct literal fields, one after another.
pub open spec fn walk_fields_spec(fs: Seq<(String, Expression)>, st: WalkState) -> WalkState
    decreases fs, 1nat,
{
    if fs.len() == 0 {
        st
    } else {
        walk_expr_spec(fs[fs.len() - 1].1, walk_fields_spec(fs.subrange(0, fs.len() - 1), st))
    }
}

/// The walk of a match arm: its parameters are bound, then its guard and
/// body are walked.
pub open spec fn walk_arm_spec(arm: MatchArm, st: WalkState) -> WalkState
    decreases arm, 0nat,
{
    let s1 = (st.0 + crate::text::string_views(arm.params@), st.1);
    let s2 = match arm.guard {
        Some(g) => walk_expr_spec(*g, s1),
        None => s1,
    };
    walk_stmts_spec(arm.body@, s2)
}

/// The walk of match arms, one after another.
pub open spec fn walk_arms_spec(arms: Seq<MatchArm>, st: WalkState) -> WalkState
    decreases arms, 1nat,
{
    if arms.len() == 0 {
        st
    } else {
        walk_arm_spec(arms[arms.len() - 1], walk_arms_spec(arms.subrange(0, arms.len() - 1), st))
    }
}

/// The walk of a statement: `let` and `for` bind their name before their
/// expression is walked.
pub open spec fn walk_stmt_spec(s: Statement, st: WalkState) -> WalkState
    decreases s, 0nat,
{
    match s {
        Statement::Let { name, value, .. } => walk_expr_spec(value, (st.0.push(name@), st.1)),
        Statement::Return { value, .. } => walk_expr_spec(value, st),
        Statement::ExpressionStmt(e, _) => walk_expr_spec(e, st),
        Statement::If { condition, then_branch, else_branch, .. } => {
            let s1 = walk_stmts_spec(then_branch@, walk_expr_spec(condition, st));
            match else_branch {
                Some(eb) => walk_stmts_spec(eb@, s1),
                None => s1,
            }
        },
        Statement::Assignment { target, value, .. } => walk_expr_spec(value, walk_expr_spec(target, st)),
        Statement::While { condition, body, .. } => walk_stmts_spec(body@, walk_expr_spec(condition, st)),
        Statement::For { var, range, body, .. } => walk_stmts_spec(body@, walk_expr_spec(range, (st.0.push(var@), st.1))),
        Statement::Match { condition, arms, .. } => walk_arms_spec(arms@, walk_expr_spec(condition, st)),
        Statement::UnsafeBlock(body, _) => walk_stmts_spec(body@, st),
        Statement::Spawn(body, _) => walk_stmts_spec(body@, st),
        _ => st,
    }
}

/// The walk of statements, one after another.
pub open spec fn walk_stmts_spec(ss: Seq<Statement>, st: WalkState) -> WalkState
    decreases ss, 1nat,
{
    if ss.len() == 0 {
        st
    } else {
        walk_stmt_spec(ss[ss.len() - 1], walk_stmts_spec(ss.subrange(0, ss.len() - 1), st))
    }
}

/// Records a use of `name`: its first segment, unless bound.
fn note_name(name: &str, bound: &Vec<String>, free: &mut Vec<String>)
    ensures
        walk_state(bound@, final(free)@) == note_spec(name@, walk_state(bound@, old(free)@)),
{
    let seg = first_segment(name);
    proof { lemma_head_of(seg@, name@); }
    let mut i: usize = 0;
    while i < bound.len()
        invariant
            i <= bound@.len(),
            seg@ == head_of(name@),
            free@ == old(free)@,
            forall|k: int| 0 <= k < i ==> (#[trigger] bound@[k])@ != seg@,
        decreases bound@.len() - i,
    {
        if bound[i] == seg {
            proof {
                assert(crate::text::string_views(bound@)[i as int] == seg@);
            }
            return;
        }
        i = i + 1;
    }
    proof {
        assert(!crate::text::string_views(bound@).contains(seg@)) by {
            if crate::text::string_views(bound@).contains(seg@) {
                let k = choose|k: int| 0 <= k < bound@.len() && crate::text::string_views(bound@)[k] == seg@;
                assert(bound@[k]@ == seg@);
            }
        }
    }
    let ghost before = free@;
    free.push(seg);
    proof {
        assert(crate::text::string_views(free@) =~= crate::text::string_views(before).push(head_of(name@)));
    }
}

/// Binds every name of `names`, in order.
fn bind_all(names: &Vec<String>, bound: &mut Vec<String>)
    ensures
        crate::text::string_views(final(bound)@)
            == crate::text::string_views(old(bound)@) + crate::text::string_views(names@),
{
    let mut i: usize = 0;
    while i < names.len()
        invariant
            i <= names@.len(),
            crate::text::string_views(bound@)
                == crate::text::string_views(old(bound)@) + crate::text::string_views(names@.take(i as int)),
        decreases names@.len() - i,
    {
        let ghost before = bound@;
        bound.push(names[i].clone());
        proof {
            assert(names@.take(i + 1) =~= names@.take(i as int).push(names@[i as int]));
            assert(crate::text::string_views(bound@) =~= crate::text::string_views(before).push(names@[i as int]@));
            assert(crate::text::string_views(names@.take(i + 1))
                =~= crate::text::string_views(names@.take(i as int)).push(names@[i as int]@));
        }
        i = i + 1;
    }
    assert(names@.take(names@.len() as int) =~= names@);
}

/// Walks statements, collecting each name used (its first segment) that
/// no earlier `let`, `for` or match arm in the walk has bound.
fn walk_spawn_block(ss: &Vec<Statement>, bound: &mut Vec<String>, free: &mut Vec<String>)
    ensures
        walk_state(final(bound)@, final(free)@) == walk_stmts_spec(ss@, walk_state(old(bound)@, old(free)@)),
    decreases ss@, 1nat,
{
    let ghost st0 = walk_state(bound@, free@);
    let mut i: usize = 0;
    while i < ss.len()
        invariant
            i <= ss@.len(),
            walk_state(bound@, free@) == walk_stmts_spec(ss@.take(i as int), st0),
        decreases ss@.len() - i,
    {
        proof {
            assert(ss@.take(i + 1).subrange(0, i as int) =~= ss@.take(i as int));
        }
        walk_spawn_stmt(&ss[i], bound, free);
        i = i + 1;
    }
    assert(ss@.take(ss@.len() as int) =~= ss@);
}

fn walk_spawn_exprs(es: &Vec<Expression>, bound: &mut Vec<String>, free: &mut Vec<String>)
    ensures
        walk_state(final(bound)@, final(free)@) == walk_exprs_spec(es@, walk_state(old(bound)@, old(free)@)),
    decreases es@, 1nat,
{
    let ghost st0 = walk_state(bound@, free@);
    let mut i: usize = 0;
    while i < es.len()
        invariant
            i <= es@.len(),
            walk_state(bound@, free@) == walk_exprs_spec(es@.take(i as int), st0),
        decreases es@.len() - i,
    {
        proof {
            assert(es@.take(i + 1).subrange(0, i as int) =~= es@.take(i as int));
        }
        walk_spawn_expr(&es[i], bound, free);
        i = i + 1;
    }
    assert(es@.take(es@.len() as int) =~= es@);
}

fn walk_spawn_fields(fields: &Vec<(String, Expression)>, bound: &mut Vec<String>, free: &mut Vec<String>)
    ensures
        walk_state(final(bound)@, final(free)@) == walk_fields_spec(fields@, walk_state(old(bound)@, old(free)@)),
    decreases fields@, 1nat,
{
    let ghost st0 = walk_state(bound@, free@);
    let mut i: usize = 0;
    while i < fields.len()
        invariant
            i <= fields@.len(),
            walk_state(bound@, free@) == walk_fields_spec(fields@.take(i as int), st0),
        decreases fields@.len() - i,
    {
        proof {
            assert(fields@.take(i + 1).subrange(0, i as int) =~= fields@.take(i as int));
        }
        walk_spawn_expr(&fields[i].1, bound, free);
        i = i + 1;
    }
    assert(fields@.take(fields@.len() as int) =~= fields@);
}

fn walk_spawn_arm(arm: &MatchArm, bound: &mut Vec<String>, free: &mut Vec<String>)
    ensures
        walk_state(final(bound)@, final(free)@) == walk_arm_spec(*arm, walk_state(old(bound)@, old(free)@)),
    decreases *arm, 0nat,
{
    bind_all(&arm.params, bound);
    if let Some(g) = &arm.guard {
        walk_spawn_expr(g, bound, free);
    }
    walk_spawn_block(&arm.body, bound, free);
}

fn walk_spawn_arms(arms: &Vec<MatchArm>, bound: &mut Vec<String>, free: &mut Vec<String>)
    ensures
        walk_state(final(bound)@, final(free)@) == walk_arms_spec(arms@, walk_state(old(bound)@, old(free)@)),
    decreases arms@, 1nat,
{
    let ghost st0 = walk_state(bound@, free@);
    let mut i: usize = 0;
    while i < arms.len()
        invariant
            i <= arms@.len(),
            walk_state(bound@, free@) == walk_arms_spec(arms@.take(i as int), st0),
        decreases arms@.len() - i,
    {
        proof {
            assert(arms@.take(i + 1).subrange(0, i as int) =~= arms@.take(i as int));
        }
        walk_spawn_arm(&arms[i], bound, free);
        i = i + 1;
    }
    assert(arms@.take(arms@.len() as int) =~= arms@);
}

fn walk_spawn_stmt(s: &Statement, bound: &mut Vec<String>, free: &mut Vec<String>)
    ensures
        walk_state(final(bound)@, final(free)@) == walk_stmt_spec(*s, walk_state(old(bound)@, old(free)@)),
    decreases *s, 0nat,
{
    match s {
        Statement::Let { name, value, .. } => {
            let ghost before = bound@;
            bound.push(name.clone());
            proof {
                assert(crate::text::string_views(bound@) =~= crate::text::string_views(before).push(name@));
            }
            walk_spawn_expr(value, bound, free);
        },
        Statement::Return { value, .. } => walk_spawn_expr(value, bound, free),
        Statement::ExpressionStmt(e, _) => walk_spawn_expr(e, bound, free),
        Statement::If { condition, then_branch, else_branch, .. } => {
            walk_spawn_expr(condition, bound, free);
            walk_spawn_block(then_branch, bound, free);
            if let Some(eb) = else_branch {
                walk_spawn_block(eb, bound, free);
            }
        },
        Statement::Assignment { target, value, .. } => {
            walk_spawn_expr(target, bound, free);
            walk_spawn_expr(value, bound, free);
        },
        Statement::While { condition, body, .. } => {
            walk_spawn_expr(condition, bound, free);
            walk_spawn_block(body, bound, free);
        },
        Statement::For { var, range, body, .. } => {
            let ghost before = bound@;
            bound.push(var.clone());
            proof {
                assert(crate::text::string_views(bound@) =~= crate::text::string_views(before).push(var@));
            }
            walk_spawn_expr(range, bound, free);
            walk_spawn_block(body, bound, free);
        },
        Statement::Match { condition, arms, .. } => {
            walk_spawn_expr(condition, bound, free);
            walk_spawn_arms(arms, bound, free);
        },
        Statement::UnsafeBlock(body, _) => walk_spawn_block(body, bound, free),
        Statement::Spawn(body, _) => walk_spawn_block(body, bound, free),
        Statement::Break(_) | Statement::Continue(_) | Statement::NoOp => {},
    }
}

fn walk_spawn_expr(e: &Expression, bound: &mut Vec<String>, free: &mut Vec<String>)
    ensures
        walk_state(final(bound)@, final(free)@) == walk_expr_spec(*e, walk_state(old(bound)@, old(free)@)),
    decreases *e, 0nat,
{
    match e {
        Expression::Identifier(name, _) => note_name(name.as_str(), bound, free),
        Expression::Infix { left, right, .. } => {
            walk_spawn_expr(left, bound, free);
            walk_spawn_expr(right, bound, free);
        },
        Expression::Call { arguments, .. } => walk_spawn_exprs(arguments, bound, free),
        Expression::StructInst { fields, .. } => walk_spawn_fields(fields, bound, free),
        Expression::Range { start, end, .. } => {
            walk_spawn_expr(start, bound, free);
            walk_spawn_expr(end, bound, free);
        },
        Expression::Block { statements, .. } => walk_spawn_block(statements, bound, free),
        Expression::If { condition, then_branch, else_branch, .. } => {
            walk_spawn_expr(condition, bound, free);
            walk_spawn_block(then_branch, bound, free);
            if let Some(eb) = else_branch {
                walk_spawn_block(eb, bound, free);
            }
        },
        Expression::Deref { expr, .. } => walk_spawn_expr(expr, bound, free),
        Expression::Cast { expr, .. } => walk_spawn_expr(expr, bound, free),
        Expression::Intrinsic { arguments, .. } => walk_spawn_exprs(arguments, bound, free),
        Expression::EnumInst { arguments, .. } => walk_spawn_exprs(arguments, bound, free),
        Expression::MemberAccess { receiver, .. } => walk_spawn_expr(receiver, bound, free),
        Expression::MethodCall { receiver, arguments, .. } => {
            walk_spawn_expr(receiver, bound, free);
            walk_spawn_exprs(arguments, bound, free);
        },
        Expression::Match { condition, arms, .. } => {
            walk_spawn_expr(condition, bound, free);
            walk_spawn_arms(arms, bound, free);
        },
        _ => {},
    }
}

} // verus!
