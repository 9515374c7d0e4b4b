//! The typing rules the checker applies: equality and unification of types,
//! the types of infix operators, valid casts and the debug notation of types.

use vstd::prelude::*;
use super::types::{lemma_models, models, type_name_spec, Type, TypeModel};
use crate::error::CompileError;
use crate::text::{chars_of, join_seqs, lemma_join_take, nat_text, push_slice, push_str_chars, string_from_chars, usize_text};
use crate::token::{kind_debug_text, push_kind_debug, str_debug, str_debug_text, Token, TokenKind};

verus! {

// ---------------------------------------------------------------------------
// Names
// ---------------------------------------------------------------------------

/// Whether `s` ends with `suffix`.
pub open spec fn ends_with(s: Seq<char>, suffix: Seq<char>) -> bool {
    suffix.len() <= s.len() && s.subrange(s.len() - suffix.len(), s.len() as int) == suffix
}

/// The last dotted segment of a name (all of it when it has no `.`).
pub open spec fn last_dotted(s: Seq<char>) -> Seq<char>
    decreases s.len(),
{
    if s.len() == 0 {
        s
    } else if s.last() == '.' {
        Seq::empty()
    } else {
        last_dotted(s.drop_last()).push(s.last())
    }
}

/// Two dotted names denote the same type when their last segments agree
/// (`Option` and `std.option.Option`, `a.Foo` and `b.Foo`).
pub open spec fn base_names_match_spec(a: Seq<char>, b: Seq<char>) -> bool {
    last_dotted(a) == last_dotted(b)
}

/// The last dotted segment of `s` (see [`last_dotted`]).
fn last_dotted_chars(s: &[char]) -> (r: Vec<char>)
    ensures
        r@ == last_dotted(s@),
{
    let mut k: usize = s.len();
    assert(s@.take(k as int) =~= s@);
    assert(s@ + s@.subrange(k as int, s@.len() as int) =~= s@);
    while k > 0 && s[k - 1] != '.'
        invariant
            k <= s@.len(),
            last_dotted(s@) == last_dotted(s@.take(k as int)) + s@.subrange(k as int, s@.len() as int),
        decreases k,
    {
        assert(s@.take(k as int).drop_last() =~= s@.take(k - 1));
        assert(s@.subrange(k - 1, s@.len() as int) =~= seq![s@[k - 1]] + s@.subrange(k as int, s@.len() as int));
        assert(last_dotted(s@.take(k as int)) == last_dotted(s@.take(k - 1)).push(s@[k - 1]));
        assert(last_dotted(s@.take(k - 1)).push(s@[k - 1]) + s@.subrange(k as int, s@.len() as int)
            =~= last_dotted(s@.take(k - 1)) + s@.subrange(k - 1, s@.len() as int));
        k = k - 1;
    }
    if k > 0 {
        assert(s@.take(k as int).last() == '.');
        assert(last_dotted(s@.take(k as int)) =~= Seq::<char>::empty());
    }
    let r = crate::text::slice_chars(s, k, s.len());
    assert(Seq::<char>::empty() + r@ =~= r@);
    r
}

/// Whether `s` ends with `suffix`.
pub fn ends_with_chars(s: &[char], suffix: &[char]) -> (b: bool)
    ensures
        b == ends_with(s@, suffix@),
{
    if suffix.len() > s.len() {
        return false;
    }
    let off = s.len() - suffix.len();
    let mut i: usize = 0;
    while i < suffix.len()
        invariant
            off == s@.len() - suffix@.len(),
            off + suffix@.len() == s@.len(),
            s@.len() <= usize::MAX,
            i <= suffix@.len(),
            forall|k: int| 0 <= k < i ==> s@[off + k] == suffix@[k],
        decreases suffix@.len() - i,
    {
        if s[off + i] != suffix[i] {
            assert(s@.subrange(off as int, s@.len() as int)[i as int] != suffix@[i as int]);
            return false;
        }
        i = i + 1;
    }
    assert(s@.subrange(off as int, s@.len() as int) =~= suffix@);
    true
}

/// Whether two dotted names denote the same type up to a module prefix.
pub fn base_names_match(a: &str, b: &str) -> (r: bool)
    ensures
        r == base_names_match_spec(a@, b@),
{
    let x = chars_of(a);
    let y = chars_of(b);
    let lx = last_dotted_chars(&x);
    let ly = last_dotted_chars(&y);
    crate::text::chars_eq(&lx, &ly)
}

/// Base names match in either order.
pub proof fn lemma_base_names_match_symmetric(a: Seq<char>, b: Seq<char>)
    ensures
        base_names_match_spec(a, b) == base_names_match_spec(b, a),
{
}

// ---------------------------------------------------------------------------
// Equality of types
// ---------------------------------------------------------------------------

impl Type {
    /// Whether two types are equal.
    pub fn same(&self, other: &Type) -> (b: bool)
        ensures
            b == (self.model() == other.model()),
        decreases self, 1nat,
    {
        match (self, other) {
            (Type::Unit, Type::Unit) => true,
            (Type::Integer { signed: s1, bits: b1 }, Type::Integer { signed: s2, bits: b2 }) => *s1 == *s2 && *b1 == *b2,
            (Type::Float, Type::Float) => true,
            (Type::Boolean, Type::Boolean) => true,
            (Type::String, Type::String) => true,
            (Type::Duration, Type::Duration) => true,
            (Type::Date, Type::Date) => true,
            (
                Type::Function { is_unsafe: u1, params: p1, return_type: r1 },
                Type::Function { is_unsafe: u2, params: p2, return_type: r2 },
            ) => *u1 == *u2 && same_types(p1, p2) && r1.same(r2),
            (Type::Enum { name: a }, Type::Enum { name: b }) => *a == *b,
            (Type::Struct { name: a }, Type::Struct { name: b }) => *a == *b,
            (Type::Placeholder(a), Type::Placeholder(b)) => *a == *b,
            (Type::GenericInstance(a, x), Type::GenericInstance(b, y)) => *a == *b && same_types(x, y),
            (Type::Pointer(x), Type::Pointer(y)) => x.same(y),
            (Type::Tuple(x), Type::Tuple(y)) => same_types(x, y),
            (Type::Unknown, Type::Unknown) => true,
            _ => false,
        }
    }
}

/// Whether two sequences of types are equal.
fn same_types(a: &Vec<Type>, b: &Vec<Type>) -> (r: bool)
    ensures
        r == (models(a@) == models(b@)),
    decreases a@, 0nat,
{
    proof {
        lemma_models(a@);
        lemma_models(b@);
    }
    if a.len() != b.len() {
        return false;
    }
    let mut i: usize = 0;
    while i < a.len()
        invariant
            a@.len() == b@.len(),
            i <= a@.len(),
            models(a@).len() == a@.len(),
            models(b@).len() == b@.len(),
            forall|k: int| 0 <= k < a@.len() ==> #[trigger] models(a@)[k] == a@[k].model(),
            forall|k: int| 0 <= k < b@.len() ==> #[trigger] models(b@)[k] == b@[k].model(),
            forall|k: int| 0 <= k < i ==> a@[k].model() == b@[k].model(),
        decreases a@.len() - i,
    {
        if !a[i].same(&b[i]) {
            assert(models(a@)[i as int] != models(b@)[i as int]);
            return false;
        }
        i = i + 1;
    }
    assert(models(a@) =~= models(b@));
    true
}

// ---------------------------------------------------------------------------
// Unification
// ---------------------------------------------------------------------------

/// Whether a value of type `a` may stand where `e` is expected: equal types;
/// an unknown, generic-parameter or unit side; two integer types; integer
/// with boolean or pointer; pointers whose targets unify; a pointer with a
/// composite type; and named types (and generic instances, whose arguments
/// unify pairwise) whose names match up to a module prefix.
pub open spec fn unify_spec(e: TypeModel, a: TypeModel) -> bool
    decreases e, 1nat,
{
    if e == a {
        true
    } else {
        match (e, a) {
            (TypeModel::Unknown, _) => true,
            (_, TypeModel::Unknown) => true,
            (TypeModel::Placeholder(_), _) => true,
            (_, TypeModel::Placeholder(_)) => true,
            (TypeModel::Unit, _) => true,
            (_, TypeModel::Unit) => true,
            (TypeModel::Integer { .. }, TypeModel::Integer { .. }) => true,
            (TypeModel::Integer { .. }, TypeModel::Boolean) => true,
            (TypeModel::Boolean, TypeModel::Integer { .. }) => true,
            (TypeModel::Integer { .. }, TypeModel::Pointer(_)) => true,
            (TypeModel::Pointer(_), TypeModel::Integer { .. }) => true,
            (TypeModel::Pointer(x), TypeModel::Pointer(y)) => unify_spec(*x, *y),
            (TypeModel::Pointer(_), y) => is_boxed_composite(y),
            (x, TypeModel::Pointer(_)) => is_boxed_composite(x),
            (TypeModel::Enum { name: en }, TypeModel::Enum { name: an }) => base_names_match_spec(en, an),
            (TypeModel::Struct { name: en }, TypeModel::Struct { name: an }) => base_names_match_spec(en, an),
            (TypeModel::GenericInstance(en, eargs), TypeModel::GenericInstance(an, aargs)) => base_names_match_spec(en, an)
                && unify_pairs(eargs, aargs, if eargs.len() <= aargs.len() { eargs.len() } else { aargs.len() }),
            (TypeModel::GenericInstance(en, _), TypeModel::Enum { name: an }) => base_names_match_spec(en, an),
            (TypeModel::Enum { name: an }, TypeModel::GenericInstance(en, _)) => base_names_match_spec(en, an),
            (TypeModel::GenericInstance(en, _), TypeModel::Struct { name: an }) => base_names_match_spec(en, an),
            (TypeModel::Struct { name: an }, TypeModel::GenericInstance(en, _)) => base_names_match_spec(en, an),
            _ => false,
        }
    }
}

/// Composite types, which are pointers at run time.
pub open spec fn is_boxed_composite(t: TypeModel) -> bool {
    t is Struct || t is Enum || t is GenericInstance || t is String || t is Tuple
}

/// The first `n` pairs of `es` and `as_` unify.
pub open spec fn unify_pairs(es: Seq<TypeModel>, as_: Seq<TypeModel>, n: nat) -> bool
    decreases es, n,
{
    if n == 0 {
        true
    } else if n <= es.len() && n <= as_.len() {
        unify_pairs(es, as_, (n - 1) as nat) && unify_spec(es[n - 1], as_[n - 1])
    } else {
        false
    }
}

proof fn lemma_unify_pairs_prefix(es: Seq<TypeModel>, as_: Seq<TypeModel>, n: nat, k: nat)
    requires
        unify_pairs(es, as_, n),
        k <= n,
    ensures
        unify_pairs(es, as_, k),
    decreases n,
{
    if k < n {
        lemma_unify_pairs_prefix(es, as_, (n - 1) as nat, k);
    }
}

/// Whether a value of type `actual` may stand where `expected` is expected
/// (see [`unify_spec`]).
pub fn types_unify(expected: &Type, actual: &Type) -> (r: bool)
    ensures
        r == unify_spec(expected.model(), actual.model()),
    decreases expected, 1nat,
{
    if expected.same(actual) {
        return true;
    }
    match (expected, actual) {
        (Type::Unknown, _) => true,
        (_, Type::Unknown) => true,
        (Type::Placeholder(_), _) => true,
        (_, Type::Placeholder(_)) => true,
        (Type::Unit, _) => true,
        (_, Type::Unit) => true,
        (Type::Integer { .. }, Type::Integer { .. }) => true,
        (Type::Integer { .. }, Type::Boolean) => true,
        (Type::Boolean, Type::Integer { .. }) => true,
        (Type::Integer { .. }, Type::Pointer(_)) => true,
        (Type::Pointer(_), Type::Integer { .. }) => true,
        (Type::Pointer(x), Type::Pointer(y)) => types_unify(x, y),
        (Type::Pointer(_), y) => is_composite(y),
        (x, Type::Pointer(_)) => is_composite(x),
        (Type::Enum { name: en }, Type::Enum { name: an }) => base_names_match(en.as_str(), an.as_str()),
        (Type::Struct { name: en }, Type::Struct { name: an }) => base_names_match(en.as_str(), an.as_str()),
        (Type::GenericInstance(en, eargs), Type::GenericInstance(an, aargs)) => {
            base_names_match(en.as_str(), an.as_str()) && unify_args(eargs, aargs)
        },
        (Type::GenericInstance(en, _), Type::Enum { name: an }) => base_names_match(en.as_str(), an.as_str()),
        (Type::Enum { name: an }, Type::GenericInstance(en, _)) => base_names_match(en.as_str(), an.as_str()),
        (Type::GenericInstance(en, _), Type::Struct { name: an }) => base_names_match(en.as_str(), an.as_str()),
        (Type::Struct { name: an }, Type::GenericInstance(en, _)) => base_names_match(en.as_str(), an.as_str()),
        _ => false,
    }
}

fn is_composite(t: &Type) -> (b: bool)
    ensures
        b == is_boxed_composite(t.model()),
{
    match t {
        Type::Struct { .. } | Type::Enum { .. } | Type::GenericInstance(..) | Type::String | Type::Tuple(_) => true,
        _ => false,
    }
}

/// The arguments unify pairwise, as far as both lists go.
fn unify_args(es: &Vec<Type>, as_: &Vec<Type>) -> (r: bool)
    ensures
        r == unify_pairs(models(es@), models(as_@), if es@.len() <= as_@.len() { es@.len() } else { as_@.len() }),
    decreases es@, 0nat,
{
    proof {
        lemma_models(es@);
        lemma_models(as_@);
    }
    let ghost me = models(es@);
    let ghost ma = models(as_@);
    let n = if es.len() <= as_.len() { es.len() } else { as_.len() };
    let mut i: usize = 0;
    while i < n
        invariant
            me == models(es@),
            ma == models(as_@),
            me.len() == es@.len(),
            ma.len() == as_@.len(),
            forall|k: int| 0 <= k < es@.len() ==> #[trigger] me[k] == es@[k].model(),
            forall|k: int| 0 <= k < as_@.len() ==> #[trigger] ma[k] == as_@[k].model(),
            n == if es@.len() <= as_@.len() { es@.len() } else { as_@.len() },
            i <= n,
            unify_pairs(me, ma, i as nat),
        decreases n - i,
    {
        if !types_unify(&es[i], &as_[i]) {
            proof {
                assert(me[i as int] == es@[i as int].model());
                assert(ma[i as int] == as_@[i as int].model());
                assert(!unify_pairs(me, ma, (i + 1) as nat));
                if unify_pairs(me, ma, n as nat) {
                    lemma_unify_pairs_prefix(me, ma, n as nat, (i + 1) as nat);
                }
            }
            return false;
        }
        i = i + 1;
    }
    true
}

/// Every type unifies with itself.
pub proof fn lemma_unify_reflexive(t: TypeModel)
    ensures
        unify_spec(t, t),
{
}

/// Unification does not depend on which side is expected.
pub proof fn lemma_unify_symmetric(e: TypeModel, a: TypeModel)
    ensures
        unify_spec(e, a) == unify_spec(a, e),
    decreases e, 1nat,
{
    match (e, a) {
        (TypeModel::Pointer(x), TypeModel::Pointer(y)) => {
            lemma_unify_symmetric(*x, *y);
        },
        (TypeModel::GenericInstance(en, eargs), TypeModel::GenericInstance(an, aargs)) => {
            let n: nat = if eargs.len() <= aargs.len() { eargs.len() } else { aargs.len() };
            lemma_unify_pairs_symmetric(eargs, aargs, n);
        },
        _ => {},
    }
}

proof fn lemma_unify_pairs_symmetric(es: Seq<TypeModel>, as_: Seq<TypeModel>, n: nat)
    ensures
        unify_pairs(es, as_, n) == unify_pairs(as_, es, n),
    decreases es, n,
{
    if n > 0 && n <= es.len() && n <= as_.len() {
        lemma_unify_pairs_symmetric(es, as_, (n - 1) as nat);
        lemma_unify_symmetric(es[n - 1], as_[n - 1]);
    }
}

// ---------------------------------------------------------------------------
// Casts
// ---------------------------------------------------------------------------

/// Numeric types: integers, floats, booleans, dates and durations.
pub open spec fn is_numeric(t: TypeModel) -> bool {
    t is Integer || t is Float || t is Boolean || t is Date || t is Duration
}

/// Whether `src as dst` is allowed: equal types, an unknown or generic side
/// (or a unit source), numeric to numeric or pointer, and pointer to
/// numeric or pointer; casts to or from composite types are rejected.
pub open spec fn cast_allowed(src: TypeModel, dst: TypeModel) -> bool {
    ||| src == dst
    ||| src is Unknown || src is Placeholder || src is Unit
    ||| dst is Unknown || dst is Placeholder
    ||| is_numeric(src) && (is_numeric(dst) || dst is Pointer)
    ||| src is Pointer && (is_numeric(dst) || dst is Pointer)
}

/// The cast table, for any type `t`, struct or enum name `name` and integer
/// type: integers, floats, booleans, dates and durations cast to one another
/// and to pointers; pointers cast to those and to pointers; anything casts to
/// an unknown type and from an unknown type or `void`; strings, structs and
/// enums cast to no scalar and no scalar casts to them.
pub proof fn lemma_cast_table(t: TypeModel, name: Seq<char>, signed: bool, bits: u8)
    ensures
        cast_allowed(TypeModel::Integer { signed, bits }, TypeModel::Float),
        cast_allowed(TypeModel::Float, TypeModel::Integer { signed, bits }),
        cast_allowed(TypeModel::Boolean, TypeModel::Integer { signed, bits }),
        cast_allowed(TypeModel::Integer { signed, bits }, TypeModel::Boolean),
        cast_allowed(TypeModel::Date, TypeModel::Integer { signed, bits }),
        cast_allowed(TypeModel::Duration, TypeModel::Float),
        cast_allowed(TypeModel::Integer { signed, bits }, TypeModel::Pointer(Box::new(t))),
        cast_allowed(TypeModel::Pointer(Box::new(t)), TypeModel::Integer { signed, bits }),
        cast_allowed(TypeModel::Pointer(Box::new(t)), TypeModel::Pointer(Box::new(TypeModel::Unknown))),
        cast_allowed(t, TypeModel::Unknown),
        cast_allowed(TypeModel::Unknown, t),
        cast_allowed(TypeModel::Unit, t),
        cast_allowed(t, t),
        !cast_allowed(TypeModel::String, TypeModel::Integer { signed, bits }),
        !cast_allowed(TypeModel::Integer { signed, bits }, TypeModel::String),
        !cast_allowed(TypeModel::Float, TypeModel::String),
        !cast_allowed(TypeModel::Struct { name }, TypeModel::Integer { signed, bits }),
        !cast_allowed(TypeModel::Integer { signed, bits }, TypeModel::Struct { name }),
        !cast_allowed(TypeModel::Enum { name }, TypeModel::Float),
        !cast_allowed(TypeModel::Boolean, TypeModel::Enum { name }),
{
}

fn is_num(t: &Type) -> (b: bool)
    ensures
        b == is_numeric(t.model()),
{
    match t {
        Type::Integer { .. } | Type::Float | Type::Boolean | Type::Date | Type::Duration => true,
        _ => false,
    }
}

/// Checks a cast from `src` to `dst` (see [`cast_allowed`]); the error
/// names both types.
pub fn check_cast_pair(src: &Type, dst: &Type) -> (r: Result<(), String>)
    ensures
        r is Ok <==> cast_allowed(src.model(), dst.model()),
        r matches Err(m) ==> m@ == "cannot cast "@ + type_name_spec(src.model()) + " to "@ + type_name_spec(dst.model()),
{
    let wild_src = match src {
        Type::Unknown | Type::Placeholder(_) | Type::Unit => true,
        _ => false,
    };
    let wild_dst = match dst {
        Type::Unknown | Type::Placeholder(_) => true,
        _ => false,
    };
    if src.same(dst) || wild_src || wild_dst {
        return Ok(());
    }
    let src_ptr = matches!(src, Type::Pointer(_));
    let dst_ptr = matches!(dst, Type::Pointer(_));
    if (is_num(src) && (is_num(dst) || dst_ptr)) || (src_ptr && (is_num(dst) || dst_ptr)) {
        return Ok(());
    }
    let mut v: Vec<char> = Vec::new();
    push_str_chars(&mut v, "cannot cast ");
    let a = src.name();
    push_str_chars(&mut v, a.as_str());
    push_str_chars(&mut v, " to ");
    let b = dst.name();
    push_str_chars(&mut v, b.as_str());
    Err(string_from_chars(&v))
}

/// A type may always be cast to itself.
pub proof fn lemma_cast_reflexive(t: TypeModel)
    ensures
        cast_allowed(t, t),
{
}

// ---------------------------------------------------------------------------
// Debug notation of types
// ---------------------------------------------------------------------------

/// `true` or `false`.
pub open spec fn bool_text(b: bool) -> Seq<char> {
    if b {
        "true"@
    } else {
        "false"@
    }
}

/// The debug notation of a type, as `{:?}` writes it.
pub open spec fn type_debug_spec(t: TypeModel) -> Seq<char>
    decreases t, 1nat,
{
    match t {
        TypeModel::Unit => "Unit"@,
        TypeModel::Integer { signed, bits } => "Integer { signed: "@ + bool_text(signed) + ", bits: "@ + nat_text(bits as nat)
            + " }"@,
        TypeModel::Float => "Float"@,
        TypeModel::Boolean => "Boolean"@,
        TypeModel::String => "String"@,
        TypeModel::Duration => "Duration"@,
        TypeModel::Date => "Date"@,
        TypeModel::Function { is_unsafe, params, return_type } => "Function { is_unsafe: "@ + bool_text(is_unsafe)
            + ", params: "@ + type_list_debug(params) + ", return_type: "@ + type_debug_spec(*return_type) + " }"@,
        TypeModel::Enum { name } => "Enum { name: "@ + str_debug_text(name) + " }"@,
        TypeModel::Struct { name } => "Struct { name: "@ + str_debug_text(name) + " }"@,
        TypeModel::Placeholder(n) => "Placeholder("@ + str_debug_text(n) + ")"@,
        TypeModel::GenericInstance(n, args) => "GenericInstance("@ + str_debug_text(n) + ", "@ + type_list_debug(args)
            + ")"@,
        TypeModel::Pointer(x) => "Pointer("@ + type_debug_spec(*x) + ")"@,
        TypeModel::Tuple(xs) => "Tuple("@ + type_list_debug(xs) + ")"@,
        TypeModel::Unknown => "Unknown"@,
    }
}

/// The debug notation of each type of a sequence.
pub open spec fn type_debug_parts(ts: Seq<TypeModel>) -> Seq<Seq<char>>
    decreases ts, 0nat,
{
    Seq::new(ts.len(), |i: int| if 0 <= i < ts.len() { type_debug_spec(ts[i]) } else { Seq::empty() })
}

/// The debug notation of a list of types: `[A, B]`.
pub open spec fn type_list_debug(ts: Seq<TypeModel>) -> Seq<char>
    decreases ts, 1nat,
{
    "["@ + join_seqs(type_debug_parts(ts), ", "@) + "]"@
}

fn push_bool(v: &mut Vec<char>, b: bool)
    ensures
        final(v)@ == old(v)@ + bool_text(b),
{
    if b {
        push_str_chars(v, "true");
    } else {
        push_str_chars(v, "false");
    }
}

fn push_str_debug(v: &mut Vec<char>, s: &String)
    ensures
        final(v)@ == old(v)@ + str_debug_text(s@),
{
    let d = str_debug(s.as_str());
    push_str_chars(v, d.as_str());
}

impl Type {
    /// Appends the debug notation of the type (see [`type_debug_spec`]).
    pub fn push_debug(&self, v: &mut Vec<char>)
        ensures
            final(v)@ == old(v)@ + type_debug_spec(self.model()),
        decreases self, 1nat,
    {
        let ghost start = v@;
        match self {
            Type::Unit => push_str_chars(v, "Unit"),
            Type::Integer { signed, bits } => {
                push_str_chars(v, "Integer { signed: ");
                push_bool(v, *signed);
                push_str_chars(v, ", bits: ");
                let d = usize_text(*bits as usize);
                push_slice(v, &d);
                push_str_chars(v, " }");
            },
            Type::Float => push_str_chars(v, "Float"),
            Type::Boolean => push_str_chars(v, "Boolean"),
            Type::String => push_str_chars(v, "String"),
            Type::Duration => push_str_chars(v, "Duration"),
            Type::Date => push_str_chars(v, "Date"),
            Type::Function { is_unsafe, params, return_type } => {
                push_str_chars(v, "Function { is_unsafe: ");
                push_bool(v, *is_unsafe);
                push_str_chars(v, ", params: ");
                push_debug_list(v, params);
                push_str_chars(v, ", return_type: ");
                return_type.push_debug(v);
                push_str_chars(v, " }");
            },
            Type::Enum { name } => {
                push_str_chars(v, "Enum { name: ");
                push_str_debug(v, name);
                push_str_chars(v, " }");
            },
            Type::Struct { name } => {
                push_str_chars(v, "Struct { name: ");
                push_str_debug(v, name);
                push_str_chars(v, " }");
            },
            Type::Placeholder(n) => {
                push_str_chars(v, "Placeholder(");
                push_str_debug(v, n);
                push_str_chars(v, ")");
            },
            Type::GenericInstance(n, args) => {
                push_str_chars(v, "GenericInstance(");
                push_str_debug(v, n);
                push_str_chars(v, ", ");
                push_debug_list(v, args);
                push_str_chars(v, ")");
            },
            Type::Pointer(x) => {
                push_str_chars(v, "Pointer(");
                x.push_debug(v);
                push_str_chars(v, ")");
            },
            Type::Tuple(xs) => {
                push_str_chars(v, "Tuple(");
                push_debug_list(v, xs);
                push_str_chars(v, ")");
            },
            Type::Unknown => push_str_chars(v, "Unknown"),
        }
        proof {
            assert(v@ =~= start + type_debug_spec(self.model()));
        }
    }

    /// The debug notation of the type (see [`type_debug_spec`]).
    pub fn debug_text(&self) -> (r: String)
        ensures
            r@ == type_debug_spec(self.model()),
    {
        let mut v: Vec<char> = Vec::new();
        self.push_debug(&mut v);
        string_from_chars(&v)
    }
}

fn push_debug_list(v: &mut Vec<char>, ts: &Vec<Type>)
    ensures
        final(v)@ == old(v)@ + type_list_debug(models(ts@)),
    decreases ts@, 0nat,
{
    proof {
        lemma_models(ts@);
    }
    let ghost start = v@;
    let ghost parts = type_debug_parts(models(ts@));
    push_str_chars(v, "[");
    let ghost head = v@;
    let mut i: usize = 0;
    while i < ts.len()
        invariant
            i <= ts@.len(),
            parts == type_debug_parts(models(ts@)),
            models(ts@).len() == ts@.len(),
            forall|k: int| 0 <= k < ts@.len() ==> #[trigger] models(ts@)[k] == ts@[k].model(),
            v@ == head + join_seqs(parts.take(i as int), ", "@),
        decreases ts@.len() - i,
    {
        proof { lemma_join_take(parts, ", "@, i as int); }
        if i > 0 {
            push_str_chars(v, ", ");
        }
        ts[i].push_debug(v);
        i = i + 1;
        proof {
            assert(v@ =~= head + join_seqs(parts.take(i as int), ", "@));
        }
    }
    assert(parts.take(ts@.len() as int) =~= parts);
    push_str_chars(v, "]");
    assert(v@ =~= start + type_list_debug(models(ts@)));
}

// ---------------------------------------------------------------------------
// Infix operators
// ---------------------------------------------------------------------------

/// What applying an infix operator to operands of two types gives.
pub enum InfixOutcome {
    /// The result type.
    Typed(TypeModel),
    /// Integers of equal signedness and width under an operator they do not support.
    IntegerOperator,
    /// Integers of different signedness or width.
    WidthMismatch,
    /// Any other unsupported combination.
    Unsupported,
}

/// Arithmetic operators on integers.
pub open spec fn is_int_arith(k: TokenKind) -> bool {
    k is Plus || k is Minus || k is Star || k is Slash || k is Percent || k is Caret || k is Range
}

/// Comparisons (and `inside`) on integers.
pub open spec fn is_int_compare(k: TokenKind) -> bool {
    k is EqEq || k is NotEq || k is Lt || k is Gt || k is LtEq || k is GtEq || k is Inside
}

/// Comparisons on floats.
pub open spec fn is_compare(k: TokenKind) -> bool {
    k is EqEq || k is NotEq || k is Lt || k is Gt || k is LtEq || k is GtEq
}

/// The typing of `l op r`: integers of one signedness and width give their type under
/// arithmetic and `bool` under comparison; floats likewise under `+ - * /`;
/// booleans under `&& || == !=`; strings join with strings and integers and
/// compare for equality; a date moves by a duration; durations add, subtract,
/// divide to a float and compare; other equal types compare for equality; a
/// generic-parameter operand takes the other side's type.
pub open spec fn infix_outcome(t1: TypeModel, t2: TypeModel, k: TokenKind) -> InfixOutcome {
    let fallback = if t2 is Placeholder {
        InfixOutcome::Typed(t1)
    } else {
        InfixOutcome::Unsupported
    };
    match t1 {
        TypeModel::Integer { signed: s1, bits: b1 } => match t2 {
            TypeModel::Integer { signed: s2, bits: b2 } => if s1 == s2 && b1 == b2 {
                if is_int_arith(k) {
                    InfixOutcome::Typed(t1)
                } else if is_int_compare(k) {
                    InfixOutcome::Typed(TypeModel::Boolean)
                } else {
                    InfixOutcome::IntegerOperator
                }
            } else {
                InfixOutcome::WidthMismatch
            },
            _ => fallback,
        },
        TypeModel::Float => if t2 is Float && (k is Plus || k is Minus || k is Star || k is Slash) {
            InfixOutcome::Typed(TypeModel::Float)
        } else if t2 is Float && is_compare(k) {
            InfixOutcome::Typed(TypeModel::Boolean)
        } else {
            fallback
        },
        TypeModel::Boolean => if t2 is Boolean && (k is And || k is Or || k is EqEq || k is NotEq) {
            InfixOutcome::Typed(TypeModel::Boolean)
        } else {
            fallback
        },
        TypeModel::String => if (t2 is String || t2 is Integer) && k is Plus {
            InfixOutcome::Typed(TypeModel::String)
        } else if t2 is String && (k is EqEq || k is NotEq) {
            InfixOutcome::Typed(TypeModel::Boolean)
        } else {
            fallback
        },
        TypeModel::Placeholder(_) => InfixOutcome::Typed(t1),
        TypeModel::Date => if t2 is Duration && (k is Plus || k is Minus) {
            InfixOutcome::Typed(TypeModel::Date)
        } else {
            fallback
        },
        TypeModel::Duration => if t2 is Duration && (k is Plus || k is Minus) {
            InfixOutcome::Typed(TypeModel::Duration)
        } else if t2 is Duration && k is Slash {
            InfixOutcome::Typed(TypeModel::Float)
        } else if t2 is Duration && (k is EqEq || k is NotEq) {
            InfixOutcome::Typed(TypeModel::Boolean)
        } else {
            fallback
        },
        _ => if t1 == t2 && (k is EqEq || k is NotEq) {
            InfixOutcome::Typed(TypeModel::Boolean)
        } else {
            fallback
        },
    }
}

/// The diagnostic `check_compatibility` gives for an outcome that is no type.
pub open spec fn infix_error_ok(e: CompileError, t1: TypeModel, t2: TypeModel, op: Token, o: InfixOutcome) -> bool {
    match o {
        InfixOutcome::IntegerOperator => e matches CompileError::InvalidOperator { op: opn, left, right, line, col, snippet }
            && opn@ == kind_debug_text(op.kind) && left@ == type_name_spec(t1) && right@ == type_name_spec(t2)
            && line == op.line && col == op.col && snippet is None,
        InfixOutcome::WidthMismatch => e matches CompileError::Type { message, line, col, snippet }
            && message@ == "cannot apply '"@ + kind_debug_text(op.kind) + "' to mismatched integer types "@
            + type_name_spec(t1) + " and "@ + type_name_spec(t2) && line == op.line && col == op.col && snippet is None,
        InfixOutcome::Unsupported => e matches CompileError::InvalidOperator { op: opn, left, right, line, col, snippet }
            && opn@ == kind_debug_text(op.kind) && left@ == type_debug_spec(t1) && right@ == type_debug_spec(t2)
            && line == op.line && col == op.col && snippet is None,
        InfixOutcome::Typed(_) => false,
    }
}

fn kind_debug_string(k: &TokenKind) -> (r: String)
    ensures
        r@ == kind_debug_text(*k),
{
    let mut v: Vec<char> = Vec::new();
    push_kind_debug(&mut v, k);
    string_from_chars(&v)
}

fn is_arith_op(k: &TokenKind) -> (b: bool)
    ensures
        b == is_int_arith(*k),
{
    matches!(k, TokenKind::Plus | TokenKind::Minus | TokenKind::Star | TokenKind::Slash | TokenKind::Percent | TokenKind::Caret | TokenKind::Range)
}

fn is_int_cmp_op(k: &TokenKind) -> (b: bool)
    ensures
        b == is_int_compare(*k),
{
    matches!(k, TokenKind::EqEq | TokenKind::NotEq | TokenKind::Lt | TokenKind::Gt | TokenKind::LtEq | TokenKind::GtEq | TokenKind::Inside)
}

fn is_cmp_op(k: &TokenKind) -> (b: bool)
    ensures
        b == is_compare(*k),
{
    matches!(k, TokenKind::EqEq | TokenKind::NotEq | TokenKind::Lt | TokenKind::Gt | TokenKind::LtEq | TokenKind::GtEq)
}

/// The operator table on operands of one scalar type, for every operator
/// `k`: floats take `+ - * /` to a float and the six comparisons to `bool`,
/// and refuse `%`, `^`, `&&` and `||`; integers of one signedness and width
/// keep their type under `+ - * / % ^ ..`, give `bool` under the
/// comparisons and `inside`, and refuse `&&` and `||`; booleans take
/// `&& || == !=`; strings join with strings and integers under `+` and
/// compare for equality; a date moves by a duration under `+ -`; durations
/// add and subtract to a duration, divide to a float and compare for
/// equality.
pub proof fn lemma_operator_table(k: TokenKind, signed: bool, bits: u8)
    ensures
        (k is Plus || k is Minus || k is Star || k is Slash)
            ==> infix_outcome(TypeModel::Float, TypeModel::Float, k) == InfixOutcome::Typed(TypeModel::Float),
        (k is EqEq || k is NotEq || k is Lt || k is Gt || k is LtEq || k is GtEq)
            ==> infix_outcome(TypeModel::Float, TypeModel::Float, k) == InfixOutcome::Typed(TypeModel::Boolean),
        (k is Percent || k is Caret || k is And || k is Or)
            ==> infix_outcome(TypeModel::Float, TypeModel::Float, k) == InfixOutcome::Unsupported,
        (k is Plus || k is Minus || k is Star || k is Slash || k is Percent || k is Caret || k is Range)
            ==> infix_outcome(TypeModel::Integer { signed, bits }, TypeModel::Integer { signed, bits }, k)
                == InfixOutcome::Typed(TypeModel::Integer { signed, bits }),
        (k is EqEq || k is NotEq || k is Lt || k is Gt || k is LtEq || k is GtEq || k is Inside)
            ==> infix_outcome(TypeModel::Integer { signed, bits }, TypeModel::Integer { signed, bits }, k)
                == InfixOutcome::Typed(TypeModel::Boolean),
        (k is And || k is Or)
            ==> infix_outcome(TypeModel::Integer { signed, bits }, TypeModel::Integer { signed, bits }, k)
                == InfixOutcome::IntegerOperator,
        (k is And || k is Or || k is EqEq || k is NotEq)
            ==> infix_outcome(TypeModel::Boolean, TypeModel::Boolean, k) == InfixOutcome::Typed(TypeModel::Boolean),
        (k is Plus || k is Minus || k is Star || k is Slash || k is Lt || k is Gt)
            ==> infix_outcome(TypeModel::Boolean, TypeModel::Boolean, k) == InfixOutcome::Unsupported,
        k is Plus ==> infix_outcome(TypeModel::String, TypeModel::String, k) == InfixOutcome::Typed(TypeModel::String),
        k is Plus ==> infix_outcome(TypeModel::String, TypeModel::Integer { signed, bits }, k)
            == InfixOutcome::Typed(TypeModel::String),
        (k is EqEq || k is NotEq)
            ==> infix_outcome(TypeModel::String, TypeModel::String, k) == InfixOutcome::Typed(TypeModel::Boolean),
        (k is Minus || k is Star || k is Slash || k is Lt)
            ==> infix_outcome(TypeModel::String, TypeModel::String, k) == InfixOutcome::Unsupported,
        (k is Plus || k is Minus)
            ==> infix_outcome(TypeModel::Date, TypeModel::Duration, k) == InfixOutcome::Typed(TypeModel::Date),
        (k is Plus || k is Minus)
            ==> infix_outcome(TypeModel::Duration, TypeModel::Duration, k) == InfixOutcome::Typed(TypeModel::Duration),
        k is Slash ==> infix_outcome(TypeModel::Duration, TypeModel::Duration, k) == InfixOutcome::Typed(TypeModel::Float),
        (k is EqEq || k is NotEq)
            ==> infix_outcome(TypeModel::Duration, TypeModel::Duration, k) == InfixOutcome::Typed(TypeModel::Boolean),
        (k is Star || k is Lt)
            ==> infix_outcome(TypeModel::Duration, TypeModel::Duration, k) == InfixOutcome::Unsupported,
{
}

/// Mixed scalar operands are refused under every operator: an integer with
/// a float, a float with an integer, a boolean with an integer, integers of
/// different widths.
pub proof fn lemma_mixed_operands_refused(k: TokenKind, signed: bool, bits: u8, other_bits: u8)
    requires
        bits != other_bits,
    ensures
        infix_outcome(TypeModel::Integer { signed, bits }, TypeModel::Float, k) == InfixOutcome::Unsupported,
        infix_outcome(TypeModel::Float, TypeModel::Integer { signed, bits }, k) == InfixOutcome::Unsupported,
        infix_outcome(TypeModel::Boolean, TypeModel::Integer { signed, bits }, k) == InfixOutcome::Unsupported,
        infix_outcome(TypeModel::Integer { signed, bits }, TypeModel::Integer { signed, bits: other_bits }, k)
            == InfixOutcome::WidthMismatch,
{
}

/// The type of `t1 op t2` (see [`infix_outcome`]), or the diagnostic for an
/// unsupported combination, at the operator's position.
pub fn check_compatibility(t1: Type, t2: Type, op: &Token) -> (r: Result<Type, CompileError>)
    ensures
        match infix_outcome(t1.model(), t2.model(), op.kind) {
            InfixOutcome::Typed(t) => r matches Ok(x) && x.model() == t,
            o => r matches Err(e) && infix_error_ok(e, t1.model(), t2.model(), *op, o),
        },
{
    let k = &op.kind;
    let t2_placeholder = matches!(t2, Type::Placeholder(_));
    match &t1 {
        Type::Integer { signed: s1, bits: b1 } => {
            if let Type::Integer { signed: s2, bits: b2 } = &t2 {
                if *s1 == *s2 && *b1 == *b2 {
                    if is_arith_op(k) {
                        return Ok(t1);
                    }
                    if is_int_cmp_op(k) {
                        return Ok(Type::Boolean);
                    }
                    return Err(CompileError::InvalidOperator {
                        op: kind_debug_string(k),
                        left: t1.name(),
                        right: t2.name(),
                        line: op.line,
                        col: op.col,
                        snippet: None,
                    });
                }
                let mut m: Vec<char> = Vec::new();
                push_str_chars(&mut m, "cannot apply '");
                push_kind_debug(&mut m, k);
                push_str_chars(&mut m, "' to mismatched integer types ");
                let a = t1.name();
                push_str_chars(&mut m, a.as_str());
                push_str_chars(&mut m, " and ");
                let b = t2.name();
                push_str_chars(&mut m, b.as_str());
                return Err(CompileError::Type { message: string_from_chars(&m), line: op.line, col: op.col, snippet: None });
            }
        },
        Type::Float => {
            if matches!(t2, Type::Float) {
                if matches!(k, TokenKind::Plus | TokenKind::Minus | TokenKind::Star | TokenKind::Slash) {
                    return Ok(Type::Float);
                }
                if is_cmp_op(k) {
                    return Ok(Type::Boolean);
                }
            }
        },
        Type::Boolean => {
            if matches!(t2, Type::Boolean) && matches!(k, TokenKind::And | TokenKind::Or | TokenKind::EqEq | TokenKind::NotEq) {
                return Ok(Type::Boolean);
            }
        },
        Type::String => {
            if (matches!(t2, Type::String) || t2.is_integer()) && matches!(k, TokenKind::Plus) {
                return Ok(Type::String);
            }
            if matches!(t2, Type::String) && matches!(k, TokenKind::EqEq | TokenKind::NotEq) {
                return Ok(Type::Boolean);
            }
        },
        Type::Placeholder(_) => {
            return Ok(t1);
        },
        Type::Date => {
            if matches!(t2, Type::Duration) && matches!(k, TokenKind::Plus | TokenKind::Minus) {
                return Ok(Type::Date);
            }
        },
        Type::Duration => {
            if matches!(t2, Type::Duration) {
                if matches!(k, TokenKind::Plus | TokenKind::Minus) {
                    return Ok(Type::Duration);
                }
                if matches!(k, TokenKind::Slash) {
                    return Ok(Type::Float);
                }
                if matches!(k, TokenKind::EqEq | TokenKind::NotEq) {
                    return Ok(Type::Boolean);
                }
            }
        },
        _ => {
            if t1.same(&t2) && matches!(k, TokenKind::EqEq | TokenKind::NotEq) {
                return Ok(Type::Boolean);
            }
        },
    }
    if t2_placeholder {
        return Ok(t1);
    }
    Err(CompileError::InvalidOperator {
        op: kind_debug_string(k),
        left: t1.debug_text(),
        right: t2.debug_text(),
        line: op.line,
        col: op.col,
        snippet: None,
    })
}

} // verus!
