//! Scoped symbol tables used by the type checker.

use vstd::prelude::*;
use super::types::{Type, TypeModel};
use crate::text::{chars_of, chars_eq};

verus! {

/// A scope of name bindings with an optional enclosing scope. Each name is
/// bound at most once per scope; inner scopes shadow outer ones.
pub struct Environment {
    store: Vec<(String, Type)>,
    outer: Option<Box<Environment>>,
}

/// No name is bound twice in one scope.
pub open spec fn unique_keys(s: Seq<(String, Type)>) -> bool {
    forall|i: int, j: int| 0 <= i < j < s.len() ==> s[i].0@ != s[j].0@
}

/// The bindings of one scope, as a map from names to types.
pub open spec fn bindings(s: Seq<(String, Type)>) -> Map<Seq<char>, TypeModel>
    decreases s.len(),
{
    if s.len() == 0 {
        Map::empty()
    } else {
        bindings(s.drop_last()).insert(s.last().0@, s.last().1.model())
    }
}

/// The names of one scope's bindings, in binding order.
pub open spec fn binding_names(s: Seq<(String, Type)>) -> Seq<Seq<char>> {
    s.map_values(|e: (String, Type)| e.0@)
}

proof fn lemma_bindings(s: Seq<(String, Type)>)
    requires
        unique_keys(s),
    ensures
        forall|k: Seq<char>| #[trigger] bindings(s).contains_key(k) <==> exists|i: int| 0 <= i < s.len() && s[i].0@ == k,
        forall|i: int| 0 <= i < s.len() ==> #[trigger] bindings(s)[s[i].0@] == s[i].1.model(),
    decreases s.len(),
{
    if s.len() > 0 {
        let p = s.drop_last();
        assert(unique_keys(p));
        lemma_bindings(p);
        assert forall|k: Seq<char>| #[trigger] bindings(s).contains_key(k) <==> exists|i: int| 0 <= i < s.len() && s[i].0@ == k by {
            if bindings(s).contains_key(k) && k != s.last().0@ {
                let i = choose|i: int| 0 <= i < p.len() && p[i].0@ == k;
                assert(s[i] == p[i]);
            }
            if exists|i: int| 0 <= i < s.len() && s[i].0@ == k {
                let i = choose|i: int| 0 <= i < s.len() && s[i].0@ == k;
                if i < p.len() {
                    assert(s[i] == p[i]);
                }
            }
        }
        assert forall|i: int| 0 <= i < s.len() implies #[trigger] bindings(s)[s[i].0@] == s[i].1.model() by {
            if i < p.len() {
                assert(s[i] == p[i]);
                assert(s[i].0@ != s.last().0@);
            }
        }
    }
}

/// A binding of `key` matches the looked-up `name` when `key` is `name`
/// qualified by a path: `name`, `<path>.name` or `<path>::name`.
pub open spec fn qualified_match(key: Seq<char>, name: Seq<char>) -> bool {
    &&& key.len() >= name.len()
    &&& key.subrange(key.len() - name.len(), key.len() as int) == name
    &&& {
        let prefix = key.take(key.len() - name.len());
        ||| prefix.len() == 0
        ||| prefix.last() == '.'
        ||| (prefix.len() >= 2 && prefix[prefix.len() - 2] == ':' && prefix.last() == ':')
    }
}

/// The type of the first of `es` (in binding order) whose name is `name`
/// qualified by a path.
pub open spec fn first_qualified(es: Seq<(Seq<char>, TypeModel)>, name: Seq<char>) -> Option<TypeModel>
    decreases es.len(),
{
    if es.len() == 0 {
        None
    } else if qualified_match(es[0].0, name) {
        Some(es[0].1)
    } else {
        first_qualified(es.drop_first(), name)
    }
}

proof fn lemma_first_qualified_at(es: Seq<(Seq<char>, TypeModel)>, name: Seq<char>, i: int)
    requires
        0 <= i < es.len(),
        qualified_match(es[i].0, name),
        forall|k: int| 0 <= k < i ==> !qualified_match(#[trigger] es[k].0, name),
    ensures
        first_qualified(es, name) == Some(es[i].1),
    decreases i,
{
    if i > 0 {
        assert(!qualified_match(es[0].0, name));
        let d = es.drop_first();
        assert forall|k: int| 0 <= k < i - 1 implies !qualified_match(#[trigger] d[k].0, name) by {
            assert(d[k] == es[k + 1]);
        }
        lemma_first_qualified_at(d, name, i - 1);
    }
}

proof fn lemma_first_qualified_some(es: Seq<(Seq<char>, TypeModel)>, name: Seq<char>, i: int)
    requires
        0 <= i < es.len(),
        qualified_match(es[i].0, name),
    ensures
        first_qualified(es, name) is Some,
    decreases i,
{
    if i > 0 && !qualified_match(es[0].0, name) {
        assert(es.drop_first()[i - 1] == es[i]);
        lemma_first_qualified_some(es.drop_first(), name, i - 1);
    }
}

/// `a` and `b` bind the same names to the same types, scope by scope.
pub open spec fn same_scopes(a: Environment, b: Environment) -> bool
    decreases b,
{
    &&& a.scope() == b.scope()
    &&& a.entries() == b.entries()
    &&& match (a.enclosing(), b.enclosing()) {
        (None, None) => true,
        (Some(x), Some(y)) => if decreases_to!(b => y) { same_scopes(x, y) } else { false },
        _ => false,
    }
}

impl Environment {
    #[verifier::type_invariant]
    spec fn wf(self) -> bool {
        unique_keys(self.store@)
    }

    /// The bindings of the innermost scope.
    pub closed spec fn scope(self) -> Map<Seq<char>, TypeModel> {
        bindings(self.store@)
    }

    /// The bindings of the innermost scope, in the order they were made.
    pub closed spec fn entries(self) -> Seq<(Seq<char>, TypeModel)> {
        self.store@.map_values(|e: (String, Type)| (e.0@, e.1.model()))
    }

    /// The enclosing scope, if any.
    pub closed spec fn enclosing(self) -> Option<Environment> {
        match self.outer {
            Some(b) => Some(*b),
            None => None,
        }
    }

    /// `r` is the result of looking `name` up: an exact binding in the
    /// innermost scope; otherwise the first binding there, in binding order,
    /// whose name is `name` qualified by a path; otherwise the lookup in the
    /// enclosing scope.
    pub open spec fn lookup_ok(self, name: Seq<char>, r: Option<TypeModel>) -> bool
        decreases self,
    {
        let m = self.scope();
        if m.contains_key(name) {
            r == Some(m[name])
        } else if exists|k: Seq<char>| m.contains_key(k) && qualified_match(k, name) {
            r == first_qualified(self.entries(), name)
        } else {
            match self.enclosing() {
                Some(o) => if decreases_to!(self => o) { o.lookup_ok(name, r) } else { false },
                None => r is None,
            }
        }
    }

    /// Every name bound in this scope or an enclosing one.
    pub open spec fn all_names(self) -> Set<Seq<char>>
        decreases self,
    {
        let here = self.scope().dom();
        match self.enclosing() {
            Some(o) => if decreases_to!(self => o) { here.union(o.all_names()) } else { here },
            None => here,
        }
    }

    /// An empty outermost scope.
    pub fn new() -> (e: Environment)
        ensures
            e.scope() == Map::<Seq<char>, TypeModel>::empty(),
            e.enclosing() is None,
    {
        Environment { store: Vec::new(), outer: None }
    }

    /// An empty scope enclosed by `outer`.
    pub fn new_enclosed(outer: Environment) -> (e: Environment)
        ensures
            e.scope() == Map::<Seq<char>, TypeModel>::empty(),
            e.enclosing() == Some(outer),
    {
        Environment { store: Vec::new(), outer: Some(Box::new(outer)) }
    }

    /// Binds `name` to `val` in the innermost scope, replacing an earlier
    /// binding of the same name there.
    #[verifier::loop_isolation(false)]
    pub fn set(&mut self, name: String, val: Type)
        ensures
            final(self).scope() == old(self).scope().insert(name@, val.model()),
            final(self).enclosing() == old(self).enclosing(),
    {
        proof {
            use_type_invariant(&*self);
            lemma_bindings(self.store@);
        }
        let mut i: usize = 0;
        let ghost name_v = name@;
        let ghost val_m = val.model();
        while i < self.store.len()
            invariant
                i <= self.store@.len(),
                unique_keys(self.store@),
                self.store@ == old(self).store@,
                self.outer == old(self).outer,
                forall|k: int| 0 <= k < i ==> self.store@[k].0@ != name_v,
            decreases self.store@.len() - i,
        {
            if self.store[i].0 == name {
                let ghost old_store = self.store@;
                let mut store: Vec<(String, Type)> = Vec::new();
                std::mem::swap(&mut store, &mut self.store);
                store.set(i, (name, val));
                self.store = store;
                proof {
                    lemma_bindings(old_store);
                    lemma_bindings(self.store@);
                    let ns = self.store@;
                    assert(ns == old_store.update(i as int, ns[i as int]));
                    assert(ns[i as int].0@ == name_v);
                    assert(old_store[i as int].0@ == name_v);
                    assert forall|k: Seq<char>| #[trigger] bindings(ns).contains_key(k)
                        == bindings(old_store).insert(name_v, val_m).contains_key(k) by {
                        if k != name_v && bindings(old_store).contains_key(k) {
                            let j = choose|j: int| 0 <= j < old_store.len() && old_store[j].0@ == k;
                            assert(j != i);
                            assert(ns[j] == old_store[j]);
                        }
                        if k != name_v && bindings(ns).contains_key(k) {
                            let j = choose|j: int| 0 <= j < ns.len() && ns[j].0@ == k;
                            assert(j != i);
                            assert(ns[j] == old_store[j]);
                        }
                        if k == name_v {
                            assert(ns[i as int].0@ == k);
                        }
                    }
                    assert forall|k: Seq<char>| #[trigger] bindings(self.store@).contains_key(k) implies
                        bindings(self.store@)[k] == bindings(old_store).insert(name_v, val_m)[k] by {
                        let j = choose|j: int| 0 <= j < self.store@.len() && self.store@[j].0@ == k;
                        if j != i {
                            assert(self.store@[j] == old_store[j]);
                        }
                    }
                    assert(bindings(self.store@) =~= bindings(old_store).insert(name_v, val_m));
                }
                return;
            }
            i = i + 1;
        }
        let ghost old_store = self.store@;
        let mut store: Vec<(String, Type)> = Vec::new();
        std::mem::swap(&mut store, &mut self.store);
        store.push((name, val));
        proof {
            assert(store@.drop_last() =~= old_store);
            assert(unique_keys(store@));
            assert(bindings(store@) == bindings(old_store).insert(name_v, val_m));
        }
        self.store = store;
        assert(self.outer == old(self).outer);
        assert(old_store == old(self).store@);
    }

    /// The type bound to `name`: an exact binding in the innermost scope,
    /// else a binding there whose name is `name` qualified by a path
    /// (`<path>.name` or `<path>::name`), the first such in binding order,
    /// else the lookup in the enclosing scope.
    #[verifier::loop_isolation(false)]
    pub fn get(&self, name: &str) -> (r: Option<Type>)
        ensures
            self.lookup_ok(name@, match r { Some(t) => Some(t.model()), None => None }),
        decreases self,
    {
        proof {
            use_type_invariant(self);
            lemma_bindings(self.store@);
        }
        let name_chars = chars_of(name);
        let ghost m = self.scope();
        let mut i: usize = 0;
        while i < self.store.len()
            invariant
                i <= self.store@.len(),
                name_chars@ == name@,
                forall|k: int| 0 <= k < i ==> self.store@[k].0@ != name@,
            decreases self.store@.len() - i,
        {
            let key = chars_of(self.store[i].0.as_str());
            if chars_eq(&key, &name_chars) {
                return Some(self.store[i].1.clone_type());
            }
            i = i + 1;
        }
        assert(!m.contains_key(name@));
        let mut i: usize = 0;
        while i < self.store.len()
            invariant
                i <= self.store@.len(),
                name_chars@ == name@,
                forall|k: int| 0 <= k < i ==> !qualified_match(#[trigger] self.store@[k].0@, name@),
            decreases self.store@.len() - i,
        {
            let key = chars_of(self.store[i].0.as_str());
            if qualified_match_exec(&key, &name_chars) {
                let t = self.store[i].1.clone_type();
                assert(m.contains_key(self.store@[i as int].0@));
                proof {
                    let es = self.entries();
                    assert forall|k: int| 0 <= k < i implies !qualified_match(#[trigger] es[k].0, name@) by {
                        assert(es[k].0 == self.store@[k].0@);
                    }
                    lemma_first_qualified_at(es, name@, i as int);
                }
                return Some(t);
            }
            i = i + 1;
        }
        assert(!exists|k: Seq<char>| m.contains_key(k) && qualified_match(k, name@));
        match &self.outer {
            Some(o) => {
                let r = o.get(name);
                assert(decreases_to!(*self => **o));
                r
            },
            None => None,
        }
    }

    /// A copy of the environment, enclosing scopes included.
    pub fn duplicate(&self) -> (r: Environment)
        ensures
            same_scopes(r, *self),
        decreases self,
    {
        proof {
            use_type_invariant(self);
        }
        let mut store: Vec<(String, Type)> = Vec::new();
        let mut i: usize = 0;
        while i < self.store.len()
            invariant
                i <= self.store@.len(),
                unique_keys(self.store@),
                store@.len() == i,
                forall|k: int| 0 <= k < i ==> (#[trigger] store@[k]).0@ == self.store@[k].0@,
                forall|k: int| 0 <= k < i ==> (#[trigger] store@[k]).1.model() == self.store@[k].1.model(),
                bindings(store@) == bindings(self.store@.take(i as int)),
            decreases self.store@.len() - i,
        {
            let name = self.store[i].0.clone();
            let ty = self.store[i].1.clone_type();
            let ghost before = store@;
            store.push((name, ty));
            proof {
                assert(store@.drop_last() =~= before);
                assert(self.store@.take(i + 1).drop_last() =~= self.store@.take(i as int));
            }
            i = i + 1;
        }
        assert(self.store@.take(self.store@.len() as int) =~= self.store@);
        assert(store@.map_values(|e: (String, Type)| (e.0@, e.1.model()))
            =~= self.store@.map_values(|e: (String, Type)| (e.0@, e.1.model())));
        let outer = match &self.outer {
            Some(o) => {
                assert(decreases_to!(*self => **o));
                Some(Box::new(o.duplicate()))
            },
            None => None,
        };
        let r = Environment { store, outer };
        proof {
            match self.enclosing() {
                Some(o) => {
                    assert(decreases_to!(*self => o));
                },
                None => {},
            }
        }
        r
    }

    /// Every name visible from this scope, each once: the innermost scope's
    /// names first, then those of the enclosing scopes.
    pub fn visible_names(&self) -> (r: Vec<String>)
        ensures
            forall|k: Seq<char>| #[trigger] self.all_names().contains(k) <==> has_name(r@, k),
            forall|i: int, j: int| 0 <= i < j < r@.len() ==> r@[i]@ != r@[j]@,
    {
        let mut acc: Vec<String> = Vec::new();
        self.collect_names(&mut acc);
        acc
    }

    #[verifier::loop_isolation(false)]
    fn collect_names(&self, acc: &mut Vec<String>)
        requires
            forall|i: int, j: int| 0 <= i < j < old(acc)@.len() ==> old(acc)@[i]@ != old(acc)@[j]@,
        ensures
            forall|i: int, j: int| 0 <= i < j < final(acc)@.len() ==> final(acc)@[i]@ != final(acc)@[j]@,
            forall|k: Seq<char>| (self.all_names().contains(k) || has_name(old(acc)@, k))
                <==> #[trigger] has_name(final(acc)@, k),
        decreases self,
    {
        proof {
            use_type_invariant(self);
            lemma_bindings(self.store@);
        }
        let ghost start = acc@;
        let mut i: usize = 0;
        while i < self.store.len()
            invariant
                i <= self.store@.len(),
                forall|a: int, b: int| 0 <= a < b < acc@.len() ==> acc@[a]@ != acc@[b]@,
                forall|k: Seq<char>| (binds_before(self.store@, i as int, k) || has_name(start, k))
                    <==> #[trigger] has_name(acc@, k),
            decreases self.store@.len() - i,
        {
            let mut seen = false;
            let mut j: usize = 0;
            while j < acc.len()
                invariant
                    j <= acc@.len(),
                    !seen ==> forall|b: int| 0 <= b < j ==> acc@[b]@ != self.store@[i as int].0@,
                    seen ==> has_name(acc@, self.store@[i as int].0@),
                decreases acc@.len() - j,
            {
                if acc[j] == self.store[i].0 {
                    seen = true;
                }
                j = j + 1;
            }
            let ghost before = acc@;
            let ghost key = self.store@[i as int].0@;
            if !seen {
                acc.push(self.store[i].0.clone());
                assert forall|b: int| 0 <= b < before.len() implies acc@[b] == before[b] by {}
                assert(acc@[acc@.len() - 1]@ == key);
            }
            assert forall|k: Seq<char>| #[trigger] has_name(acc@, k) == (has_name(before, k) || k == key) by {
                if has_name(acc@, k) && k != key {
                    let b = choose|b: int| 0 <= b < acc@.len() && acc@[b]@ == k;
                    if !seen {
                        assert(b < before.len());
                        assert(acc@[b] == before[b]);
                    }
                }
                if has_name(before, k) {
                    let b = choose|b: int| 0 <= b < before.len() && before[b]@ == k;
                    if !seen {
                        assert(acc@[b] == before[b]);
                    }
                }
                if k == key && !seen {
                    assert(acc@[acc@.len() - 1]@ == key);
                }
            }
            assert forall|k: Seq<char>| #[trigger] binds_before(self.store@, i + 1, k) == (binds_before(self.store@, i as int, k) || k == key) by {
                if binds_before(self.store@, i + 1, k) && k != key {
                    let b = choose|b: int| 0 <= b < i + 1 && self.store@[b].0@ == k;
                    assert(b < i);
                }
            }
            i = i + 1;
        }
        assert forall|k: Seq<char>| #[trigger] binds_before(self.store@, self.store@.len() as int, k) == self.scope().dom().contains(k) by {
        }
        match &self.outer {
            Some(o) => {
                assert(decreases_to!(*self => **o));
                o.collect_names(acc);
            },
            None => {},
        }
    }
}

/// Whether one of the strings in `v` is `k`.
pub open spec fn has_name(v: Seq<String>, k: Seq<char>) -> bool {
    exists|j: int| 0 <= j < v.len() && v[j]@ == k
}

/// Whether one of the first `i` bindings of a scope binds `k`.
pub open spec fn binds_before(s: Seq<(String, Type)>, i: int, k: Seq<char>) -> bool {
    exists|j: int| 0 <= j < i && s[j].0@ == k
}

/// Whether `key` is `name` qualified by a path (see [`qualified_match`]).
fn qualified_match_exec(key: &Vec<char>, name: &Vec<char>) -> (r: bool)
    ensures
        r == qualified_match(key@, name@),
{
    if key.len() < name.len() {
        return false;
    }
    let off = key.len() - name.len();
    let mut i: usize = 0;
    while i < name.len()
        invariant
            off + name@.len() == key@.len(),
            key@.len() <= usize::MAX,
            i <= name@.len(),
            forall|k: int| 0 <= k < i ==> key@[off + k] == name@[k],
        decreases name@.len() - i,
    {
        if key[off + i] != name[i] {
            assert(key@.subrange(off as int, key@.len() as int)[i as int] != name@[i as int]);
            return false;
        }
        i = i + 1;
    }
    assert(key@.subrange(off as int, key@.len() as int) =~= name@);
    if off == 0 {
        return true;
    }
    let last = key[off - 1];
    if last == '.' {
        return true;
    }
    off >= 2 && key[off - 2] == ':' && last == ':'
}


/// What was bound to a name in the innermost scope is what looking the name
/// up gives, whatever the enclosing scopes or other bindings hold.
pub proof fn lemma_get_after_set(e: Environment, name: Seq<char>, m: TypeModel)
    requires
        e.scope().contains_key(name),
        e.scope()[name] == m,
    ensures
        forall|r: Option<TypeModel>| #[trigger] e.lookup_ok(name, r) <==> r == Some(m),
{
}

/// Environments with the same scopes answer every lookup alike: a copy made
/// by [`Environment::duplicate`] looks names up as the original does.
pub proof fn lemma_same_scopes_lookup(a: Environment, b: Environment, name: Seq<char>, r: Option<TypeModel>)
    requires
        same_scopes(a, b),
    ensures
        a.lookup_ok(name, r) <==> b.lookup_ok(name, r),
    decreases b,
{
    match (a.enclosing(), b.enclosing()) {
        (Some(x), Some(y)) => {
            if decreases_to!(b => y) {
                assert(decreases_to!(a => x));
                lemma_same_scopes_lookup(x, y, name, r);
            }
        },
        _ => {},
    }
}

/// A fresh scope over `outer` looks names up as `outer` does.
pub proof fn lemma_enclosed_lookup(e: Environment, name: Seq<char>, r: Option<TypeModel>)
    requires
        e.scope() == Map::<Seq<char>, TypeModel>::empty(),
        e.enclosing() is Some,
    ensures
        e.lookup_ok(name, r) <==> e.enclosing().unwrap().lookup_ok(name, r),
{
    let o = e.enclosing().unwrap();
    assert(decreases_to!(e => o));
}

/// A lookup that finds a binding does not also come up empty.
pub proof fn lemma_lookup_found(e: Environment, name: Seq<char>, m: TypeModel)
    requires
        e.lookup_ok(name, Some(m)),
    ensures
        !e.lookup_ok(name, None),
    decreases e,
{
    let sc = e.scope();
    if !sc.contains_key(name) && !(exists|k: Seq<char>| sc.contains_key(k) && qualified_match(k, name)) {
        match e.enclosing() {
            Some(o) => {
                if decreases_to!(e => o) {
                    lemma_lookup_found(o, name, m);
                }
            },
            None => {},
        }
    }
}

/// A lookup has one result: the same name looked up in the same scope
/// chain gives the same answer.
pub proof fn lemma_lookup_unique(e: Environment, name: Seq<char>, r1: Option<TypeModel>, r2: Option<TypeModel>)
    requires
        e.lookup_ok(name, r1),
        e.lookup_ok(name, r2),
    ensures
        r1 == r2,
    decreases e,
{
    let sc = e.scope();
    if !sc.contains_key(name) && !(exists|k: Seq<char>| sc.contains_key(k) && qualified_match(k, name)) {
        match e.enclosing() {
            Some(o) => {
                if decreases_to!(e => o) {
                    lemma_lookup_unique(o, name, r1, r2);
                }
            },
            None => {},
        }
    }
}

/// Looking a name up in a fresh scope over `outer` gives what looking it up
/// in `outer` gives.
pub proof fn lemma_enclosed_answers_alike(e: Environment, outer: Environment, name: Seq<char>, r1: Option<TypeModel>, r2: Option<TypeModel>)
    requires
        e.scope() == Map::<Seq<char>, TypeModel>::empty(),
        e.enclosing() == Some(outer),
        e.lookup_ok(name, r1),
        outer.lookup_ok(name, r2),
    ensures
        r1 == r2,
{
    lemma_enclosed_lookup(e, name, r1);
    lemma_lookup_unique(outer, name, r1, r2);
}

/// A name bound nowhere in a scope chain, not even qualified by a path, is
/// not found.
pub proof fn lemma_get_unbound(e: Environment, name: Seq<char>)
    requires
        forall|k: Seq<char>| #[trigger] e.all_names().contains(k) ==> k != name && !qualified_match(k, name),
    ensures
        e.lookup_ok(name, None),
    decreases e,
{
    let m = e.scope();
    assert(!m.contains_key(name)) by {
        if m.contains_key(name) {
            assert(e.all_names().contains(name));
        }
    }
    assert(!exists|k: Seq<char>| m.contains_key(k) && qualified_match(k, name)) by {
        if exists|k: Seq<char>| m.contains_key(k) && qualified_match(k, name) {
            let k = choose|k: Seq<char>| m.contains_key(k) && qualified_match(k, name);
            assert(e.all_names().contains(k));
        }
    }
    match e.enclosing() {
        Some(o) => {
            if decreases_to!(e => o) {
                assert forall|k: Seq<char>| #[trigger] o.all_names().contains(k) implies k != name && !qualified_match(k, name) by {
                    assert(e.all_names().contains(k));
                }
                lemma_get_unbound(o, name);
            }
        },
        None => {},
    }
}
} // verus!
