//! Substitution of generic parameters inside type-name strings, as the
//! backend does when it instantiates generic functions and methods.

use vstd::prelude::*;
use crate::text::{char_is_alphanumeric, chars_of, is_alphabetic_char, is_numeric_char, push_slice, string_from_chars, string_views};

verus! {

/// A character that continues a type-name word: alphanumeric, `_` or `.`
/// (so that a qualified name stays one word).
pub open spec fn word_char(c: char) -> bool {
    is_alphabetic_char(c) || is_numeric_char(c) || c == '_' || c == '.'
}

/// The index of the first parameter equal to `word` that has an argument.
pub open spec fn first_param(word: Seq<char>, params: Seq<Seq<char>>, args_len: int, from: int) -> Option<int>
    decreases params.len() - from,
{
    if from < 0 || from >= params.len() {
        None
    } else if from < args_len && params[from] == word {
        Some(from)
    } else {
        first_param(word, params, args_len, from + 1)
    }
}

/// What a word becomes: the argument of the first parameter equal to it,
/// or the word itself.
pub open spec fn replace_word(word: Seq<char>, params: Seq<Seq<char>>, args: Seq<Seq<char>>) -> Seq<char> {
    match first_param(word, params, args.len() as int, 0) {
        Some(i) => args[i],
        None => word,
    }
}

/// `out` followed by the replacement of the pending word, if there is one.
pub open spec fn flush_word(out: Seq<char>, word: Seq<char>, params: Seq<Seq<char>>, args: Seq<Seq<char>>) -> Seq<char> {
    if word.len() == 0 {
        out
    } else {
        out + replace_word(word, params, args)
    }
}

/// The scan of the first `k` characters of `s`: the output so far and the
/// word being read.
pub open spec fn subst_scan(s: Seq<char>, k: int, params: Seq<Seq<char>>, args: Seq<Seq<char>>) -> (Seq<char>, Seq<char>)
    decreases k,
{
    if k <= 0 {
        (Seq::empty(), Seq::empty())
    } else {
        let (out, word) = subst_scan(s, k - 1, params, args);
        let c = s[k - 1];
        if word_char(c) {
            (out, word.push(c))
        } else {
            (flush_word(out, word, params, args).push(c), Seq::empty())
        }
    }
}

/// `s` with every word equal to a generic parameter replaced by the
/// parameter's argument; other characters are kept. Unchanged when there
/// are no parameters.
pub open spec fn subst_type_name(s: Seq<char>, params: Seq<Seq<char>>, args: Seq<Seq<char>>) -> Seq<char> {
    if params.len() == 0 || s.len() == 0 {
        s
    } else {
        let (out, word) = subst_scan(s, s.len() as int, params, args);
        flush_word(out, word, params, args)
    }
}

/// A parameter found for a word is that word.
proof fn lemma_first_param(word: Seq<char>, params: Seq<Seq<char>>, args_len: int, from: int)
    ensures
        first_param(word, params, args_len, from) matches Some(i)
            ==> from <= i < params.len() && i < args_len && params[i] == word,
    decreases params.len() - from,
{
    if 0 <= from < params.len() && !(from < args_len && params[from] == word) {
        lemma_first_param(word, params, args_len, from + 1);
    }
}

proof fn lemma_scan_self(s: Seq<char>, k: int, params: Seq<Seq<char>>)
    requires
        0 <= k <= s.len(),
    ensures
        subst_scan(s, k, params, params).0 + subst_scan(s, k, params, params).1 == s.take(k),
    decreases k,
{
    if k > 0 {
        lemma_scan_self(s, k - 1, params);
        let (out, word) = subst_scan(s, k - 1, params, params);
        lemma_first_param(word, params, params.len() as int, 0);
        assert(replace_word(word, params, params) == word);
        assert(s.take(k) =~= s.take(k - 1).push(s[k - 1]));
        assert(out + word.push(s[k - 1]) =~= (out + word).push(s[k - 1]));
    }
}

/// Instantiating generic parameters with themselves leaves every type
/// name unchanged.
pub proof fn lemma_subst_with_own_params(s: Seq<char>, params: Seq<Seq<char>>)
    ensures
        subst_type_name(s, params, params) == s,
{
    if params.len() > 0 && s.len() > 0 {
        lemma_scan_self(s, s.len() as int, params);
        let (out, word) = subst_scan(s, s.len() as int, params, params);
        lemma_first_param(word, params, params.len() as int, 0);
        assert(s.take(s.len() as int) =~= s);
        assert(out + Seq::<char>::empty() =~= out);
    }
}

/// Appends the replacement of `word` (see [`replace_word`]).
fn push_replacement(out: &mut Vec<char>, word: &Vec<char>, params: &[String], args: &[String])
    ensures
        final(out)@ == old(out)@ + replace_word(word@, string_views(params@), string_views(args@)),
{
    let ghost ps = string_views(params@);
    let ghost as_ = string_views(args@);
    let mut i: usize = 0;
    while i < params.len()
        invariant
            i <= params@.len(),
            ps == string_views(params@),
            as_ == string_views(args@),
            first_param(word@, ps, as_.len() as int, 0) == first_param(word@, ps, as_.len() as int, i as int),
            out@ == old(out)@,
        decreases params@.len() - i,
    {
        let p = chars_of(params[i].as_str());
        if i < args.len() && crate::text::chars_eq(word, &p) {
            assert(ps[i as int] == params@[i as int]@);
            let a = chars_of(args[i].as_str());
            push_slice(out, &a);
            return;
        }
        i = i + 1;
    }
    push_slice(out, word);
}

/// `s` with each word that equals one of `params` (and has an argument)
/// replaced by the corresponding entry of `args`; words are runs of
/// alphanumeric characters, `_` and `.`.
pub fn substitute_type_string(s: &str, params: &[String], args: &[String]) -> (r: String)
    ensures
        r@ == subst_type_name(s@, string_views(params@), string_views(args@)),
{
    let ghost ps = string_views(params@);
    let ghost as_ = string_views(args@);
    let chars = chars_of(s);
    if params.len() == 0 || chars.len() == 0 {
        return string_from_chars(&chars);
    }
    let mut out: Vec<char> = Vec::new();
    let mut word: Vec<char> = Vec::new();
    let mut i: usize = 0;
    while i < chars.len()
        invariant
            i <= chars@.len(),
            chars@ == s@,
            ps == string_views(params@),
            as_ == string_views(args@),
            (out@, word@) == subst_scan(s@, i as int, ps, as_),
        decreases chars@.len() - i,
    {
        let c = chars[i];
        if char_is_alphanumeric(c) || c == '_' || c == '.' {
            word.push(c);
        } else {
            if word.len() > 0 {
                push_replacement(&mut out, &word, params, args);
            }
            out.push(c);
            word = Vec::new();
        }
        i = i + 1;
    }
    if word.len() > 0 {
        push_replacement(&mut out, &word, params, args);
    }
    string_from_chars(&out)
}

/// The generic substitution used for result types (see
/// [`substitute_type_string`]).
pub fn substitute_generic_params(res_type: &str, params: &[String], args: &[String]) -> (r: String)
    ensures
        r@ == subst_type_name(res_type@, string_views(params@), string_views(args@)),
{
    substitute_type_string(res_type, params, args)
}

} // verus!
