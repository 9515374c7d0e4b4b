//! Markdown documentation of a program: its module, imports and each
//! declaration with its documentation comment and signature.

use vstd::prelude::*;
use crate::ast::debug::expr_debug;
use crate::ast::{Declaration, Enum, EnumVariant, Expression, Function, ImplBlock, Import, Interface, Program, Struct};
use crate::error::CompileError;
use crate::lexer::lexable_from;
use crate::text::{
    concat_seqs, join_seqs, join_strings, lemma_concat_take, lemma_join_take, push_slice, push_str_chars,
    string_from_chars, string_views,
};
use crate::token::{Token, TokenKind};

verus! {

// ---------------------------------------------------------------------------
// Signatures
// ---------------------------------------------------------------------------

/// The word a modifier is shown as in a signature (nothing for `pub` and `async`).
pub open spec fn modifier_word(k: TokenKind) -> Seq<char> {
    match k {
        TokenKind::Extern => "extern"@,
        TokenKind::Spawn => "spawn"@,
        TokenKind::Unsafe => "unsafe"@,
        _ => Seq::empty(),
    }
}

/// The modifiers a signature shows and how: `extern`, `spawn` and `unsafe`
/// as those words; `pub`, `async` and any other token not at all.
pub proof fn lemma_modifier_words(k: TokenKind)
    ensures
        modifier_word(TokenKind::Extern) == seq!['e', 'x', 't', 'e', 'r', 'n'],
        modifier_word(TokenKind::Spawn) == seq!['s', 'p', 'a', 'w', 'n'],
        modifier_word(TokenKind::Unsafe) == seq!['u', 'n', 's', 'a', 'f', 'e'],
        !(k is Extern || k is Spawn || k is Unsafe) ==> modifier_word(k).len() == 0,
{
    reveal_strlit("extern");
    assert("extern"@ =~= seq!['e', 'x', 't', 'e', 'r', 'n']);
    reveal_strlit("spawn");
    assert("spawn"@ =~= seq!['s', 'p', 'a', 'w', 'n']);
    reveal_strlit("unsafe");
    assert("unsafe"@ =~= seq!['u', 'n', 's', 'a', 'f', 'e']);
}

/// The words of the modifiers that are shown, in order.
pub open spec fn modifier_words(mods: Seq<Token>) -> Seq<Seq<char>>
    decreases mods.len(),
{
    if mods.len() == 0 {
        Seq::empty()
    } else {
        let r = modifier_words(mods.drop_last());
        let w = modifier_word(mods.last().kind);
        if w.len() == 0 {
            r
        } else {
            r.push(w)
        }
    }
}

/// A parameter as `name: Type`, with ` = <default>` (its debug notation) when it has one.
pub open spec fn param_sig(p: (String, String, Option<Box<Expression>>)) -> Seq<char> {
    p.0@ + ": "@ + p.1@ + match p.2 {
        Some(d) => " = "@ + expr_debug(*d),
        None => Seq::empty(),
    }
}

/// The parameters of a function, each as [`param_sig`] shows it.
pub open spec fn param_sigs(ps: Seq<(String, String, Option<Box<Expression>>)>) -> Seq<Seq<char>> {
    ps.map_values(|p: (String, String, Option<Box<Expression>>)| param_sig(p))
}

/// A function's signature in an `aion` code block: shown modifiers, `fn`,
/// the name, generic parameters, parameters, the return type unless it is
/// `void` or `()`, and `;` when it has no body.
pub open spec fn signature(f: Function) -> Seq<char> {
    let words = modifier_words(f.modifiers@);
    "```aion\n"@ + (if words.len() > 0 {
        join_seqs(words, " "@) + " "@
    } else {
        Seq::empty()
    }) + "fn "@ + f.name@ + (if f.generic_params@.len() > 0 {
        "<"@ + join_seqs(string_views(f.generic_params@), ", "@) + ">"@
    } else {
        Seq::empty()
    }) + "("@ + join_seqs(param_sigs(f.params@), ", "@) + ")"@ + (if f.return_type@ != "void"@ && f.return_type@
        != "()"@ {
        " -> "@ + f.return_type@
    } else {
        Seq::empty()
    }) + (if f.body is None {
        ";"@
    } else {
        Seq::empty()
    }) + "\n```\n"@
}

fn push_modifier_words(v: &mut Vec<char>, mods: &Vec<Token>)
    ensures
        final(v)@ == old(v)@ + if modifier_words(mods@).len() > 0 {
            join_seqs(modifier_words(mods@), " "@) + " "@
        } else {
            Seq::empty()
        },
{
    let mut words: Vec<String> = Vec::new();
    let mut i: usize = 0;
    while i < mods.len()
        invariant
            i <= mods@.len(),
            string_views(words@) == modifier_words(mods@.take(i as int)),
        decreases mods@.len() - i,
    {
        assert(mods@.take(i + 1).drop_last() =~= mods@.take(i as int));
        let ghost before = words@;
        match mods[i].kind {
            TokenKind::Extern => {
                proof { reveal_strlit("extern"); }
                words.push("extern".to_owned());
            },
            TokenKind::Spawn => {
                proof { reveal_strlit("spawn"); }
                words.push("spawn".to_owned());
            },
            TokenKind::Unsafe => {
                proof { reveal_strlit("unsafe"); }
                words.push("unsafe".to_owned());
            },
            _ => {},
        }
        assert(string_views(words@) =~= modifier_words(mods@.take(i + 1)));
        i = i + 1;
    }
    assert(mods@.take(mods@.len() as int) =~= mods@);
    if words.len() > 0 {
        let j = join_strings(words.as_slice(), " ");
        push_slice(v, &j);
        push_str_chars(v, " ");
    }
}

fn push_params(v: &mut Vec<char>, ps: &Vec<(String, String, Option<Box<Expression>>)>)
    ensures
        final(v)@ == old(v)@ + join_seqs(param_sigs(ps@), ", "@),
{
    let ghost head = v@;
    let ghost parts = param_sigs(ps@);
    let mut i: usize = 0;
    while i < ps.len()
        invariant
            i <= ps@.len(),
            parts == param_sigs(ps@),
            v@ == head + join_seqs(parts.take(i as int), ", "@),
        decreases ps@.len() - i,
    {
        proof { lemma_join_take(parts, ", "@, i as int); }
        if i > 0 {
            push_str_chars(v, ", ");
        }
        let ghost before = v@;
        push_str_chars(v, ps[i].0.as_str());
        push_str_chars(v, ": ");
        push_str_chars(v, ps[i].1.as_str());
        match &ps[i].2 {
            Some(d) => {
                push_str_chars(v, " = ");
                let t = crate::ast::debug::expression_debug(d);
                push_str_chars(v, t.as_str());
            },
            None => {},
        }
        assert(v@ =~= before + parts[i as int]);
        i = i + 1;
        proof {
            assert(v@ =~= head + join_seqs(parts.take(i as int), ", "@));
        }
    }
    assert(parts.take(ps@.len() as int) =~= parts);
}

/// A function's signature (see [`signature`]).
pub fn generate_function_signature(f: &Function) -> (r: String)
    ensures
        r@ == signature(*f),
{
    let mut v: Vec<char> = Vec::new();
    push_str_chars(&mut v, "```aion\n");
    push_modifier_words(&mut v, &f.modifiers);
    push_str_chars(&mut v, "fn ");
    push_str_chars(&mut v, f.name.as_str());
    if f.generic_params.len() > 0 {
        push_str_chars(&mut v, "<");
        let j = join_strings(f.generic_params.as_slice(), ", ");
        push_slice(&mut v, &j);
        push_str_chars(&mut v, ">");
    }
    push_str_chars(&mut v, "(");
    push_params(&mut v, &f.params);
    push_str_chars(&mut v, ")");
    if !crate::text::str_eq(f.return_type.as_str(), "void") && !crate::text::str_eq(f.return_type.as_str(), "()") {
        push_str_chars(&mut v, " -> ");
        push_str_chars(&mut v, f.return_type.as_str());
    }
    if f.body.is_none() {
        push_str_chars(&mut v, ";");
    }
    push_str_chars(&mut v, "\n```\n");
    assert(v@ =~= signature(*f));
    string_from_chars(&v)
}

// ---------------------------------------------------------------------------
// Declarations
// ---------------------------------------------------------------------------

/// A documentation comment followed by a blank line (nothing without one).
pub open spec fn doc_block(c: Option<String>) -> Seq<char> {
    match c {
        Some(t) => t@ + "\n\n"@,
        None => Seq::empty(),
    }
}

/// The generic parameters line of a struct or enum (nothing without any).
pub open spec fn generics_line(gp: Seq<String>) -> Seq<char> {
    if gp.len() > 0 {
        "**Generics:** `<"@ + join_seqs(string_views(gp), ", "@) + ">`\n\n"@
    } else {
        Seq::empty()
    }
}

/// The documentation of a function.
pub open spec fn function_doc(f: Function) -> Seq<char> {
    "## Function `"@ + f.name@ + "`\n\n"@ + doc_block(f.doc_comment) + signature(f) + "\n"@
}

/// One row of a struct's field table.
pub open spec fn field_row(fld: (String, String)) -> Seq<char> {
    "| `"@ + fld.0@ + "` | `"@ + fld.1@ + "` |\n"@
}

/// The rows of a struct's field table.
pub open spec fn field_rows(fs: Seq<(String, String)>) -> Seq<Seq<char>> {
    fs.map_values(|fld: (String, String)| field_row(fld))
}

/// The documentation of a struct: its fields in a table.
pub open spec fn struct_doc(s: Struct) -> Seq<char> {
    "## Struct `"@ + s.name@ + "`\n\n"@ + doc_block(s.doc_comment) + generics_line(s.generic_params@) + if s.fields@.len()
        > 0 {
        "| Field | Type |\n|-------|------|\n"@ + concat_seqs(field_rows(s.fields@)) + "\n"@
    } else {
        Seq::empty()
    }
}

/// The data column of a variant: its payload types (nothing without any).
pub open spec fn variant_data(v: EnumVariant) -> Seq<char> {
    if v.data_types@.len() == 0 {
        Seq::empty()
    } else {
        "`("@ + join_seqs(string_views(v.data_types@), ", "@) + ")`"@
    }
}

/// One row of an enum's variant table.
pub open spec fn variant_row(v: EnumVariant) -> Seq<char> {
    "| `"@ + v.name@ + "` | "@ + variant_data(v) + " |\n"@
}

/// The rows of an enum's variant table.
pub open spec fn variant_rows(vs: Seq<EnumVariant>) -> Seq<Seq<char>> {
    vs.map_values(|v: EnumVariant| variant_row(v))
}

/// The documentation of an enum: its variants in a table.
pub open spec fn enum_doc(e: Enum) -> Seq<char> {
    "## Enum `"@ + e.name@ + "`\n\n"@ + doc_block(e.doc_comment) + generics_line(e.generic_params@) + if e.variants@.len()
        > 0 {
        "| Variant | Data |\n|---------|------|\n"@ + concat_seqs(variant_rows(e.variants@)) + "\n"@
    } else {
        Seq::empty()
    }
}

/// The documentation of an interface method.
pub open spec fn method_doc(m: Function) -> Seq<char> {
    "### Method `"@ + m.name@ + "`\n\n"@ + doc_block(m.doc_comment) + signature(m) + "\n"@
}

/// The documentation of an interface: each method.
pub open spec fn interface_doc(i: Interface) -> Seq<char> {
    "## Interface `"@ + i.name@ + "`\n\n"@ + doc_block(i.doc_comment) + concat_seqs(
        i.methods@.map_values(|m: Function| method_doc(m)),
    )
}

/// The documentation of a function of an impl block.
pub open spec fn impl_fn_doc(f: Function) -> Seq<char> {
    doc_block(f.doc_comment) + signature(f) + "\n"@
}

/// The heading of an impl block: its target, generic parameters and interface.
pub open spec fn impl_header(b: ImplBlock) -> Seq<char> {
    "## Impl `"@ + b.target_name@ + "`"@ + (if b.generic_params@.len() > 0 {
        "<"@ + join_seqs(string_views(b.generic_params@), ", "@) + ">"@
    } else {
        Seq::empty()
    }) + match b.interface_name {
        Some(i) => " for `"@ + i@ + "`"@,
        None => Seq::empty(),
    } + "\n\n"@
}

/// The documentation of an impl block: its heading, then each function.
pub open spec fn impl_doc(b: ImplBlock) -> Seq<char> {
    impl_header(b) + concat_seqs(b.functions@.map_values(|f: Function| impl_fn_doc(f)))
}

/// The documentation of a declaration.
pub open spec fn declaration_doc(d: Declaration) -> Seq<char> {
    match d {
        Declaration::Function(f) => function_doc(f),
        Declaration::Struct(s) => struct_doc(s),
        Declaration::Enum(e) => enum_doc(e),
        Declaration::Interface(i) => interface_doc(i),
        Declaration::Impl(b) => impl_doc(b),
    }
}

/// One line of the imports list.
pub open spec fn import_line(imp: Import) -> Seq<char> {
    "- `"@ + join_seqs(string_views(imp.path@), "."@) + "`\n"@
}

/// The documentation of a program: a title (the module name, or `Module`),
/// the imports, then each declaration.
pub open spec fn program_doc(p: Program) -> Seq<char> {
    "# "@ + match p.module_name {
        Some(m) => m@,
        None => "Module"@,
    } + "\n\n"@ + (if p.imports@.len() > 0 {
        "## Imports\n\n"@ + concat_seqs(p.imports@.map_values(|imp: Import| import_line(imp))) + "\n"@
    } else {
        Seq::empty()
    }) + concat_seqs(p.declarations@.map_values(|d: Declaration| declaration_doc(d)))
}

fn push_doc_block(v: &mut Vec<char>, c: &Option<String>)
    ensures
        final(v)@ == old(v)@ + doc_block(*c),
{
    if let Some(t) = c {
        push_str_chars(v, t.as_str());
        push_str_chars(v, "\n\n");
    }
}

fn push_generics_line(v: &mut Vec<char>, gp: &Vec<String>)
    ensures
        final(v)@ == old(v)@ + generics_line(gp@),
{
    if gp.len() > 0 {
        push_str_chars(v, "**Generics:** `<");
        let j = join_strings(gp.as_slice(), ", ");
        push_slice(v, &j);
        push_str_chars(v, ">`\n\n");
    }
}

fn push_signature(v: &mut Vec<char>, f: &Function)
    ensures
        final(v)@ == old(v)@ + signature(*f),
{
    let s = generate_function_signature(f);
    push_str_chars(v, s.as_str());
}

fn push_function_doc(v: &mut Vec<char>, f: &Function)
    ensures
        final(v)@ == old(v)@ + function_doc(*f),
{
    let ghost start = v@;
    push_str_chars(v, "## Function `");
    push_str_chars(v, f.name.as_str());
    push_str_chars(v, "`\n\n");
    push_doc_block(v, &f.doc_comment);
    push_signature(v, f);
    push_str_chars(v, "\n");
    assert(v@ =~= start + function_doc(*f));
}

fn push_field_rows(v: &mut Vec<char>, fs: &Vec<(String, String)>)
    ensures
        final(v)@ == old(v)@ + concat_seqs(field_rows(fs@)),
{
    let ghost head = v@;
    let ghost parts = field_rows(fs@);
    let mut i: usize = 0;
    while i < fs.len()
        invariant
            i <= fs@.len(),
            parts == field_rows(fs@),
            v@ == head + concat_seqs(parts.take(i as int)),
        decreases fs@.len() - i,
    {
        proof { lemma_concat_take(parts, i as int); }
        let ghost before = v@;
        push_str_chars(v, "| `");
        push_str_chars(v, fs[i].0.as_str());
        push_str_chars(v, "` | `");
        push_str_chars(v, fs[i].1.as_str());
        push_str_chars(v, "` |\n");
        assert(v@ =~= before + parts[i as int]);
        i = i + 1;
        proof {
            assert(v@ =~= head + concat_seqs(parts.take(i as int)));
        }
    }
    assert(parts.take(fs@.len() as int) =~= parts);
}

fn push_struct_doc(v: &mut Vec<char>, s: &Struct)
    ensures
        final(v)@ == old(v)@ + struct_doc(*s),
{
    let ghost start = v@;
    push_str_chars(v, "## Struct `");
    push_str_chars(v, s.name.as_str());
    push_str_chars(v, "`\n\n");
    push_doc_block(v, &s.doc_comment);
    push_generics_line(v, &s.generic_params);
    if s.fields.len() > 0 {
        push_str_chars(v, "| Field | Type |\n|-------|------|\n");
        push_field_rows(v, &s.fields);
        push_str_chars(v, "\n");
    }
    assert(v@ =~= start + struct_doc(*s));
}

fn push_variant_rows(v: &mut Vec<char>, vs: &Vec<EnumVariant>)
    ensures
        final(v)@ == old(v)@ + concat_seqs(variant_rows(vs@)),
{
    let ghost head = v@;
    let ghost parts = variant_rows(vs@);
    let mut i: usize = 0;
    while i < vs.len()
        invariant
            i <= vs@.len(),
            parts == variant_rows(vs@),
            v@ == head + concat_seqs(parts.take(i as int)),
        decreases vs@.len() - i,
    {
        proof { lemma_concat_take(parts, i as int); }
        let ghost before = v@;
        push_str_chars(v, "| `");
        push_str_chars(v, vs[i].name.as_str());
        push_str_chars(v, "` | ");
        if vs[i].data_types.len() > 0 {
            push_str_chars(v, "`(");
            let j = join_strings(vs[i].data_types.as_slice(), ", ");
            push_slice(v, &j);
            push_str_chars(v, ")`");
        }
        push_str_chars(v, " |\n");
        assert(v@ =~= before + parts[i as int]);
        i = i + 1;
        proof {
            assert(v@ =~= head + concat_seqs(parts.take(i as int)));
        }
    }
    assert(parts.take(vs@.len() as int) =~= parts);
}

fn push_enum_doc(v: &mut Vec<char>, e: &Enum)
    ensures
        final(v)@ == old(v)@ + enum_doc(*e),
{
    let ghost start = v@;
    push_str_chars(v, "## Enum `");
    push_str_chars(v, e.name.as_str());
    push_str_chars(v, "`\n\n");
    push_doc_block(v, &e.doc_comment);
    push_generics_line(v, &e.generic_params);
    if e.variants.len() > 0 {
        push_str_chars(v, "| Variant | Data |\n|---------|------|\n");
        push_variant_rows(v, &e.variants);
        push_str_chars(v, "\n");
    }
    assert(v@ =~= start + enum_doc(*e));
}

fn push_interface_doc(v: &mut Vec<char>, it: &Interface)
    ensures
        final(v)@ == old(v)@ + interface_doc(*it),
{
    let ghost start = v@;
    push_str_chars(v, "## Interface `");
    push_str_chars(v, it.name.as_str());
    push_str_chars(v, "`\n\n");
    push_doc_block(v, &it.doc_comment);
    let ghost head = v@;
    let ghost parts = it.methods@.map_values(|m: Function| method_doc(m));
    let mut i: usize = 0;
    while i < it.methods.len()
        invariant
            i <= it.methods@.len(),
            parts == it.methods@.map_values(|m: Function| method_doc(m)),
            v@ == head + concat_seqs(parts.take(i as int)),
        decreases it.methods@.len() - i,
    {
        proof { lemma_concat_take(parts, i as int); }
        let ghost before = v@;
        let m = &it.methods[i];
        push_str_chars(v, "### Method `");
        push_str_chars(v, m.name.as_str());
        push_str_chars(v, "`\n\n");
        push_doc_block(v, &m.doc_comment);
        push_signature(v, m);
        push_str_chars(v, "\n");
        assert(v@ =~= before + parts[i as int]);
        i = i + 1;
        proof {
            assert(v@ =~= head + concat_seqs(parts.take(i as int)));
        }
    }
    assert(parts.take(it.methods@.len() as int) =~= parts);
    assert(v@ =~= start + interface_doc(*it));
}

fn push_impl_header(v: &mut Vec<char>, b: &ImplBlock)
    ensures
        final(v)@ == old(v)@ + impl_header(*b),
{
    let ghost start = v@;
    push_str_chars(v, "## Impl `");
    push_str_chars(v, b.target_name.as_str());
    push_str_chars(v, "`");
    if b.generic_params.len() > 0 {
        push_str_chars(v, "<");
        let j = join_strings(b.generic_params.as_slice(), ", ");
        push_slice(v, &j);
        push_str_chars(v, ">");
    }
    if let Some(i) = &b.interface_name {
        push_str_chars(v, " for `");
        push_str_chars(v, i.as_str());
        push_str_chars(v, "`");
    }
    push_str_chars(v, "\n\n");
    assert(v@ =~= start + impl_header(*b));
}

fn push_impl_doc(v: &mut Vec<char>, b: &ImplBlock)
    ensures
        final(v)@ == old(v)@ + impl_doc(*b),
{
    let ghost start = v@;
    push_impl_header(v, b);
    let ghost head = v@;
    let ghost parts = b.functions@.map_values(|f: Function| impl_fn_doc(f));
    let mut i: usize = 0;
    while i < b.functions.len()
        invariant
            i <= b.functions@.len(),
            parts == b.functions@.map_values(|f: Function| impl_fn_doc(f)),
            v@ == head + concat_seqs(parts.take(i as int)),
        decreases b.functions@.len() - i,
    {
        proof { lemma_concat_take(parts, i as int); }
        let ghost before = v@;
        let f = &b.functions[i];
        push_doc_block(v, &f.doc_comment);
        push_signature(v, f);
        push_str_chars(v, "\n");
        assert(v@ =~= before + parts[i as int]);
        i = i + 1;
        proof {
            assert(v@ =~= head + concat_seqs(parts.take(i as int)));
        }
    }
    assert(parts.take(b.functions@.len() as int) =~= parts);
    assert(v@ =~= start + impl_doc(*b));
}

fn push_declaration_doc(v: &mut Vec<char>, d: &Declaration)
    ensures
        final(v)@ == old(v)@ + declaration_doc(*d),
{
    match d {
        Declaration::Function(f) => push_function_doc(v, f),
        Declaration::Struct(s) => push_struct_doc(v, s),
        Declaration::Enum(e) => push_enum_doc(v, e),
        Declaration::Interface(i) => push_interface_doc(v, i),
        Declaration::Impl(b) => push_impl_doc(v, b),
    }
}

fn push_imports(v: &mut Vec<char>, imports: &Vec<Import>)
    ensures
        final(v)@ == old(v)@ + if imports@.len() > 0 {
            "## Imports\n\n"@ + concat_seqs(imports@.map_values(|imp: Import| import_line(imp))) + "\n"@
        } else {
            Seq::empty()
        },
{
    if imports.len() == 0 {
        return;
    }
    let ghost start = v@;
    push_str_chars(v, "## Imports\n\n");
    let ghost head = v@;
    let ghost parts = imports@.map_values(|imp: Import| import_line(imp));
    let mut i: usize = 0;
    while i < imports.len()
        invariant
            i <= imports@.len(),
            parts == imports@.map_values(|imp: Import| import_line(imp)),
            v@ == head + concat_seqs(parts.take(i as int)),
        decreases imports@.len() - i,
    {
        proof { lemma_concat_take(parts, i as int); }
        let ghost before = v@;
        push_str_chars(v, "- `");
        let j = join_strings(imports[i].path.as_slice(), ".");
        push_slice(v, &j);
        push_str_chars(v, "`\n");
        assert(v@ =~= before + parts[i as int]);
        i = i + 1;
        proof {
            assert(v@ =~= head + concat_seqs(parts.take(i as int)));
        }
    }
    assert(parts.take(imports@.len() as int) =~= parts);
    push_str_chars(v, "\n");
    assert(v@ =~= start + "## Imports\n\n"@ + concat_seqs(parts) + "\n"@);
}

/// The Markdown documentation of a program (see [`program_doc`]).
pub fn generate_docs(program: &Program) -> (r: String)
    ensures
        r@ == program_doc(*program),
{
    let mut v: Vec<char> = Vec::new();
    push_str_chars(&mut v, "# ");
    match &program.module_name {
        Some(m) => push_str_chars(&mut v, m.as_str()),
        None => push_str_chars(&mut v, "Module"),
    }
    push_str_chars(&mut v, "\n\n");
    push_imports(&mut v, &program.imports);
    let ghost head = v@;
    let ghost parts = program.declarations@.map_values(|d: Declaration| declaration_doc(d));
    let mut i: usize = 0;
    while i < program.declarations.len()
        invariant
            i <= program.declarations@.len(),
            parts == program.declarations@.map_values(|d: Declaration| declaration_doc(d)),
            v@ == head + concat_seqs(parts.take(i as int)),
        decreases program.declarations@.len() - i,
    {
        proof { lemma_concat_take(parts, i as int); }
        push_declaration_doc(&mut v, &program.declarations[i]);
        i = i + 1;
        proof {
            assert(v@ =~= head + concat_seqs(parts.take(i as int)));
        }
    }
    assert(parts.take(program.declarations@.len() as int) =~= parts);
    assert(v@ =~= program_doc(*program));
    string_from_chars(&v)
}

/// The documentation of the program in `source`: the parse diagnostic when
/// it has syntax errors; `None` when the lexer cannot read it.
pub fn generate_docs_source(source: &str) -> (r: Option<Result<String, CompileError>>)
    ensures
        r is Some <==> (source@.len() < usize::MAX && lexable_from(source@, 0)),
        r matches Some(Err(e)) ==> e is Type,
        exists|x: Option<Result<Program, CompileError>>| #[trigger] crate::pipeline::parse_outcome(source@, x) && match x {
            None => r is None,
            Some(Err(e)) => r == Some(Err::<String, CompileError>(e)),
            Some(Ok(p)) => r matches Some(Ok(d)) && d@ == program_doc(p),
        },
{
    let parsed = crate::pipeline::parse_program_source(source);
    let ghost x = parsed;
    assert(crate::pipeline::parse_outcome(source@, x));
    match parsed {
        None => None,
        Some(Err(e)) => Some(Err(e)),
        Some(Ok(program)) => Some(Ok(generate_docs(&program))),
    }
}

} // verus!
