//! The steps from source text to checked programs and generated text:
//! parsing with parse errors as a diagnostic, import paths and the
//! qualification of imported declarations, SQL translation and type
//! checking of a whole source text.

use vstd::prelude::*;
use crate::analysis::checker::{literal_decl, misfit_decl, TypeChecker};
use crate::ast::{Declaration, Program};
use crate::error::CompileError;
use crate::grammar::{decls_match, import_paths, program_items};
use crate::lexer::{lexable_from, token_is, token_stream};
use crate::token::Token;
use crate::parser::{is_syntax_error, parse_source};
use crate::text::{join_seqs, join_strings, push_slice, push_str_chars, string_from_chars, string_views};
use crate::transpiler::sql::{sql_program, SqlTranspiler};

verus! {

/// The message of the diagnostic for a source text with syntax errors.
pub open spec fn parse_failure_message(errors: Seq<String>) -> Seq<char> {
    "Parse errors: "@ + join_seqs(string_views(errors), "; "@)
}

/// The diagnostic for a source text with syntax errors: a type error
/// without position that lists them, separated by `; `.
pub fn parse_failure(errors: &Vec<String>) -> (e: CompileError)
    ensures
        e matches CompileError::Type { message, line, col, snippet } && message@ == parse_failure_message(errors@)
            && line == 0 && col == 0 && snippet is None,
{
    let mut v: Vec<char> = Vec::new();
    push_str_chars(&mut v, "Parse errors: ");
    let j = join_strings(errors.as_slice(), "; ");
    push_slice(&mut v, &j);
    CompileError::Type { message: string_from_chars(&v), line: 0, col: 0, snippet: None }
}

/// What parsing `source` gives (see [`parse_program_source`]): `None`
/// exactly when the lexer cannot read the text; else the diagnostic listing
/// syntax errors, or the program, which is the grammar's reading of the
/// token stream wherever the grammar reads it.
pub open spec fn parse_outcome(source: Seq<char>, r: Option<Result<Program, CompileError>>) -> bool {
    &&& r is Some <==> (source.len() < usize::MAX && lexable_from(source, 0))
    &&& r matches Some(Err(e)) ==> e matches CompileError::Type { message, line, col, snippet }
        && line == 0 && col == 0 && snippet is None
        && exists|errs: Seq<String>| errs.len() > 0 && message@ == parse_failure_message(errs)
            && forall|i: int| 0 <= i < errs.len() ==> is_syntax_error(#[trigger] errs[i]@)
    &&& r matches Some(res) ==> exists|toks: Seq<Token>| {
        &&& toks.len() == token_stream(source, 0).len() + 1
        &&& forall|i: int| 0 <= i < toks.len() - 1 ==> #[trigger] token_is(toks[i], token_stream(source, 0)[i])
        &&& toks.last().kind is EOF
        &&& forall|fuel: nat| #[trigger] program_items(toks, 0, fuel) is Some ==> {
            &&& res matches Ok(prog)
            &&& decls_match(prog.declarations@, program_items(toks, 0, fuel).unwrap().0)
            &&& crate::error::opt_view(prog.module_name) == program_items(toks, 0, fuel).unwrap().1
            &&& import_paths(prog.imports@) == program_items(toks, 0, fuel).unwrap().2
        }
    }
}

/// Parses `source`: the program when it has no syntax errors, else the
/// diagnostic listing them; `None` when the lexer cannot read the text.
pub fn parse_program_source(source: &str) -> (r: Option<Result<Program, CompileError>>)
    ensures
        parse_outcome(source@, r),
{
    match parse_source(source) {
        None => None,
        Some((program, errors)) => {
            if errors.len() > 0 {
                let e = parse_failure(&errors);
                assert(errors@.len() > 0);
                Some(Err(e))
            } else {
                Some(Ok(program))
            }
        },
    }
}

/// Translates the functions of `source` to PL/pgSQL (see [`sql_program`]);
/// the parse diagnostic when it has syntax errors; `None` when the lexer
/// cannot read it.
pub fn transpile_source(source: &str) -> (r: Option<Result<String, CompileError>>)
    ensures
        r is Some <==> (source@.len() < usize::MAX && lexable_from(source@, 0)),
        r matches Some(Err(e)) ==> e is Type,
        exists|x: Option<Result<Program, CompileError>>| #[trigger] parse_outcome(source@, x) && match x {
            None => r is None,
            Some(Err(e)) => r == Some(Err::<String, CompileError>(e)),
            Some(Ok(p)) => r matches Some(Ok(s)) && s@ == sql_program(p),
        },
{
    let parsed = parse_program_source(source);
    let ghost x = parsed;
    assert(parse_outcome(source@, x));
    match parsed {
        None => None,
        Some(Err(e)) => Some(Err(e)),
        Some(Ok(program)) => {
            let mut t = SqlTranspiler::new();
            let out = t.transpile(&program);
            assert(out@ == sql_program(program));
            Some(Ok(out))
        },
    }
}

/// Type checks `source`: the parse diagnostic when it has syntax errors,
/// else the result of checking the program (its diagnostics carry snippets
/// of `source`); `None` when the lexer cannot read it.
pub fn check_source(source: &str) -> (r: Option<Result<(), CompileError>>)
    ensures
        r is Some <==> (source@.len() < usize::MAX && lexable_from(source@, 0)),
        exists|x: Option<Result<Program, CompileError>>| #[trigger] parse_outcome(source@, x) && match x {
            None => r is None,
            Some(Err(e)) => r == Some(Err::<(), CompileError>(e)),
            Some(Ok(p)) => r is Some
                && ((forall|i: int| 0 <= i < p.declarations@.len() ==> #[trigger] literal_decl(p.declarations@[i]))
                    ==> r matches Some(Ok(_)))
                && ((exists|i: int| 0 <= i < p.declarations@.len() && #[trigger] misfit_decl(p.declarations@[i]))
                    ==> r matches Some(Err(_))),
        },
{
    let parsed = parse_program_source(source);
    let ghost x = parsed;
    assert(parse_outcome(source@, x));
    let r = match parsed {
        None => {
            assert(x is None);
            None
        },
        Some(Err(e)) => {
            assert(x == Some(Err::<Program, CompileError>(e)));
            Some(Err(e))
        },
        Some(Ok(program)) => {
            let mut checker = TypeChecker::with_source(source);
            let c = checker.check_program(&program);
            assert(x == Some(Ok::<Program, CompileError>(program)));
            Some(c)
        },
    };
    assert(match x {
        None => r is None,
        Some(Err(e)) => r == Some(Err::<(), CompileError>(e)),
        Some(Ok(p)) => r is Some
            && ((forall|i: int| 0 <= i < p.declarations@.len() ==> #[trigger] literal_decl(p.declarations@[i]))
                ==> r matches Some(Ok(_)))
            && ((exists|i: int| 0 <= i < p.declarations@.len() && #[trigger] misfit_decl(p.declarations@[i]))
                ==> r matches Some(Err(_))),
    });
    r
}

// ---------------------------------------------------------------------------
// Imports
// ---------------------------------------------------------------------------

/// Where an import is looked for: the root directory (`.` for a path
/// starting with `compiler`, else `stdlib`) followed by one component per
/// segment of the path. The file is that path with the extension
/// [`import_extension`]; joining the components and setting the extension
/// is left to the platform's path type.
pub open spec fn import_components(path: Seq<Seq<char>>) -> Seq<Seq<char>> {
    let root = if path.len() > 0 && path[0] == "compiler"@ {
        "."@
    } else {
        "stdlib"@
    };
    seq![root] + path
}

/// The components of the file an import path names (see
/// [`import_components`]).
pub fn resolve_import_path(import_path: &Vec<String>) -> (r: Vec<String>)
    ensures
        string_views(r@) == import_components(string_views(import_path@)),
{
    let mut r: Vec<String> = Vec::new();
    if import_path.len() > 0 && crate::text::str_eq(import_path[0].as_str(), "compiler") {
        r.push(".".to_owned());
    } else {
        r.push("stdlib".to_owned());
    }
    let ghost views = string_views(import_path@);
    let mut i: usize = 0;
    while i < import_path.len()
        invariant
            i <= import_path@.len(),
            views == string_views(import_path@),
            string_views(r@) == import_components(views).take(i + 1),
        decreases import_path@.len() - i,
    {
        let ghost before = string_views(r@);
        r.push(import_path[i].clone());
        proof {
            assert(string_views(r@) =~= before.push(views[i as int]));
            assert(import_components(views).take(i + 2) =~= import_components(views).take(i + 1).push(views[i as int]));
        }
        i = i + 1;
    }
    proof {
        assert(import_components(views).take(i + 1) =~= import_components(views));
    }
    r
}

/// The extension of the files imports name.
pub fn import_extension() -> (r: &'static str)
    ensures
        r@ == "ai"@,
{
    "ai"
}

/// The name a declaration is known by: a function's, struct's or enum's
/// name or an impl block's target; an interface has none here.
pub open spec fn decl_name(d: Declaration) -> Option<Seq<char>> {
    match d {
        Declaration::Function(f) => Some(f.name@),
        Declaration::Struct(s) => Some(s.name@),
        Declaration::Enum(e) => Some(e.name@),
        Declaration::Impl(b) => Some(b.target_name@),
        Declaration::Interface(_) => None,
    }
}

/// `new` is `old` with its name (if it has one) qualified by `prefix`.
pub open spec fn qualified(new: Declaration, old: Declaration, prefix: Seq<char>) -> bool {
    match (new, old) {
        (Declaration::Function(a), Declaration::Function(b)) => a.name@ == prefix + "."@ + b.name@
            && a.generic_params == b.generic_params && a.params == b.params && a.return_type == b.return_type
            && a.body == b.body && a.modifiers == b.modifiers && a.attributes == b.attributes
            && a.doc_comment == b.doc_comment,
        (Declaration::Struct(a), Declaration::Struct(b)) => a.name@ == prefix + "."@ + b.name@
            && a.generic_params == b.generic_params && a.fields == b.fields && a.attributes == b.attributes
            && a.doc_comment == b.doc_comment,
        (Declaration::Enum(a), Declaration::Enum(b)) => a.name@ == prefix + "."@ + b.name@
            && a.generic_params == b.generic_params && a.variants == b.variants && a.doc_comment == b.doc_comment,
        (Declaration::Impl(a), Declaration::Impl(b)) => a.target_name@ == prefix + "."@ + b.target_name@
            && a.generic_params == b.generic_params && a.interface_name == b.interface_name
            && a.functions == b.functions,
        (Declaration::Interface(a), Declaration::Interface(b)) => a == b,
        _ => false,
    }
}

/// `prefix` + `.` + `name`.
fn dotted(prefix: &str, name: &String) -> (r: String)
    ensures
        r@ == prefix@ + "."@ + name@,
{
    let mut v: Vec<char> = Vec::new();
    push_str_chars(&mut v, prefix);
    push_str_chars(&mut v, ".");
    push_str_chars(&mut v, name.as_str());
    string_from_chars(&v)
}

/// Qualifies the names of imported declarations by the import path
/// (`prefix`): functions, structs and enums by their name, impl blocks by
/// their target.
pub fn prefix_declarations(decls: &mut Vec<Declaration>, prefix: &str)
    ensures
        final(decls)@.len() == old(decls)@.len(),
        forall|i: int| 0 <= i < old(decls)@.len() ==> qualified(#[trigger] final(decls)@[i], old(decls)@[i], prefix@),
{
    let mut out: Vec<Declaration> = Vec::new();
    let ghost orig = decls@;
    while decls.len() > 0
        invariant
            out@.len() + decls@.len() == orig.len(),
            decls@ == orig.skip(out@.len() as int),
            forall|k: int| 0 <= k < out@.len() ==> qualified(#[trigger] out@[k], orig[k], prefix@),
        decreases decls@.len(),
    {
        let ghost n = out@.len();
        let d = decls.remove(0);
        assert(d == orig[n as int]);
        let renamed = match d {
            Declaration::Function(mut f) => {
                f.name = dotted(prefix, &f.name);
                Declaration::Function(f)
            },
            Declaration::Struct(mut s) => {
                s.name = dotted(prefix, &s.name);
                Declaration::Struct(s)
            },
            Declaration::Enum(mut e) => {
                e.name = dotted(prefix, &e.name);
                Declaration::Enum(e)
            },
            Declaration::Impl(mut b) => {
                b.target_name = dotted(prefix, &b.target_name);
                Declaration::Impl(b)
            },
            Declaration::Interface(x) => Declaration::Interface(x),
        };
        out.push(renamed);
        proof {
            assert(decls@ =~= orig.skip(out@.len() as int));
        }
    }
    *decls = out;
}

/// What to do with one import, before its file is read.
pub enum ImportAction {
    /// Its file was loaded already.
    Skip,
    /// Its file is missing: this error ends the loading.
    Fail(CompileError),
    /// Read its file and go on with [`load_import`].
    Read,
}

/// The first decision about an import whose file is shown as `shown`:
/// skip a file loaded before, fail on a missing one, else read it.
pub fn import_action(loaded: bool, exists: bool, shown: &str) -> (a: ImportAction)
    ensures
        loaded ==> a is Skip,
        (!loaded && !exists) ==> (a matches ImportAction::Fail(e) && e matches CompileError::Import {
            message, line: 0, col: 0, snippet: None } && message@ == "Import not found: "@ + shown@),
        (!loaded && exists) ==> a is Read,
{
    if loaded {
        ImportAction::Skip
    } else if !exists {
        let mut v: Vec<char> = Vec::new();
        push_str_chars(&mut v, "Import not found: ");
        push_str_chars(&mut v, shown);
        ImportAction::Fail(CompileError::import(string_from_chars(&v).as_str()))
    } else {
        ImportAction::Read
    }
}

/// The message for an imported file (shown as `shown`) with syntax errors.
pub open spec fn import_failure_message(shown: Seq<char>, errors: Seq<String>) -> Seq<char> {
    "Import parse errors in "@ + shown + ": "@ + join_seqs(string_views(errors), "; "@)
}

/// The program of an imported file's text `source`, with each declaration
/// qualified by the import path joined with `.`; the import error listing
/// its syntax errors when it has any; `None` when the lexer cannot read it.
pub fn load_import(source: &str, import_path: &Vec<String>, shown: &str) -> (r: Option<Result<Program, CompileError>>)
    ensures
        exists|x: Option<Result<Program, CompileError>>| #[trigger] parse_outcome(source@, x) && match x {
            None => r is None,
            Some(Err(_)) => r matches Some(Err(e)) && e matches CompileError::Import { message, line: 0, col: 0,
                snippet: None } && exists|errs: Seq<String>| errs.len() > 0 && message@ == import_failure_message(shown@, errs)
                && forall|i: int| 0 <= i < errs.len() ==> is_syntax_error(#[trigger] errs[i]@),
            Some(Ok(q)) => r matches Some(Ok(p)) && p.module_name == q.module_name && p.imports == q.imports
                && p.declarations@.len() == q.declarations@.len()
                && forall|i: int| 0 <= i < q.declarations@.len() ==> qualified(#[trigger] p.declarations@[i],
                    q.declarations@[i], join_seqs(string_views(import_path@), "."@)),
        },
{
    match parse_source(source) {
        None => {
            proof {
                assert(parse_outcome(source@, None));
            }
            None
        },
        Some((program, errors)) => {
            if errors.len() > 0 {
                // The diagnostic a plain parse gives; the contract relates the
                // import error to it.
                let failure = parse_failure(&errors);
                let ghost x = Some(Err::<Program, CompileError>(failure));
                let mut v: Vec<char> = Vec::new();
                push_str_chars(&mut v, "Import parse errors in ");
                push_str_chars(&mut v, shown);
                push_str_chars(&mut v, ": ");
                let j = join_strings(errors.as_slice(), "; ");
                push_slice(&mut v, &j);
                let e = CompileError::import(string_from_chars(&v).as_str());
                proof {
                    assert(parse_outcome(source@, x));
                    assert(v@ == import_failure_message(shown@, errors@));
                }
                Some(Err(e))
            } else {
                let ghost q = program;
                proof {
                    assert(parse_outcome(source@, Some(Ok::<Program, CompileError>(q))));
                }
                let mut prog = program;
                let prefix = join_strings(import_path.as_slice(), ".");
                let prefix_text = string_from_chars(&prefix);
                prefix_declarations(&mut prog.declarations, prefix_text.as_str());
                Some(Ok(prog))
            }
        },
    }
}

} // verus!
