//! The builtin functions backed by the C runtime or libc: the one table
//! from which the checker's signatures and the backend's runtime
//! declarations are both derived.

use vstd::prelude::*;

verus! {

/// Machine-level parameter shape of a runtime symbol.
#[derive(Debug, Clone, Copy, PartialEq, Eq)]
pub enum LlvmParam {
    Ptr,
    I64,
    F64,
    I32,
}

impl LlvmParam {
    /// The language-level type name for this parameter shape.
    pub fn aion_type(&self) -> (r: &'static str)
        ensures
            r@ == match *self {
                LlvmParam::Ptr => "String"@,
                LlvmParam::I64 | LlvmParam::I32 => "i64"@,
                LlvmParam::F64 => "f64"@,
            },
    {
        match self {
            LlvmParam::Ptr => "String",
            LlvmParam::I64 | LlvmParam::I32 => "i64",
            LlvmParam::F64 => "f64",
        }
    }
}

/// One builtin: its language-level name, the runtime symbol it lowers to,
/// the return type name, the (name, type name) parameters (a first
/// parameter named `self` marks a method-style builtin), whether calling
/// it needs an unsafe context, and the runtime symbol's parameter shapes.
#[derive(Debug, Clone, Copy)]
pub struct Builtin {
    pub aion_name: &'static str,
    pub llvm_name: &'static str,
    pub ret_aion: &'static str,
    pub params_aion: &'static [(&'static str, &'static str)],
    pub is_unsafe: bool,
    pub llvm_params: &'static [LlvmParam],
}

/// The language-level name, runtime symbol and return type name of a builtin.
pub open spec fn builtin_row(b: Builtin) -> (Seq<char>, Seq<char>, Seq<char>) {
    (b.aion_name@, b.llvm_name@, b.ret_aion@)
}

/// The rows of the builtin table, in declaration order: language-level
/// name, runtime symbol and return type name.
pub open spec fn builtin_rows() -> Seq<(Seq<char>, Seq<char>, Seq<char>)> {
    seq![
        ("io.println"@, "aion_io_println"@, "void"@),
        ("io.print"@, "aion_io_print"@, "void"@),
        ("io.read_line"@, "aion_io_read_line"@, "String"@),
        ("string.from_int"@, "aion_int_to_str"@, "String"@),
        ("string.from_float"@, "aion_float_to_str"@, "String"@),
        ("string.to_float"@, "aion_str_to_float"@, "f64"@),
        ("fs_read_to_string"@, "aion_read_file"@, "String"@),
        ("fs_write"@, "aion_write_file"@, "i64"@),
        ("fs_exists"@, "aion_fs_exists"@, "i64"@),
        ("fs_append"@, "aion_append_file"@, "i64"@),
        ("aion_read_file"@, "aion_read_file"@, "String"@),
        ("aion_write_file"@, "aion_write_file"@, "i64"@),
        ("aion_getenv"@, "aion_getenv"@, "String"@),
        ("aion_get_argc"@, "aion_get_argc"@, "i64"@),
        ("aion_get_argv_index"@, "aion_get_argv_index"@, "String"@),
        ("aion_exit"@, "exit"@, "void"@),
        ("exit"@, "exit"@, "void"@),
        ("aion_malloc"@, "aion_malloc"@, "ptr"@),
        ("aion_realloc"@, "aion_realloc"@, "ptr"@),
        ("aion_free"@, "aion_free"@, "void"@),
        ("aion_str_at"@, "aion_str_at"@, "i64"@),
        ("aion_str_substr"@, "aion_str_substr"@, "String"@),
        ("aion_char_to_str"@, "aion_char_to_str"@, "String"@),
        ("ai.tensor_zeros"@, "aion_ai_tensor_zeros"@, "ptr"@),
        ("ai.tensor_ones"@, "aion_ai_tensor_ones"@, "ptr"@),
        ("ai.tensor_rand"@, "aion_ai_tensor_rand"@, "ptr"@),
        ("ai.tensor_backward"@, "aion_ai_tensor_backward"@, "void"@),
        ("ai.tensor_matmul"@, "aion_ai_tensor_matmul"@, "ptr"@),
        ("ai.tensor_add"@, "aion_ai_tensor_add"@, "ptr"@),
        ("ai.tensor_move"@, "aion_ai_tensor_move"@, "ptr"@),
        ("i64.abs"@, "aion_i64_abs"@, "i64"@),
        ("i64.max"@, "aion_i64_max"@, "i64"@),
        ("i64.min"@, "aion_i64_min"@, "i64"@),
        ("string.len"@, "aion_string_len"@, "i64"@),
        ("String.len"@, "aion_string_len"@, "i64"@),
    ]
}

/// The parameter type names of a builtin, whether calling it needs an
/// unsafe context, and whether its first parameter is `self`.
pub open spec fn builtin_sig(b: Builtin) -> (Seq<Seq<char>>, bool, bool) {
    (
        b.params_aion@.map_values(|p: (&'static str, &'static str)| p.1@),
        b.is_unsafe,
        b.params_aion@.len() > 0 && b.params_aion@[0].0@ == "self"@,
    )
}

/// The signatures of the builtin table, row by row (see [`builtin_sig`]).
pub open spec fn builtin_sigs() -> Seq<(Seq<Seq<char>>, bool, bool)> {
    seq![
        (seq!["String"@], false, false),
        (seq!["String"@], false, false),
        (seq![], false, false),
        (seq!["i64"@], false, false),
        (seq!["f64"@], false, false),
        (seq!["String"@], false, false),
        (seq!["String"@], false, false),
        (seq!["String"@, "String"@], false, false),
        (seq!["String"@], false, false),
        (seq!["String"@, "String"@], false, false),
        (seq!["String"@], true, false),
        (seq!["String"@, "String"@], true, false),
        (seq!["String"@], true, false),
        (seq![], true, false),
        (seq!["i64"@], true, false),
        (seq!["i64"@], true, false),
        (seq!["i64"@], true, false),
        (seq!["i64"@], true, false),
        (seq!["ptr"@, "i64"@], true, false),
        (seq!["ptr"@], true, false),
        (seq!["String"@, "i64"@], false, false),
        (seq!["String"@, "i64"@, "i64"@], false, false),
        (seq!["i64"@], false, false),
        (seq!["ptr"@], false, false),
        (seq!["ptr"@], false, false),
        (seq!["ptr"@], false, false),
        (seq!["ptr"@], false, false),
        (seq!["ptr"@, "ptr"@], false, false),
        (seq!["ptr"@, "ptr"@], false, false),
        (seq!["ptr"@, "String"@], false, false),
        (seq!["i64"@], false, true),
        (seq!["i64"@, "i64"@], false, true),
        (seq!["i64"@, "i64"@], false, true),
        (seq!["String"@], false, true),
        (seq!["String"@], false, true),
    ]
}

/// Every builtin, in declaration order. Each runtime symbol takes exactly
/// as many parameters as the builtin it backs.
pub fn builtins() -> (r: Vec<Builtin>)
    ensures
        r@.len() == 35,
        r@.len() == builtin_rows().len(),
        forall|i: int| 0 <= i < r@.len() ==> #[trigger] r@[i].params_aion@.len() == r@[i].llvm_params@.len(),
        forall|i: int| 0 <= i < r@.len() ==> #[trigger] builtin_row(r@[i]) == builtin_rows()[i],
        forall|i: int| 0 <= i < r@.len() ==> #[trigger] builtin_sig(r@[i]) == builtin_sigs()[i],
{
    let r = vec![
        Builtin {
            aion_name: "io.println",
            llvm_name: "aion_io_println",
            ret_aion: "void",
            params_aion: &[("s", "String")],
            is_unsafe: false,
            llvm_params: &[LlvmParam::Ptr],
        },
        Builtin {
            aion_name: "io.print",
            llvm_name: "aion_io_print",
            ret_aion: "void",
            params_aion: &[("s", "String")],
            is_unsafe: false,
            llvm_params: &[LlvmParam::Ptr],
        },
        Builtin {
            aion_name: "io.read_line",
            llvm_name: "aion_io_read_line",
            ret_aion: "String",
            params_aion: &[],
            is_unsafe: false,
            llvm_params: &[],
        },
        Builtin {
            aion_name: "string.from_int",
            llvm_name: "aion_int_to_str",
            ret_aion: "String",
            params_aion: &[("n", "i64")],
            is_unsafe: false,
            llvm_params: &[LlvmParam::I64],
        },
        Builtin {
            aion_name: "string.from_float",
            llvm_name: "aion_float_to_str",
            ret_aion: "String",
            params_aion: &[("f", "f64")],
            is_unsafe: false,
            llvm_params: &[LlvmParam::F64],
        },
        Builtin {
            aion_name: "string.to_float",
            llvm_name: "aion_str_to_float",
            ret_aion: "f64",
            params_aion: &[("s", "String")],
            is_unsafe: false,
            llvm_params: &[LlvmParam::Ptr],
        },
        Builtin {
            aion_name: "fs_read_to_string",
            llvm_name: "aion_read_file",
            ret_aion: "String",
            params_aion: &[("p", "String")],
            is_unsafe: false,
            llvm_params: &[LlvmParam::Ptr],
        },
        Builtin {
            aion_name: "fs_write",
            llvm_name: "aion_write_file",
            ret_aion: "i64",
            params_aion: &[("p", "String"), ("c", "String")],
            is_unsafe: false,
            llvm_params: &[LlvmParam::Ptr, LlvmParam::Ptr],
        },
        Builtin {
            aion_name: "fs_exists",
            llvm_name: "aion_fs_exists",
            ret_aion: "i64",
            params_aion: &[("p", "String")],
            is_unsafe: false,
            llvm_params: &[LlvmParam::Ptr],
        },
        Builtin {
            aion_name: "fs_append",
            llvm_name: "aion_append_file",
            ret_aion: "i64",
            params_aion: &[("p", "String"), ("c", "String")],
            is_unsafe: false,
            llvm_params: &[LlvmParam::Ptr, LlvmParam::Ptr],
        },
        Builtin {
            aion_name: "aion_read_file",
            llvm_name: "aion_read_file",
            ret_aion: "String",
            params_aion: &[("p", "String")],
            is_unsafe: true,
            llvm_params: &[LlvmParam::Ptr],
        },
        Builtin {
            aion_name: "aion_write_file",
            llvm_name: "aion_write_file",
            ret_aion: "i64",
            params_aion: &[("p", "String"), ("c", "String")],
            is_unsafe: true,
            llvm_params: &[LlvmParam::Ptr, LlvmParam::Ptr],
        },
        Builtin {
            aion_name: "aion_getenv",
            llvm_name: "aion_getenv",
            ret_aion: "String",
            params_aion: &[("k", "String")],
            is_unsafe: true,
            llvm_params: &[LlvmParam::Ptr],
        },
        Builtin {
            aion_name: "aion_get_argc",
            llvm_name: "aion_get_argc",
            ret_aion: "i64",
            params_aion: &[],
            is_unsafe: true,
            llvm_params: &[],
        },
        Builtin {
            aion_name: "aion_get_argv_index",
            llvm_name: "aion_get_argv_index",
            ret_aion: "String",
            params_aion: &[("i", "i64")],
            is_unsafe: true,
            llvm_params: &[LlvmParam::I64],
        },
        Builtin {
            aion_name: "aion_exit",
            llvm_name: "exit",
            ret_aion: "void",
            params_aion: &[("c", "i64")],
            is_unsafe: true,
            llvm_params: &[LlvmParam::I32],
        },
        Builtin {
            aion_name: "exit",
            llvm_name: "exit",
            ret_aion: "void",
            params_aion: &[("c", "i64")],
            is_unsafe: true,
            llvm_params: &[LlvmParam::I32],
        },
        Builtin {
            aion_name: "aion_malloc",
            llvm_name: "aion_malloc",
            ret_aion: "ptr",
            params_aion: &[("s", "i64")],
            is_unsafe: true,
            llvm_params: &[LlvmParam::I64],
        },
        Builtin {
            aion_name: "aion_realloc",
            llvm_name: "aion_realloc",
            ret_aion: "ptr",
            params_aion: &[("p", "ptr"), ("s", "i64")],
            is_unsafe: true,
            llvm_params: &[LlvmParam::Ptr, LlvmParam::I64],
        },
        Builtin {
            aion_name: "aion_free",
            llvm_name: "aion_free",
            ret_aion: "void",
            params_aion: &[("p", "ptr")],
            is_unsafe: true,
            llvm_params: &[LlvmParam::Ptr],
        },
        Builtin {
            aion_name: "aion_str_at",
            llvm_name: "aion_str_at",
            ret_aion: "i64",
            params_aion: &[("s", "String"), ("i", "i64")],
            is_unsafe: false,
            llvm_params: &[LlvmParam::Ptr, LlvmParam::I64],
        },
        Builtin {
            aion_name: "aion_str_substr",
            llvm_name: "aion_str_substr",
            ret_aion: "String",
            params_aion: &[("s", "String"), ("i", "i64"), ("l", "i64")],
            is_unsafe: false,
            llvm_params: &[LlvmParam::Ptr, LlvmParam::I64, LlvmParam::I64],
        },
        Builtin {
            aion_name: "aion_char_to_str",
            llvm_name: "aion_char_to_str",
            ret_aion: "String",
            params_aion: &[("c", "i64")],
            is_unsafe: false,
            llvm_params: &[LlvmParam::I64],
        },
        Builtin {
            aion_name: "ai.tensor_zeros",
            llvm_name: "aion_ai_tensor_zeros",
            ret_aion: "ptr",
            params_aion: &[("shape", "ptr")],
            is_unsafe: false,
            llvm_params: &[LlvmParam::Ptr],
        },
        Builtin {
            aion_name: "ai.tensor_ones",
            llvm_name: "aion_ai_tensor_ones",
            ret_aion: "ptr",
            params_aion: &[("shape", "ptr")],
            is_unsafe: false,
            llvm_params: &[LlvmParam::Ptr],
        },
        Builtin {
            aion_name: "ai.tensor_rand",
            llvm_name: "aion_ai_tensor_rand",
            ret_aion: "ptr",
            params_aion: &[("shape", "ptr")],
            is_unsafe: false,
            llvm_params: &[LlvmParam::Ptr],
        },
        Builtin {
            aion_name: "ai.tensor_backward",
            llvm_name: "aion_ai_tensor_backward",
            ret_aion: "void",
            params_aion: &[("t", "ptr")],
            is_unsafe: false,
            llvm_params: &[LlvmParam::Ptr],
        },
        Builtin {
            aion_name: "ai.tensor_matmul",
            llvm_name: "aion_ai_tensor_matmul",
            ret_aion: "ptr",
            params_aion: &[("t1", "ptr"), ("t2", "ptr")],
            is_unsafe: false,
            llvm_params: &[LlvmParam::Ptr, LlvmParam::Ptr],
        },
        Builtin {
            aion_name: "ai.tensor_add",
            llvm_name: "aion_ai_tensor_add",
            ret_aion: "ptr",
            params_aion: &[("t1", "ptr"), ("t2", "ptr")],
            is_unsafe: false,
            llvm_params: &[LlvmParam::Ptr, LlvmParam::Ptr],
        },
        Builtin {
            aion_name: "ai.tensor_move",
            llvm_name: "aion_ai_tensor_move",
            ret_aion: "ptr",
            params_aion: &[("t", "ptr"), ("dev", "String")],
            is_unsafe: false,
            llvm_params: &[LlvmParam::Ptr, LlvmParam::Ptr],
        },
        Builtin {
            aion_name: "i64.abs",
            llvm_name: "aion_i64_abs",
            ret_aion: "i64",
            params_aion: &[("self", "i64")],
            is_unsafe: false,
            llvm_params: &[LlvmParam::I64],
        },
        Builtin {
            aion_name: "i64.max",
            llvm_name: "aion_i64_max",
            ret_aion: "i64",
            params_aion: &[("self", "i64"), ("other", "i64")],
            is_unsafe: false,
            llvm_params: &[LlvmParam::I64, LlvmParam::I64],
        },
        Builtin {
            aion_name: "i64.min",
            llvm_name: "aion_i64_min",
            ret_aion: "i64",
            params_aion: &[("self", "i64"), ("other", "i64")],
            is_unsafe: false,
            llvm_params: &[LlvmParam::I64, LlvmParam::I64],
        },
        Builtin {
            aion_name: "string.len",
            llvm_name: "aion_string_len",
            ret_aion: "i64",
            params_aion: &[("self", "String")],
            is_unsafe: false,
            llvm_params: &[LlvmParam::Ptr],
        },
        Builtin {
            aion_name: "String.len",
            llvm_name: "aion_string_len",
            ret_aion: "i64",
            params_aion: &[("self", "String")],
            is_unsafe: false,
            llvm_params: &[LlvmParam::Ptr],
        },
    ];
    proof {
        reveal_strlit("c");
        reveal_strlit("dev");
        reveal_strlit("f");
        reveal_strlit("i");
        reveal_strlit("k");
        reveal_strlit("l");
        reveal_strlit("n");
        reveal_strlit("other");
        reveal_strlit("p");
        reveal_strlit("s");
        reveal_strlit("self");
        reveal_strlit("shape");
        reveal_strlit("t");
        reveal_strlit("t1");
        reveal_strlit("t2");
        assert(r@[0].params_aion@.len() == 1);
        assert(r@[0].params_aion@[0].1@ == "String"@);
        assert(r@[0].params_aion@[0].0@ == "s"@);
        assert(builtin_sig(r@[0]).0 =~= builtin_sigs()[0].0);
        assert(builtin_sig(r@[0]).2 == builtin_sigs()[0].2);
        assert(r@[1].params_aion@.len() == 1);
        assert(r@[1].params_aion@[0].1@ == "String"@);
        assert(r@[1].params_aion@[0].0@ == "s"@);
        assert(builtin_sig(r@[1]).0 =~= builtin_sigs()[1].0);
        assert(builtin_sig(r@[1]).2 == builtin_sigs()[1].2);
        assert(r@[2].params_aion@.len() == 0);
        assert(builtin_sig(r@[2]).0 =~= builtin_sigs()[2].0);
        assert(builtin_sig(r@[2]).2 == builtin_sigs()[2].2);
        assert(r@[3].params_aion@.len() == 1);
        assert(r@[3].params_aion@[0].1@ == "i64"@);
        assert(r@[3].params_aion@[0].0@ == "n"@);
        assert(builtin_sig(r@[3]).0 =~= builtin_sigs()[3].0);
        assert(builtin_sig(r@[3]).2 == builtin_sigs()[3].2);
        assert(r@[4].params_aion@.len() == 1);
        assert(r@[4].params_aion@[0].1@ == "f64"@);
        assert(r@[4].params_aion@[0].0@ == "f"@);
        assert(builtin_sig(r@[4]).0 =~= builtin_sigs()[4].0);
        assert(builtin_sig(r@[4]).2 == builtin_sigs()[4].2);
        assert(r@[5].params_aion@.len() == 1);
        assert(r@[5].params_aion@[0].1@ == "String"@);
        assert(r@[5].params_aion@[0].0@ == "s"@);
        assert(builtin_sig(r@[5]).0 =~= builtin_sigs()[5].0);
        assert(builtin_sig(r@[5]).2 == builtin_sigs()[5].2);
        assert(r@[6].params_aion@.len() == 1);
        assert(r@[6].params_aion@[0].1@ == "String"@);
        assert(r@[6].params_aion@[0].0@ == "p"@);
        assert(builtin_sig(r@[6]).0 =~= builtin_sigs()[6].0);
        assert(builtin_sig(r@[6]).2 == builtin_sigs()[6].2);
        assert(r@[7].params_aion@.len() == 2);
        assert(r@[7].params_aion@[0].1@ == "String"@);
        assert(r@[7].params_aion@[1].1@ == "String"@);
        assert(r@[7].params_aion@[0].0@ == "p"@);
        assert(builtin_sig(r@[7]).0 =~= builtin_sigs()[7].0);
        assert(builtin_sig(r@[7]).2 == builtin_sigs()[7].2);
        assert(r@[8].params_aion@.len() == 1);
        assert(r@[8].params_aion@[0].1@ == "String"@);
        assert(r@[8].params_aion@[0].0@ == "p"@);
        assert(builtin_sig(r@[8]).0 =~= builtin_sigs()[8].0);
        assert(builtin_sig(r@[8]).2 == builtin_sigs()[8].2);
        assert(r@[9].params_aion@.len() == 2);
        assert(r@[9].params_aion@[0].1@ == "String"@);
        assert(r@[9].params_aion@[1].1@ == "String"@);
        assert(r@[9].params_aion@[0].0@ == "p"@);
        assert(builtin_sig(r@[9]).0 =~= builtin_sigs()[9].0);
        assert(builtin_sig(r@[9]).2 == builtin_sigs()[9].2);
        assert(r@[10].params_aion@.len() == 1);
        assert(r@[10].params_aion@[0].1@ == "String"@);
        assert(r@[10].params_aion@[0].0@ == "p"@);
        assert(builtin_sig(r@[10]).0 =~= builtin_sigs()[10].0);
        assert(builtin_sig(r@[10]).2 == builtin_sigs()[10].2);
        assert(r@[11].params_aion@.len() == 2);
        assert(r@[11].params_aion@[0].1@ == "String"@);
        assert(r@[11].params_aion@[1].1@ == "String"@);
        assert(r@[11].params_aion@[0].0@ == "p"@);
        assert(builtin_sig(r@[11]).0 =~= builtin_sigs()[11].0);
        assert(builtin_sig(r@[11]).2 == builtin_sigs()[11].2);
        assert(r@[12].params_aion@.len() == 1);
        assert(r@[12].params_aion@[0].1@ == "String"@);
        assert(r@[12].params_aion@[0].0@ == "k"@);
        assert(builtin_sig(r@[12]).0 =~= builtin_sigs()[12].0);
        assert(builtin_sig(r@[12]).2 == builtin_sigs()[12].2);
        assert(r@[13].params_aion@.len() == 0);
        assert(builtin_sig(r@[13]).0 =~= builtin_sigs()[13].0);
        assert(builtin_sig(r@[13]).2 == builtin_sigs()[13].2);
        assert(r@[14].params_aion@.len() == 1);
        assert(r@[14].params_aion@[0].1@ == "i64"@);
        assert(r@[14].params_aion@[0].0@ == "i"@);
        assert(builtin_sig(r@[14]).0 =~= builtin_sigs()[14].0);
        assert(builtin_sig(r@[14]).2 == builtin_sigs()[14].2);
        assert(r@[15].params_aion@.len() == 1);
        assert(r@[15].params_aion@[0].1@ == "i64"@);
        assert(r@[15].params_aion@[0].0@ == "c"@);
        assert(builtin_sig(r@[15]).0 =~= builtin_sigs()[15].0);
        assert(builtin_sig(r@[15]).2 == builtin_sigs()[15].2);
        assert(r@[16].params_aion@.len() == 1);
        assert(r@[16].params_aion@[0].1@ == "i64"@);
        assert(r@[16].params_aion@[0].0@ == "c"@);
        assert(builtin_sig(r@[16]).0 =~= builtin_sigs()[16].0);
        assert(builtin_sig(r@[16]).2 == builtin_sigs()[16].2);
        assert(r@[17].params_aion@.len() == 1);
        assert(r@[17].params_aion@[0].1@ == "i64"@);
        assert(r@[17].params_aion@[0].0@ == "s"@);
        assert(builtin_sig(r@[17]).0 =~= builtin_sigs()[17].0);
        assert(builtin_sig(r@[17]).2 == builtin_sigs()[17].2);
        assert(r@[18].params_aion@.len() == 2);
        assert(r@[18].params_aion@[0].1@ == "ptr"@);
        assert(r@[18].params_aion@[1].1@ == "i64"@);
        assert(r@[18].params_aion@[0].0@ == "p"@);
        assert(builtin_sig(r@[18]).0 =~= builtin_sigs()[18].0);
        assert(builtin_sig(r@[18]).2 == builtin_sigs()[18].2);
        assert(r@[19].params_aion@.len() == 1);
        assert(r@[19].params_aion@[0].1@ == "ptr"@);
        assert(r@[19].params_aion@[0].0@ == "p"@);
        assert(builtin_sig(r@[19]).0 =~= builtin_sigs()[19].0);
        assert(builtin_sig(r@[19]).2 == builtin_sigs()[19].2);
        assert(r@[20].params_aion@.len() == 2);
        assert(r@[20].params_aion@[0].1@ == "String"@);
        assert(r@[20].params_aion@[1].1@ == "i64"@);
        assert(r@[20].params_aion@[0].0@ == "s"@);
        assert(builtin_sig(r@[20]).0 =~= builtin_sigs()[20].0);
        assert(builtin_sig(r@[20]).2 == builtin_sigs()[20].2);
        assert(r@[21].params_aion@.len() == 3);
        assert(r@[21].params_aion@[0].1@ == "String"@);
        assert(r@[21].params_aion@[1].1@ == "i64"@);
        assert(r@[21].params_aion@[2].1@ == "i64"@);
        assert(r@[21].params_aion@[0].0@ == "s"@);
        assert(builtin_sig(r@[21]).0 =~= builtin_sigs()[21].0);
        assert(builtin_sig(r@[21]).2 == builtin_sigs()[21].2);
        assert(r@[22].params_aion@.len() == 1);
        assert(r@[22].params_aion@[0].1@ == "i64"@);
        assert(r@[22].params_aion@[0].0@ == "c"@);
        assert(builtin_sig(r@[22]).0 =~= builtin_sigs()[22].0);
        assert(builtin_sig(r@[22]).2 == builtin_sigs()[22].2);
        assert(r@[23].params_aion@.len() == 1);
        assert(r@[23].params_aion@[0].1@ == "ptr"@);
        assert(r@[23].params_aion@[0].0@ == "shape"@);
        assert(builtin_sig(r@[23]).0 =~= builtin_sigs()[23].0);
        assert(builtin_sig(r@[23]).2 == builtin_sigs()[23].2);
        assert(r@[24].params_aion@.len() == 1);
        assert(r@[24].params_aion@[0].1@ == "ptr"@);
        assert(r@[24].params_aion@[0].0@ == "shape"@);
        assert(builtin_sig(r@[24]).0 =~= builtin_sigs()[24].0);
        assert(builtin_sig(r@[24]).2 == builtin_sigs()[24].2);
        assert(r@[25].params_aion@.len() == 1);
        assert(r@[25].params_aion@[0].1@ == "ptr"@);
        assert(r@[25].params_aion@[0].0@ == "shape"@);
        assert(builtin_sig(r@[25]).0 =~= builtin_sigs()[25].0);
        assert(builtin_sig(r@[25]).2 == builtin_sigs()[25].2);
        assert(r@[26].params_aion@.len() == 1);
        assert(r@[26].params_aion@[0].1@ == "ptr"@);
        assert(r@[26].params_aion@[0].0@ == "t"@);
        assert(builtin_sig(r@[26]).0 =~= builtin_sigs()[26].0);
        assert(builtin_sig(r@[26]).2 == builtin_sigs()[26].2);
        assert(r@[27].params_aion@.len() == 2);
        assert(r@[27].params_aion@[0].1@ == "ptr"@);
        assert(r@[27].params_aion@[1].1@ == "ptr"@);
        assert(r@[27].params_aion@[0].0@ == "t1"@);
        assert(builtin_sig(r@[27]).0 =~= builtin_sigs()[27].0);
        assert(builtin_sig(r@[27]).2 == builtin_sigs()[27].2);
        assert(r@[28].params_aion@.len() == 2);
        assert(r@[28].params_aion@[0].1@ == "ptr"@);
        assert(r@[28].params_aion@[1].1@ == "ptr"@);
        assert(r@[28].params_aion@[0].0@ == "t1"@);
        assert(builtin_sig(r@[28]).0 =~= builtin_sigs()[28].0);
        assert(builtin_sig(r@[28]).2 == builtin_sigs()[28].2);
        assert(r@[29].params_aion@.len() == 2);
        assert(r@[29].params_aion@[0].1@ == "ptr"@);
        assert(r@[29].params_aion@[1].1@ == "String"@);
        assert(r@[29].params_aion@[0].0@ == "t"@);
        assert(builtin_sig(r@[29]).0 =~= builtin_sigs()[29].0);
        assert(builtin_sig(r@[29]).2 == builtin_sigs()[29].2);
        assert(r@[30].params_aion@.len() == 1);
        assert(r@[30].params_aion@[0].1@ == "i64"@);
        assert(r@[30].params_aion@[0].0@ == "self"@);
        assert(builtin_sig(r@[30]).0 =~= builtin_sigs()[30].0);
        assert(builtin_sig(r@[30]).2 == builtin_sigs()[30].2);
        assert(r@[31].params_aion@.len() == 2);
        assert(r@[31].params_aion@[0].1@ == "i64"@);
        assert(r@[31].params_aion@[1].1@ == "i64"@);
        assert(r@[31].params_aion@[0].0@ == "self"@);
        assert(builtin_sig(r@[31]).0 =~= builtin_sigs()[31].0);
        assert(builtin_sig(r@[31]).2 == builtin_sigs()[31].2);
        assert(r@[32].params_aion@.len() == 2);
        assert(r@[32].params_aion@[0].1@ == "i64"@);
        assert(r@[32].params_aion@[1].1@ == "i64"@);
        assert(r@[32].params_aion@[0].0@ == "self"@);
        assert(builtin_sig(r@[32]).0 =~= builtin_sigs()[32].0);
        assert(builtin_sig(r@[32]).2 == builtin_sigs()[32].2);
        assert(r@[33].params_aion@.len() == 1);
        assert(r@[33].params_aion@[0].1@ == "String"@);
        assert(r@[33].params_aion@[0].0@ == "self"@);
        assert(builtin_sig(r@[33]).0 =~= builtin_sigs()[33].0);
        assert(builtin_sig(r@[33]).2 == builtin_sigs()[33].2);
        assert(r@[34].params_aion@.len() == 1);
        assert(r@[34].params_aion@[0].1@ == "String"@);
        assert(r@[34].params_aion@[0].0@ == "self"@);
        assert(builtin_sig(r@[34]).0 =~= builtin_sigs()[34].0);
        assert(builtin_sig(r@[34]).2 == builtin_sigs()[34].2);
    }
    r
}

/// A number that tells the builtin names apart: the length and three of
/// the characters.
spec fn name_code(s: Seq<char>) -> int {
    s.len() * 16777216 + (s[0] as int) * 65536 + (s.last() as int) * 256 + (s[s.len() - 2] as int)
}

/// The row whose name has code `c`.
spec fn row_of_code(c: int) -> int {
    if c == 174681708 { 0 } else
    if c == 141128814 { 1 } else
    if c == 208233838 { 2 } else
    if c == 259224686 { 3 } else
    if c == 292779105 { 4 } else
    if c == 259224673 { 5 } else
    if c == 291923822 { 6 } else
    if c == 140928372 { 7 } else
    if c == 157709172 { 8 } else
    if c == 157705326 { 9 } else
    if c == 241263980 { 10 } else
    if c == 258041196 { 11 } else
    if c == 190936686 { 12 } else
    if c == 224486247 { 13 } else
    if c == 325154917 { 14 } else
    if c == 157381737 { 15 } else
    if c == 73757801 { 16 } else
    if c == 190931823 { 17 } else
    if c == 207709039 { 18 } else
    if c == 157377893 { 19 } else
    if c == 190936161 { 20 } else
    if c == 258044532 { 21 } else
    if c == 274821748 { 22 } else
    if c == 258044783 { 23 } else
    if c == 241267557 { 24 } else
    if c == 241263726 { 25 } else
    if c == 308372594 { 26 } else
    if c == 274820213 { 27 } else
    if c == 224486500 { 28 } else
    if c == 241263990 { 29 } else
    if c == 124351330 { 30 } else
    if c == 124352609 { 31 } else
    if c == 124350057 { 32 } else
    if c == 175337061 { 33 } else
    if c == 173239909 { 34 } else
    { -1 }
}

proof fn lemma_row_codes()
    ensures
        forall|a: int| 0 <= a < builtin_rows().len() ==> row_of_code(name_code(#[trigger] builtin_rows()[a].0)) == a,
{
    reveal_strlit("io.println");
    reveal_strlit("io.print");
    reveal_strlit("io.read_line");
    reveal_strlit("string.from_int");
    reveal_strlit("string.from_float");
    reveal_strlit("string.to_float");
    reveal_strlit("fs_read_to_string");
    reveal_strlit("fs_write");
    reveal_strlit("fs_exists");
    reveal_strlit("fs_append");
    reveal_strlit("aion_read_file");
    reveal_strlit("aion_write_file");
    reveal_strlit("aion_getenv");
    reveal_strlit("aion_get_argc");
    reveal_strlit("aion_get_argv_index");
    reveal_strlit("aion_exit");
    reveal_strlit("exit");
    reveal_strlit("aion_malloc");
    reveal_strlit("aion_realloc");
    reveal_strlit("aion_free");
    reveal_strlit("aion_str_at");
    reveal_strlit("aion_str_substr");
    reveal_strlit("aion_char_to_str");
    reveal_strlit("ai.tensor_zeros");
    reveal_strlit("ai.tensor_ones");
    reveal_strlit("ai.tensor_rand");
    reveal_strlit("ai.tensor_backward");
    reveal_strlit("ai.tensor_matmul");
    reveal_strlit("ai.tensor_add");
    reveal_strlit("ai.tensor_move");
    reveal_strlit("i64.abs");
    reveal_strlit("i64.max");
    reveal_strlit("i64.min");
    reveal_strlit("string.len");
    reveal_strlit("String.len");
    assert(row_of_code(name_code(builtin_rows()[0].0)) == 0);
    assert(row_of_code(name_code(builtin_rows()[1].0)) == 1);
    assert(row_of_code(name_code(builtin_rows()[2].0)) == 2);
    assert(row_of_code(name_code(builtin_rows()[3].0)) == 3);
    assert(row_of_code(name_code(builtin_rows()[4].0)) == 4);
    assert(row_of_code(name_code(builtin_rows()[5].0)) == 5);
    assert(row_of_code(name_code(builtin_rows()[6].0)) == 6);
    assert(row_of_code(name_code(builtin_rows()[7].0)) == 7);
    assert(row_of_code(name_code(builtin_rows()[8].0)) == 8);
    assert(row_of_code(name_code(builtin_rows()[9].0)) == 9);
    assert(row_of_code(name_code(builtin_rows()[10].0)) == 10);
    assert(row_of_code(name_code(builtin_rows()[11].0)) == 11);
    assert(row_of_code(name_code(builtin_rows()[12].0)) == 12);
    assert(row_of_code(name_code(builtin_rows()[13].0)) == 13);
    assert(row_of_code(name_code(builtin_rows()[14].0)) == 14);
    assert(row_of_code(name_code(builtin_rows()[15].0)) == 15);
    assert(row_of_code(name_code(builtin_rows()[16].0)) == 16);
    assert(row_of_code(name_code(builtin_rows()[17].0)) == 17);
    assert(row_of_code(name_code(builtin_rows()[18].0)) == 18);
    assert(row_of_code(name_code(builtin_rows()[19].0)) == 19);
    assert(row_of_code(name_code(builtin_rows()[20].0)) == 20);
    assert(row_of_code(name_code(builtin_rows()[21].0)) == 21);
    assert(row_of_code(name_code(builtin_rows()[22].0)) == 22);
    assert(row_of_code(name_code(builtin_rows()[23].0)) == 23);
    assert(row_of_code(name_code(builtin_rows()[24].0)) == 24);
    assert(row_of_code(name_code(builtin_rows()[25].0)) == 25);
    assert(row_of_code(name_code(builtin_rows()[26].0)) == 26);
    assert(row_of_code(name_code(builtin_rows()[27].0)) == 27);
    assert(row_of_code(name_code(builtin_rows()[28].0)) == 28);
    assert(row_of_code(name_code(builtin_rows()[29].0)) == 29);
    assert(row_of_code(name_code(builtin_rows()[30].0)) == 30);
    assert(row_of_code(name_code(builtin_rows()[31].0)) == 31);
    assert(row_of_code(name_code(builtin_rows()[32].0)) == 32);
    assert(row_of_code(name_code(builtin_rows()[33].0)) == 33);
    assert(row_of_code(name_code(builtin_rows()[34].0)) == 34);
    assert forall|a: int| 0 <= a < builtin_rows().len() implies row_of_code(name_code(#[trigger] builtin_rows()[a].0)) == a by {
        assert(0 <= a < 35);
    }
}

/// No two rows of the builtin table share a name.
pub proof fn lemma_builtin_names_distinct()
    ensures
        forall|a: int, b: int| 0 <= a < builtin_rows().len() && 0 <= b < builtin_rows().len() && a != b
            ==> #[trigger] builtin_rows()[a].0 != #[trigger] builtin_rows()[b].0,
{
    lemma_row_codes();
}

/// The type names the builtin table uses.
pub open spec fn is_builtin_type_name(t: Seq<char>) -> bool {
    t == "String"@ || t == "i64"@ || t == "f64"@ || t == "void"@ || t == "ptr"@
}

/// Every parameter and return type name of the table is one of
/// [`is_builtin_type_name`].
pub proof fn lemma_builtin_type_names()
    ensures
        forall|i: int| 0 <= i < builtin_rows().len() ==> is_builtin_type_name(#[trigger] builtin_rows()[i].2),
        forall|i: int, k: int| 0 <= i < builtin_sigs().len() && 0 <= k < builtin_sigs()[i].0.len()
            ==> is_builtin_type_name(#[trigger] builtin_sigs()[i].0[k]),
        builtin_sigs().len() == builtin_rows().len(),
{
    assert forall|i: int| 0 <= i < builtin_rows().len() implies is_builtin_type_name(#[trigger] builtin_rows()[i].2) by {
        assert(0 <= i < 35);
    }
    assert forall|i: int, k: int| 0 <= i < builtin_sigs().len() && 0 <= k < builtin_sigs()[i].0.len()
        implies is_builtin_type_name(#[trigger] builtin_sigs()[i].0[k]) by {
        assert(0 <= i < 35);
    }
}

proof fn lemma_no_path_to_0()
    ensures
        forall|j: int| 0 <= j < builtin_rows().len()
            ==> !crate::analysis::environment::qualified_match(#[trigger] builtin_rows()[j].0, "String"@),
{
    reveal_strlit("String");
    reveal_strlit("io.println");
    reveal_strlit("io.print");
    reveal_strlit("io.read_line");
    reveal_strlit("string.from_int");
    reveal_strlit("string.from_float");
    reveal_strlit("string.to_float");
    reveal_strlit("fs_read_to_string");
    reveal_strlit("fs_write");
    reveal_strlit("fs_exists");
    reveal_strlit("fs_append");
    reveal_strlit("aion_read_file");
    reveal_strlit("aion_write_file");
    reveal_strlit("aion_getenv");
    reveal_strlit("aion_get_argc");
    reveal_strlit("aion_get_argv_index");
    reveal_strlit("aion_exit");
    reveal_strlit("exit");
    reveal_strlit("aion_malloc");
    reveal_strlit("aion_realloc");
    reveal_strlit("aion_free");
    reveal_strlit("aion_str_at");
    reveal_strlit("aion_str_substr");
    reveal_strlit("aion_char_to_str");
    reveal_strlit("ai.tensor_zeros");
    reveal_strlit("ai.tensor_ones");
    reveal_strlit("ai.tensor_rand");
    reveal_strlit("ai.tensor_backward");
    reveal_strlit("ai.tensor_matmul");
    reveal_strlit("ai.tensor_add");
    reveal_strlit("ai.tensor_move");
    reveal_strlit("i64.abs");
    reveal_strlit("i64.max");
    reveal_strlit("i64.min");
    reveal_strlit("string.len");
    reveal_strlit("String.len");
    assert forall|j: int| 0 <= j < builtin_rows().len()
        implies !crate::analysis::environment::qualified_match(#[trigger] builtin_rows()[j].0, "String"@) by {
        assert(0 <= j < 35);
        let n = builtin_rows()[j].0;
        assert(n.len() >= 2);
        assert(n.last() != "String"@.last() || n[n.len() - 2] != "String"@["String"@.len() - 2] || n.len() < "String"@.len() || n == "String"@ || n.take(n.len() - "String"@.len()).last() != '.');
    }
}

proof fn lemma_no_path_to_1()
    ensures
        forall|j: int| 0 <= j < builtin_rows().len()
            ==> !crate::analysis::environment::qualified_match(#[trigger] builtin_rows()[j].0, "i64"@),
{
    reveal_strlit("i64");
    reveal_strlit("io.println");
    reveal_strlit("io.print");
    reveal_strlit("io.read_line");
    reveal_strlit("string.from_int");
    reveal_strlit("string.from_float");
    reveal_strlit("string.to_float");
    reveal_strlit("fs_read_to_string");
    reveal_strlit("fs_write");
    reveal_strlit("fs_exists");
    reveal_strlit("fs_append");
    reveal_strlit("aion_read_file");
    reveal_strlit("aion_write_file");
    reveal_strlit("aion_getenv");
    reveal_strlit("aion_get_argc");
    reveal_strlit("aion_get_argv_index");
    reveal_strlit("aion_exit");
    reveal_strlit("exit");
    reveal_strlit("aion_malloc");
    reveal_strlit("aion_realloc");
    reveal_strlit("aion_free");
    reveal_strlit("aion_str_at");
    reveal_strlit("aion_str_substr");
    reveal_strlit("aion_char_to_str");
    reveal_strlit("ai.tensor_zeros");
    reveal_strlit("ai.tensor_ones");
    reveal_strlit("ai.tensor_rand");
    reveal_strlit("ai.tensor_backward");
    reveal_strlit("ai.tensor_matmul");
    reveal_strlit("ai.tensor_add");
    reveal_strlit("ai.tensor_move");
    reveal_strlit("i64.abs");
    reveal_strlit("i64.max");
    reveal_strlit("i64.min");
    reveal_strlit("string.len");
    reveal_strlit("String.len");
    assert forall|j: int| 0 <= j < builtin_rows().len()
        implies !crate::analysis::environment::qualified_match(#[trigger] builtin_rows()[j].0, "i64"@) by {
        assert(0 <= j < 35);
        let n = builtin_rows()[j].0;
        assert(n.len() >= 2);
        assert(n.last() != "i64"@.last() || n[n.len() - 2] != "i64"@["i64"@.len() - 2] || n.len() < "i64"@.len() || n == "i64"@ || n.take(n.len() - "i64"@.len()).last() != '.');
    }
}

proof fn lemma_no_path_to_2()
    ensures
        forall|j: int| 0 <= j < builtin_rows().len()
            ==> !crate::analysis::environment::qualified_match(#[trigger] builtin_rows()[j].0, "f64"@),
{
    reveal_strlit("f64");
    reveal_strlit("io.println");
    reveal_strlit("io.print");
    reveal_strlit("io.read_line");
    reveal_strlit("string.from_int");
    reveal_strlit("string.from_float");
    reveal_strlit("string.to_float");
    reveal_strlit("fs_read_to_string");
    reveal_strlit("fs_write");
    reveal_strlit("fs_exists");
    reveal_strlit("fs_append");
    reveal_strlit("aion_read_file");
    reveal_strlit("aion_write_file");
    reveal_strlit("aion_getenv");
    reveal_strlit("aion_get_argc");
    reveal_strlit("aion_get_argv_index");
    reveal_strlit("aion_exit");
    reveal_strlit("exit");
    reveal_strlit("aion_malloc");
    reveal_strlit("aion_realloc");
    reveal_strlit("aion_free");
    reveal_strlit("aion_str_at");
    reveal_strlit("aion_str_substr");
    reveal_strlit("aion_char_to_str");
    reveal_strlit("ai.tensor_zeros");
    reveal_strlit("ai.tensor_ones");
    reveal_strlit("ai.tensor_rand");
    reveal_strlit("ai.tensor_backward");
    reveal_strlit("ai.tensor_matmul");
    reveal_strlit("ai.tensor_add");
    reveal_strlit("ai.tensor_move");
    reveal_strlit("i64.abs");
    reveal_strlit("i64.max");
    reveal_strlit("i64.min");
    reveal_strlit("string.len");
    reveal_strlit("String.len");
    assert forall|j: int| 0 <= j < builtin_rows().len()
        implies !crate::analysis::environment::qualified_match(#[trigger] builtin_rows()[j].0, "f64"@) by {
        assert(0 <= j < 35);
        let n = builtin_rows()[j].0;
        assert(n.len() >= 2);
        assert(n.last() != "f64"@.last() || n[n.len() - 2] != "f64"@["f64"@.len() - 2] || n.len() < "f64"@.len() || n == "f64"@ || n.take(n.len() - "f64"@.len()).last() != '.');
    }
}

proof fn lemma_no_path_to_3()
    ensures
        forall|j: int| 0 <= j < builtin_rows().len()
            ==> !crate::analysis::environment::qualified_match(#[trigger] builtin_rows()[j].0, "void"@),
{
    reveal_strlit("void");
    reveal_strlit("io.println");
    reveal_strlit("io.print");
    reveal_strlit("io.read_line");
    reveal_strlit("string.from_int");
    reveal_strlit("string.from_float");
    reveal_strlit("string.to_float");
    reveal_strlit("fs_read_to_string");
    reveal_strlit("fs_write");
    reveal_strlit("fs_exists");
    reveal_strlit("fs_append");
    reveal_strlit("aion_read_file");
    reveal_strlit("aion_write_file");
    reveal_strlit("aion_getenv");
    reveal_strlit("aion_get_argc");
    reveal_strlit("aion_get_argv_index");
    reveal_strlit("aion_exit");
    reveal_strlit("exit");
    reveal_strlit("aion_malloc");
    reveal_strlit("aion_realloc");
    reveal_strlit("aion_free");
    reveal_strlit("aion_str_at");
    reveal_strlit("aion_str_substr");
    reveal_strlit("aion_char_to_str");
    reveal_strlit("ai.tensor_zeros");
    reveal_strlit("ai.tensor_ones");
    reveal_strlit("ai.tensor_rand");
    reveal_strlit("ai.tensor_backward");
    reveal_strlit("ai.tensor_matmul");
    reveal_strlit("ai.tensor_add");
    reveal_strlit("ai.tensor_move");
    reveal_strlit("i64.abs");
    reveal_strlit("i64.max");
    reveal_strlit("i64.min");
    reveal_strlit("string.len");
    reveal_strlit("String.len");
    assert forall|j: int| 0 <= j < builtin_rows().len()
        implies !crate::analysis::environment::qualified_match(#[trigger] builtin_rows()[j].0, "void"@) by {
        assert(0 <= j < 35);
        let n = builtin_rows()[j].0;
        assert(n.len() >= 2);
        assert(n.last() != "void"@.last() || n[n.len() - 2] != "void"@["void"@.len() - 2] || n.len() < "void"@.len() || n == "void"@ || n.take(n.len() - "void"@.len()).last() != '.');
    }
}

proof fn lemma_no_path_to_4()
    ensures
        forall|j: int| 0 <= j < builtin_rows().len()
            ==> !crate::analysis::environment::qualified_match(#[trigger] builtin_rows()[j].0, "ptr"@),
{
    reveal_strlit("ptr");
    reveal_strlit("io.println");
    reveal_strlit("io.print");
    reveal_strlit("io.read_line");
    reveal_strlit("string.from_int");
    reveal_strlit("string.from_float");
    reveal_strlit("string.to_float");
    reveal_strlit("fs_read_to_string");
    reveal_strlit("fs_write");
    reveal_strlit("fs_exists");
    reveal_strlit("fs_append");
    reveal_strlit("aion_read_file");
    reveal_strlit("aion_write_file");
    reveal_strlit("aion_getenv");
    reveal_strlit("aion_get_argc");
    reveal_strlit("aion_get_argv_index");
    reveal_strlit("aion_exit");
    reveal_strlit("exit");
    reveal_strlit("aion_malloc");
    reveal_strlit("aion_realloc");
    reveal_strlit("aion_free");
    reveal_strlit("aion_str_at");
    reveal_strlit("aion_str_substr");
    reveal_strlit("aion_char_to_str");
    reveal_strlit("ai.tensor_zeros");
    reveal_strlit("ai.tensor_ones");
    reveal_strlit("ai.tensor_rand");
    reveal_strlit("ai.tensor_backward");
    reveal_strlit("ai.tensor_matmul");
    reveal_strlit("ai.tensor_add");
    reveal_strlit("ai.tensor_move");
    reveal_strlit("i64.abs");
    reveal_strlit("i64.max");
    reveal_strlit("i64.min");
    reveal_strlit("string.len");
    reveal_strlit("String.len");
    assert forall|j: int| 0 <= j < builtin_rows().len()
        implies !crate::analysis::environment::qualified_match(#[trigger] builtin_rows()[j].0, "ptr"@) by {
        assert(0 <= j < 35);
        let n = builtin_rows()[j].0;
        assert(n.len() >= 2);
        assert(n.last() != "ptr"@.last() || n[n.len() - 2] != "ptr"@["ptr"@.len() - 2] || n.len() < "ptr"@.len() || n == "ptr"@ || n.take(n.len() - "ptr"@.len()).last() != '.');
    }
}

/// No builtin name is a type name of the table, or a path ending in one,
/// or one of the checker's own globals.
pub proof fn lemma_builtin_names_apart()
    ensures
        forall|j: int, t: Seq<char>| 0 <= j < builtin_rows().len() && #[trigger] is_builtin_type_name(t)
            ==> #[trigger] builtin_rows()[j].0 != t && !crate::analysis::environment::qualified_match(builtin_rows()[j].0, t),
        forall|j: int| 0 <= j < builtin_rows().len() ==> {
            let n = #[trigger] builtin_rows()[j].0;
            n != "aion_str_ptr"@ && n != "env.var"@ && n != "mem.is_null"@ && n != "string.concat"@
                && n != "argc"@ && n != "argv"@
        },
{
    lemma_row_codes();
    reveal_strlit("String");
    assert(row_of_code(name_code("String"@)) == -1);
    reveal_strlit("i64");
    assert(row_of_code(name_code("i64"@)) == -1);
    reveal_strlit("f64");
    assert(row_of_code(name_code("f64"@)) == -1);
    reveal_strlit("void");
    assert(row_of_code(name_code("void"@)) == -1);
    reveal_strlit("ptr");
    assert(row_of_code(name_code("ptr"@)) == -1);
    reveal_strlit("aion_str_ptr");
    assert(row_of_code(name_code("aion_str_ptr"@)) == -1);
    reveal_strlit("env.var");
    assert(row_of_code(name_code("env.var"@)) == -1);
    reveal_strlit("mem.is_null");
    assert(row_of_code(name_code("mem.is_null"@)) == -1);
    reveal_strlit("string.concat");
    assert(row_of_code(name_code("string.concat"@)) == -1);
    reveal_strlit("argc");
    assert(row_of_code(name_code("argc"@)) == -1);
    reveal_strlit("argv");
    assert(row_of_code(name_code("argv"@)) == -1);
    lemma_no_path_to_0();
    lemma_no_path_to_1();
    lemma_no_path_to_2();
    lemma_no_path_to_3();
    lemma_no_path_to_4();
}

/// No builtin name is `io` or a path ending in it.
pub proof fn lemma_no_builtin_named_io()
    ensures
        forall|j: int| 0 <= j < builtin_rows().len() ==> #[trigger] builtin_rows()[j].0 != "io"@
            && !crate::analysis::environment::qualified_match(builtin_rows()[j].0, "io"@),
{
    reveal_strlit("io");
    reveal_strlit("io.println");
    reveal_strlit("io.print");
    reveal_strlit("io.read_line");
    reveal_strlit("string.from_int");
    reveal_strlit("string.from_float");
    reveal_strlit("string.to_float");
    reveal_strlit("fs_read_to_string");
    reveal_strlit("fs_write");
    reveal_strlit("fs_exists");
    reveal_strlit("fs_append");
    reveal_strlit("aion_read_file");
    reveal_strlit("aion_write_file");
    reveal_strlit("aion_getenv");
    reveal_strlit("aion_get_argc");
    reveal_strlit("aion_get_argv_index");
    reveal_strlit("aion_exit");
    reveal_strlit("exit");
    reveal_strlit("aion_malloc");
    reveal_strlit("aion_realloc");
    reveal_strlit("aion_free");
    reveal_strlit("aion_str_at");
    reveal_strlit("aion_str_substr");
    reveal_strlit("aion_char_to_str");
    reveal_strlit("ai.tensor_zeros");
    reveal_strlit("ai.tensor_ones");
    reveal_strlit("ai.tensor_rand");
    reveal_strlit("ai.tensor_backward");
    reveal_strlit("ai.tensor_matmul");
    reveal_strlit("ai.tensor_add");
    reveal_strlit("ai.tensor_move");
    reveal_strlit("i64.abs");
    reveal_strlit("i64.max");
    reveal_strlit("i64.min");
    reveal_strlit("string.len");
    reveal_strlit("String.len");
    lemma_row_codes();
    assert(row_of_code(name_code("io"@)) == -1);
    assert forall|j: int| 0 <= j < builtin_rows().len()
        implies !crate::analysis::environment::qualified_match(#[trigger] builtin_rows()[j].0, "io"@) by {
        assert(0 <= j < 35);
        let n = builtin_rows()[j].0;
        assert(n.len() >= 2);
        assert(n.last() != "io"@.last() || n[n.len() - 2] != "io"@["io"@.len() - 2] || n.len() < "io"@.len() || n == "io"@ || n.take(n.len() - "io"@.len()).last() != '.');
    }
}

/// No builtin name is `lenn` or a path ending in it.
pub proof fn lemma_no_builtin_named_lenn()
    ensures
        forall|j: int| 0 <= j < builtin_rows().len() ==> #[trigger] builtin_rows()[j].0 != "lenn"@
            && !crate::analysis::environment::qualified_match(builtin_rows()[j].0, "lenn"@),
{
    reveal_strlit("lenn");
    reveal_strlit("io.println");
    reveal_strlit("io.print");
    reveal_strlit("io.read_line");
    reveal_strlit("string.from_int");
    reveal_strlit("string.from_float");
    reveal_strlit("string.to_float");
    reveal_strlit("fs_read_to_string");
    reveal_strlit("fs_write");
    reveal_strlit("fs_exists");
    reveal_strlit("fs_append");
    reveal_strlit("aion_read_file");
    reveal_strlit("aion_write_file");
    reveal_strlit("aion_getenv");
    reveal_strlit("aion_get_argc");
    reveal_strlit("aion_get_argv_index");
    reveal_strlit("aion_exit");
    reveal_strlit("exit");
    reveal_strlit("aion_malloc");
    reveal_strlit("aion_realloc");
    reveal_strlit("aion_free");
    reveal_strlit("aion_str_at");
    reveal_strlit("aion_str_substr");
    reveal_strlit("aion_char_to_str");
    reveal_strlit("ai.tensor_zeros");
    reveal_strlit("ai.tensor_ones");
    reveal_strlit("ai.tensor_rand");
    reveal_strlit("ai.tensor_backward");
    reveal_strlit("ai.tensor_matmul");
    reveal_strlit("ai.tensor_add");
    reveal_strlit("ai.tensor_move");
    reveal_strlit("i64.abs");
    reveal_strlit("i64.max");
    reveal_strlit("i64.min");
    reveal_strlit("string.len");
    reveal_strlit("String.len");
    lemma_row_codes();
    assert(row_of_code(name_code("lenn"@)) == -1);
    assert forall|j: int| 0 <= j < builtin_rows().len()
        implies !crate::analysis::environment::qualified_match(#[trigger] builtin_rows()[j].0, "lenn"@) by {
        assert(0 <= j < 35);
        let n = builtin_rows()[j].0;
        assert(n.len() >= 2);
        assert(n.last() != "lenn"@.last() || n[n.len() - 2] != "lenn"@["lenn"@.len() - 2] || n.len() < "lenn"@.len() || n == "lenn"@ || n.take(n.len() - "lenn"@.len()).last() != '.');
    }
}

} // verus!
