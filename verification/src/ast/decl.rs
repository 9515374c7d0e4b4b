//! Top-level declarations.

use vstd::prelude::*;
use super::{Expression, Statement};
use crate::token::Token;

verus! {

/// A parsed source file.
#[derive(Debug)]
pub struct Program {
    pub module_name: Option<String>,
    pub imports: Vec<Import>,
    pub declarations: Vec<Declaration>,
}

/// `use a.b.c;`
#[derive(Debug)]
pub struct Import {
    pub path: Vec<String>,
    pub alias: Option<String>,
}

/// A top-level declaration.
#[derive(Debug)]
pub enum Declaration {
    Function(Function),
    Struct(Struct),
    Enum(Enum),
    Interface(Interface),
    Impl(ImplBlock),
}

/// `interface Name { fn ...; }`
#[derive(Debug)]
pub struct Interface {
    pub name: String,
    pub methods: Vec<Function>,
    pub doc_comment: Option<String>,
}

/// `impl Target { ... }` or `impl Interface for Target { ... }`
#[derive(Debug)]
pub struct ImplBlock {
    pub target_name: String,
    pub generic_params: Vec<String>,
    pub interface_name: Option<String>,
    pub functions: Vec<Function>,
}

/// A function: its parameters are (name, type name, default value).
#[derive(Debug)]
pub struct Function {
    pub name: String,
    pub generic_params: Vec<String>,
    pub params: Vec<(String, String, Option<Box<Expression>>)>,
    pub return_type: String,
    pub body: Option<Vec<Statement>>,
    pub modifiers: Vec<Token>,
    pub attributes: Vec<(String, String)>,
    pub doc_comment: Option<String>,
}

/// `struct Name<T> { field: Type, ... }`
#[derive(Debug)]
pub struct Struct {
    pub name: String,
    pub generic_params: Vec<String>,
    pub fields: Vec<(String, String)>,
    pub attributes: Vec<String>,
    pub doc_comment: Option<String>,
}

/// `enum Name<T> { Variant(Type, ...), ... }`
#[derive(Debug)]
pub struct Enum {
    pub name: String,
    pub generic_params: Vec<String>,
    pub variants: Vec<EnumVariant>,
    pub doc_comment: Option<String>,
}

/// One variant of an enum, with the type names of its data.
#[derive(Debug)]
pub struct EnumVariant {
    pub name: String,
    pub data_types: Vec<String>,
}

} // verus!
