//! The backend's name-level logic: generic substitution in type names and
//! the recovery of an expression's type name from the declarations and the
//! variables in scope. The lowering to machine code is not part of this
//! library.

pub mod intrinsics;
pub mod type_helpers;
pub mod generics;
