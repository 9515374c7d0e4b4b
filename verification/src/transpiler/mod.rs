//! Translation of programs to other languages.

pub mod sql;
