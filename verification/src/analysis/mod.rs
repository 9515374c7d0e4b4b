pub mod types;
pub mod environment;
pub mod rules;
pub mod checker;
