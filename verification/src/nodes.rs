//! The Lua syntax tree that the generator prints.

pub mod expressions;
pub mod operators;
pub mod statements;
