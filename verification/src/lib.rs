//! A dense Lua code generator: it prints a Lua syntax tree in as few characters
//! as the lexical rules of Lua allow, and breaks lines to stay within a column
//! budget.
//!
//! - `nodes` holds the syntax tree.
//! - `generator::layout` is the model of the output buffer: what each
//!   primitive operation does to the text, as a pure function.
//! - `generator::emission` fixes, for each node, the sequence of primitive
//!   operations that prints it.
//! - `generator::dense` and `generator::walker` are the generator itself: the
//!   buffer and the methods that walk the tree. Their contracts say that they
//!   do what the model and the emissions say.
//! - `generator::laws` proves what holds of every text that is printed.
//! - `lua_generator` is a plainer generator without the layout rules for
//!   calls and operators.

pub mod frontend;
pub mod generator;
pub mod lua_generator;
pub mod nodes;
