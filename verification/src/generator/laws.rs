//! What holds of every text that the generator produces, proved of the
//! layout model and of what is emitted for the syntax tree.
//!
//! - `states`: every emission leaves the generator empty or with an open
//!   line, and the last fragment stands at the end of the output as it was
//!   pushed.
//! - `words`: no word of the output holds characters of two fragments, and
//!   what would be misread directly behind the output is kept apart from it.
//! - `lines`: no line is longer than the column span unless a fragment is,
//!   and the count of the current line is exact as long as no fragment holds
//!   a line break.
//! - `characters`: the output holds the characters of the fragments and,
//!   besides them, only spaces and line breaks.
//! - `fragments`: the output is the fragments in order, each kept whole.
//! - `tree`: parentheses around operands, empty bodies, and the `;` between
//!   statements.

pub mod characters;
pub mod fragments;
pub mod lines;
pub mod states;
pub mod tree;
pub mod words;
