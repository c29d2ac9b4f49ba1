//! Code generation: the layout model and the generator that follows it.

pub mod dense;
pub mod emission;
pub mod laws;
pub mod layout;
pub mod number;
pub mod text;
pub mod utils;
pub mod walker;
