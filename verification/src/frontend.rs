//! Helpers of the command-line front end.

pub mod utils;
