//! The symbol of the documentation.

pub mod symbol;
