//! Elaboration of memory-mapped register descriptions.
//!
//! A memory map is a tree of named fields. Elaboration gives every leaf field
//! a byte address and an access permission, and checks every declared default
//! value against the type of its field.

pub mod memory_map;
pub mod symbol;
