//! The memory map: its data model and the elaboration of a field tree.

pub mod binary64;
pub mod decode;
pub mod elaborate;
pub mod laws;
pub mod layout;
pub mod schema;
pub mod validate;
