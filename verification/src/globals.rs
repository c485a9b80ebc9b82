//! The built-in functions that the host binds to script names.

pub mod capabilities;
pub mod class;
pub mod void;
pub mod loader_info;
pub mod text_field;
