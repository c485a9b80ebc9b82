//! Object and class runtime of a bytecode interpreter for a class-based
//! scripting language.
//!
//! The runtime holds its objects, class objects, property tables and class
//! definitions in tables and refers to them by index. It decides, for every
//! name lookup and every call, which slot, method or accessor answers it;
//! running code is left to the interpreter, which the functions of this
//! library hand the calls that it has to make.

pub mod value;
pub mod either;
pub mod strings;
pub mod interner;
pub mod error;
pub mod fnv_map;
pub mod namespace;
pub mod qname;
pub mod multiname;
pub mod property;
pub mod method;
pub mod traits;
pub mod scope;
pub mod class;
pub mod vtable;
pub mod script_object;
pub mod function;
pub mod call_stack;
pub mod runtime;
pub mod object;
pub mod error_text;
pub mod interfaces;
pub mod class_object;
pub mod config;
pub mod navigator;
pub mod loader;
pub mod loaderinfo_object;
pub mod globals;
