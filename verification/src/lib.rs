//! A decoder for the WebAssembly binary module format.
//!
//! The decoder turns a raw byte sequence into a structured in-memory
//! representation of a module's declared types, functions, and function
//! bodies.  Every decode routine is specified against a mathematical
//! description of the wire grammar and verified to follow it exactly.
#![allow(non_snake_case)]

pub mod module;
pub mod utils;
