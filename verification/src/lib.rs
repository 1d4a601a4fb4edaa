//! Generation of foreign-function binding declarations from declaration-only
//! TypeScript class modules.
//!
//! The crate walks a parsed TypeScript module (modelled as plain data in
//! [`ast`]), resolves each declared type into a portable descriptor, assembles
//! an intermediate representation of modules, classes and functions ([`wb`]),
//! applies a hierarchical override policy, and renders the result as textual
//! binding declarations.

pub mod ast;
pub mod emit;
pub mod error;
pub mod imports;
pub mod overrides;
pub mod pipeline;
pub mod strutil;
pub mod translate;
pub mod wasm_bindgen_writer;
pub mod wb;
