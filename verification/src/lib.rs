//! Name and type resolution for a small statically typed language.
//!
//! A compilation unit arrives as a tree of declarations and expressions. The
//! unit is resolved in two stages: every top-level declaration is first
//! registered in a symbol table, and only then are the bodies walked, so a
//! name may be used before the line that declares it.

pub mod ast;
pub mod collect;
pub mod complete;
pub mod diagnostics;
pub mod laws;
pub mod report;
pub mod resolve;
pub mod resolved;
pub mod rules;
pub mod symbols;
pub mod types;
pub mod unit;
