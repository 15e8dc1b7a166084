//! Boundary layer between an embedded configuration language and the host
//! runtime that embeds it.
//!
//! Values cross the boundary in a canonical form (`codec`), decimals take
//! part in the embedded language's arithmetic as values of their own
//! (`decimal`), calls of host functions go out and come back (`callable`),
//! and the namespaces that evaluations run against are built, frozen once,
//! and loaded by later evaluations (`namespace`, `evaluation`). The parser
//! and the decimal arithmetic are those of the crates `starlark` and
//! `rust_decimal`; what this crate assumes of them is said where it calls
//! them.

pub mod callable;
pub mod codec;
pub mod decimal;
pub mod diagnostics;
pub mod dialect;
pub mod entries;
pub mod error;
pub mod evaluation;
pub mod namespace;
pub mod syntax;
pub mod text;
pub mod value;
