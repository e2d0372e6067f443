//! Attribute parsing and validation for generated newtype wrappers.
//!
//! The crate models the token stream attached to a type definition as plain
//! values, splits it into a `sanitize(...)` and a `validate(...)` section,
//! parses each section into spanned rule descriptors, and checks the parsed
//! rules for semantic consistency before any code emission takes place.

pub mod common;
pub mod errors;
pub mod models;
pub mod parse;
pub mod string;
pub mod tokens;
