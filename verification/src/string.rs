//! The text-family rule parsers, their data model, and the semantic
//! validator for the parsed rule set.

pub mod models;
pub mod parse;
pub mod validate;
