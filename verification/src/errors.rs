//! Span-attributed errors raised by parsing and semantic validation.

use vstd::prelude::*;

use crate::tokens::Span;

verus! {

/// Why parsing or validation failed.  Kinds that concern a particular
/// identifier carry its text, so the diagnostic can name it.
#[derive(Debug, Clone, PartialEq, Eq)]
pub enum ParseErrorKind {
    /// A rule name or attribute name was expected.
    ExpectedIdent,
    /// A parenthesized group was expected after a section name.
    ExpectedGroup,
    /// An `=` sign was expected.
    ExpectedEquals,
    /// A non-negative integer literal was expected.
    ExpectedNumber,
    /// A negative numeric argument was given.
    NegativeNumber,
    /// A numeric argument does not fit the value range.
    NumberTooLarge,
    /// An empty rule stood between two separators.
    EmptyRule,
    /// An unknown top-level attribute section name.
    UnknownAttribute(String),
    /// An unknown sanitizer rule name.
    UnknownSanitizer(String),
    /// An unknown validation rule name.
    UnknownValidator(String),
    /// A top-level attribute section was given twice.
    DuplicateAttribute(String),
    /// A single-occurrence validation rule was given twice.
    DuplicateValidator,
    /// A `max_len` bound strictly smaller than a declared `min_len` bound.
    IncompatibleBounds,
    /// The decorated item is not a single-field tuple struct.
    NotTupleStruct,
    /// The wrapped field's type is not a plain type path.
    ExpectedSimpleType,
    /// The wrapped field's type path is not in the supported vocabulary.
    UnsupportedInnerType(String),
}

/// Spec-level counterpart of [`ParseErrorKind`]: identifier payloads appear
/// as character sequences.
pub enum ParseErrorKindV {
    ExpectedIdent,
    ExpectedGroup,
    ExpectedEquals,
    ExpectedNumber,
    NegativeNumber,
    NumberTooLarge,
    EmptyRule,
    UnknownAttribute(Seq<char>),
    UnknownSanitizer(Seq<char>),
    UnknownValidator(Seq<char>),
    DuplicateAttribute(Seq<char>),
    DuplicateValidator,
    IncompatibleBounds,
    NotTupleStruct,
    ExpectedSimpleType,
    UnsupportedInnerType(Seq<char>),
}

impl View for ParseErrorKind {
    type V = ParseErrorKindV;

    open spec fn view(&self) -> ParseErrorKindV {
        match self {
            ParseErrorKind::ExpectedIdent => ParseErrorKindV::ExpectedIdent,
            ParseErrorKind::ExpectedGroup => ParseErrorKindV::ExpectedGroup,
            ParseErrorKind::ExpectedEquals => ParseErrorKindV::ExpectedEquals,
            ParseErrorKind::ExpectedNumber => ParseErrorKindV::ExpectedNumber,
            ParseErrorKind::NegativeNumber => ParseErrorKindV::NegativeNumber,
            ParseErrorKind::NumberTooLarge => ParseErrorKindV::NumberTooLarge,
            ParseErrorKind::EmptyRule => ParseErrorKindV::EmptyRule,
            ParseErrorKind::UnknownAttribute(s) => ParseErrorKindV::UnknownAttribute(s@),
            ParseErrorKind::UnknownSanitizer(s) => ParseErrorKindV::UnknownSanitizer(s@),
            ParseErrorKind::UnknownValidator(s) => ParseErrorKindV::UnknownValidator(s@),
            ParseErrorKind::DuplicateAttribute(s) => ParseErrorKindV::DuplicateAttribute(s@),
            ParseErrorKind::DuplicateValidator => ParseErrorKindV::DuplicateValidator,
            ParseErrorKind::IncompatibleBounds => ParseErrorKindV::IncompatibleBounds,
            ParseErrorKind::NotTupleStruct => ParseErrorKindV::NotTupleStruct,
            ParseErrorKind::ExpectedSimpleType => ParseErrorKindV::ExpectedSimpleType,
            ParseErrorKind::UnsupportedInnerType(s) => ParseErrorKindV::UnsupportedInnerType(s@),
        }
    }
}

/// A parse or validation error, attributed to the source range of the token
/// that caused it.
#[derive(Debug, Clone, PartialEq, Eq)]
pub struct ParseError {
    pub span: Span,
    pub kind: ParseErrorKind,
}

/// Spec-level counterpart of [`ParseError`].
pub struct ParseErrorV {
    pub span: Span,
    pub kind: ParseErrorKindV,
}

impl View for ParseError {
    type V = ParseErrorV;

    open spec fn view(&self) -> ParseErrorV {
        ParseErrorV { span: self.span, kind: self.kind@ }
    }
}

} // verus!
