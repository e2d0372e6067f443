//! Rule descriptors of the text family, spanned wrappers around them, and
//! the raw and validated rule-set models built from them.

use vstd::prelude::*;

use crate::models::{NewtypeMeta, RawNewtypeMeta};
use crate::tokens::{Span, Token};

verus! {

/// A sanitizer rule of the text family.  `With` carries an opaque custom
/// expression that is forwarded verbatim to code emission.
#[derive(Debug, PartialEq, Eq)]
pub enum StringSanitizer {
    Trim,
    Lowercase,
    Uppercase,
    With(Vec<Token>),
}

/// A validator rule of the text family.  Length arguments are non-negative
/// integers.
#[derive(Debug, Clone, Copy, PartialEq, Eq, Structural)]
pub enum StringValidator {
    MaxLen(u64),
    MinLen(u64),
    Present,
}

/// A sanitizer rule together with the source range it was parsed from.
#[derive(Debug, PartialEq, Eq)]
pub struct SpannedStringSanitizer {
    pub span: Span,
    pub item: StringSanitizer,
}

/// A validator rule together with the source range it was parsed from.
#[derive(Debug, Clone, Copy, PartialEq, Eq, Structural)]
pub struct SpannedStringValidator {
    pub span: Span,
    pub item: StringValidator,
}

/// Spec-level counterpart of [`StringSanitizer`]: the custom payload appears
/// as a token sequence.
pub enum StringSanitizerV {
    Trim,
    Lowercase,
    Uppercase,
    With(Seq<Token>),
}

/// Spec-level counterpart of [`SpannedStringSanitizer`].
pub struct SpannedStringSanitizerV {
    pub span: Span,
    pub item: StringSanitizerV,
}

impl View for StringSanitizer {
    type V = StringSanitizerV;

    open spec fn view(&self) -> StringSanitizerV {
        match self {
            StringSanitizer::Trim => StringSanitizerV::Trim,
            StringSanitizer::Lowercase => StringSanitizerV::Lowercase,
            StringSanitizer::Uppercase => StringSanitizerV::Uppercase,
            StringSanitizer::With(ts) => StringSanitizerV::With(ts@),
        }
    }
}

impl DeepView for StringSanitizer {
    type V = StringSanitizerV;

    open spec fn deep_view(&self) -> StringSanitizerV {
        self.view()
    }
}

impl View for SpannedStringSanitizer {
    type V = SpannedStringSanitizerV;

    open spec fn view(&self) -> SpannedStringSanitizerV {
        SpannedStringSanitizerV { span: self.span, item: self.item@ }
    }
}

impl DeepView for SpannedStringSanitizer {
    type V = SpannedStringSanitizerV;

    open spec fn deep_view(&self) -> SpannedStringSanitizerV {
        self.view()
    }
}

/// The raw (parsed, not yet validated) rule set of the text family.
pub type RawNewtypeStringMeta = RawNewtypeMeta<SpannedStringSanitizer, SpannedStringValidator>;

/// The validated rule model of the text family.
pub type NewtypeStringMeta = NewtypeMeta<StringSanitizer, StringValidator>;

/// Spec-level counterpart of [`RawNewtypeStringMeta`].
pub struct RawStringMetaV {
    pub sanitizers: Seq<SpannedStringSanitizerV>,
    pub validators: Seq<SpannedStringValidator>,
}

impl View for RawNewtypeStringMeta {
    type V = RawStringMetaV;

    open spec fn view(&self) -> RawStringMetaV {
        RawStringMetaV { sanitizers: self.sanitizers.deep_view(), validators: self.validators@ }
    }
}

/// Spec-level counterpart of [`NewtypeStringMeta`]: an infallible model
/// (no validators) or a fallible one (at least one validator).
pub enum StringMetaV {
    Infallible { sanitizers: Seq<StringSanitizerV> },
    Fallible { sanitizers: Seq<StringSanitizerV>, validators: Seq<StringValidator> },
}

impl View for NewtypeStringMeta {
    type V = StringMetaV;

    open spec fn view(&self) -> StringMetaV {
        match self {
            NewtypeMeta::From { sanitizers } => StringMetaV::Infallible {
                sanitizers: sanitizers.deep_view(),
            },
            NewtypeMeta::TryFrom { sanitizers, validators } => StringMetaV::Fallible {
                sanitizers: sanitizers.deep_view(),
                validators: validators@,
            },
        }
    }
}

} // verus!
