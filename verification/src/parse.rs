//! The inner-type classifier: maps the declared item to the name of the
//! type being generated and the classified kind of its wrapped field.

use vstd::prelude::*;

use crate::common::text_is;
use crate::errors::{ParseError, ParseErrorKind, ParseErrorKindV, ParseErrorV};
use crate::models::{
    FieldDef, InnerType, NumberType, TypeBody, TypeBodyV, TypeDefinition, TypeName,
    TypeNameAndInnerType, TypeNameAndInnerTypeV,
};

verus! {

/// The classified kind a type-path spelling maps to, if any.  The
/// vocabulary is a fixed, closed set: the text type plus the standard
/// fixed-width and pointer-width integer kinds and the two standard
/// floating-point widths.
pub open spec fn spec_inner_type_of(name: Seq<char>) -> Option<InnerType> {
    if name == "String"@ {
        Option::Some(InnerType::String)
    } else if name == "u8"@ {
        Option::Some(InnerType::Number(NumberType::U8))
    } else if name == "u16"@ {
        Option::Some(InnerType::Number(NumberType::U16))
    } else if name == "u32"@ {
        Option::Some(InnerType::Number(NumberType::U32))
    } else if name == "u64"@ {
        Option::Some(InnerType::Number(NumberType::U64))
    } else if name == "u128"@ {
        Option::Some(InnerType::Number(NumberType::U128))
    } else if name == "usize"@ {
        Option::Some(InnerType::Number(NumberType::Usize))
    } else if name == "i8"@ {
        Option::Some(InnerType::Number(NumberType::I8))
    } else if name == "i16"@ {
        Option::Some(InnerType::Number(NumberType::I16))
    } else if name == "i32"@ {
        Option::Some(InnerType::Number(NumberType::I32))
    } else if name == "i64"@ {
        Option::Some(InnerType::Number(NumberType::I64))
    } else if name == "i128"@ {
        Option::Some(InnerType::Number(NumberType::I128))
    } else if name == "isize"@ {
        Option::Some(InnerType::Number(NumberType::Isize))
    } else if name == "f32"@ {
        Option::Some(InnerType::Number(NumberType::F32))
    } else if name == "f64"@ {
        Option::Some(InnerType::Number(NumberType::F64))
    } else {
        Option::None
    }
}

/// The classified kind a type-path spelling maps to, if any.
pub fn inner_type_of(name: &String) -> (r: Option<InnerType>)
    ensures
        r == spec_inner_type_of(name@),
{
    if text_is(name, "String") {
        Option::Some(InnerType::String)
    } else if text_is(name, "u8") {
        Option::Some(InnerType::Number(NumberType::U8))
    } else if text_is(name, "u16") {
        Option::Some(InnerType::Number(NumberType::U16))
    } else if text_is(name, "u32") {
        Option::Some(InnerType::Number(NumberType::U32))
    } else if text_is(name, "u64") {
        Option::Some(InnerType::Number(NumberType::U64))
    } else if text_is(name, "u128") {
        Option::Some(InnerType::Number(NumberType::U128))
    } else if text_is(name, "usize") {
        Option::Some(InnerType::Number(NumberType::Usize))
    } else if text_is(name, "i8") {
        Option::Some(InnerType::Number(NumberType::I8))
    } else if text_is(name, "i16") {
        Option::Some(InnerType::Number(NumberType::I16))
    } else if text_is(name, "i32") {
        Option::Some(InnerType::Number(NumberType::I32))
    } else if text_is(name, "i64") {
        Option::Some(InnerType::Number(NumberType::I64))
    } else if text_is(name, "i128") {
        Option::Some(InnerType::Number(NumberType::I128))
    } else if text_is(name, "isize") {
        Option::Some(InnerType::Number(NumberType::Isize))
    } else if text_is(name, "f32") {
        Option::Some(InnerType::Number(NumberType::F32))
    } else if text_is(name, "f64") {
        Option::Some(InnerType::Number(NumberType::F64))
    } else {
        Option::None
    }
}

/// What classifying a declared item yields: the decorated item must be a
/// tuple struct with exactly one field, the field's type must be a plain
/// path, and the path must be in the supported vocabulary; each failure is
/// attributed to the item's or the field's span.
pub open spec fn spec_classify(def: crate::models::TypeDefinitionV) -> Result<
    TypeNameAndInnerTypeV,
    ParseErrorV,
> {
    match def.body {
        TypeBodyV::TupleStruct { fields } => {
            if fields.len() != 1 {
                Result::Err(
                    ParseErrorV { span: def.span, kind: ParseErrorKindV::NotTupleStruct },
                )
            } else {
                let f = fields[0];
                match f.type_path {
                    Option::None => Result::Err(
                        ParseErrorV { span: f.span, kind: ParseErrorKindV::ExpectedSimpleType },
                    ),
                    Option::Some(path) => match spec_inner_type_of(path) {
                        Option::Some(inner_type) => Result::Ok(
                            TypeNameAndInnerTypeV { name: def.name, inner_type },
                        ),
                        Option::None => Result::Err(
                            ParseErrorV {
                                span: f.span,
                                kind: ParseErrorKindV::UnsupportedInnerType(path),
                            },
                        ),
                    },
                }
            }
        },
        TypeBodyV::Other => Result::Err(
            ParseErrorV { span: def.span, kind: ParseErrorKindV::NotTupleStruct },
        ),
    }
}

/// Classifies the declared item: yields the name of the type being
/// generated and its classified inner type, or rejects an item that is not
/// a single-field tuple struct, a field whose type is not a plain path, or
/// a type path outside the supported vocabulary.
pub fn parse_type_name_and_inner_type(def: TypeDefinition) -> (r: Result<
    TypeNameAndInnerType,
    ParseError,
>)
    ensures
        match r {
            Result::Ok(t) => spec_classify(def@) == Result::Ok::<
                TypeNameAndInnerTypeV,
                ParseErrorV,
            >(t@),
            Result::Err(e) => spec_classify(def@) == Result::Err::<
                TypeNameAndInnerTypeV,
                ParseErrorV,
            >(e@),
        },
{
    let TypeDefinition { span, name, body } = def;
    match body {
        TypeBody::TupleStruct { fields } => {
            if fields.len() != 1 {
                return Result::Err(
                    ParseError { span, kind: ParseErrorKind::NotTupleStruct },
                );
            }
            let mut fields = fields;
            let f = fields.remove(0);
            proof {
                assert(def@.body matches TypeBodyV::TupleStruct { fields: fv } && fv[0] == f@);
            }
            let FieldDef { span: field_span, type_path } = f;
            match type_path {
                Option::None => Result::Err(
                    ParseError { span: field_span, kind: ParseErrorKind::ExpectedSimpleType },
                ),
                Option::Some(path) => match inner_type_of(&path) {
                    Option::Some(inner_type) => Result::Ok(
                        TypeNameAndInnerType { name: TypeName::new(name), inner_type },
                    ),
                    Option::None => Result::Err(
                        ParseError {
                            span: field_span,
                            kind: ParseErrorKind::UnsupportedInnerType(path),
                        },
                    ),
                },
            }
        },
        TypeBody::Other => Result::Err(
            ParseError { span, kind: ParseErrorKind::NotTupleStruct },
        ),
    }
}

} // verus!
