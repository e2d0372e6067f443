//! The data model shared by the whole pipeline: the classified inner type,
//! the raw (parsed, not yet validated) rule set, and the validated rule
//! model that code emission consumes.

use vstd::prelude::*;

use crate::tokens::Span;

verus! {

/// The name of the type being generated.
#[derive(Debug, Clone, PartialEq, Eq)]
pub struct TypeName(String);

impl View for TypeName {
    type V = Seq<char>;

    closed spec fn view(&self) -> Seq<char> {
        self.0@
    }
}

impl TypeName {
    /// Wraps a type name.
    pub fn new(name: String) -> (t: TypeName)
        ensures
            t@ == name@,
    {
        TypeName(name)
    }

    /// The name as text.
    pub fn as_str(&self) -> (s: &str)
        ensures
            s@ == self@,
    {
        self.0.as_str()
    }
}

/// The numeric kinds an inner type can be classified as.
#[derive(Debug, Clone, Copy, PartialEq, Eq, Structural)]
pub enum NumberType {
    U8,
    U16,
    U32,
    U64,
    U128,
    Usize,
    I8,
    I16,
    I32,
    I64,
    I128,
    Isize,
    F32,
    F64,
}

/// The classified kind of the wrapped field's type: text, or one of a fixed
/// set of numeric kinds.
#[derive(Debug, Clone, Copy, PartialEq, Eq, Structural)]
pub enum InnerType {
    String,
    Number(NumberType),
}

/// The name of the type being generated together with its classified inner
/// type.
#[derive(Debug, Clone, PartialEq, Eq)]
pub struct TypeNameAndInnerType {
    pub name: TypeName,
    pub inner_type: InnerType,
}

/// Spec-level counterpart of [`TypeNameAndInnerType`].
pub struct TypeNameAndInnerTypeV {
    pub name: Seq<char>,
    pub inner_type: InnerType,
}

impl View for TypeNameAndInnerType {
    type V = TypeNameAndInnerTypeV;

    open spec fn view(&self) -> TypeNameAndInnerTypeV {
        TypeNameAndInnerTypeV { name: self.name@, inner_type: self.inner_type }
    }
}

/// Validated model: precisely what needs to be generated.  A type with no
/// validators gets an infallible constructor (`From`); a type with at least
/// one validator gets a fallible one (`TryFrom`).
#[derive(Debug, PartialEq)]
pub enum NewtypeMeta<Sanitizer, Validator> {
    From { sanitizers: Vec<Sanitizer> },
    TryFrom { sanitizers: Vec<Sanitizer>, validators: Vec<Validator> },
}

/// Parsed but not yet validated rule set.  Rule order is the declaration
/// order and is preserved by every later stage.
#[derive(Debug, PartialEq)]
pub struct RawNewtypeMeta<Sanitizer, Validator> {
    pub sanitizers: Vec<Sanitizer>,
    pub validators: Vec<Validator>,
}

/// A model of the declared item the attribute is attached to: its name, its
/// overall source range, and the shape of its body.
#[derive(Debug, Clone, PartialEq, Eq)]
pub struct TypeDefinition {
    pub span: Span,
    pub name: String,
    pub body: TypeBody,
}

/// The shape of the declared item's body: a tuple struct with its fields, or
/// anything else (named-field struct, unit struct, enum, union).
#[derive(Debug, Clone, PartialEq, Eq)]
pub enum TypeBody {
    TupleStruct { fields: Vec<FieldDef> },
    Other,
}

/// One unnamed field of a tuple struct: its source range and, where the
/// field's type is a plain type path, that path as text.
#[derive(Debug, Clone, PartialEq, Eq)]
pub struct FieldDef {
    pub span: Span,
    pub type_path: Option<String>,
}

/// Spec-level counterpart of [`FieldDef`].
pub struct FieldDefV {
    pub span: Span,
    pub type_path: Option<Seq<char>>,
}

impl View for FieldDef {
    type V = FieldDefV;

    open spec fn view(&self) -> FieldDefV {
        FieldDefV {
            span: self.span,
            type_path: match self.type_path {
                Option::Some(ref s) => Option::Some(s@),
                Option::None => Option::None,
            },
        }
    }
}

impl DeepView for FieldDef {
    type V = FieldDefV;

    open spec fn deep_view(&self) -> FieldDefV {
        self.view()
    }
}

/// Spec-level counterpart of [`TypeBody`].
pub enum TypeBodyV {
    TupleStruct { fields: Seq<FieldDefV> },
    Other,
}

impl View for TypeBody {
    type V = TypeBodyV;

    open spec fn view(&self) -> TypeBodyV {
        match self {
            TypeBody::TupleStruct { fields } => TypeBodyV::TupleStruct {
                fields: fields.deep_view(),
            },
            TypeBody::Other => TypeBodyV::Other,
        }
    }
}

/// Spec-level counterpart of [`TypeDefinition`].
pub struct TypeDefinitionV {
    pub span: Span,
    pub name: Seq<char>,
    pub body: TypeBodyV,
}

impl View for TypeDefinition {
    type V = TypeDefinitionV;

    open spec fn view(&self) -> TypeDefinitionV {
        TypeDefinitionV { span: self.span, name: self.name@, body: self.body@ }
    }
}

} // verus!
