//! The structural model of one declaration: type expressions, attribute
//! metadata, field descriptors, and the diagnostics the engine reports.
//!
//! All of these values are transient: they exist for the duration of one
//! derivation call and are never mutated after extraction.

use vstd::prelude::*;

verus! {

/// A source location, carried on declarations and attributes so that a
/// diagnostic can point at the offending construct.
#[derive(Clone, Copy, PartialEq, Eq, Structural, Debug)]
pub struct Span {
    pub line: usize,
    pub column: usize,
}

/// The visibility of a declaration or of one of its fields, as far as the
/// generated code needs it.
#[derive(Clone, Copy, PartialEq, Eq, Structural, Debug)]
pub enum Visibility {
    Public,
    Inherited,
}

/// A declared type, kept only as deeply structured as shape classification
/// and bound inference need.
///
/// A `Named` type is a path of name segments with the generic arguments of
/// its last segment; an `Opaque` leaf carries anything not worth
/// destructuring further (a reference, a primitive) verbatim as text.
pub enum TypeExpr {
    Named { segments: Vec<String>, args: Vec<TypeExpr> },
    Opaque { text: String },
}

/// One item inside an attribute: a bare word, a `key = "value"` pair with a
/// string literal, or a `key = <literal>` pair with some other literal.
pub enum MetaItem {
    Word { key: String },
    Str { key: String, value: String },
    Other { key: String },
}

/// The metadata of one attribute: either a single item, or a parenthesized
/// list `key(item, ...)`.
pub enum Meta {
    Item { item: MetaItem },
    List { key: String, items: Vec<MetaItem> },
}

/// One raw attribute with its source location.
pub struct Attr {
    pub span: Span,
    pub meta: Meta,
}

/// One field of a declaration: name, visibility, declared type and the raw
/// attributes attached to it, in source order.
pub struct FieldDescriptor {
    pub name: String,
    pub vis: Visibility,
    pub ty: TypeExpr,
    pub attrs: Vec<Attr>,
}

/// The body of a declaration. Only a named, braced field list is supported
/// by the derivations; the other shapes are carried so that they can be
/// rejected with a diagnostic rather than guessed at.
pub enum DeclBody {
    /// A braced list of named fields.
    NamedFields { fields: Vec<FieldDescriptor> },
    /// A parenthesized list of positional fields.
    PositionalFields,
    /// No field list at all.
    NoFields,
    /// A list of alternative variants (an `enum`- or `union`-style body).
    Variants,
}

/// One declared generic type parameter of the subject declaration: its
/// name, and the verbatim text of its declared bounds (empty when it has
/// none). The declared bounds are carried opaquely for re-emission; only
/// the name takes part in bound inference.
pub struct GenericParam {
    pub name: String,
    pub bounds: String,
}

/// The mathematical content of one generic parameter.
#[verifier::ext_equal]
pub struct GenericParamV {
    pub name: Seq<char>,
    pub bounds: Seq<char>,
}

impl View for GenericParam {
    type V = GenericParamV;

    open spec fn view(&self) -> GenericParamV {
        GenericParamV { name: self.name@, bounds: self.bounds@ }
    }
}

/// The structural description of one declaration, as handed in by the host
/// compilation environment.
pub struct Declaration {
    pub name: String,
    pub vis: Visibility,
    /// The declared generic type parameters, in order.
    pub generics: Vec<GenericParam>,
    /// Declaration-level attributes.
    pub attrs: Vec<Attr>,
    pub body: DeclBody,
    pub span: Span,
}

/// What went wrong during a derivation.
#[derive(Clone, Copy, PartialEq, Eq, Structural, Debug)]
pub enum ErrorKind {
    /// The declaration is not a braced, named-field declaration.
    NotASupportedDeclaration,
    /// A `builder` attribute does not have the shape `builder(each = "...")`.
    MalformedBuilderDirective,
    /// An append directive names a different field of the same declaration.
    AppendNameClash,
}

/// A structured diagnostic: what went wrong, and where.
#[derive(Clone, Copy, PartialEq, Eq, Structural, Debug)]
pub struct Diagnostic {
    pub kind: ErrorKind,
    pub span: Span,
}

/// The message text reported for each kind of derivation-time error.
pub open spec fn spec_message(k: ErrorKind) -> Seq<char> {
    match k {
        ErrorKind::NotASupportedDeclaration => "need a struct, but found a enum"@,
        ErrorKind::MalformedBuilderDirective => "expected builder(each = \"...\")"@,
        ErrorKind::AppendNameClash => "append name collides with another field"@,
    }
}

impl Diagnostic {
    /// The human-readable message of this diagnostic.
    pub fn message(&self) -> (r: &'static str)
        ensures
            r@ == spec_message(self.kind),
    {
        match self.kind {
            ErrorKind::NotASupportedDeclaration => "need a struct, but found a enum",
            ErrorKind::MalformedBuilderDirective => "expected builder(each = \"...\")",
            ErrorKind::AppendNameClash => "append name collides with another field",
        }
    }
}

} // verus!
