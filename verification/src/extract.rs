//! The field schema extractor: turns a declaration into a struct descriptor,
//! accepting only declarations with a named, braced field list.

use vstd::prelude::*;
use crate::model::{
    Declaration, DeclBody, Diagnostic, ErrorKind, FieldDescriptor, GenericParam, Visibility,
};

verus! {

/// The structural model of a supported declaration: its name, visibility,
/// generic parameter names and ordered field list, borrowed from the
/// declaration they were extracted from.
pub struct StructDescriptor<'a> {
    pub name: &'a String,
    pub vis: Visibility,
    pub generics: &'a Vec<GenericParam>,
    pub fields: &'a Vec<FieldDescriptor>,
}

/// Whether a declaration has the one supported shape: a named, braced
/// field list.
pub open spec fn spec_supported(d: Declaration) -> bool {
    d.body is NamedFields
}

/// The fields of a supported declaration.
pub open spec fn spec_fields(d: Declaration) -> Seq<FieldDescriptor> {
    match d.body {
        DeclBody::NamedFields { fields } => fields@,
        _ => Seq::<FieldDescriptor>::empty(),
    }
}

/// The diagnostic reported for an unsupported declaration, at the
/// declaration's own location.
pub open spec fn spec_unsupported_diag(d: Declaration) -> Diagnostic {
    Diagnostic { kind: ErrorKind::NotASupportedDeclaration, span: d.span }
}

/// Extracts the struct descriptor of a declaration.
///
/// Only a declaration with a named, braced field list is accepted; any
/// other shape (no fields, positional fields, variant alternatives) fails
/// with `ErrorKind::NotASupportedDeclaration` at the declaration's location.
/// Pure: nothing is mutated, and the descriptor borrows the declaration.
pub fn extract<'a>(d: &'a Declaration) -> (r: Result<StructDescriptor<'a>, Diagnostic>)
    ensures
        match r {
            Ok(sd) => spec_supported(*d) && sd.name@ == d.name@ && sd.vis == d.vis
                && sd.generics@ == d.generics@ && sd.fields@ == spec_fields(*d),
            Err(e) => !spec_supported(*d) && e == spec_unsupported_diag(*d),
        },
{
    match &d.body {
        DeclBody::NamedFields { fields } => Ok(
            StructDescriptor { name: &d.name, vis: d.vis, generics: &d.generics, fields },
        ),
        _ => Err(Diagnostic { kind: ErrorKind::NotASupportedDeclaration, span: d.span }),
    }
}

} // verus!
