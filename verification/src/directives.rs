//! The directive parser: recognizes the per-field append directive
//! `builder(each = "...")`, the per-field format override `debug = "..."`,
//! and the declaration-level bound override `debug(bound = "...")`.
//!
//! A `builder`-keyed attribute of any other shape is a hard error; the other
//! directives fall back to their defaults when absent.

use vstd::prelude::*;
use crate::model::{Attr, Diagnostic, ErrorKind, Meta, MetaItem, Span};
use crate::strutil::{clone_string, join_strings, spec_join, string_is};

verus! {

/// A recognized append directive: synthesize an element-appending setter
/// under this name. Carries the location of the attribute that supplied it.
pub struct AppendDirective {
    pub name: String,
    pub span: Span,
}

/// The key of one attribute item.
pub open spec fn item_key(it: MetaItem) -> Seq<char> {
    match it {
        MetaItem::Word { key } => key@,
        MetaItem::Str { key, value } => key@,
        MetaItem::Other { key } => key@,
    }
}

/// The key of an attribute's metadata.
pub open spec fn meta_key(m: Meta) -> Seq<char> {
    match m {
        Meta::Item { item } => item_key(item),
        Meta::List { key, items } => key@,
    }
}

/// What one `builder`-keyed attribute supplies: the append name if it has
/// exactly the shape `builder(each = "...")`, an error otherwise.
pub open spec fn builder_attr_outcome(a: Attr) -> Result<(Seq<char>, Span), Diagnostic> {
    match a.meta {
        Meta::List { key, items } => if items@.len() == 1 {
            match items@[0] {
                MetaItem::Str { key: k, value } => if k@ == "each"@ {
                    Ok((value@, a.span))
                } else {
                    Err(Diagnostic { kind: ErrorKind::MalformedBuilderDirective, span: a.span })
                },
                _ => Err(Diagnostic { kind: ErrorKind::MalformedBuilderDirective, span: a.span }),
            }
        } else {
            Err(Diagnostic { kind: ErrorKind::MalformedBuilderDirective, span: a.span })
        },
        _ => Err(Diagnostic { kind: ErrorKind::MalformedBuilderDirective, span: a.span }),
    }
}

/// The append directive of a field, scanning its attributes from index `i`
/// on: the first `builder`-keyed attribute decides.
pub open spec fn append_directive_from(attrs: Seq<Attr>, i: int) -> Result<
    Option<(Seq<char>, Span)>,
    Diagnostic,
>
    decreases attrs.len() - i,
{
    if i < 0 || i >= attrs.len() {
        Ok(None)
    } else if meta_key(attrs[i].meta) == "builder"@ {
        match builder_attr_outcome(attrs[i]) {
            Ok(p) => Ok(Some(p)),
            Err(d) => Err(d),
        }
    } else {
        append_directive_from(attrs, i + 1)
    }
}

/// The append directive of a field's attribute list.
pub open spec fn spec_append_directive(attrs: Seq<Attr>) -> Result<
    Option<(Seq<char>, Span)>,
    Diagnostic,
> {
    append_directive_from(attrs, 0)
}

/// The key of an attribute's metadata, borrowed.
fn meta_key_ref(m: &Meta) -> (r: &String)
    ensures
        r@ == meta_key(*m),
{
    match m {
        Meta::Item { item } => match item {
            MetaItem::Word { key } => key,
            MetaItem::Str { key, .. } => key,
            MetaItem::Other { key } => key,
        },
        Meta::List { key, .. } => key,
    }
}

/// Parses the append directive of one field.
///
/// The first `builder`-keyed attribute decides: the exact shape
/// `builder(each = "...")` supplies the append name, and any other shape
/// under the `builder` key is a hard error at that attribute's location.
/// A field without a `builder`-keyed attribute carries no append directive.
#[verifier::loop_isolation(false)]
pub fn append_directive(attrs: &Vec<Attr>) -> (r: Result<Option<AppendDirective>, Diagnostic>)
    ensures
        match r {
            Ok(o) => match o {
                Some(d) => spec_append_directive(attrs@) == Ok::<_, Diagnostic>(
                    Some((d.name@, d.span)),
                ),
                None => spec_append_directive(attrs@) == Ok::<Option<(Seq<char>, Span)>,
                    Diagnostic,
                >(None),
            },
            Err(e) => spec_append_directive(attrs@) == Err::<Option<(Seq<char>, Span)>, _>(e),
        },
{
    let mut i: usize = 0;
    while i < attrs.len()
        invariant
            i <= attrs@.len(),
            append_directive_from(attrs@, 0) == append_directive_from(attrs@, i as int),
        decreases attrs@.len() - i,
    {
        let a = &attrs[i];
        if string_is(meta_key_ref(&a.meta), "builder") {
            match &a.meta {
                Meta::List { key, items } => {
                    if items.len() == 1 {
                        match &items[0] {
                            MetaItem::Str { key: k, value } => {
                                if string_is(k, "each") {
                                    return Ok(
                                        Some(
                                            AppendDirective {
                                                name: clone_string(value),
                                                span: a.span,
                                            },
                                        ),
                                    );
                                } else {
                                    return Err(
                                        Diagnostic {
                                            kind: ErrorKind::MalformedBuilderDirective,
                                            span: a.span,
                                        },
                                    );
                                }
                            },
                            _ => {
                                return Err(
                                    Diagnostic {
                                        kind: ErrorKind::MalformedBuilderDirective,
                                        span: a.span,
                                    },
                                );
                            },
                        }
                    } else {
                        return Err(
                            Diagnostic {
                                kind: ErrorKind::MalformedBuilderDirective,
                                span: a.span,
                            },
                        );
                    }
                },
                _ => {
                    return Err(
                        Diagnostic { kind: ErrorKind::MalformedBuilderDirective, span: a.span },
                    );
                },
            }
        }
        i = i + 1;
    }
    Ok(None)
}

/// The default format template used when a field carries no override.
pub open spec fn default_format() -> Seq<char> {
    "{:?}"@
}

/// The format chosen for a field, scanning its attributes from index `i`
/// on: the first `debug = "..."` name-value attribute supplies the
/// override, and absence implies the default template.
pub open spec fn format_from(attrs: Seq<Attr>, i: int) -> Seq<char>
    decreases attrs.len() - i,
{
    if i < 0 || i >= attrs.len() {
        default_format()
    } else {
        match attrs[i].meta {
            Meta::Item { item } => match item {
                MetaItem::Str { key, value } => if key@ == "debug"@ {
                    value@
                } else {
                    format_from(attrs, i + 1)
                },
                _ => format_from(attrs, i + 1),
            },
            _ => format_from(attrs, i + 1),
        }
    }
}

/// The format chosen for a field's attribute list.
pub open spec fn spec_format_override(attrs: Seq<Attr>) -> Seq<char> {
    format_from(attrs, 0)
}

/// Parses the format directive of one field: the override supplied by a
/// `debug = "..."` attribute, or the default `{:?}` template. Any literal
/// string is accepted verbatim; it is not validated as a format template.
#[verifier::loop_isolation(false)]
pub fn format_override(attrs: &Vec<Attr>) -> (r: String)
    ensures
        r@ == spec_format_override(attrs@),
{
    let mut i: usize = 0;
    while i < attrs.len()
        invariant
            i <= attrs@.len(),
            format_from(attrs@, 0) == format_from(attrs@, i as int),
        decreases attrs@.len() - i,
    {
        match &attrs[i].meta {
            Meta::Item { item } => match item {
                MetaItem::Str { key, value } => {
                    if string_is(key, "debug") {
                        return clone_string(value);
                    }
                },
                _ => {},
            },
            _ => {},
        }
        i = i + 1;
    }
    "{:?}".to_owned()
}

/// The bound fragments supplied by the first `n` items of one `debug(...)`
/// attribute: each `bound = "..."` item contributes its clause text.
pub open spec fn item_fragments_upto(items: Seq<MetaItem>, n: int) -> Seq<Seq<char>>
    decreases n,
{
    if n <= 0 {
        Seq::<Seq<char>>::empty()
    } else {
        let rest = item_fragments_upto(items, n - 1);
        match items[n - 1] {
            MetaItem::Str { key, value } => if key@ == "bound"@ {
                rest + seq![value@]
            } else {
                rest
            },
            _ => rest,
        }
    }
}

/// The bound fragments supplied by one declaration-level attribute: only a
/// `debug(...)` list contributes.
pub open spec fn attr_fragments(a: Attr) -> Seq<Seq<char>> {
    match a.meta {
        Meta::List { key, items } => if key@ == "debug"@ {
            item_fragments_upto(items@, items@.len() as int)
        } else {
            Seq::<Seq<char>>::empty()
        },
        _ => Seq::<Seq<char>>::empty(),
    }
}

/// The bound fragments of the first `n` declaration-level attributes, in
/// order.
pub open spec fn fragments_upto(attrs: Seq<Attr>, n: int) -> Seq<Seq<char>>
    decreases n,
{
    if n <= 0 {
        Seq::<Seq<char>>::empty()
    } else {
        fragments_upto(attrs, n - 1) + attr_fragments(attrs[n - 1])
    }
}

/// The declaration-level bound override: all fragments supplied by
/// `debug(bound = "...")` items, joined with separating commas into one
/// clause; `None` when no fragment was supplied.
pub open spec fn spec_bound_override(attrs: Seq<Attr>) -> Option<Seq<char>> {
    let frags = fragments_upto(attrs, attrs.len() as int);
    if frags.len() == 0 {
        None
    } else {
        Some(spec_join(frags, ","@))
    }
}

/// Parses the declaration-level bound override. If present, it replaces
/// automatic bound inference outright; multiple fragments are joined with
/// separating commas into one clause.
#[verifier::loop_isolation(false)]
pub fn bound_override(attrs: &Vec<Attr>) -> (r: Option<String>)
    ensures
        match r {
            Some(s) => spec_bound_override(attrs@) == Some(s@),
            None => spec_bound_override(attrs@) == None::<Seq<char>>,
        },
{
    let mut frags: Vec<String> = Vec::new();
    let mut i: usize = 0;
    while i < attrs.len()
        invariant
            i <= attrs@.len(),
            frags@.map_values(|p: String| p@) == fragments_upto(attrs@, i as int),
        decreases attrs@.len() - i,
    {
        match &attrs[i].meta {
            Meta::List { key, items } => {
                if string_is(key, "debug") {
                    let mut j: usize = 0;
                    while j < items.len()
                        invariant
                            j <= items@.len(),
                            frags@.map_values(|p: String| p@) == fragments_upto(
                                attrs@,
                                i as int,
                            ) + item_fragments_upto(items@, j as int),
                        decreases items@.len() - j,
                    {
                        match &items[j] {
                            MetaItem::Str { key: k, value } => {
                                if string_is(k, "bound") {
                                    let s = clone_string(value);
                                    let ghost sv = s@;
                                    let ghost pre = frags@;
                                    frags.push(s);
                                    proof {
                                        assert(sv == value@);
                                        assert(items@[j as int] == MetaItem::Str {
                                            key: *k,
                                            value: *value,
                                        });
                                        assert(item_fragments_upto(items@, j as int + 1)
                                            == item_fragments_upto(items@, j as int)
                                            + seq![value@]);
                                        assert(frags@.map_values(|p: String| p@)
                                            =~~= pre.map_values(|p: String| p@) + seq![sv]);
                                        assert(frags@.map_values(|p: String| p@)
                                            =~~= fragments_upto(attrs@, i as int)
                                            + item_fragments_upto(items@, j as int + 1));
                                    }
                                }
                            },
                            _ => {},
                        }
                        j = j + 1;
                    }
                }
            },
            _ => {},
        }
        i = i + 1;
    }
    if frags.len() == 0 {
        None
    } else {
        Some(join_strings(&frags, ","))
    }
}

/// Directive parsing is a function of the raw attribute list alone: two
/// runs on the same attributes always yield the same append directive,
/// the same chosen format and the same bound override, with no hidden
/// ordering dependency.
pub proof fn lemma_directive_parse_deterministic(
    attrs: Seq<Attr>,
    a1: Result<Option<(Seq<char>, Span)>, Diagnostic>,
    a2: Result<Option<(Seq<char>, Span)>, Diagnostic>,
    f1: Seq<char>,
    f2: Seq<char>,
    b1: Option<Seq<char>>,
    b2: Option<Seq<char>>,
)
    requires
        a1 == spec_append_directive(attrs),
        a2 == spec_append_directive(attrs),
        f1 == spec_format_override(attrs),
        f2 == spec_format_override(attrs),
        b1 == spec_bound_override(attrs),
        b2 == spec_bound_override(attrs),
    ensures
        a1 == a2,
        f1 == f2,
        b1 == b2,
{
}

} // verus!
