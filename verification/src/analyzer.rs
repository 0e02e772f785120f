//! The type shape analyzer: classifies one declared type as Plain, Optional
//! or Repeated by a single-level structural match on the well-known wrapper
//! names, and renders a type expression back to source text.

use vstd::prelude::*;
use vstd::string::StringExecFns;
use crate::model::TypeExpr;
use crate::strutil::{clone_string, join_strings, join_upto, spec_join, string_is};

verus! {

/// The shape of one field's declared type.
///
/// The inner type of the shape is `wrapper_arg` of the field's type for
/// `Optional` and `Repeated`, and the whole type unchanged for `Plain`.
#[derive(Clone, Copy, PartialEq, Eq, Structural, Debug)]
pub enum ShapeClass {
    Plain,
    Optional,
    Repeated,
}

/// The reserved name of the optional-value wrapper.
pub open spec fn optional_wrapper_name() -> Seq<char> {
    "Option"@
}

/// The reserved name of the ordered-sequence wrapper.
pub open spec fn repeated_wrapper_name() -> Seq<char> {
    "Vec"@
}

/// The reserved name of the zero-sized marker wrapper.
pub open spec fn marker_wrapper_name() -> Seq<char> {
    "PhantomData"@
}

/// The simple name of a type: the last segment of a named type's path, and
/// empty for an opaque leaf or an empty path.
pub open spec fn spec_simple_name(t: TypeExpr) -> Seq<char> {
    match t {
        TypeExpr::Named { segments, args } => if segments@.len() > 0 {
            segments@.last()@
        } else {
            Seq::<char>::empty()
        },
        TypeExpr::Opaque { text } => Seq::<char>::empty(),
    }
}

/// True when the outermost named segment of `t` is `name` and `t` carries
/// exactly one generic argument.
pub open spec fn spec_is_wrapper(t: TypeExpr, name: Seq<char>) -> bool {
    match t {
        TypeExpr::Named { segments, args } => segments@.len() > 0 && segments@.last()@ == name
            && args@.len() == 1,
        TypeExpr::Opaque { text } => false,
    }
}

/// The shape of a declared type: Optional or Repeated when its outermost
/// simple name is the corresponding wrapper name with exactly one generic
/// argument, Plain otherwise. The check is single-level: nested wrappers
/// leave the outer type Plain.
pub open spec fn spec_classify(t: TypeExpr) -> ShapeClass {
    if spec_is_wrapper(t, optional_wrapper_name()) {
        ShapeClass::Optional
    } else if spec_is_wrapper(t, repeated_wrapper_name()) {
        ShapeClass::Repeated
    } else {
        ShapeClass::Plain
    }
}

/// The inner type of a shape: the single generic argument for Optional and
/// Repeated, the whole type unchanged for Plain.
pub open spec fn spec_inner(t: TypeExpr) -> TypeExpr {
    if spec_classify(t) == ShapeClass::Plain {
        t
    } else {
        match t {
            TypeExpr::Named { segments, args } => args@[0],
            TypeExpr::Opaque { text } => t,
        }
    }
}

/// Classifies one declared type.
pub fn classify(t: &TypeExpr) -> (r: ShapeClass)
    ensures
        r == spec_classify(*t),
{
    match t {
        TypeExpr::Named { segments, args } => {
            if segments.len() > 0 && args.len() == 1 {
                let last = &segments[segments.len() - 1];
                if string_is(last, "Option") {
                    ShapeClass::Optional
                } else if string_is(last, "Vec") {
                    ShapeClass::Repeated
                } else {
                    ShapeClass::Plain
                }
            } else {
                ShapeClass::Plain
            }
        },
        TypeExpr::Opaque { .. } => ShapeClass::Plain,
    }
}

/// The inner type of `t`'s shape, borrowed from `t`.
pub fn shape_inner<'a>(t: &'a TypeExpr) -> (r: &'a TypeExpr)
    ensures
        *r == spec_inner(*t),
{
    let c = classify(t);
    match t {
        TypeExpr::Named { segments, args } => {
            if c == ShapeClass::Plain {
                t
            } else {
                &args[0]
            }
        },
        TypeExpr::Opaque { .. } => t,
    }
}

/// The source text of the first `n` generic arguments, comma-separated.
pub open spec fn render_args_upto(args: Seq<TypeExpr>, n: int) -> Seq<char>
    recommends
        n <= args.len(),
    decreases args, n,
        when n <= args.len()
{
    if n <= 0 {
        Seq::<char>::empty()
    } else if n == 1 {
        spec_render_type(args[0])
    } else {
        render_args_upto(args, n - 1) + ", "@ + spec_render_type(args[n - 1])
    }
}

/// The source text of a type expression: path segments separated by `::`,
/// followed by the comma-separated generic arguments in angle brackets when
/// there are any; an opaque leaf is its verbatim text.
pub open spec fn spec_render_type(t: TypeExpr) -> Seq<char>
    decreases t, 0int,
{
    match t {
        TypeExpr::Opaque { text } => text@,
        TypeExpr::Named { segments, args } => {
            let path = spec_join(segments@.map_values(|s: String| s@), "::"@);
            if args@.len() == 0 {
                path
            } else {
                path + "<"@ + render_args_upto(args@, args@.len() as int) + ">"@
            }
        },
    }
}

/// Renders a type expression back to source text.
#[verifier::loop_isolation(false)]
pub fn render_type(t: &TypeExpr) -> (r: String)
    ensures
        r@ == spec_render_type(*t),
    decreases *t,
{
    match t {
        TypeExpr::Opaque { text } => clone_string(text),
        TypeExpr::Named { segments, args } => {
            let mut out = join_strings(segments, "::");
            if args.len() > 0 {
                out.append("<");
                let ghost head = spec_join(segments@.map_values(|s: String| s@), "::"@)
                    + "<"@;
                let mut i: usize = 0;
                while i < args.len()
                    invariant
                        i <= args@.len(),
                        out@ == head + render_args_upto(args@, i as int),
                    decreases args@.len() - i,
                {
                    if i > 0 {
                        out.append(", ");
                    }
                    proof {
                        assert((*t)->Named_args == *args);
                        assert(decreases_to!(*t => (*t)->Named_args));
                        assert(decreases_to!((*t)->Named_args => args@));
                        assert(i < args@.len());
                        assert(decreases_to!(args@ => args@[i as int]));
                        assert(decreases_to!(*t => args@[i as int]));
                    }
                    let s = render_type(&args[i]);
                    out.append(s.as_str());
                    i = i + 1;
                }
                out.append(">");
            }
            out
        },
    }
}

/// Shape classification and inner-type selection are functions of the type
/// expression alone: two runs of the analyzer on the same type always agree.
pub proof fn lemma_classification_deterministic(
    t: TypeExpr,
    c1: ShapeClass,
    c2: ShapeClass,
    i1: TypeExpr,
    i2: TypeExpr,
)
    requires
        c1 == spec_classify(t),
        c2 == spec_classify(t),
        i1 == spec_inner(t),
        i2 == spec_inner(t),
    ensures
        c1 == c2,
        i1 == i2,
{
}

} // verus!
