//! The debug derivation generator: plans and emits a textual-debug
//! implementation for one supported declaration, with per-field custom
//! formatting and generic bounds inferred so that only type parameters
//! actually read as data are constrained.

use vstd::prelude::*;
use vstd::string::StringExecFns;
use crate::model::{
    Declaration, Diagnostic, FieldDescriptor, GenericParam, GenericParamV, TypeExpr,
};
use crate::analyzer::{
    marker_wrapper_name, render_type, spec_render_type, spec_simple_name,
};
use crate::directives::{
    format_override, bound_override, spec_bound_override, spec_format_override,
};
use crate::extract::{extract, spec_fields, spec_supported, spec_unsupported_diag};
use crate::strutil::{clone_string, string_eq, string_is};

verus! {

/// The type names that appear strictly inside a field's type, as bound
/// inference reads them: a named type without generic arguments
/// contributes its simple name — unless it is the field's outermost type
/// itself — and a named type with arguments contributes only what its
/// arguments contribute.
pub open spec fn inner_names(t: TypeExpr, top: bool) -> Seq<Seq<char>>
    decreases t, 0int,
{
    match t {
        TypeExpr::Opaque { text } => Seq::<Seq<char>>::empty(),
        TypeExpr::Named { segments, args } => {
            if args@.len() == 0 {
                if top {
                    Seq::<Seq<char>>::empty()
                } else {
                    seq![spec_simple_name(t)]
                }
            } else {
                inner_names_args_upto(args@, args@.len() as int)
            }
        },
    }
}

/// The inner names contributed by the first `n` generic arguments.
pub open spec fn inner_names_args_upto(args: Seq<TypeExpr>, n: int) -> Seq<Seq<char>>
    recommends
        n <= args.len(),
    decreases args, n,
        when n <= args.len()
{
    if n <= 0 {
        Seq::<Seq<char>>::empty()
    } else {
        inner_names_args_upto(args, n - 1) + inner_names(args[n - 1], false)
    }
}

/// Whether generic parameter `p` is read as data in a field of type `t`:
/// either `t` is named `p` outright, or `p` occurs inside `t` and `t`'s
/// outermost type is not the zero-sized marker wrapper.
pub open spec fn param_used_in_field(p: Seq<char>, t: TypeExpr) -> bool {
    spec_simple_name(t) == p || (spec_simple_name(t) != marker_wrapper_name() && inner_names(
        t,
        true,
    ).contains(p))
}

/// Whether generic parameter `p` is read as data in any field.
pub open spec fn spec_param_used(p: Seq<char>, fields: Seq<FieldDescriptor>) -> bool {
    exists|i: int| 0 <= i < fields.len() && param_used_in_field(p, #[trigger] fields[i].ty)
}

/// The simple name of a type, as a fresh string.
pub fn simple_name_of(t: &TypeExpr) -> (r: String)
    ensures
        r@ == spec_simple_name(*t),
{
    match t {
        TypeExpr::Named { segments, args } => {
            if segments.len() > 0 {
                clone_string(&segments[segments.len() - 1])
            } else {
                String::new()
            }
        },
        TypeExpr::Opaque { .. } => String::new(),
    }
}

/// Collects the inner type names of a field's type, in walk order.
#[verifier::loop_isolation(false)]
pub fn collect_inner_names(t: &TypeExpr, top: bool) -> (r: Vec<String>)
    ensures
        r@.map_values(|s: String| s@) == inner_names(*t, top),
    decreases *t,
{
    match t {
        TypeExpr::Opaque { .. } => {
            let r: Vec<String> = Vec::new();
            proof {
                assert(r@.map_values(|s: String| s@) =~~= inner_names(*t, top));
            }
            r
        },
        TypeExpr::Named { segments, args } => {
            let mut r: Vec<String> = Vec::new();
            if args.len() == 0 {
                if !top {
                    r.push(simple_name_of(t));
                }
                proof {
                    assert(r@.map_values(|s: String| s@) =~~= inner_names(*t, top));
                }
                r
            } else {
                let mut i: usize = 0;
                while i < args.len()
                    invariant
                        i <= args@.len(),
                        r@.map_values(|s: String| s@) == inner_names_args_upto(
                            args@,
                            i as int,
                        ),
                    decreases args@.len() - i,
                {
                    proof {
                        assert((*t)->Named_args == *args);
                        assert(decreases_to!(*t => (*t)->Named_args));
                        assert(decreases_to!((*t)->Named_args => args@));
                        assert(i < args@.len());
                        assert(decreases_to!(args@ => args@[i as int]));
                        assert(decreases_to!(*t => args@[i as int]));
                    }
                    let mut part = collect_inner_names(&args[i], false);
                    r.append(&mut part);
                    proof {
                        assert(r@.map_values(|s: String| s@) =~~= inner_names_args_upto(
                            args@,
                            i as int + 1,
                        ));
                    }
                    i = i + 1;
                }
                proof {
                    assert(r@.map_values(|s: String| s@) =~~= inner_names(*t, top));
                }
                r
            }
        },
    }
}

/// True exactly when some string of `v` holds the text of `p`.
#[verifier::loop_isolation(false)]
pub fn names_contain(v: &Vec<String>, p: &String) -> (r: bool)
    ensures
        r == v@.map_values(|s: String| s@).contains(p@),
{
    let mut i: usize = 0;
    while i < v.len()
        invariant
            i <= v@.len(),
            forall|k: int| 0 <= k < i ==> v@[k]@ != p@,
        decreases v@.len() - i,
    {
        if string_eq(&v[i], p) {
            proof {
                assert(v@.map_values(|s: String| s@)[i as int] == p@);
            }
            return true;
        }
        i = i + 1;
    }
    proof {
        let ms = v@.map_values(|s: String| s@);
        assert forall|k: int| 0 <= k < ms.len() implies #[trigger] ms[k] != p@ by {
            assert(ms[k] == v@[k]@);
        }
        assert(!ms.contains(p@));
    }
    false
}

/// Decides whether generic parameter `p` is read as data in a field of
/// type `t`.
pub fn param_used_in_field_check(p: &String, t: &TypeExpr) -> (r: bool)
    ensures
        r == param_used_in_field(p@, *t),
{
    let sn = simple_name_of(t);
    if string_eq(&sn, p) {
        return true;
    }
    if string_is(&sn, "PhantomData") {
        return false;
    }
    let names = collect_inner_names(t, true);
    names_contain(&names, p)
}

/// Decides whether generic parameter `p` is read as data in any field.
#[verifier::loop_isolation(false)]
pub fn param_used(p: &String, fields: &Vec<FieldDescriptor>) -> (r: bool)
    ensures
        r == spec_param_used(p@, fields@),
{
    let mut i: usize = 0;
    while i < fields.len()
        invariant
            i <= fields@.len(),
            forall|k: int| 0 <= k < i ==> !param_used_in_field(p@, #[trigger] fields@[k].ty),
        decreases fields@.len() - i,
    {
        if param_used_in_field_check(p, &fields[i].ty) {
            return true;
        }
        i = i + 1;
    }
    proof {
        if spec_param_used(p@, fields@) {
            let k = choose|k: int|
                0 <= k < fields@.len() && param_used_in_field(p@, #[trigger] fields@[k].ty);
            assert(false);
        }
    }
    false
}

/// The rendered texts of the qualified projections found in `t`, in walk
/// order: a named type whose path has at least two segments and whose
/// leading segment names a declared generic parameter denotes an
/// associated type reached through that parameter.
pub open spec fn projection_texts_in(t: TypeExpr, generics: Seq<Seq<char>>) -> Seq<Seq<char>>
    decreases t, 0int,
{
    match t {
        TypeExpr::Opaque { text } => Seq::<Seq<char>>::empty(),
        TypeExpr::Named { segments, args } => {
            let own = if segments@.len() >= 2 && generics.contains(segments@[0]@) {
                seq![spec_render_type(t)]
            } else {
                Seq::<Seq<char>>::empty()
            };
            own + projection_texts_args_upto(args@, args@.len() as int, generics)
        },
    }
}

/// The projection texts contributed by the first `n` generic arguments.
pub open spec fn projection_texts_args_upto(
    args: Seq<TypeExpr>,
    n: int,
    generics: Seq<Seq<char>>,
) -> Seq<Seq<char>>
    recommends
        n <= args.len(),
    decreases args, n,
        when n <= args.len()
{
    if n <= 0 {
        Seq::<Seq<char>>::empty()
    } else {
        projection_texts_args_upto(args, n - 1, generics) + projection_texts_in(
            args[n - 1],
            generics,
        )
    }
}

/// The projection texts contributed by the first `n` fields, in field
/// order.
pub open spec fn projection_texts_fields_upto(
    fields: Seq<FieldDescriptor>,
    n: int,
    generics: Seq<Seq<char>>,
) -> Seq<Seq<char>>
    decreases n,
{
    if n <= 0 {
        Seq::<Seq<char>>::empty()
    } else {
        projection_texts_fields_upto(fields, n - 1, generics) + projection_texts_in(
            fields[n - 1].ty,
            generics,
        )
    }
}

/// Checks whether a path's leading segment names a declared generic
/// parameter.
#[verifier::loop_isolation(false)]
fn generics_contain(generics: &Vec<GenericParam>, seg: &String) -> (r: bool)
    ensures
        r == generics@.map_values(|g: GenericParam| g.name@).contains(seg@),
{
    let mut i: usize = 0;
    while i < generics.len()
        invariant
            i <= generics@.len(),
            forall|k: int| 0 <= k < i ==> #[trigger] generics@[k].name@ != seg@,
        decreases generics@.len() - i,
    {
        if string_eq(&generics[i].name, seg) {
            proof {
                assert(generics@.map_values(|g: GenericParam| g.name@)[i as int] == seg@);
            }
            return true;
        }
        i = i + 1;
    }
    proof {
        let names = generics@.map_values(|g: GenericParam| g.name@);
        if names.contains(seg@) {
            let k = choose|k: int| 0 <= k < names.len() && names[k] == seg@;
            assert(generics@[k].name@ != seg@);
            assert(false);
        }
    }
    false
}

/// Collects the rendered projection texts of a type, in walk order.
#[verifier::loop_isolation(false)]
pub fn collect_projection_texts(t: &TypeExpr, generics: &Vec<GenericParam>) -> (r: Vec<String>)
    ensures
        r@.map_values(|s: String| s@) == projection_texts_in(
            *t,
            generics@.map_values(|g: GenericParam| g.name@),
        ),
    decreases *t,
{
    let ghost gnames = generics@.map_values(|g: GenericParam| g.name@);
    match t {
        TypeExpr::Opaque { .. } => {
            let r: Vec<String> = Vec::new();
            proof {
                assert(r@.map_values(|s: String| s@) =~~= projection_texts_in(*t, gnames));
            }
            r
        },
        TypeExpr::Named { segments, args } => {
            let mut r: Vec<String> = Vec::new();
            if segments.len() >= 2 && generics_contain(generics, &segments[0]) {
                r.push(render_type(t));
            }
            let ghost own = r@.map_values(|s: String| s@);
            proof {
                assert(own =~~= (if segments@.len() >= 2 && gnames.contains(segments@[0]@) {
                    seq![spec_render_type(*t)]
                } else {
                    Seq::<Seq<char>>::empty()
                }));
            }
            let mut i: usize = 0;
            while i < args.len()
                invariant
                    i <= args@.len(),
                    r@.map_values(|s: String| s@) == own + projection_texts_args_upto(
                        args@,
                        i as int,
                        gnames,
                    ),
                decreases args@.len() - i,
            {
                proof {
                    if i == 0 {
                        assert(r@.map_values(|s: String| s@) =~~= own
                            + projection_texts_args_upto(args@, 0, gnames));
                    }
                    assert((*t)->Named_args == *args);
                    assert(decreases_to!(*t => (*t)->Named_args));
                    assert(decreases_to!((*t)->Named_args => args@));
                    assert(i < args@.len());
                    assert(decreases_to!(args@ => args@[i as int]));
                    assert(decreases_to!(*t => args@[i as int]));
                }
                let mut part = collect_projection_texts(&args[i], generics);
                let ghost pre = r@;
                let ghost partv = part@;
                r.append(&mut part);
                proof {
                    assert(r@ == pre + partv);
                    assert(partv.map_values(|s: String| s@) == projection_texts_in(
                        args@[i as int],
                        gnames,
                    ));
                    assert(r@.map_values(|s: String| s@) =~~= pre.map_values(|s: String| s@)
                        + partv.map_values(|s: String| s@));
                    assert(r@.map_values(|s: String| s@) =~~= own + projection_texts_args_upto(
                        args@,
                        i as int + 1,
                        gnames,
                    ));
                }
                i = i + 1;
            }
            proof {
                assert(r@.map_values(|s: String| s@) =~~= projection_texts_in(*t, gnames));
            }
            r
        },
    }
}

/// The first `n` texts with later duplicates removed, keeping first
/// occurrences in order.
pub open spec fn dedup_upto(ss: Seq<Seq<char>>, n: int) -> Seq<Seq<char>>
    decreases n,
{
    if n <= 0 {
        Seq::<Seq<char>>::empty()
    } else {
        let prev = dedup_upto(ss, n - 1);
        if prev.contains(ss[n - 1]) {
            prev
        } else {
            prev.push(ss[n - 1])
        }
    }
}

/// Removes duplicate texts, keeping first occurrences in order.
#[verifier::loop_isolation(false)]
pub fn dedup_texts(v: &Vec<String>) -> (r: Vec<String>)
    ensures
        r@.map_values(|s: String| s@) == dedup_upto(
            v@.map_values(|s: String| s@),
            v@.len() as int,
        ),
{
    let mut r: Vec<String> = Vec::new();
    let mut i: usize = 0;
    while i < v.len()
        invariant
            i <= v@.len(),
            r@.map_values(|s: String| s@) == dedup_upto(
                v@.map_values(|s: String| s@),
                i as int,
            ),
        decreases v@.len() - i,
    {
        proof {
            assert(v@.map_values(|s: String| s@)[i as int] == v@[i as int]@);
        }
        if !names_contain(&r, &v[i]) {
            r.push(clone_string(&v[i]));
            proof {
                assert(r@.map_values(|s: String| s@) =~~= dedup_upto(
                    v@.map_values(|s: String| s@),
                    i as int + 1,
                ));
            }
        }
        i = i + 1;
    }
    r
}

/// The planned rendering of one field: its name, and the format template
/// chosen for it.
pub struct DebugFieldPlan {
    pub name: String,
    pub format: String,
}

/// The mathematical content of one planned debug field.
#[verifier::ext_equal]
pub struct DebugFieldPlanV {
    pub name: Seq<char>,
    pub format: Seq<char>,
}

impl View for DebugFieldPlan {
    type V = DebugFieldPlanV;

    open spec fn view(&self) -> DebugFieldPlanV {
        DebugFieldPlanV { name: self.name@, format: self.format@ }
    }
}

/// The generic bounds of the planned implementation: either the verbatim
/// override clause, or the inferred bounded parameter names together with
/// the distinct projection texts for the `where` clause.
pub enum BoundsPlan {
    Overridden { clause: String },
    Inferred { bounded: Vec<String>, projections: Vec<String> },
}

/// The mathematical content of a bounds plan.
#[verifier::ext_equal]
pub enum BoundsPlanV {
    Overridden { clause: Seq<char> },
    Inferred { bounded: Seq<Seq<char>>, projections: Seq<Seq<char>> },
}

impl View for BoundsPlan {
    type V = BoundsPlanV;

    open spec fn view(&self) -> BoundsPlanV {
        match self {
            BoundsPlan::Overridden { clause } => BoundsPlanV::Overridden { clause: clause@ },
            BoundsPlan::Inferred { bounded, projections } => BoundsPlanV::Inferred {
                bounded: bounded@.map_values(|s: String| s@),
                projections: projections@.map_values(|s: String| s@),
            },
        }
    }
}

/// The whole debug derivation plan for one declaration.
pub struct DebugPlan {
    pub subject: String,
    pub generics: Vec<GenericParam>,
    pub fields: Vec<DebugFieldPlan>,
    pub bounds: BoundsPlan,
}

/// The mathematical content of a debug plan.
#[verifier::ext_equal]
pub struct DebugPlanV {
    pub subject: Seq<char>,
    pub generics: Seq<GenericParamV>,
    pub fields: Seq<DebugFieldPlanV>,
    pub bounds: BoundsPlanV,
}

impl View for DebugPlan {
    type V = DebugPlanV;

    open spec fn view(&self) -> DebugPlanV {
        DebugPlanV {
            subject: self.subject@,
            generics: self.generics@.map_values(|g: GenericParam| g@),
            fields: self.fields@.map_values(|f: DebugFieldPlan| f@),
            bounds: self.bounds@,
        }
    }
}

/// The names of the declared generic parameters, in order.
pub open spec fn generic_names(generics: Seq<GenericParam>) -> Seq<Seq<char>> {
    generics.map_values(|g: GenericParam| g.name@)
}

/// The planned debug fields of the first `n` source fields, in order.
pub open spec fn debug_fields_upto(fields: Seq<FieldDescriptor>, n: int) -> Seq<DebugFieldPlanV>
    decreases n,
{
    if n <= 0 {
        Seq::<DebugFieldPlanV>::empty()
    } else {
        debug_fields_upto(fields, n - 1).push(
            DebugFieldPlanV {
                name: fields[n - 1].name@,
                format: spec_format_override(fields[n - 1].attrs@),
            },
        )
    }
}

/// The names, among the first `n` generic parameters and in declaration
/// order, of the parameters that are read as data in some field.
pub open spec fn bounded_params_upto(
    generics: Seq<GenericParam>,
    fields: Seq<FieldDescriptor>,
    n: int,
) -> Seq<Seq<char>>
    decreases n,
{
    if n <= 0 {
        Seq::<Seq<char>>::empty()
    } else {
        let prev = bounded_params_upto(generics, fields, n - 1);
        if spec_param_used(generics[n - 1].name@, fields) {
            prev.push(generics[n - 1].name@)
        } else {
            prev
        }
    }
}

/// The distinct projection texts of a declaration, in first-occurrence
/// order.
pub open spec fn spec_projection_texts(d: Declaration) -> Seq<Seq<char>> {
    let ps = projection_texts_fields_upto(
        spec_fields(d),
        spec_fields(d).len() as int,
        generic_names(d.generics@),
    );
    dedup_upto(ps, ps.len() as int)
}

/// The planned bounds of a declaration: the override clause replaces all
/// inference outright when present.
pub open spec fn spec_debug_bounds(d: Declaration) -> BoundsPlanV {
    match spec_bound_override(d.attrs@) {
        Some(c) => BoundsPlanV::Overridden { clause: c },
        None => BoundsPlanV::Inferred {
            bounded: bounded_params_upto(d.generics@, spec_fields(d), d.generics@.len() as int),
            projections: spec_projection_texts(d),
        },
    }
}

/// The debug plan of a supported declaration.
pub open spec fn spec_debug_plan(d: Declaration) -> DebugPlanV {
    DebugPlanV {
        subject: d.name@,
        generics: d.generics@.map_values(|g: GenericParam| g@),
        fields: debug_fields_upto(spec_fields(d), spec_fields(d).len() as int),
        bounds: spec_debug_bounds(d),
    }
}

/// The outcome of the debug derivation on one declaration: its plan, or
/// the diagnostic for an unsupported shape.
pub open spec fn spec_debug_result(d: Declaration) -> Result<DebugPlanV, Diagnostic> {
    if !spec_supported(d) {
        Err(spec_unsupported_diag(d))
    } else {
        Ok(spec_debug_plan(d))
    }
}

/// Computes the debug derivation plan of a declaration, or the diagnostic
/// when its shape is not accepted.
#[verifier::loop_isolation(false)]
pub fn derive_debug_plan(d: &Declaration) -> (r: Result<DebugPlan, Diagnostic>)
    ensures
        match r {
            Ok(p) => spec_debug_result(*d) == Ok::<_, Diagnostic>(p@),
            Err(e) => spec_debug_result(*d) == Err::<DebugPlanV, _>(e),
        },
{
    let sd = match extract(d) {
        Ok(sd) => sd,
        Err(e) => {
            return Err(e);
        },
    };
    let fields = sd.fields;
    let n = fields.len();
    let ghost fs = fields@;

    let mut generics: Vec<GenericParam> = Vec::new();
    let mut i: usize = 0;
    while i < d.generics.len()
        invariant
            i <= d.generics@.len(),
            generics@.map_values(|g: GenericParam| g@) =~= d.generics@.map_values(
                |g: GenericParam| g@,
            ).take(i as int),
        decreases d.generics@.len() - i,
    {
        let g = &d.generics[i];
        generics.push(
            GenericParam { name: clone_string(&g.name), bounds: clone_string(&g.bounds) },
        );
        proof {
            assert(generics@.map_values(|g: GenericParam| g@) =~~= d.generics@.map_values(
                |g: GenericParam| g@,
            ).take(i as int + 1));
        }
        i = i + 1;
    }
    proof {
        assert(generics@.map_values(|g: GenericParam| g@) =~~= d.generics@.map_values(
            |g: GenericParam| g@,
        ));
    }

    let mut dfields: Vec<DebugFieldPlan> = Vec::new();
    let mut i: usize = 0;
    while i < n
        invariant
            i <= n,
            n == fs.len(),
            dfields@.map_values(|f: DebugFieldPlan| f@) == debug_fields_upto(fs, i as int),
        decreases n - i,
    {
        let f = &fields[i];
        dfields.push(
            DebugFieldPlan { name: clone_string(&f.name), format: format_override(&f.attrs) },
        );
        proof {
            assert(dfields@.map_values(|f: DebugFieldPlan| f@) =~~= debug_fields_upto(
                fs,
                i as int + 1,
            ));
        }
        i = i + 1;
    }

    let bounds: BoundsPlan = match bound_override(&d.attrs) {
        Some(clause) => BoundsPlan::Overridden { clause },
        None => {
            let mut bounded: Vec<String> = Vec::new();
            let mut i: usize = 0;
            while i < d.generics.len()
                invariant
                    i <= d.generics@.len(),
                    n == fs.len(),
                    bounded@.map_values(|s: String| s@) == bounded_params_upto(
                        d.generics@,
                        fs,
                        i as int,
                    ),
                decreases d.generics@.len() - i,
            {
                let g = &d.generics[i];
                if param_used(&g.name, fields) {
                    bounded.push(clone_string(&g.name));
                    proof {
                        assert(bounded@.map_values(|s: String| s@) =~~= bounded_params_upto(
                            d.generics@,
                            fs,
                            i as int + 1,
                        ));
                    }
                }
                i = i + 1;
            }
            let mut ptexts: Vec<String> = Vec::new();
            let ghost gnames = generic_names(d.generics@);
            let mut i: usize = 0;
            while i < n
                invariant
                    i <= n,
                    n == fs.len(),
                    ptexts@.map_values(|s: String| s@) == projection_texts_fields_upto(
                        fs,
                        i as int,
                        gnames,
                    ),
                decreases n - i,
            {
                let mut part = collect_projection_texts(&fields[i].ty, &d.generics);
                let ghost pre = ptexts@;
                let ghost partv = part@;
                ptexts.append(&mut part);
                proof {
                    assert(ptexts@ == pre + partv);
                    assert(ptexts@.map_values(|s: String| s@) =~~= pre.map_values(
                        |s: String| s@,
                    ) + partv.map_values(|s: String| s@));
                    assert(ptexts@.map_values(|s: String| s@)
                        =~~= projection_texts_fields_upto(fs, i as int + 1, gnames));
                }
                i = i + 1;
            }
            let projections = dedup_texts(&ptexts);
            BoundsPlan::Inferred { bounded, projections }
        },
    };
    let plan = DebugPlan { subject: clone_string(&d.name), generics, fields: dfields, bounds };
    proof {
        assert(plan@ =~~= spec_debug_plan(*d));
    }
    Ok(plan)
}

/// The bounded parameter names of a bounds plan; empty under an override,
/// whose clause already says everything.
pub open spec fn plan_bounded(b: BoundsPlanV) -> Seq<Seq<char>> {
    match b {
        BoundsPlanV::Inferred { bounded, projections } => bounded,
        BoundsPlanV::Overridden { clause } => Seq::<Seq<char>>::empty(),
    }
}

/// The emitted text of one generic parameter in the implementation's
/// parameter list: its declared bounds verbatim, plus the formatting
/// capability when inference attached it.
pub open spec fn param_impl_text(g: GenericParamV, bounded: bool) -> Seq<char> {
    g.name + (if g.bounds.len() > 0 {
        ": "@ + g.bounds
    } else {
        Seq::<char>::empty()
    }) + (if bounded {
        if g.bounds.len() > 0 {
            " + std::fmt::Debug"@
        } else {
            ": std::fmt::Debug"@
        }
    } else {
        Seq::<char>::empty()
    })
}

/// The emitted implementation parameter list of the first `n` parameters,
/// comma-separated.
pub open spec fn impl_params_upto(generics: Seq<GenericParamV>, bounded: Seq<Seq<char>>, n: int) -> Seq<char>
    decreases n,
{
    if n <= 0 {
        Seq::<char>::empty()
    } else if n == 1 {
        param_impl_text(generics[0], bounded.contains(generics[0].name))
    } else {
        impl_params_upto(generics, bounded, n - 1) + ", "@ + param_impl_text(
            generics[n - 1],
            bounded.contains(generics[n - 1].name),
        )
    }
}

/// The emitted type argument list of the first `n` parameters,
/// comma-separated.
pub open spec fn type_args_upto(generics: Seq<GenericParamV>, n: int) -> Seq<char>
    decreases n,
{
    if n <= 0 {
        Seq::<char>::empty()
    } else if n == 1 {
        generics[0].name
    } else {
        type_args_upto(generics, n - 1) + ", "@ + generics[n - 1].name
    }
}

/// The emitted `where` predicates of the first `n` projection texts,
/// comma-separated, each with the formatting capability bound.
pub open spec fn where_preds_upto(projs: Seq<Seq<char>>, n: int) -> Seq<char>
    decreases n,
{
    if n <= 0 {
        Seq::<char>::empty()
    } else if n == 1 {
        projs[0] + ": std::fmt::Debug"@
    } else {
        where_preds_upto(projs, n - 1) + ", "@ + projs[n - 1] + ": std::fmt::Debug"@
    }
}

/// The emitted `where` clause of a bounds plan: the override clause
/// verbatim, or one predicate per distinct projection; empty when neither
/// applies.
pub open spec fn where_text(b: BoundsPlanV) -> Seq<char> {
    match b {
        BoundsPlanV::Overridden { clause } => " where "@ + clause,
        BoundsPlanV::Inferred { bounded, projections } => if projections.len() == 0 {
            Seq::<char>::empty()
        } else {
            " where "@ + where_preds_upto(projections, projections.len() as int)
        },
    }
}

/// The emitted formatting call of the first `n` fields, in declaration
/// order: each contributes its name as a literal and its value rendered
/// through its chosen format template.
pub open spec fn field_calls_upto(fields: Seq<DebugFieldPlanV>, n: int) -> Seq<char>
    decreases n,
{
    if n <= 0 {
        Seq::<char>::empty()
    } else {
        field_calls_upto(fields, n - 1) + ".field(\""@ + fields[n - 1].name
            + "\", &std::format_args!(\""@ + fields[n - 1].format + "\", &self."@ + fields[n
            - 1].name + "))"@
    }
}

/// The whole emitted debug implementation of a plan.
pub open spec fn spec_render_debug(p: DebugPlanV) -> Seq<char> {
    "impl"@ + (if p.generics.len() == 0 {
        Seq::<char>::empty()
    } else {
        "<"@ + impl_params_upto(p.generics, plan_bounded(p.bounds), p.generics.len() as int)
            + ">"@
    }) + " std::fmt::Debug for "@ + p.subject + (if p.generics.len() == 0 {
        Seq::<char>::empty()
    } else {
        "<"@ + type_args_upto(p.generics, p.generics.len() as int) + ">"@
    }) + where_text(p.bounds)
        + " {\n    fn fmt(&self, f: &mut std::fmt::Formatter<'_>) -> std::fmt::Result {\n        f.debug_struct(\""@
        + p.subject + "\")"@ + field_calls_upto(p.fields, p.fields.len() as int)
        + ".finish()\n    }\n}\n"@
}

/// Emits the implementation parameter list of a plan, angle brackets
/// included, empty when the subject has no generic parameters.
#[verifier::loop_isolation(false)]
#[verifier::rlimit(100)]
#[verifier::spinoff_prover]
fn render_impl_params(p: &DebugPlan) -> (r: String)
    ensures
        r@ == (if p@.generics.len() == 0 {
            Seq::<char>::empty()
        } else {
            "<"@ + impl_params_upto(p@.generics, plan_bounded(p@.bounds), p@.generics.len() as int)
                + ">"@
        }),
{
    let mut out = String::new();
    if p.generics.len() == 0 {
        return out;
    }
    out.append("<");
    let ghost head = out@;
    proof {
        assert(head + impl_params_upto(p@.generics, plan_bounded(p@.bounds), 0) =~= head);
    }
    let mut i: usize = 0;
    while i < p.generics.len()
        invariant
            i <= p.generics@.len(),
            out@ == head + impl_params_upto(p@.generics, plan_bounded(p@.bounds), i as int),
        decreases p.generics@.len() - i,
    {
        if i > 0 {
            out.append(", ");
        }
        let g = &p.generics[i];
        out.append(g.name.as_str());
        if !g.bounds.as_str().is_empty() {
            out.append(": ");
            out.append(g.bounds.as_str());
        }
        let is_bounded = match &p.bounds {
            BoundsPlan::Inferred { bounded, .. } => names_contain(bounded, &g.name),
            BoundsPlan::Overridden { .. } => false,
        };
        if is_bounded {
            if !g.bounds.as_str().is_empty() {
                out.append(" + std::fmt::Debug");
            } else {
                out.append(": std::fmt::Debug");
            }
        }
        proof {
            assert(p@.generics[i as int] == g@);
            assert(g.bounds@.len() == g@.bounds.len());
            assert(is_bounded == plan_bounded(p@.bounds).contains(g@.name));
            assert(out@ =~= head + impl_params_upto(
                p@.generics,
                plan_bounded(p@.bounds),
                i as int + 1,
            ));
        }
        i = i + 1;
    }
    out.append(">");
    out
}

/// Emits the type argument list of a plan, angle brackets included,
/// empty when the subject has no generic parameters.
#[verifier::loop_isolation(false)]
fn render_type_args(p: &DebugPlan) -> (r: String)
    ensures
        r@ == (if p@.generics.len() == 0 {
            Seq::<char>::empty()
        } else {
            "<"@ + type_args_upto(p@.generics, p@.generics.len() as int) + ">"@
        }),
{
    let mut out = String::new();
    if p.generics.len() == 0 {
        return out;
    }
    out.append("<");
    let ghost head = out@;
    proof {
        assert(head + type_args_upto(p@.generics, 0) =~= head);
    }
    let mut i: usize = 0;
    while i < p.generics.len()
        invariant
            i <= p.generics@.len(),
            out@ == head + type_args_upto(p@.generics, i as int),
        decreases p.generics@.len() - i,
    {
        if i > 0 {
            out.append(", ");
        }
        out.append(p.generics[i].name.as_str());
        proof {
            assert(p@.generics[i as int] == p.generics@[i as int]@);
            assert(out@ =~= head + type_args_upto(p@.generics, i as int + 1));
        }
        i = i + 1;
    }
    out.append(">");
    out
}

/// Emits the `where` clause of a plan, empty when nothing calls for one.
#[verifier::loop_isolation(false)]
fn render_where(p: &DebugPlan) -> (r: String)
    ensures
        r@ == where_text(p@.bounds),
{
    let mut out = String::new();
    match &p.bounds {
        BoundsPlan::Overridden { clause } => {
            out.append(" where ");
            out.append(clause.as_str());
        },
        BoundsPlan::Inferred { projections, .. } => {
            if projections.len() > 0 {
                out.append(" where ");
                let ghost head = out@;
                let ghost projs = p@.bounds->Inferred_projections;
                proof {
                    assert(head + where_preds_upto(projs, 0) =~= head);
                }
                let mut i: usize = 0;
                while i < projections.len()
                    invariant
                        i <= projections@.len(),
                        projs == projections@.map_values(|s: String| s@),
                        out@ == head + where_preds_upto(projs, i as int),
                    decreases projections@.len() - i,
                {
                    if i > 0 {
                        out.append(", ");
                    }
                    out.append(projections[i].as_str());
                    out.append(": std::fmt::Debug");
                    proof {
                        assert(projs[i as int] == projections@[i as int]@);
                        assert(out@ =~= head + where_preds_upto(projs, i as int + 1));
                    }
                    i = i + 1;
                }
            }
        },
    }
    out
}

/// Emits the chained formatting calls of a plan's fields, in declaration
/// order.
#[verifier::loop_isolation(false)]
fn render_field_calls(p: &DebugPlan) -> (r: String)
    ensures
        r@ == field_calls_upto(p@.fields, p@.fields.len() as int),
{
    let mut out = String::new();
    let ghost head = out@;
    proof {
        assert(head + field_calls_upto(p@.fields, 0) =~= head);
    }
    let mut i: usize = 0;
    while i < p.fields.len()
        invariant
            i <= p.fields@.len(),
            out@ == head + field_calls_upto(p@.fields, i as int),
        decreases p.fields@.len() - i,
    {
        let f = &p.fields[i];
        out.append(".field(\"");
        out.append(f.name.as_str());
        out.append("\", &std::format_args!(\"");
        out.append(f.format.as_str());
        out.append("\", &self.");
        out.append(f.name.as_str());
        out.append("))");
        proof {
            assert(p@.fields[i as int] == f@);
            assert(out@ =~= head + field_calls_upto(p@.fields, i as int + 1));
        }
        i = i + 1;
    }
    proof {
        assert(out@ =~= field_calls_upto(p@.fields, p@.fields.len() as int));
    }
    out
}

/// Emits the debug implementation of a plan.
#[verifier::rlimit(60)]
pub fn render_debug(p: &DebugPlan) -> (r: String)
    ensures
        r@ == spec_render_debug(p@),
{
    let mut out = "impl".to_owned();
    let part = render_impl_params(p);
    out.append(part.as_str());
    out.append(" std::fmt::Debug for ");
    out.append(p.subject.as_str());
    let part = render_type_args(p);
    out.append(part.as_str());
    let part = render_where(p);
    out.append(part.as_str());
    out.append(" {\n    fn fmt(&self, f: &mut std::fmt::Formatter<'_>) -> std::fmt::Result {\n        f.debug_struct(\"");
    out.append(p.subject.as_str());
    out.append("\")");
    let part = render_field_calls(p);
    out.append(part.as_str());
    out.append(".finish()\n    }\n}\n");
    proof {
        assert(out@ =~= spec_render_debug(p@));
    }
    out
}

/// Derives the debug implementation code of one declaration: the emitted
/// source fragment on success, the diagnostic for an unsupported shape
/// otherwise.
pub fn derive_debug(d: &Declaration) -> (r: Result<String, Diagnostic>)
    ensures
        match r {
            Ok(code) => (spec_debug_result(*d) is Ok) && code@ == spec_render_debug(
                spec_debug_result(*d)->Ok_0,
            ),
            Err(e) => spec_debug_result(*d) == Err::<DebugPlanV, _>(e),
        },
{
    let plan = match derive_debug_plan(d) {
        Ok(p) => p,
        Err(e) => {
            return Err(e);
        },
    };
    Ok(render_debug(&plan))
}

/// No projection can be found when the declaration has no generic
/// parameters at all.
proof fn lemma_no_projections_type(t: TypeExpr, g: Seq<Seq<char>>)
    requires
        g.len() == 0,
    ensures
        projection_texts_in(t, g) == Seq::<Seq<char>>::empty(),
    decreases t, 0int,
{
    match t {
        TypeExpr::Opaque { text } => {
        },
        TypeExpr::Named { segments, args } => {
            lemma_no_projections_args(args@, args@.len() as int, g);
            assert(projection_texts_in(t, g) =~= Seq::<Seq<char>>::empty());
        },
    }
}

/// No projection can be found among any generic arguments either.
proof fn lemma_no_projections_args(args: Seq<TypeExpr>, n: int, g: Seq<Seq<char>>)
    requires
        g.len() == 0,
        n <= args.len(),
    ensures
        projection_texts_args_upto(args, n, g) == Seq::<Seq<char>>::empty(),
    decreases args, n,
{
    if n > 0 {
        lemma_no_projections_args(args, n - 1, g);
        lemma_no_projections_type(args[n - 1], g);
        assert(projection_texts_args_upto(args, n, g) =~= Seq::<Seq<char>>::empty());
    }
}

/// The planned debug fields mirror the source fields one for one.
proof fn lemma_debug_fields_upto(fields: Seq<FieldDescriptor>, n: int)
    requires
        0 <= n <= fields.len(),
    ensures
        debug_fields_upto(fields, n).len() == n,
        forall|j: int| 0 <= j < n ==> #[trigger] debug_fields_upto(fields, n)[j]
            == (DebugFieldPlanV {
            name: fields[j].name@,
            format: spec_format_override(fields[j].attrs@),
        }),
    decreases n,
{
    if n > 0 {
        lemma_debug_fields_upto(fields, n - 1);
    }
}

/// Law: for a non-generic declaration without a bound override, the
/// planned implementation carries no bounds at all, and renders the
/// fields in declaration order, each under its override format or the
/// default template.
pub proof fn lemma_non_generic_no_bounds(d: Declaration)
    requires
        spec_supported(d),
        d.generics@.len() == 0,
        (spec_bound_override(d.attrs@) is None),
    ensures
        spec_debug_plan(d).bounds == (BoundsPlanV::Inferred {
            bounded: Seq::<Seq<char>>::empty(),
            projections: Seq::<Seq<char>>::empty(),
        }),
        spec_debug_plan(d).fields.len() == spec_fields(d).len(),
        forall|j: int| 0 <= j < spec_fields(d).len() ==> #[trigger] spec_debug_plan(d).fields[j]
            == (DebugFieldPlanV {
            name: spec_fields(d)[j].name@,
            format: spec_format_override(spec_fields(d)[j].attrs@),
        }),
{
    let fields = spec_fields(d);
    let gnames = generic_names(d.generics@);
    assert(gnames.len() == 0);
    lemma_no_projections_fields(fields, fields.len() as int, gnames);
    lemma_debug_fields_upto(fields, fields.len() as int);
    assert(spec_debug_plan(d).bounds =~~= (BoundsPlanV::Inferred {
        bounded: Seq::<Seq<char>>::empty(),
        projections: Seq::<Seq<char>>::empty(),
    }));
}

/// No projection can be found in any field without generic parameters.
proof fn lemma_no_projections_fields(fields: Seq<FieldDescriptor>, n: int, g: Seq<Seq<char>>)
    requires
        g.len() == 0,
        n <= fields.len(),
    ensures
        projection_texts_fields_upto(fields, n, g) == Seq::<Seq<char>>::empty(),
    decreases n,
{
    if n > 0 {
        lemma_no_projections_fields(fields, n - 1, g);
        lemma_no_projections_type(fields[n - 1].ty, g);
        assert(projection_texts_fields_upto(fields, n, g) =~= Seq::<Seq<char>>::empty());
    }
}

/// Every name in the inferred bounded list belongs to a parameter that is
/// read as data in some field.
proof fn lemma_bounded_elements_used(
    generics: Seq<GenericParam>,
    fields: Seq<FieldDescriptor>,
    n: int,
)
    ensures
        forall|k: int| 0 <= k < bounded_params_upto(generics, fields, n).len()
            ==> spec_param_used(#[trigger] bounded_params_upto(generics, fields, n)[k], fields),
    decreases n,
{
    if n > 0 {
        lemma_bounded_elements_used(generics, fields, n - 1);
        let prev = bounded_params_upto(generics, fields, n - 1);
        let cur = bounded_params_upto(generics, fields, n);
        assert forall|k: int| 0 <= k < cur.len() implies spec_param_used(
            #[trigger] cur[k],
            fields,
        ) by {
            if spec_param_used(generics[n - 1].name@, fields) {
                if k < prev.len() {
                    assert(cur[k] == prev[k]);
                } else {
                    assert(cur[k] == generics[n - 1].name@);
                }
            } else {
                assert(cur[k] == prev[k]);
            }
        }
    }
}

/// A used parameter among the first `n` appears in the bounded list.
proof fn lemma_bounded_contains(
    generics: Seq<GenericParam>,
    fields: Seq<FieldDescriptor>,
    gi: int,
    n: int,
)
    requires
        0 <= gi < n,
        spec_param_used(generics[gi].name@, fields),
    ensures
        bounded_params_upto(generics, fields, n).contains(generics[gi].name@),
    decreases n,
{
    if gi == n - 1 {
        let prev = bounded_params_upto(generics, fields, n - 1);
        assert(bounded_params_upto(generics, fields, n)[prev.len() as int] == generics[gi].name@);
    } else {
        lemma_bounded_contains(generics, fields, gi, n - 1);
        let prev = bounded_params_upto(generics, fields, n - 1);
        let k = choose|k: int| 0 <= k < prev.len() && prev[k] == generics[gi].name@;
        assert(bounded_params_upto(generics, fields, n)[k] == generics[gi].name@);
    }
}

/// Law: a generic parameter that appears only inside the zero-sized
/// marker wrapper is not read as data and receives no inferred bound.
pub proof fn lemma_marker_only_param_unbounded(d: Declaration, p: Seq<char>)
    requires
        spec_supported(d),
        (spec_bound_override(d.attrs@) is None),
        forall|i: int| 0 <= i < spec_fields(d).len() ==> (spec_simple_name(
            #[trigger] spec_fields(d)[i].ty,
        ) != p && (inner_names(spec_fields(d)[i].ty, true).contains(p) ==> spec_simple_name(
            spec_fields(d)[i].ty,
        ) == marker_wrapper_name())),
    ensures
        (spec_debug_plan(d).bounds is Inferred),
        !spec_debug_plan(d).bounds->Inferred_bounded.contains(p),
{
    let fields = spec_fields(d);
    assert(!spec_param_used(p, fields)) by {
        if spec_param_used(p, fields) {
            let i = choose|i: int|
                0 <= i < fields.len() && param_used_in_field(p, #[trigger] fields[i].ty);
            assert(false);
        }
    }
    let bounded = spec_debug_plan(d).bounds->Inferred_bounded;
    lemma_bounded_elements_used(d.generics@, fields, d.generics@.len() as int);
    if bounded.contains(p) {
        let k = choose|k: int| 0 <= k < bounded.len() && bounded[k] == p;
        assert(spec_param_used(bounded[k], fields));
        assert(false);
    }
}

/// Law: a generic parameter that some field reads directly as its whole
/// type does receive the inferred bound.
pub proof fn lemma_direct_field_param_bounded(d: Declaration, gi: int)
    requires
        spec_supported(d),
        (spec_bound_override(d.attrs@) is None),
        0 <= gi < d.generics@.len(),
        exists|i: int| 0 <= i < spec_fields(d).len() && spec_simple_name(
            #[trigger] spec_fields(d)[i].ty,
        ) == d.generics@[gi].name@,
    ensures
        (spec_debug_plan(d).bounds is Inferred),
        spec_debug_plan(d).bounds->Inferred_bounded.contains(d.generics@[gi].name@),
{
    let fields = spec_fields(d);
    let p = d.generics@[gi].name@;
    let i = choose|i: int|
        0 <= i < fields.len() && spec_simple_name(#[trigger] fields[i].ty) == p;
    assert(param_used_in_field(p, fields[i].ty));
    assert(spec_param_used(p, fields));
    lemma_bounded_contains(d.generics@, fields, gi, d.generics@.len() as int);
}

/// Law: a declaration-level bound override replaces inferred bounds
/// outright, whatever inference would have produced.
pub proof fn lemma_bound_override_replaces(d: Declaration, c: Seq<char>)
    requires
        spec_supported(d),
        spec_bound_override(d.attrs@) == Some(c),
    ensures
        spec_debug_plan(d).bounds == (BoundsPlanV::Overridden { clause: c }),
{
}

} // verus!
