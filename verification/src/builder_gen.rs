//! The builder derivation generator: plans and emits, for one supported
//! declaration, a companion type, an initializer on the subject type,
//! setter methods (including append-style setters for repeated fields) and
//! a validating `build()` method.

use vstd::prelude::*;
use vstd::string::StringExecFns;
use crate::model::{
    Declaration, Diagnostic, ErrorKind, FieldDescriptor, Span, Visibility,
};
use crate::analyzer::{classify, shape_inner, render_type, spec_classify, spec_inner,
    spec_render_type, ShapeClass};
use crate::directives::{append_directive, spec_append_directive, AppendDirective};
use crate::extract::{extract, spec_fields, spec_supported, spec_unsupported_diag};
use crate::strutil::{clone_string, string_eq};

verus! {

/// How one setter method records its argument.
#[derive(Clone, Copy, PartialEq, Eq, Structural, Debug)]
pub enum SetterKind {
    /// Record the inner value as present (Plain and Optional fields).
    WrapSet,
    /// Replace the whole recorded sequence (Repeated fields).
    ReplaceAll,
    /// Append one element to the recorded sequence (append directives).
    AppendOne,
}

/// One planned setter method of the companion type. Every setter takes
/// exactly one argument, of the type given by `arg_ty`, and returns a
/// mutable reference to the companion value for chaining.
pub struct SetterPlan {
    pub method_name: String,
    pub field_index: usize,
    pub kind: SetterKind,
    pub arg_ty: String,
}

/// The mathematical content of one planned setter.
#[verifier::ext_equal]
pub struct SetterPlanV {
    pub method_name: Seq<char>,
    pub field_index: int,
    pub kind: SetterKind,
    pub arg_ty: Seq<char>,
}

impl View for SetterPlan {
    type V = SetterPlanV;

    open spec fn view(&self) -> SetterPlanV {
        SetterPlanV {
            method_name: self.method_name@,
            field_index: self.field_index as int,
            kind: self.kind,
            arg_ty: self.arg_ty@,
        }
    }
}

/// One planned field of the companion type.
pub struct CompanionField {
    pub name: String,
    pub vis: Visibility,
    pub shape: ShapeClass,
    pub ty_text: String,
}

/// The mathematical content of one planned companion field.
#[verifier::ext_equal]
pub struct CompanionFieldV {
    pub name: Seq<char>,
    pub vis: Visibility,
    pub shape: ShapeClass,
    pub ty_text: Seq<char>,
}

impl View for CompanionField {
    type V = CompanionFieldV;

    open spec fn view(&self) -> CompanionFieldV {
        CompanionFieldV {
            name: self.name@,
            vis: self.vis,
            shape: self.shape,
            ty_text: self.ty_text@,
        }
    }
}

/// The whole builder derivation plan for one declaration.
pub struct BuilderPlan {
    pub subject: String,
    pub companion: String,
    pub vis: Visibility,
    pub fields: Vec<CompanionField>,
    pub setters: Vec<SetterPlan>,
}

/// The mathematical content of a builder plan.
#[verifier::ext_equal]
pub struct BuilderPlanV {
    pub subject: Seq<char>,
    pub companion: Seq<char>,
    pub vis: Visibility,
    pub fields: Seq<CompanionFieldV>,
    pub setters: Seq<SetterPlanV>,
}

impl View for BuilderPlan {
    type V = BuilderPlanV;

    open spec fn view(&self) -> BuilderPlanV {
        BuilderPlanV {
            subject: self.subject@,
            companion: self.companion@,
            vis: self.vis,
            fields: self.fields@.map_values(|f: CompanionField| f@),
            setters: self.setters@.map_values(|s: SetterPlan| s@),
        }
    }
}

/// The companion type's name: the subject's name with a fixed suffix.
pub open spec fn spec_companion_name(subject: Seq<char>) -> Seq<char> {
    subject + "Builder"@
}

/// The companion field planned for one source field: a Plain field is held
/// under the optional wrapper, an Optional field keeps its inner type under
/// the optional wrapper, and a Repeated field is held as a sequence.
pub open spec fn spec_companion_field(f: FieldDescriptor) -> CompanionFieldV {
    let k = spec_classify(f.ty);
    CompanionFieldV {
        name: f.name@,
        vis: f.vis,
        shape: k,
        ty_text: match k {
            ShapeClass::Plain => "std::option::Option<"@ + spec_render_type(f.ty) + ">"@,
            ShapeClass::Optional => "std::option::Option<"@ + spec_render_type(spec_inner(f.ty))
                + ">"@,
            ShapeClass::Repeated => "std::vec::Vec<"@ + spec_render_type(spec_inner(f.ty))
                + ">"@,
        },
    }
}

/// The companion fields planned for the first `n` source fields.
pub open spec fn fields_upto(fields: Seq<FieldDescriptor>, n: int) -> Seq<CompanionFieldV>
    decreases n,
{
    if n <= 0 {
        Seq::<CompanionFieldV>::empty()
    } else {
        fields_upto(fields, n - 1).push(spec_companion_field(fields[n - 1]))
    }
}

/// The argument type of the ordinary setter of one field: the inner type
/// for Plain and Optional fields, the whole sequence type for Repeated
/// fields.
pub open spec fn spec_setter_arg_ty(f: FieldDescriptor) -> Seq<char> {
    match spec_classify(f.ty) {
        ShapeClass::Plain => spec_render_type(f.ty),
        ShapeClass::Optional => spec_render_type(spec_inner(f.ty)),
        ShapeClass::Repeated => "std::vec::Vec<"@ + spec_render_type(spec_inner(f.ty)) + ">"@,
    }
}

/// The setters planned for field number `idx`.
///
/// Plain and Optional fields get one value setter under the field's name.
/// A Repeated field gets a whole-sequence setter under the field's name,
/// and, when it carries an append directive naming `x`, an element appender
/// named `x` before it; when `x` equals the field's own name only the
/// appender is planned, to avoid a duplicate method name. An append
/// directive on a non-Repeated field has no effect on the planned methods.
pub open spec fn spec_field_setters(f: FieldDescriptor, idx: int) -> Seq<SetterPlanV> {
    let k = spec_classify(f.ty);
    let value_setter = SetterPlanV {
        method_name: f.name@,
        field_index: idx,
        kind: if k is Repeated {
            SetterKind::ReplaceAll
        } else {
            SetterKind::WrapSet
        },
        arg_ty: spec_setter_arg_ty(f),
    };
    if k is Repeated {
        match spec_append_directive(f.attrs@) {
            Ok(o) => match o {
                Some(p) => {
                    let appender = SetterPlanV {
                        method_name: p.0,
                        field_index: idx,
                        kind: SetterKind::AppendOne,
                        arg_ty: spec_render_type(spec_inner(f.ty)),
                    };
                    if p.0 == f.name@ {
                        seq![appender]
                    } else {
                        seq![appender, value_setter]
                    }
                },
                None => seq![value_setter],
            },
            Err(e) => seq![value_setter],
        }
    } else {
        seq![value_setter]
    }
}

/// The setters planned for the first `n` source fields, in field order.
pub open spec fn setters_upto(fields: Seq<FieldDescriptor>, n: int) -> Seq<SetterPlanV>
    decreases n,
{
    if n <= 0 {
        Seq::<SetterPlanV>::empty()
    } else {
        setters_upto(fields, n - 1) + spec_field_setters(fields[n - 1], n - 1)
    }
}

/// The builder plan of a supported declaration.
pub open spec fn spec_builder_plan(d: Declaration) -> BuilderPlanV {
    let fields = spec_fields(d);
    BuilderPlanV {
        subject: d.name@,
        companion: spec_companion_name(d.name@),
        vis: d.vis,
        fields: fields_upto(fields, fields.len() as int),
        setters: setters_upto(fields, fields.len() as int),
    }
}

/// The first malformed append directive among the fields, scanning from
/// field `i` on.
pub open spec fn first_directive_error_from(fields: Seq<FieldDescriptor>, i: int) -> Option<
    Diagnostic,
>
    decreases fields.len() - i,
{
    if i < 0 || i >= fields.len() {
        None
    } else {
        match spec_append_directive(fields[i].attrs@) {
            Err(d) => Some(d),
            Ok(o) => first_directive_error_from(fields, i + 1),
        }
    }
}

/// The clash diagnostic of field `i`, if its append directive names a
/// different field of the same declaration.
pub open spec fn clash_diag(fields: Seq<FieldDescriptor>, i: int) -> Option<Diagnostic> {
    match spec_append_directive(fields[i].attrs@) {
        Ok(o) => match o {
            Some(p) => if exists|j: int|
                0 <= j < fields.len() && j != i && fields[j].name@ == p.0 {
                Some(Diagnostic { kind: ErrorKind::AppendNameClash, span: p.1 })
            } else {
                None
            },
            None => None,
        },
        Err(e) => None,
    }
}

/// The first append-name clash among the fields, scanning from field `i`
/// on.
pub open spec fn first_clash_from(fields: Seq<FieldDescriptor>, i: int) -> Option<Diagnostic>
    decreases fields.len() - i,
{
    if i < 0 || i >= fields.len() {
        None
    } else {
        match clash_diag(fields, i) {
            Some(d) => Some(d),
            None => first_clash_from(fields, i + 1),
        }
    }
}

/// The outcome of the builder derivation on one declaration: its plan, or
/// the earliest diagnostic — an unsupported shape, then the first malformed
/// append directive in field order, then the first append-name clash.
pub open spec fn spec_builder_result(d: Declaration) -> Result<BuilderPlanV, Diagnostic> {
    if !spec_supported(d) {
        Err(spec_unsupported_diag(d))
    } else {
        let fields = spec_fields(d);
        match first_directive_error_from(fields, 0) {
            Some(e) => Err(e),
            None => match first_clash_from(fields, 0) {
                Some(e) => Err(e),
                None => Ok(spec_builder_plan(d)),
            },
        }
    }
}

/// Computes the builder derivation plan of a declaration, or the earliest
/// diagnostic when the declaration's shape or a directive is not accepted.
#[verifier::loop_isolation(false)]
pub fn derive_builder_plan(d: &Declaration) -> (r: Result<BuilderPlan, Diagnostic>)
    ensures
        match r {
            Ok(p) => spec_builder_result(*d) == Ok::<_, Diagnostic>(p@),
            Err(e) => spec_builder_result(*d) == Err::<BuilderPlanV, _>(e),
        },
{
    let sd = match extract(d) {
        Ok(sd) => sd,
        Err(e) => {
            return Err(e);
        },
    };
    let fields = sd.fields;
    let n = fields.len();
    let ghost fs = fields@;

    // Parse every field's append directive; the first malformed one aborts.
    let mut dirs: Vec<Option<AppendDirective>> = Vec::new();
    let mut i: usize = 0;
    while i < n
        invariant
            i <= n,
            n == fs.len(),
            dirs@.len() == i,
            first_directive_error_from(fs, 0) == first_directive_error_from(fs, i as int),
            forall|j: int| #![trigger dirs@[j]] 0 <= j < i ==> match dirs@[j] {
                Some(a) => spec_append_directive(fs[j].attrs@) == Ok::<_, Diagnostic>(
                    Some((a.name@, a.span)),
                ),
                None => spec_append_directive(fs[j].attrs@) == Ok::<Option<(Seq<char>, Span)>,
                    Diagnostic,
                >(None),
            },
        decreases n - i,
    {
        match append_directive(&fields[i].attrs) {
            Ok(o) => dirs.push(o),
            Err(e) => {
                return Err(e);
            },
        }
        i = i + 1;
    }

    // Reject an append directive that names a different field.
    let mut i: usize = 0;
    while i < n
        invariant
            i <= n,
            n == fs.len(),
            first_clash_from(fs, 0) == first_clash_from(fs, i as int),
        decreases n - i,
    {
        match &dirs[i] {
            Some(dir) => {
                let mut j: usize = 0;
                while j < n
                    invariant
                        j <= n,
                        forall|l: int| 0 <= l < j ==> !(l != i as int && fs[l].name@
                            == dir.name@),
                    decreases n - j,
                {
                    if j != i && string_eq(&fields[j].name, &dir.name) {
                        return Err(
                            Diagnostic { kind: ErrorKind::AppendNameClash, span: dir.span },
                        );
                    }
                    j = j + 1;
                }
                proof {
                    assert(clash_diag(fs, i as int) is None) by {
                        if clash_diag(fs, i as int) is Some {
                            let l = choose|l: int|
                                0 <= l < fs.len() && l != i as int && fs[l].name@ == dir.name@;
                            assert(false);
                        }
                    }
                }
            },
            None => {
                proof {
                    assert(clash_diag(fs, i as int) is None);
                }
            },
        }
        i = i + 1;
    }

    // Plan the companion fields.
    let mut out_fields: Vec<CompanionField> = Vec::new();
    let mut i: usize = 0;
    while i < n
        invariant
            i <= n,
            n == fs.len(),
            out_fields@.map_values(|f: CompanionField| f@) == fields_upto(fs, i as int),
        decreases n - i,
    {
        let f = &fields[i];
        let k = classify(&f.ty);
        let mut ty_text: String = match k {
            ShapeClass::Plain => "std::option::Option<".to_owned(),
            ShapeClass::Optional => "std::option::Option<".to_owned(),
            ShapeClass::Repeated => "std::vec::Vec<".to_owned(),
        };
        let inner = render_type(shape_inner(&f.ty));
        ty_text.append(inner.as_str());
        ty_text.append(">");
        out_fields.push(CompanionField { name: clone_string(&f.name), vis: f.vis, shape: k, ty_text });
        proof {
            assert(out_fields@.map_values(|f: CompanionField| f@) =~~= fields_upto(
                fs,
                i as int + 1,
            ));
        }
        i = i + 1;
    }

    // Plan the setters.
    let mut setters: Vec<SetterPlan> = Vec::new();
    let mut i: usize = 0;
    while i < n
        invariant
            i <= n,
            n == fs.len(),
            dirs@.len() == n,
            setters@.map_values(|s: SetterPlan| s@) == setters_upto(fs, i as int),
            forall|j: int| #![trigger dirs@[j]] 0 <= j < n ==> match dirs@[j] {
                Some(a) => spec_append_directive(fs[j].attrs@) == Ok::<_, Diagnostic>(
                    Some((a.name@, a.span)),
                ),
                None => spec_append_directive(fs[j].attrs@) == Ok::<Option<(Seq<char>, Span)>,
                    Diagnostic,
                >(None),
            },
        decreases n - i,
    {
        let f = &fields[i];
        let k = classify(&f.ty);
        let value_setter = SetterPlan {
            method_name: clone_string(&f.name),
            field_index: i,
            kind: if k == ShapeClass::Repeated {
                SetterKind::ReplaceAll
            } else {
                SetterKind::WrapSet
            },
            arg_ty: match k {
                ShapeClass::Plain => render_type(&f.ty),
                ShapeClass::Optional => render_type(shape_inner(&f.ty)),
                ShapeClass::Repeated => {
                    let mut t = "std::vec::Vec<".to_owned();
                    let inner = render_type(shape_inner(&f.ty));
                    t.append(inner.as_str());
                    t.append(">");
                    t
                },
            },
        };
        if k == ShapeClass::Repeated {
            match &dirs[i] {
                Some(dir) => {
                    let appender = SetterPlan {
                        method_name: clone_string(&dir.name),
                        field_index: i,
                        kind: SetterKind::AppendOne,
                        arg_ty: render_type(shape_inner(&f.ty)),
                    };
                    setters.push(appender);
                    if !string_eq(&dir.name, &f.name) {
                        setters.push(value_setter);
                    }
                },
                None => setters.push(value_setter),
            }
        } else {
            setters.push(value_setter);
        }
        proof {
            assert(setters@.map_values(|s: SetterPlan| s@) =~~= setters_upto(fs, i as int + 1));
        }
        i = i + 1;
    }

    let mut companion = clone_string(&d.name);
    companion.append("Builder");
    let plan = BuilderPlan {
        subject: clone_string(&d.name),
        companion,
        vis: d.vis,
        fields: out_fields,
        setters,
    };
    proof {
        assert(plan@ =~~= spec_builder_plan(*d));
    }
    Ok(plan)
}

/// A structurally sound plan: every setter points at a planned field, and
/// its kind agrees with that field's shape.
pub open spec fn plan_wf(p: BuilderPlanV) -> bool {
    forall|k: int| 0 <= k < p.setters.len() ==> {
        let s = #[trigger] p.setters[k];
        0 <= s.field_index < p.fields.len() && (match s.kind {
            SetterKind::WrapSet => !(p.fields[s.field_index].shape is Repeated),
            SetterKind::ReplaceAll => p.fields[s.field_index].shape is Repeated,
            SetterKind::AppendOne => p.fields[s.field_index].shape is Repeated,
        })
    }
}

/// The shape of each planned companion field is the classification of the
/// source field it was planned from.
pub proof fn lemma_fields_upto_shapes(fields: Seq<FieldDescriptor>, n: int)
    requires
        0 <= n <= fields.len(),
    ensures
        fields_upto(fields, n).len() == n,
        forall|j: int| 0 <= j < n ==> #[trigger] fields_upto(fields, n)[j]
            == spec_companion_field(fields[j]),
    decreases n,
{
    if n > 0 {
        lemma_fields_upto_shapes(fields, n - 1);
    }
}

/// Every setter planned for the first `n` fields points at one of them,
/// with a kind that agrees with its shape.
pub proof fn lemma_setters_upto_wf(fields: Seq<FieldDescriptor>, n: int)
    requires
        0 <= n <= fields.len(),
    ensures
        forall|k: int| 0 <= k < setters_upto(fields, n).len() ==> {
            let s = #[trigger] setters_upto(fields, n)[k];
            0 <= s.field_index < n && (match s.kind {
                SetterKind::WrapSet => !(spec_classify(fields[s.field_index].ty) is Repeated),
                SetterKind::ReplaceAll => spec_classify(fields[s.field_index].ty) is Repeated,
                SetterKind::AppendOne => spec_classify(fields[s.field_index].ty) is Repeated,
            })
        },
    decreases n,
{
    if n > 0 {
        lemma_setters_upto_wf(fields, n - 1);
    }
}

/// The plan of a supported declaration is structurally sound.
pub proof fn lemma_spec_builder_plan_wf(d: Declaration)
    requires
        spec_supported(d),
    ensures
        plan_wf(spec_builder_plan(d)),
{
    let fields = spec_fields(d);
    let n = fields.len() as int;
    lemma_fields_upto_shapes(fields, n);
    lemma_setters_upto_wf(fields, n);
}

/// The visibility prefix emitted before an item or a field.
pub open spec fn render_vis(v: Visibility) -> Seq<char> {
    match v {
        Visibility::Public => "pub "@,
        Visibility::Inherited => Seq::<char>::empty(),
    }
}

/// The emitted declaration line of the first `n` companion fields.
pub open spec fn companion_fields_text_upto(fields: Seq<CompanionFieldV>, n: int) -> Seq<char>
    decreases n,
{
    if n <= 0 {
        Seq::<char>::empty()
    } else {
        companion_fields_text_upto(fields, n - 1) + "    "@ + render_vis(fields[n - 1].vis)
            + fields[n - 1].name + ": "@ + fields[n - 1].ty_text + ",\n"@
    }
}

/// The emitted companion type declaration.
pub open spec fn spec_render_companion_struct(p: BuilderPlanV) -> Seq<char> {
    render_vis(p.vis) + "struct "@ + p.companion + " {\n"@ + companion_fields_text_upto(
        p.fields,
        p.fields.len() as int,
    ) + "}\n"@
}

/// The initial value emitted for a companion field: absent for Plain and
/// Optional fields, empty for Repeated fields.
pub open spec fn init_expr(k: ShapeClass) -> Seq<char> {
    match k {
        ShapeClass::Repeated => "std::vec::Vec::new()"@,
        _ => "std::option::Option::None"@,
    }
}

/// The emitted initializer line of the first `n` companion fields.
pub open spec fn init_fields_text_upto(fields: Seq<CompanionFieldV>, n: int) -> Seq<char>
    decreases n,
{
    if n <= 0 {
        Seq::<char>::empty()
    } else {
        init_fields_text_upto(fields, n - 1) + "            "@ + fields[n - 1].name + ": "@
            + init_expr(fields[n - 1].shape) + ",\n"@
    }
}

/// The emitted `builder()` initializer on the subject type.
pub open spec fn spec_render_initializer(p: BuilderPlanV) -> Seq<char> {
    "impl "@ + p.subject + " {\n    pub fn builder() -> "@ + p.companion + " {\n        "@
        + p.companion + " {\n"@ + init_fields_text_upto(p.fields, p.fields.len() as int)
        + "        }\n    }\n}\n"@
}

/// The emitted recording statement of one setter.
pub open spec fn setter_stmt(s: SetterPlanV, fields: Seq<CompanionFieldV>) -> Seq<char> {
    let fname = fields[s.field_index].name;
    match s.kind {
        SetterKind::WrapSet => "self."@ + fname + " = std::option::Option::Some("@
            + s.method_name + ");"@,
        SetterKind::ReplaceAll => "self."@ + fname + " = "@ + s.method_name + ";"@,
        SetterKind::AppendOne => "self."@ + fname + ".push("@ + s.method_name + ");"@,
    }
}

/// The emitted text of the first `n` setter methods.
pub open spec fn setters_text_upto(
    setters: Seq<SetterPlanV>,
    fields: Seq<CompanionFieldV>,
    n: int,
) -> Seq<char>
    decreases n,
{
    if n <= 0 {
        Seq::<char>::empty()
    } else {
        setters_text_upto(setters, fields, n - 1) + "    fn "@ + setters[n - 1].method_name
            + "(&mut self, "@ + setters[n - 1].method_name + ": "@ + setters[n - 1].arg_ty
            + ") -> &mut Self {\n        "@ + setter_stmt(setters[n - 1], fields)
            + "\n        self\n    }\n"@
    }
}

/// The emitted setter block on the companion type.
pub open spec fn spec_render_setters(p: BuilderPlanV) -> Seq<char> {
    "impl "@ + p.companion + " {\n"@ + setters_text_upto(
        p.setters,
        p.fields,
        p.setters.len() as int,
    ) + "}\n"@
}

/// The emitted presence check of one companion field: only a Plain field
/// is checked, and its absence reports `<field> is need`.
pub open spec fn check_text(f: CompanionFieldV) -> Seq<char> {
    if f.shape is Plain {
        "        if self."@ + f.name + ".is_none() {\n            return std::result::Result::Err(\""@
            + f.name + " is need\".to_string().into());\n        }\n"@
    } else {
        Seq::<char>::empty()
    }
}

/// The emitted presence checks of the first `n` companion fields.
pub open spec fn checks_text_upto(fields: Seq<CompanionFieldV>, n: int) -> Seq<char>
    decreases n,
{
    if n <= 0 {
        Seq::<char>::empty()
    } else {
        checks_text_upto(fields, n - 1) + check_text(fields[n - 1])
    }
}

/// The emitted constructor line of one companion field.
pub open spec fn ctor_text(f: CompanionFieldV) -> Seq<char> {
    if f.shape is Plain {
        "            "@ + f.name + ": self."@ + f.name + ".as_ref().unwrap().clone(),\n"@
    } else {
        "            "@ + f.name + ": self."@ + f.name + ".clone(),\n"@
    }
}

/// The emitted constructor lines of the first `n` companion fields.
pub open spec fn ctor_text_upto(fields: Seq<CompanionFieldV>, n: int) -> Seq<char>
    decreases n,
{
    if n <= 0 {
        Seq::<char>::empty()
    } else {
        ctor_text_upto(fields, n - 1) + ctor_text(fields[n - 1])
    }
}

/// The emitted validating `build()` method on the companion type.
pub open spec fn spec_render_build(p: BuilderPlanV) -> Seq<char> {
    "impl "@ + p.companion
        + " {\n    pub fn build(&self) -> std::result::Result<"@ + p.subject
        + ", std::boxed::Box<dyn std::error::Error>> {\n"@ + checks_text_upto(
        p.fields,
        p.fields.len() as int,
    ) + "        let value = "@ + p.subject + " {\n"@ + ctor_text_upto(
        p.fields,
        p.fields.len() as int,
    ) + "        };\n        std::result::Result::Ok(value)\n    }\n}\n"@
}

/// The whole emitted builder derivation: the companion type, the subject's
/// initializer, the setter block and the validating constructor.
pub open spec fn spec_render_builder(p: BuilderPlanV) -> Seq<char> {
    spec_render_companion_struct(p) + spec_render_initializer(p) + spec_render_setters(p)
        + spec_render_build(p)
}

/// Emits the companion type declaration of a plan.
#[verifier::loop_isolation(false)]
pub fn render_companion_struct(p: &BuilderPlan) -> (r: String)
    ensures
        r@ == spec_render_companion_struct(p@),
{
    let mut out = String::new();
    match p.vis {
        Visibility::Public => out.append("pub "),
        Visibility::Inherited => (),
    }
    out.append("struct ");
    out.append(p.companion.as_str());
    out.append(" {\n");
    let ghost head = out@;
    proof {
        assert(head =~= render_vis(p@.vis) + "struct "@ + p@.companion + " {\n"@);
        assert(head + companion_fields_text_upto(p@.fields, 0) =~= head);
    }
    let mut i: usize = 0;
    while i < p.fields.len()
        invariant
            i <= p.fields@.len(),
            out@ == head + companion_fields_text_upto(p@.fields, i as int),
        decreases p.fields@.len() - i,
    {
        let f = &p.fields[i];
        out.append("    ");
        match f.vis {
            Visibility::Public => out.append("pub "),
            Visibility::Inherited => (),
        }
        out.append(f.name.as_str());
        out.append(": ");
        out.append(f.ty_text.as_str());
        out.append(",\n");
        proof {
            assert(p@.fields[i as int] == f@);
            assert(out@ =~= head + companion_fields_text_upto(p@.fields, i as int + 1));
        }
        i = i + 1;
    }
    out.append("}\n");
    proof {
        assert(out@ =~= spec_render_companion_struct(p@));
    }
    out
}

/// Emits the `builder()` initializer of a plan.
#[verifier::loop_isolation(false)]
pub fn render_initializer(p: &BuilderPlan) -> (r: String)
    ensures
        r@ == spec_render_initializer(p@),
{
    let mut out = "impl ".to_owned();
    out.append(p.subject.as_str());
    out.append(" {\n    pub fn builder() -> ");
    out.append(p.companion.as_str());
    out.append(" {\n        ");
    out.append(p.companion.as_str());
    out.append(" {\n");
    let ghost head = out@;
    proof {
        assert(head + init_fields_text_upto(p@.fields, 0) =~= head);
    }
    let mut i: usize = 0;
    while i < p.fields.len()
        invariant
            i <= p.fields@.len(),
            out@ == head + init_fields_text_upto(p@.fields, i as int),
        decreases p.fields@.len() - i,
    {
        let f = &p.fields[i];
        out.append("            ");
        out.append(f.name.as_str());
        out.append(": ");
        match f.shape {
            ShapeClass::Repeated => out.append("std::vec::Vec::new()"),
            _ => out.append("std::option::Option::None"),
        }
        out.append(",\n");
        proof {
            assert(p@.fields[i as int] == f@);
            assert(out@ =~= head + init_fields_text_upto(p@.fields, i as int + 1));
        }
        i = i + 1;
    }
    out.append("        }\n    }\n}\n");
    proof {
        assert(out@ =~= spec_render_initializer(p@));
    }
    out
}

/// Emits the setter block of a plan.
#[verifier::loop_isolation(false)]
#[verifier::rlimit(60)]
pub fn render_setters(p: &BuilderPlan) -> (r: String)
    requires
        plan_wf(p@),
    ensures
        r@ == spec_render_setters(p@),
{
    let mut out = "impl ".to_owned();
    out.append(p.companion.as_str());
    out.append(" {\n");
    let ghost head = out@;
    proof {
        assert(head + setters_text_upto(p@.setters, p@.fields, 0) =~= head);
    }
    let mut i: usize = 0;
    while i < p.setters.len()
        invariant
            i <= p.setters@.len(),
            out@ == head + setters_text_upto(p@.setters, p@.fields, i as int),
        decreases p.setters@.len() - i,
    {
        let s = &p.setters[i];
        proof {
            assert(p@.setters[i as int] == s@);
            assert(0 <= s@.field_index < p@.fields.len());
            assert(p@.fields.len() == p.fields@.len());
        }
        out.append("    fn ");
        out.append(s.method_name.as_str());
        out.append("(&mut self, ");
        out.append(s.method_name.as_str());
        out.append(": ");
        out.append(s.arg_ty.as_str());
        out.append(") -> &mut Self {\n        ");
        let fname = &p.fields[s.field_index].name;
        match s.kind {
            SetterKind::WrapSet => {
                out.append("self.");
                out.append(fname.as_str());
                out.append(" = std::option::Option::Some(");
                out.append(s.method_name.as_str());
                out.append(");");
            },
            SetterKind::ReplaceAll => {
                out.append("self.");
                out.append(fname.as_str());
                out.append(" = ");
                out.append(s.method_name.as_str());
                out.append(";");
            },
            SetterKind::AppendOne => {
                out.append("self.");
                out.append(fname.as_str());
                out.append(".push(");
                out.append(s.method_name.as_str());
                out.append(");");
            },
        }
        out.append("\n        self\n    }\n");
        proof {
            assert(p@.fields[s@.field_index] == p.fields@[s@.field_index]@);
            assert(out@ =~= head + setters_text_upto(p@.setters, p@.fields, i as int + 1));
        }
        i = i + 1;
    }
    out.append("}\n");
    proof {
        assert(out@ =~= spec_render_setters(p@));
    }
    out
}

/// Emits the validating `build()` method of a plan.
#[verifier::loop_isolation(false)]
pub fn render_build(p: &BuilderPlan) -> (r: String)
    ensures
        r@ == spec_render_build(p@),
{
    let mut out = "impl ".to_owned();
    out.append(p.companion.as_str());
    out.append(" {\n    pub fn build(&self) -> std::result::Result<");
    out.append(p.subject.as_str());
    out.append(", std::boxed::Box<dyn std::error::Error>> {\n");
    let ghost head = out@;
    proof {
        assert(head + checks_text_upto(p@.fields, 0) =~= head);
    }
    let mut i: usize = 0;
    while i < p.fields.len()
        invariant
            i <= p.fields@.len(),
            out@ == head + checks_text_upto(p@.fields, i as int),
        decreases p.fields@.len() - i,
    {
        let f = &p.fields[i];
        match f.shape {
            ShapeClass::Plain => {
                out.append("        if self.");
                out.append(f.name.as_str());
                out.append(".is_none() {\n            return std::result::Result::Err(\"");
                out.append(f.name.as_str());
                out.append(" is need\".to_string().into());\n        }\n");
            },
            _ => (),
        }
        proof {
            assert(p@.fields[i as int] == f@);
            assert(out@ =~= head + checks_text_upto(p@.fields, i as int + 1));
        }
        i = i + 1;
    }
    out.append("        let value = ");
    out.append(p.subject.as_str());
    out.append(" {\n");
    let ghost head2 = out@;
    proof {
        assert(head2 + ctor_text_upto(p@.fields, 0) =~= head2);
    }
    let mut i: usize = 0;
    while i < p.fields.len()
        invariant
            i <= p.fields@.len(),
            out@ == head2 + ctor_text_upto(p@.fields, i as int),
        decreases p.fields@.len() - i,
    {
        let f = &p.fields[i];
        out.append("            ");
        out.append(f.name.as_str());
        out.append(": self.");
        out.append(f.name.as_str());
        match f.shape {
            ShapeClass::Plain => out.append(".as_ref().unwrap().clone(),\n"),
            _ => out.append(".clone(),\n"),
        }
        proof {
            assert(p@.fields[i as int] == f@);
            assert(out@ =~= head2 + ctor_text_upto(p@.fields, i as int + 1));
        }
        i = i + 1;
    }
    out.append("        };\n        std::result::Result::Ok(value)\n    }\n}\n");
    proof {
        assert(out@ =~= spec_render_build(p@));
    }
    out
}

/// Derives the builder companion code of one declaration: the emitted
/// source fragment on success, the earliest diagnostic otherwise. The
/// derivation itself never fails on a supported declaration with
/// well-formed directives; a missing required field is only ever reported
/// by the *generated* `build()` at its own runtime.
pub fn derive_builder(d: &Declaration) -> (r: Result<String, Diagnostic>)
    ensures
        match r {
            Ok(code) => spec_builder_result(*d) is Ok && code@ == spec_render_builder(
                spec_builder_result(*d)->Ok_0,
            ),
            Err(e) => spec_builder_result(*d) == Err::<BuilderPlanV, _>(e),
        },
{
    let plan = match derive_builder_plan(d) {
        Ok(p) => p,
        Err(e) => {
            return Err(e);
        },
    };
    proof {
        lemma_spec_builder_plan_wf(*d);
    }
    let mut code = render_companion_struct(&plan);
    let part = render_initializer(&plan);
    code.append(part.as_str());
    let part = render_setters(&plan);
    code.append(part.as_str());
    let part = render_build(&plan);
    code.append(part.as_str());
    Ok(code)
}

/// Counting helper: without append directives, each of the first `n`
/// fields contributes exactly one companion field and one setter.
proof fn lemma_no_directive_counts(fields: Seq<FieldDescriptor>, n: int)
    requires
        0 <= n <= fields.len(),
        forall|i: int| 0 <= i < fields.len() ==> #[trigger] spec_append_directive(
            fields[i].attrs@,
        ) == Ok::<Option<(Seq<char>, Span)>, Diagnostic>(None),
    ensures
        fields_upto(fields, n).len() == n,
        setters_upto(fields, n).len() == n,
    decreases n,
{
    if n > 0 {
        lemma_no_directive_counts(fields, n - 1);
    }
}

/// Law: for a declaration with `N` named fields and no directives, the
/// builder plan holds exactly `N` companion fields and exactly `N` setter
/// methods (each setter taking a single argument by construction; each
/// companion field starts absent or empty, as `initial_slots` states).
pub proof fn lemma_builder_plan_counts(d: Declaration)
    requires
        spec_supported(d),
        forall|i: int| 0 <= i < spec_fields(d).len() ==> #[trigger] spec_append_directive(
            spec_fields(d)[i].attrs@,
        ) == Ok::<Option<(Seq<char>, Span)>, Diagnostic>(None),
    ensures
        spec_builder_plan(d).fields.len() == spec_fields(d).len(),
        spec_builder_plan(d).setters.len() == spec_fields(d).len(),
{
    lemma_no_directive_counts(spec_fields(d), spec_fields(d).len() as int);
}

/// The setters of the plan that address field number `fi`, among the
/// first `n` planned setters, in plan order.
pub open spec fn setters_for_field_upto(setters: Seq<SetterPlanV>, fi: int, n: int) -> Seq<
    SetterPlanV,
>
    decreases n,
{
    if n <= 0 {
        Seq::<SetterPlanV>::empty()
    } else {
        let prev = setters_for_field_upto(setters, fi, n - 1);
        if setters[n - 1].field_index == fi {
            prev.push(setters[n - 1])
        } else {
            prev
        }
    }
}

/// The setters of a plan that address field number `fi`, in plan order.
pub open spec fn setters_for_field(setters: Seq<SetterPlanV>, fi: int) -> Seq<SetterPlanV> {
    setters_for_field_upto(setters, fi, setters.len() as int)
}

/// Selection looks only at the first `n` elements.
proof fn lemma_sff_prefix(s1: Seq<SetterPlanV>, s2: Seq<SetterPlanV>, fi: int, n: int)
    requires
        n <= s1.len(),
        n <= s2.len(),
        forall|k: int| 0 <= k < n ==> s1[k] == s2[k],
    ensures
        setters_for_field_upto(s1, fi, n) == setters_for_field_upto(s2, fi, n),
    decreases n,
{
    if n > 0 {
        lemma_sff_prefix(s1, s2, fi, n - 1);
    }
}

/// Selection distributes over concatenation.
proof fn lemma_sff_concat(a: Seq<SetterPlanV>, b: Seq<SetterPlanV>, fi: int)
    ensures
        setters_for_field_upto(a + b, fi, (a + b).len() as int) == setters_for_field_upto(
            a,
            fi,
            a.len() as int,
        ) + setters_for_field_upto(b, fi, b.len() as int),
    decreases b.len(),
{
    if b.len() == 0 {
        assert(a + b =~= a);
        lemma_sff_prefix(a + b, a, fi, a.len() as int);
        assert(setters_for_field_upto(a, fi, a.len() as int) + setters_for_field_upto(
            b,
            fi,
            0,
        ) =~= setters_for_field_upto(a, fi, a.len() as int));
    } else {
        let b2 = b.drop_last();
        lemma_sff_concat(a, b2, fi);
        assert(forall|k: int| 0 <= k < (a + b2).len() ==> (a + b)[k] == (a + b2)[k]);
        lemma_sff_prefix(a + b, a + b2, fi, (a + b2).len() as int);
        assert(forall|k: int| 0 <= k < b2.len() ==> b[k] == b2[k]);
        lemma_sff_prefix(b, b2, fi, b2.len() as int);
        assert((a + b)[(a + b).len() - 1] == b[b.len() - 1]);
        if b[b.len() - 1].field_index == fi {
            assert(setters_for_field_upto(a, fi, a.len() as int) + setters_for_field_upto(
                b2,
                fi,
                b2.len() as int,
            ).push(b[b.len() - 1]) =~= (setters_for_field_upto(a, fi, a.len() as int)
                + setters_for_field_upto(b2, fi, b2.len() as int)).push(b[b.len() - 1]));
        }
    }
}

/// No element of the first `n` addresses `fi`: nothing is selected.
proof fn lemma_sff_none(s: Seq<SetterPlanV>, fi: int, n: int)
    requires
        n <= s.len(),
        forall|k: int| 0 <= k < n ==> #[trigger] s[k].field_index != fi,
    ensures
        setters_for_field_upto(s, fi, n) == Seq::<SetterPlanV>::empty(),
    decreases n,
{
    if n > 0 {
        lemma_sff_none(s, fi, n - 1);
    }
}

/// Every element of the first `n` addresses `fi`: all are selected.
proof fn lemma_sff_all(s: Seq<SetterPlanV>, fi: int, n: int)
    requires
        0 <= n <= s.len(),
        forall|k: int| 0 <= k < n ==> #[trigger] s[k].field_index == fi,
    ensures
        setters_for_field_upto(s, fi, n) == s.take(n),
    decreases n,
{
    if n > 0 {
        lemma_sff_all(s, fi, n - 1);
        assert(setters_for_field_upto(s, fi, n) =~= s.take(n));
    } else {
        assert(setters_for_field_upto(s, fi, 0) =~= s.take(0));
    }
}

/// The plan's setters that address field `fi` are exactly the setters
/// planned for that field, in order.
pub proof fn lemma_setters_for_field_exact(fields: Seq<FieldDescriptor>, fi: int, n: int)
    requires
        0 <= fi < n <= fields.len(),
    ensures
        setters_for_field(setters_upto(fields, n), fi) == spec_field_setters(fields[fi], fi),
    decreases n,
{
    let a = setters_upto(fields, n - 1);
    let b = spec_field_setters(fields[n - 1], n - 1);
    assert(setters_upto(fields, n) == a + b);
    lemma_sff_concat(a, b, fi);
    assert(forall|k: int| 0 <= k < b.len() ==> #[trigger] b[k].field_index == n - 1);
    if fi == n - 1 {
        lemma_setters_upto_wf(fields, n - 1);
        assert(forall|k: int| 0 <= k < a.len() ==> #[trigger] a[k].field_index != fi);
        lemma_sff_none(a, fi, a.len() as int);
        lemma_sff_all(b, fi, b.len() as int);
        assert(b.take(b.len() as int) =~= b);
        assert(Seq::<SetterPlanV>::empty() + b =~= b);
    } else {
        lemma_setters_for_field_exact(fields, fi, n - 1);
        lemma_sff_none(b, fi, b.len() as int);
        assert(setters_for_field_upto(a, fi, a.len() as int) + Seq::<SetterPlanV>::empty()
            =~= setters_for_field_upto(a, fi, a.len() as int));
    }
}

/// Law: a Repeated field with an append directive naming `x`, where `x`
/// differs from the field's own name, gets exactly two setters: the
/// element appender named `x` and the whole-sequence setter under the
/// field's name, in that order.
pub proof fn lemma_append_directive_both_setters(d: Declaration, fi: int, x: Seq<char>, sp: Span)
    requires
        spec_supported(d),
        0 <= fi < spec_fields(d).len(),
        (spec_classify(spec_fields(d)[fi].ty) is Repeated),
        spec_append_directive(spec_fields(d)[fi].attrs@) == Ok::<_, Diagnostic>(Some((x, sp))),
        x != spec_fields(d)[fi].name@,
    ensures
        ({
            let ss = setters_for_field(spec_builder_plan(d).setters, fi);
            ss.len() == 2 && ss[0].kind == SetterKind::AppendOne && ss[0].method_name == x
                && ss[1].kind == SetterKind::ReplaceAll && ss[1].method_name == spec_fields(
                d,
            )[fi].name@ && ss[0].field_index == fi && ss[1].field_index == fi
        }),
{
    lemma_setters_for_field_exact(spec_fields(d), fi, spec_fields(d).len() as int);
}

/// Law: a Repeated field whose append directive names the field itself
/// gets exactly one setter, the element appender — not two.
pub proof fn lemma_append_name_equal_single_setter(d: Declaration, fi: int, x: Seq<char>, sp: Span)
    requires
        spec_supported(d),
        0 <= fi < spec_fields(d).len(),
        (spec_classify(spec_fields(d)[fi].ty) is Repeated),
        spec_append_directive(spec_fields(d)[fi].attrs@) == Ok::<_, Diagnostic>(Some((x, sp))),
        x == spec_fields(d)[fi].name@,
    ensures
        ({
            let ss = setters_for_field(spec_builder_plan(d).setters, fi);
            ss.len() == 1 && ss[0].kind == SetterKind::AppendOne && ss[0].method_name == x
                && ss[0].field_index == fi
        }),
{
    lemma_setters_for_field_exact(spec_fields(d), fi, spec_fields(d).len() as int);
}

} // verus!
