//! A verified model of the *generated* builder's runtime behaviour: the
//! companion value's recorded state, the effect of each setter kind, and
//! the validating `build()` step.
//!
//! The emitted source code is text; this module states, over the same plan
//! the emitter works from, what that code does when it runs: which setter
//! records what, and exactly when `build()` succeeds or which field it
//! names when it fails. Recorded values are modelled as strings.

use vstd::prelude::*;
use vstd::string::StringExecFns;
use crate::analyzer::ShapeClass;
use crate::builder_gen::{plan_wf, BuilderPlan, CompanionFieldV, SetterKind};
use crate::strutil::{clone_string, clone_string_vec};

verus! {

/// The recorded state of one companion field at runtime.
pub enum Slot {
    /// Nothing recorded yet (Plain and Optional fields start here).
    Missing,
    /// A recorded value (Plain and Optional fields after their setter).
    Present { value: String },
    /// The recorded elements of a Repeated field, in call order.
    Elems { items: Vec<String> },
}

/// The mathematical content of one slot.
#[verifier::ext_equal]
pub enum SlotV {
    Missing,
    Present { value: Seq<char> },
    Elems { items: Seq<Seq<char>> },
}

impl View for Slot {
    type V = SlotV;

    open spec fn view(&self) -> SlotV {
        match self {
            Slot::Missing => SlotV::Missing,
            Slot::Present { value } => SlotV::Present { value: value@ },
            Slot::Elems { items } => SlotV::Elems {
                items: items@.map_values(|s: String| s@),
            },
        }
    }
}

/// The runtime state of one companion value: one slot per planned field,
/// in field order.
pub struct BuilderState {
    pub slots: Vec<Slot>,
}

impl View for BuilderState {
    type V = Seq<SlotV>;

    open spec fn view(&self) -> Seq<SlotV> {
        self.slots@.map_values(|s: Slot| s@)
    }
}

/// One field of the finished subject value, as `build()` hands it out.
#[derive(Debug)]
pub enum BuiltField {
    /// A required value (Plain fields).
    One { value: String },
    /// An optional value, absent when the setter was never called.
    Maybe { value: Option<String> },
    /// The recorded elements, possibly empty.
    Many { items: Vec<String> },
}

/// The mathematical content of one built field.
#[verifier::ext_equal]
pub enum BuiltFieldV {
    One { value: Seq<char> },
    Maybe { value: Option<Seq<char>> },
    Many { items: Seq<Seq<char>> },
}

impl View for BuiltField {
    type V = BuiltFieldV;

    open spec fn view(&self) -> BuiltFieldV {
        match self {
            BuiltField::One { value } => BuiltFieldV::One { value: value@ },
            BuiltField::Maybe { value } => BuiltFieldV::Maybe {
                value: match value {
                    Some(v) => Some(v@),
                    None => None,
                },
            },
            BuiltField::Many { items } => BuiltFieldV::Many {
                items: items@.map_values(|s: String| s@),
            },
        }
    }
}

/// The argument handed to one setter call: one value for recording or
/// appending setters, a whole sequence for replacing setters.
pub enum SetterArg {
    One { value: String },
    Many { items: Vec<String> },
}

/// Whether a slot's state is one a field of this shape can be in.
pub open spec fn slot_matches(shape: ShapeClass, s: SlotV) -> bool {
    match shape {
        ShapeClass::Repeated => s is Elems,
        _ => s is Missing || s is Present,
    }
}

/// A well-formed runtime state for a planned field list: one matching slot
/// per field.
pub open spec fn state_wf(fields: Seq<CompanionFieldV>, slots: Seq<SlotV>) -> bool {
    slots.len() == fields.len() && forall|i: int|
        0 <= i < fields.len() ==> slot_matches(fields[i].shape, #[trigger] slots[i])
}

/// The initial slot of a field: absent for Plain and Optional fields,
/// empty for Repeated fields.
pub open spec fn initial_slot(shape: ShapeClass) -> SlotV {
    match shape {
        ShapeClass::Repeated => SlotV::Elems { items: Seq::<Seq<char>>::empty() },
        _ => SlotV::Missing,
    }
}

/// The initial state of a companion value, every field at its initial
/// absent or empty state.
pub open spec fn initial_slots(fields: Seq<CompanionFieldV>) -> Seq<SlotV> {
    Seq::new(fields.len(), |i: int| initial_slot(fields[i].shape))
}

/// Creates the initial companion state of a plan, as the generated
/// `builder()` initializer does: every field absent or empty.
#[verifier::loop_isolation(false)]
pub fn new_state(plan: &BuilderPlan) -> (s: BuilderState)
    ensures
        s@ == initial_slots(plan@.fields),
        state_wf(plan@.fields, s@),
{
    let mut slots: Vec<Slot> = Vec::new();
    let mut i: usize = 0;
    while i < plan.fields.len()
        invariant
            i <= plan.fields@.len(),
            slots@.map_values(|s: Slot| s@) =~= initial_slots(plan@.fields).take(i as int),
        decreases plan.fields@.len() - i,
    {
        match plan.fields[i].shape {
            ShapeClass::Repeated => slots.push(Slot::Elems { items: Vec::new() }),
            _ => slots.push(Slot::Missing),
        }
        proof {
            assert(plan@.fields[i as int] == plan.fields@[i as int]@);
            assert(slots@.map_values(|s: Slot| s@) =~~= initial_slots(plan@.fields).take(
                i as int + 1,
            ));
        }
        i = i + 1;
    }
    let s = BuilderState { slots };
    proof {
        assert(s@ =~~= initial_slots(plan@.fields));
    }
    s
}

/// The slot recorded by one setter call on the previous slot state.
pub open spec fn spec_apply(kind: SetterKind, slot: SlotV, arg_one: Seq<char>, arg_many: Seq<
    Seq<char>,
>) -> SlotV {
    match kind {
        SetterKind::WrapSet => SlotV::Present { value: arg_one },
        SetterKind::ReplaceAll => SlotV::Elems { items: arg_many },
        SetterKind::AppendOne => SlotV::Elems { items: slot->Elems_items.push(arg_one) },
    }
}

/// Whether an argument fits a setter kind: recording and appending setters
/// take one value, the replacing setter takes a whole sequence.
pub open spec fn arg_matches(kind: SetterKind, arg: SetterArg) -> bool {
    match kind {
        SetterKind::ReplaceAll => arg is Many,
        _ => arg is One,
    }
}

/// Applies setter number `si` of the plan to the companion state, as the
/// generated setter method does. Only the addressed field's slot changes:
/// a recording setter marks the value present, a replacing setter installs
/// the whole sequence, and an appending setter adds one element at the end
/// in call order. Setters never fail.
#[verifier::loop_isolation(false)]
pub fn apply_setter(state: &mut BuilderState, plan: &BuilderPlan, si: usize, arg: SetterArg)
    requires
        plan_wf(plan@),
        state_wf(plan@.fields, old(state)@),
        si < plan@.setters.len(),
        arg_matches(plan@.setters[si as int].kind, arg),
    ensures
        state_wf(plan@.fields, final(state)@),
        final(state)@ == old(state)@.update(
            plan@.setters[si as int].field_index,
            spec_apply(
                plan@.setters[si as int].kind,
                old(state)@[plan@.setters[si as int].field_index],
                match arg {
                    SetterArg::One { value } => value@,
                    SetterArg::Many { items } => Seq::<char>::empty(),
                },
                match arg {
                    SetterArg::Many { items } => items@.map_values(|s: String| s@),
                    SetterArg::One { value } => Seq::<Seq<char>>::empty(),
                },
            ),
        ),
{
    let s = &plan.setters[si];
    proof {
        assert(plan@.setters[si as int] == s@);
        assert(0 <= s@.field_index < plan@.fields.len());
        assert(state@[s@.field_index] == state.slots@[s@.field_index]@);
    }
    let fi = s.field_index;
    match (s.kind, arg) {
        (SetterKind::WrapSet, SetterArg::One { value }) => {
            state.slots.set(fi, Slot::Present { value });
        },
        (SetterKind::ReplaceAll, SetterArg::Many { items }) => {
            state.slots.set(fi, Slot::Elems { items });
        },
        (SetterKind::AppendOne, SetterArg::One { value }) => {
            let slot = state.slots.remove(fi);
            match slot {
                Slot::Elems { mut items } => {
                    items.push(value);
                    state.slots.insert(fi, Slot::Elems { items });
                },
                _ => {
                    proof {
                        assert(false);
                    }
                },
            }
        },
        _ => {
            proof {
                assert(false);
            }
        },
    }
    proof {
        assert(final(state)@ =~~= old(state)@.update(
            plan@.setters[si as int].field_index,
            spec_apply(
                plan@.setters[si as int].kind,
                old(state)@[plan@.setters[si as int].field_index],
                match arg {
                    SetterArg::One { value } => value@,
                    SetterArg::Many { items } => Seq::<char>::empty(),
                },
                match arg {
                    SetterArg::Many { items } => items@.map_values(|s: String| s@),
                    SetterArg::One { value } => Seq::<Seq<char>>::empty(),
                },
            ),
        ));
    }
}

/// Calls the appending setter number `si` once for each element of
/// `items`, in order, as chained calls of the generated appender do.
#[verifier::loop_isolation(false)]
pub fn append_all(state: &mut BuilderState, plan: &BuilderPlan, si: usize, items: &Vec<String>)
    requires
        plan_wf(plan@),
        state_wf(plan@.fields, old(state)@),
        si < plan@.setters.len(),
        plan@.setters[si as int].kind is AppendOne,
    ensures
        state_wf(plan@.fields, final(state)@),
        final(state)@ == old(state)@.update(
            plan@.setters[si as int].field_index,
            SlotV::Elems {
                items: old(state)@[plan@.setters[si as int].field_index]->Elems_items
                    + items@.map_values(|s: String| s@),
            },
        ),
{
    let ghost fi = plan@.setters[si as int].field_index;
    let ghost base = old(state)@[fi]->Elems_items;
    let mut i: usize = 0;
    while i < items.len()
        invariant
            i <= items@.len(),
            state@ == old(state)@.update(
                fi,
                SlotV::Elems { items: base + items@.map_values(|s: String| s@).take(i as int) },
            ),
            state_wf(plan@.fields, state@),
        decreases items@.len() - i,
    {
        proof {
            if i == 0 {
                assert(state@ =~~= old(state)@.update(
                    fi,
                    SlotV::Elems {
                        items: base + items@.map_values(|s: String| s@).take(0),
                    },
                ));
            }
        }
        apply_setter(state, plan, si, SetterArg::One { value: items[i].clone() });
        proof {
            assert(state@ =~~= old(state)@.update(
                fi,
                SlotV::Elems {
                    items: base + items@.map_values(|s: String| s@).take(i as int + 1),
                },
            ));
        }
        i = i + 1;
    }
    proof {
        assert(items@.map_values(|s: String| s@).take(items@.len() as int) =~= items@.map_values(
            |s: String| s@,
        ));
        assert(final(state)@ =~~= old(state)@.update(
            fi,
            SlotV::Elems { items: base + items@.map_values(|s: String| s@) },
        ));
    }
}

/// The first Plain field, in declaration order, whose slot is still
/// missing, scanning from field `i` on.
pub open spec fn first_missing_from(
    fields: Seq<CompanionFieldV>,
    slots: Seq<SlotV>,
    i: int,
) -> Option<int>
    decreases fields.len() - i,
{
    if i < 0 || i >= fields.len() {
        None
    } else if fields[i].shape is Plain && slots[i] is Missing {
        Some(i)
    } else {
        first_missing_from(fields, slots, i + 1)
    }
}

/// The first missing required field of a companion state, if any.
pub open spec fn spec_first_missing(fields: Seq<CompanionFieldV>, slots: Seq<SlotV>) -> Option<
    int,
> {
    first_missing_from(fields, slots, 0)
}

/// The runtime error message naming a missing required field.
pub open spec fn missing_message(name: Seq<char>) -> Seq<char> {
    name + " is need"@
}

/// The finished value of one field.
pub open spec fn built_field(shape: ShapeClass, slot: SlotV) -> BuiltFieldV {
    match shape {
        ShapeClass::Plain => BuiltFieldV::One { value: slot->Present_value },
        ShapeClass::Optional => BuiltFieldV::Maybe {
            value: match slot {
                SlotV::Present { value } => Some(value),
                _ => None,
            },
        },
        ShapeClass::Repeated => BuiltFieldV::Many { items: slot->Elems_items },
    }
}

/// What the generated `build()` returns on a companion state: the finished
/// fields in declaration order, or the message naming the first missing
/// required field.
pub open spec fn spec_build(fields: Seq<CompanionFieldV>, slots: Seq<SlotV>) -> Result<
    Seq<BuiltFieldV>,
    Seq<char>,
> {
    match spec_first_missing(fields, slots) {
        Some(i) => Err(missing_message(fields[i].name)),
        None => Ok(Seq::new(fields.len(), |i: int| built_field(fields[i].shape, slots[i]))),
    }
}

/// Runs the validating `build()` step of the generated code on a
/// companion state: every Plain field must be present, while absent
/// Optional fields and empty Repeated fields are legitimate final values.
#[verifier::loop_isolation(false)]
pub fn build(state: &BuilderState, plan: &BuilderPlan) -> (r: Result<Vec<BuiltField>, String>)
    requires
        state_wf(plan@.fields, state@),
    ensures
        match r {
            Ok(v) => spec_build(plan@.fields, state@) == Ok::<_, Seq<char>>(
                v@.map_values(|b: BuiltField| b@),
            ),
            Err(m) => spec_build(plan@.fields, state@) == Err::<Seq<BuiltFieldV>, _>(m@),
        },
{
    let n = plan.fields.len();
    let mut i: usize = 0;
    while i < n
        invariant
            i <= n,
            n == plan@.fields.len(),
            first_missing_from(plan@.fields, state@, 0) == first_missing_from(
                plan@.fields,
                state@,
                i as int,
            ),
        decreases n - i,
    {
        proof {
            assert(plan@.fields[i as int] == plan.fields@[i as int]@);
            assert(state@[i as int] == state.slots@[i as int]@);
        }
        let is_plain = match plan.fields[i].shape {
            ShapeClass::Plain => true,
            _ => false,
        };
        if is_plain {
            let is_missing = match &state.slots[i] {
                Slot::Missing => true,
                _ => false,
            };
            if is_missing {
                let mut m = clone_string(&plan.fields[i].name);
                m.append(" is need");
                return Err(m);
            }
        }
        i = i + 1;
    }
    let mut out: Vec<BuiltField> = Vec::new();
    let mut i: usize = 0;
    while i < n
        invariant
            i <= n,
            n == plan@.fields.len(),
            spec_first_missing(plan@.fields, state@) is None,
            out@.len() == i,
            forall|j: int| 0 <= j < i ==> #[trigger] out@[j]@ == built_field(
                plan@.fields[j].shape,
                state@[j],
            ),
        decreases n - i,
    {
        proof {
            assert(plan@.fields[i as int] == plan.fields@[i as int]@);
            assert(state@[i as int] == state.slots@[i as int]@);
            assert(first_missing_from(plan@.fields, state@, 0) == first_missing_from(
                plan@.fields,
                state@,
                i as int,
            )) by {
                lemma_first_missing_stable(plan@.fields, state@, i as int);
            }
        }
        let b = match plan.fields[i].shape {
            ShapeClass::Plain => {
                match &state.slots[i] {
                    Slot::Present { value } => BuiltField::One { value: clone_string(value) },
                    _ => {
                        proof {
                            assert(false);
                        }
                        BuiltField::One { value: String::new() }
                    },
                }
            },
            ShapeClass::Optional => {
                match &state.slots[i] {
                    Slot::Present { value } => BuiltField::Maybe {
                        value: Some(clone_string(value)),
                    },
                    _ => BuiltField::Maybe { value: None },
                }
            },
            ShapeClass::Repeated => {
                match &state.slots[i] {
                    Slot::Elems { items } => {
                        let cv = clone_string_vec(items);
                        proof {
                            assert(cv@.map_values(|s: String| s@) =~~= items@.map_values(
                                |s: String| s@,
                            ));
                        }
                        BuiltField::Many { items: cv }
                    },
                    _ => {
                        proof {
                            assert(false);
                        }
                        BuiltField::Many { items: Vec::new() }
                    },
                }
            },
        };
        let ghost bv = b@;
        out.push(b);
        proof {
            assert(bv == built_field(plan@.fields[i as int].shape, state@[i as int]));
        }
        i = i + 1;
    }
    proof {
        assert(out@.map_values(|b: BuiltField| b@) =~~= Seq::new(
            plan@.fields.len(),
            |j: int| built_field(plan@.fields[j].shape, state@[j]),
        ));
    }
    Ok(out)
}

/// When no required field is missing before position `i`, the scan from
/// the start agrees with the scan from `i`.
proof fn lemma_first_missing_stable(fields: Seq<CompanionFieldV>, slots: Seq<SlotV>, i: int)
    requires
        0 <= i <= fields.len(),
        first_missing_from(fields, slots, 0) is None,
    ensures
        first_missing_from(fields, slots, i) is None,
    decreases i,
{
    if i > 0 {
        lemma_first_missing_prefix(fields, slots, 0, i);
    }
}

/// A scan that finds nothing from position `i` finds nothing from any
/// later position.
proof fn lemma_first_missing_prefix(fields: Seq<CompanionFieldV>, slots: Seq<SlotV>, i: int, j: int)
    requires
        0 <= i <= j <= fields.len(),
        first_missing_from(fields, slots, i) is None,
    ensures
        first_missing_from(fields, slots, j) is None,
    decreases j - i,
{
    if i < j {
        lemma_first_missing_prefix(fields, slots, i + 1, j);
    }
}

/// When no Plain field's slot is missing from position `i` on, the scan
/// from `i` finds nothing.
proof fn lemma_no_missing(fields: Seq<CompanionFieldV>, slots: Seq<SlotV>, i: int)
    requires
        0 <= i <= fields.len(),
        forall|j: int| i <= j < fields.len() ==> !(fields[j].shape is Plain
            && #[trigger] slots[j] is Missing),
    ensures
        first_missing_from(fields, slots, i) is None,
    decreases fields.len() - i,
{
    if i < fields.len() {
        lemma_no_missing(fields, slots, i + 1);
    }
}

/// The scan finds exactly the one missing Plain field when everything
/// before it is in order.
proof fn lemma_first_missing_finds(
    fields: Seq<CompanionFieldV>,
    slots: Seq<SlotV>,
    i: int,
    k: int,
)
    requires
        0 <= i <= k < fields.len(),
        fields[k].shape is Plain,
        slots[k] is Missing,
        forall|j: int| i <= j < k ==> !(fields[j].shape is Plain && #[trigger] slots[j]
            is Missing),
    ensures
        first_missing_from(fields, slots, i) == Some(k),
    decreases k - i,
{
    if i < k {
        lemma_first_missing_finds(fields, slots, i + 1, k);
    }
}

/// Law: `build()` on a companion state with every Plain field set and
/// every Optional and Repeated field left untouched succeeds, producing
/// the recorded required values, absent optional values and empty
/// sequences, in declaration order.
pub proof fn lemma_build_plain_set_succeeds(fields: Seq<CompanionFieldV>, slots: Seq<SlotV>)
    requires
        state_wf(fields, slots),
        forall|i: int| 0 <= i < fields.len() ==> match fields[i].shape {
            ShapeClass::Plain => #[trigger] slots[i] is Present,
            ShapeClass::Optional => slots[i] is Missing,
            ShapeClass::Repeated => slots[i] == SlotV::Elems {
                items: Seq::<Seq<char>>::empty(),
            },
        },
    ensures
        spec_build(fields, slots) is Ok,
        spec_build(fields, slots)->Ok_0.len() == fields.len(),
        forall|i: int| 0 <= i < fields.len() ==> #[trigger] spec_build(fields, slots)->Ok_0[i]
            == (match fields[i].shape {
            ShapeClass::Plain => BuiltFieldV::One { value: slots[i]->Present_value },
            ShapeClass::Optional => BuiltFieldV::Maybe { value: None },
            ShapeClass::Repeated => BuiltFieldV::Many { items: Seq::<Seq<char>>::empty() },
        }),
{
    lemma_no_missing(fields, slots, 0);
}

/// Law: `build()` on a companion state whose one and only missing Plain
/// field is number `k` fails, naming exactly that field.
pub proof fn lemma_build_missing_plain_fails(
    fields: Seq<CompanionFieldV>,
    slots: Seq<SlotV>,
    k: int,
)
    requires
        state_wf(fields, slots),
        0 <= k < fields.len(),
        fields[k].shape is Plain,
        slots[k] is Missing,
        forall|j: int| 0 <= j < fields.len() && j != k ==> !(fields[j].shape is Plain
            && #[trigger] slots[j] is Missing),
    ensures
        spec_build(fields, slots) == Err::<Seq<BuiltFieldV>, _>(missing_message(fields[k].name)),
{
    lemma_first_missing_finds(fields, slots, 0, k);
}

/// Law: when `build()` succeeds, a Repeated field whose slot holds the
/// recorded elements comes out as exactly that sequence, in call order.
/// Together with `append_all`, `k` appender calls from the initial empty
/// state therefore yield a sequence of length `k` holding the appended
/// elements in order.
pub proof fn lemma_build_repeated_collects(
    fields: Seq<CompanionFieldV>,
    slots: Seq<SlotV>,
    fi: int,
    items: Seq<Seq<char>>,
)
    requires
        state_wf(fields, slots),
        0 <= fi < fields.len(),
        (fields[fi].shape is Repeated),
        slots[fi] == (SlotV::Elems { items: items }),
        (spec_first_missing(fields, slots) is None),
    ensures
        (spec_build(fields, slots) is Ok),
        spec_build(fields, slots)->Ok_0.len() == fields.len(),
        spec_build(fields, slots)->Ok_0[fi] == (BuiltFieldV::Many { items: items }),
{
}

} // verus!
