//! A sample subject of the kind the derivations describe: a trait carrying
//! an associated type, and a generic declaration whose fields exercise the
//! marker wrapper, boxed parameters and an associated-type projection. The
//! tests describe this very declaration to the engine and check what the
//! two derivations make of it.

use vstd::prelude::*;

verus! {

/// A carrier of an associated type: a field typed `T::Value` denotes a
/// projection through the parameter `T`, which bound inference turns into
/// its own `where` predicate.
pub trait Trait {
    type Value;
}

/// The demonstration subject: one parameter held only behind the marker
/// wrapper and in boxes, one parameter read inside a sequence, and a
/// projection field.
pub struct Field<T: Trait, U> {
    bitmask: u8,
    s: core::marker::PhantomData<T>,
    ss: Box<T>,
    f: Box<Vec<U>>,
    values: Vec<<T as Trait>::Value>,
}

} // verus!
