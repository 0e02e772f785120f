//! A structural code-derivation engine.
//!
//! Given a structural description of one data declaration (its name, its
//! generic parameters, its ordered field list and the directives attached to
//! fields and to the declaration itself), the engine synthesizes companion
//! source code implementing two independent capabilities:
//!
//! * a fluent *builder* for incrementally constructing values of the type
//!   (module [`builder_gen`]), together with a verified model of the
//!   generated builder's runtime behaviour (module [`builder_rt`]);
//! * a custom textual *debug* formatter, with generic bounds inferred so that
//!   only type parameters actually read as data are constrained
//!   (module [`debug_gen`]).
//!
//! The host compilation environment is an external collaborator: it parses
//! real source text, hands the engine a [`model::Declaration`], and receives
//! back a fragment of source code or a structured [`model::Diagnostic`].

pub mod model;
pub mod strutil;
pub mod analyzer;
pub mod directives;
pub mod extract;
pub mod builder_gen;
pub mod builder_rt;
pub mod debug_gen;
pub mod subject;
