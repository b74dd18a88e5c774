use vstd::prelude::*;

/// Synthesized records for the inline-record variants of tagged unions.
pub mod hoist;
/// The null-safety backend: data classes, sealed classes, `T?` optionals.
pub mod kotlin;
/// The user rename table from origin type names to target type names.
pub mod mapping;
/// The language-neutral model of type definitions.
pub mod model;
/// The case-class backend: case classes, sealed traits, `Option[T]`.
pub mod scala;
/// Text helpers shared by the backends: quoting, joining, identifiers.
pub mod text;

verus! {

/// The generator version named in a file's header.
pub const GENERATOR_VERSION: &'static str = "0.1.0";

} // verus!
