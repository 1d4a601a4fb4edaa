//! The failure taxonomy of the binding engine.

use vstd::prelude::*;

verus! {

/// A structured failure of translation, assembly or rendering.
#[derive(Debug, Clone, Copy, PartialEq, Eq)]
pub enum Error {
    /// A declared type shape the type resolver does not recognize.
    UnresolvedType,
    /// A parameter lacking an identifier or a type annotation.
    MalformedParameter,
    /// A getter, setter or static member encountered during assembly.
    UnsupportedMember,
    /// A `this` type encountered at render time with no enclosing class bound.
    MissingClassContext,
    /// A union, `null`, `void` or `undefined` value surviving to render time.
    RenderableInvariantViolation,
}

} // verus!
