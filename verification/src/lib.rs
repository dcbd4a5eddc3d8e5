//! Multi-target interface code generation: renders a language-neutral
//! interface description (methods with ordered, typed parameters and
//! returns, plus a 32-byte resource identifier) into declaration text
//! for several target languages.
//!
//! Every backend follows one shared contract: the resource identifier
//! is hex-encoded into the generated names ([`hexid`]), parameter and
//! return lists are rendered in their declared order ([`text`]), a
//! self-reference resolves to the enclosing interface's own
//! identifier, ownership wrapping is applied before nullability
//! wrapping, and a reserved construct is reported, never a panic.
//! The cross-cutting laws are stated and proved in [`laws`].

use vstd::prelude::*;

pub mod c;
pub mod c_scoped;
pub mod capnp;
pub mod go;
pub mod haxe;
pub mod hexid;
pub mod laws;
pub mod model;
pub mod rustgen;
pub mod swift;
pub mod text;
pub mod ts;
pub mod wit;

verus! {

/// Errors a backend can report instead of aborting.
#[derive(Clone, Copy, PartialEq, Eq, Structural, Debug)]
pub enum GenError {
    /// The argument or resource kind is reserved / unknown to this backend.
    UnsupportedResourceKind,
    /// Two methods of one interface share a name.
    DuplicateMethodName,
}

} // verus!
