//! The Cap'n Proto bridge: a capability for types that can render
//! themselves as Cap'n Proto schema text, with an adapter that hands
//! the rendering out as a plain value.

use vstd::prelude::*;

verus! {

/// Types that can render themselves as Cap'n Proto schema text.
pub trait Capnp {
    /// The Cap'n Proto schema text of this value.
    fn capnp(&self) -> String;
}

/// An adapter that renders the wrapped value through [`Capnp`].
#[derive(Clone, Copy)]
pub struct ViaCapnp<'a, T: Capnp>(pub &'a T);

impl<'a, T: Capnp> ViaCapnp<'a, T> {
    /// The wrapped value's Cap'n Proto schema text.
    pub fn render(&self) -> String {
        self.0.capnp()
    }
}

} // verus!
