//! The WIT bridge: a capability for types that can render themselves
//! as WebAssembly Interface Types text, with an adapter that hands
//! the rendering out as a plain value.

use vstd::prelude::*;

verus! {

/// Types that can render themselves as WIT text.
pub trait ToWIT {
    /// The WIT text of this value.
    fn to_wit(&self) -> String;
}

/// An adapter that renders the wrapped value through [`ToWIT`].
#[derive(Clone, Copy)]
pub struct ViaWIT<'a, T: ToWIT>(pub &'a T);

impl<'a, T: ToWIT> ViaWIT<'a, T> {
    /// The wrapped value's WIT text.
    pub fn render(&self) -> String {
        self.0.to_wit()
    }
}

} // verus!
