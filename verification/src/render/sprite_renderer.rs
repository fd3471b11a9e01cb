use vstd::prelude::*;

verus! {

/// The number of a sprite sheet held by the renderer.
#[derive(Copy, Clone, Debug, PartialEq, Eq, Structural)]
pub struct SheetIndex(pub u32);

} // verus!
