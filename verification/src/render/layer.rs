use vstd::prelude::*;

verus! {

/// Drawing layers, from the bottom up.
#[derive(Copy, Clone, Debug, PartialEq, Eq, Structural)]
pub enum Layer {
    BelowAll,
    Background,
    AfterBackground,
    Tiles,
    AfterTiles,
    Weapons,
    AfterWeapons,
    Ships,
    AfterShips,
    Explosions,
    Gauges,
    AfterGauges,
    Chat,
    AfterChat,
    TopMost,
}

} // verus!
