//! The two cell layers of a map tile.
use vstd::prelude::*;

verus! {

/// What the ground of a tile is.
#[derive(Clone, Copy, Debug, Default, PartialEq, Eq, Structural)]
pub enum Terrain {
    #[default]
    Prarie,
    Water,
    Desert,
    Mountain,
    Village,
}

/// What lies on a tile; `Nothing` leaves the terrain alone to describe it.
#[derive(Clone, Copy, Debug, Default, PartialEq, Eq, Structural)]
pub enum Item {
    #[default]
    Nothing,
    Key,
    Scroll,
    Horse,
    Apple,
    Carrot,
    Fish,
    Gemstone,
    Temple,
    Village,
}

} // verus!
