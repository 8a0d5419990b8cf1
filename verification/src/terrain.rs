//! Kinds of ground and how high they rise.

use vstd::prelude::*;

verus! {

#[derive(Clone, Copy, Debug, PartialEq, Eq, Hash, Structural)]
pub enum Terrain {
    Plains,
    Forest,
    Hill,
    Mountain,
    Water,
}

/// The elevation of a kind of ground in pixels.
pub open spec fn elevation(terrain: Terrain) -> int {
    match terrain {
        Terrain::Water => 0,
        Terrain::Plains => 3,
        Terrain::Forest => 12,
        Terrain::Hill => 32,
        Terrain::Mountain => 60,
    }
}

/// Elevation in pixels. It lifts the top of a hex and sets the height of its cliff
/// wall: water is flat, mountains tower.
pub fn terrain_height(terrain: Terrain) -> (pixels: i64)
    ensures
        pixels == elevation(terrain),
{
    match terrain {
        Terrain::Water => 0,
        Terrain::Plains => 3,
        Terrain::Forest => 12,
        Terrain::Hill => 32,
        Terrain::Mountain => 60,
    }
}

/// Water is the only flat ground, and a mountain is higher than every other ground.
pub proof fn law_water_is_flat_and_mountains_tower(terrain: Terrain)
    ensures
        elevation(terrain) >= 0,
        elevation(terrain) == 0 <==> terrain == Terrain::Water,
        terrain != Terrain::Mountain ==> elevation(terrain) < elevation(Terrain::Mountain),
{
}

} // verus!
