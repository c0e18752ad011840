//! A fragment: an 8x8 terrain layer and an 8x8 item layer describing the same
//! tiles cell for cell.
use vstd::prelude::*;
use crate::grid::{
    grid_view, is_square, rotated, rotate_grid, dest_cell, Rotation, lemma_four_quarter_turns,
    lemma_four_three_quarter_turns, lemma_half_turn_twice, lemma_dest_cell,
};
use crate::tiles::{Item, Terrain};

verus! {

/// One pre-authored block of the map. Cell `[r][c]` of both layers is the
/// same tile.
#[derive(Clone, Copy, Debug)]
pub struct Fragment {
    pub terrain: [[Terrain; 8]; 8],
    pub items: [[Item; 8]; 8],
}

/// Both layers of a fragment as grids of sequences.
pub struct FragmentView {
    pub terrain: Seq<Seq<Terrain>>,
    pub items: Seq<Seq<Item>>,
}

impl View for Fragment {
    type V = FragmentView;

    open spec fn view(&self) -> FragmentView {
        FragmentView { terrain: grid_view(self.terrain), items: grid_view(self.items) }
    }
}

/// Both layers of `v` rotated by the same rotation.
pub open spec fn rotated_fragment(v: FragmentView, rot: Rotation) -> FragmentView {
    FragmentView { terrain: rotated(v.terrain, rot), items: rotated(v.items, rot) }
}

/// Villages among the first `k` cells of `g` in row-major order.
pub open spec fn villages_in_prefix(g: Seq<Seq<Terrain>>, k: int) -> nat
    decreases k,
{
    if k <= 0 {
        0
    } else {
        villages_in_prefix(g, k - 1) + if g[(k - 1) / 8][(k - 1) % 8] == Terrain::Village {
            1nat
        } else {
            0nat
        }
    }
}

/// How many village cells the 8x8 grid `g` holds.
pub open spec fn village_count(g: Seq<Seq<Terrain>>) -> nat {
    villages_in_prefix(g, 64)
}

/// Some cell of `g` is a village.
pub open spec fn has_village(g: Seq<Seq<Terrain>>) -> bool {
    exists|r: int, c: int| 0 <= r < 8 && 0 <= c < 8 && #[trigger] g[r][c] == Terrain::Village
}

/// A fragment fit for a pool: exactly one village, the anchor of a start.
pub open spec fn fragment_wf(v: FragmentView) -> bool {
    village_count(v.terrain) == 1
}

/// Rotates both layers of `f` by `rot`, moving each tile's terrain and item
/// together.
pub fn rotate(f: &Fragment, rot: Rotation) -> (r: Fragment)
    ensures
        r@ == rotated_fragment(f@, rot),
{
    let terrain = rotate_grid(&f.terrain, rot);
    let items = rotate_grid(&f.items, rot);
    Fragment { terrain, items }
}

/// Counts the village cells of a terrain layer.
pub fn count_villages(g: &[[Terrain; 8]; 8]) -> (n: usize)
    ensures
        n == village_count(grid_view(*g)),
{
    let mut n: usize = 0;
    let mut k: usize = 0;
    while k < 64
        invariant
            k <= 64,
            n == villages_in_prefix(grid_view(*g), k as int),
            n <= k,
        decreases 64 - k,
    {
        if g[k / 8][k % 8] == Terrain::Village {
            n = n + 1;
        }
        k = k + 1;
    }
    n
}

/// A grid with at least one counted village has a village cell.
pub proof fn lemma_counted_village_exists(g: Seq<Seq<Terrain>>, k: int)
    requires
        0 <= k <= 64,
        villages_in_prefix(g, k) > 0,
    ensures
        has_village(g),
    decreases k,
{
    let r = (k - 1) / 8;
    let c = (k - 1) % 8;
    if g[r][c] == Terrain::Village {
        assert(g[r][c] == Terrain::Village);
    } else {
        lemma_counted_village_exists(g, k - 1);
    }
}

/// Rotation keeps a village on the grid.
pub proof fn lemma_rotation_keeps_village(g: Seq<Seq<Terrain>>, rot: Rotation)
    requires
        has_village(g),
    ensures
        has_village(rotated(g, rot)),
{
    let (r, c) = choose|r: int, c: int|
        0 <= r < 8 && 0 <= c < 8 && #[trigger] g[r][c] == Terrain::Village;
    lemma_dest_cell(g, rot, r, c);
    let d = dest_cell(rot, r, c);
    assert(rotated(g, rot)[d.0][d.1] == Terrain::Village);
}

/// Four quarter turns of a fragment give back the fragment, in both layers.
pub proof fn lemma_fragment_four_quarter_turns(f: Fragment)
    ensures
        rotated_fragment(
            rotated_fragment(rotated_fragment(rotated_fragment(f@, Rotation::Deg90), Rotation::Deg90), Rotation::Deg90),
            Rotation::Deg90,
        ) == f@,
{
    lemma_four_quarter_turns(f@.terrain);
    lemma_four_quarter_turns(f@.items);
}

/// Four three-quarter turns of a fragment give back the fragment, in both
/// layers.
pub proof fn lemma_fragment_four_three_quarter_turns(f: Fragment)
    ensures
        rotated_fragment(
            rotated_fragment(rotated_fragment(rotated_fragment(f@, Rotation::Deg270), Rotation::Deg270), Rotation::Deg270),
            Rotation::Deg270,
        ) == f@,
{
    lemma_four_three_quarter_turns(f@.terrain);
    lemma_four_three_quarter_turns(f@.items);
}

/// Rotating a fragment by a half turn twice gives back the fragment.
pub proof fn lemma_fragment_half_turn_twice(f: Fragment)
    ensures
        rotated_fragment(rotated_fragment(f@, Rotation::Deg180), Rotation::Deg180) == f@,
{
    lemma_half_turn_twice(f@.terrain);
    lemma_half_turn_twice(f@.items);
}

/// Whatever the rotation, the terrain and the item of tile `(r, c)` land on
/// the same cell, `dest_cell(rot, r, c)`, and the rotated fragment is 8x8.
pub proof fn lemma_layers_move_together(f: Fragment, rot: Rotation, r: int, c: int)
    requires
        0 <= r < 8,
        0 <= c < 8,
    ensures
        is_square(rotated_fragment(f@, rot).terrain),
        is_square(rotated_fragment(f@, rot).items),
        ({
            let d = dest_cell(rot, r, c);
            &&& 0 <= d.0 < 8
            &&& 0 <= d.1 < 8
            &&& rotated_fragment(f@, rot).terrain[d.0][d.1] == f@.terrain[r][c]
            &&& rotated_fragment(f@, rot).items[d.0][d.1] == f@.items[r][c]
        }),
{
    lemma_dest_cell(f@.terrain, rot, r, c);
    lemma_dest_cell(f@.items, rot, r, c);
}

} // verus!
