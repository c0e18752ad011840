//! Quadrants and the four-quadrant map.
//!
//! Grids are indexed `[x][y]`: the first index runs left to right, the second
//! top to bottom. Quadrant 0 is the top-left corner of the 16x16 map,
//! quadrant 1 the top-right, 2 the bottom-left and 3 the bottom-right.
use vstd::prelude::*;
use crate::fragment::{
    Fragment, FragmentView, rotate, rotated_fragment, fragment_wf, has_village,
    lemma_counted_village_exists, lemma_rotation_keeps_village,
};
use crate::grid::{grid_view, Rotation};
use crate::loader::FragmentPool;
use crate::select::{Selection, draw_selection};
use crate::tiles::{Item, Terrain};

verus! {

/// One corner of the map: a rotated fragment and, for each tile, whether
/// each of the four players has explored it.
#[derive(Clone, Copy, Debug)]
pub struct MapQuad {
    pub terrain_spaces: [[Terrain; 8]; 8],
    pub item_spaces: [[Item; 8]; 8],
    pub explored_spaces: [[[bool; 4]; 8]; 8],
}

/// The four quadrants, in the corner order of this module.
#[derive(Clone, Copy, Debug)]
pub struct GameMap {
    pub quads: [MapQuad; 4],
}

/// Player `p` has explored tile `(x, y)` of `q`.
pub open spec fn explored(q: MapQuad, x: int, y: int, p: int) -> bool {
    q.explored_spaces@[x]@[y]@[p]
}

/// First village at or after flat index `k` (`8 * x + y`) of `g`.
pub open spec fn first_village_from(g: Seq<Seq<Terrain>>, k: int) -> Option<int>
    decreases 64 - k,
{
    if k >= 64 || k < 0 {
        None
    } else if g[k / 8][k % 8] == Terrain::Village {
        Some(k)
    } else {
        first_village_from(g, k + 1)
    }
}

/// Where the first village of `q` stands, scanning `x` then `y`.
pub open spec fn village_pos(q: MapQuad) -> (int, int) {
    let k = first_village_from(grid_view(q.terrain_spaces), 0)->Some_0;
    (k / 8, k % 8)
}

/// The centre of the whole map in the local coordinates of quadrant `i`.
pub open spec fn centre_in(i: int) -> (int, int) {
    if i == 0 {
        (8, 8)
    } else if i == 1 {
        (0, 8)
    } else if i == 2 {
        (8, 0)
    } else {
        (0, 0)
    }
}

/// Absolute difference of two integers.
pub open spec fn gap(a: int, b: int) -> int {
    if a >= b {
        a - b
    } else {
        b - a
    }
}

/// Squared distance from the map's centre to tile `(x, y)` of quadrant `i`.
/// It orders tiles as their Euclidean distance does.
pub open spec fn centre_distance(i: int, x: int, y: int) -> int {
    let (cx, cy) = centre_in(i);
    gap(cx, x) * gap(cx, x) + gap(cy, y) * gap(cy, y)
}

/// How far the village of quadrant `i` lies from the map's centre.
pub open spec fn start_distance(m: GameMap, i: int) -> int {
    centre_distance(i, village_pos(m.quads@[i]).0, village_pos(m.quads@[i]).1)
}

/// Nearest village among quadrants `0..k`, the lowest quadrant on a tie.
pub open spec fn nearest_among(m: GameMap, k: int) -> int
    decreases k,
{
    if k <= 1 {
        0
    } else {
        let b = nearest_among(m, k - 1);
        if start_distance(m, k - 1) < start_distance(m, b) {
            k - 1
        } else {
            b
        }
    }
}

/// The quadrant whose village is nearest the map's centre.
pub open spec fn nearest_quad(m: GameMap) -> int {
    nearest_among(m, 4)
}

/// Every quadrant of `m` has a village.
pub open spec fn all_have_villages(m: GameMap) -> bool {
    forall|i: int| 0 <= i < 4 ==> has_village(grid_view(#[trigger] m.quads@[i].terrain_spaces))
}

/// The tiles of `m` are fragments `idx` of `pool`, turned by `rots`.
pub open spec fn assembled_from(
    m: GameMap,
    pool: Seq<FragmentView>,
    idx: Seq<usize>,
    rots: Seq<Rotation>,
) -> bool {
    &&& idx.len() == 4
    &&& rots.len() == 4
    &&& forall|i: int| 0 <= i < 4 ==> #[trigger] idx[i] < 32
    &&& forall|i: int|
        0 <= i < 4 ==> (#[trigger] m.quads@[i]).fragment_view() == rotated_fragment(
            pool[idx[i] as int],
            rots[i],
        )
}

/// No player has explored any tile of `m`.
pub open spec fn map_unexplored(m: GameMap) -> bool {
    forall|i: int| 0 <= i < 4 ==> (#[trigger] m.quads@[i]).unexplored()
}

/// The first village at or after `k` exists exactly when some village does,
/// and it is one.
pub proof fn lemma_first_village(g: Seq<Seq<Terrain>>, k: int)
    requires
        0 <= k <= 64,
    ensures
        first_village_from(g, k) matches Some(j) ==> k <= j < 64 && g[j / 8][j % 8]
            == Terrain::Village,
        (exists|j: int| k <= j < 64 && #[trigger] g[j / 8][j % 8] == Terrain::Village)
            ==> first_village_from(g, k) is Some,
    decreases 64 - k,
{
    if k < 64 {
        lemma_first_village(g, k + 1);
        if g[k / 8][k % 8] != Terrain::Village {
            if exists|j: int| k <= j < 64 && #[trigger] g[j / 8][j % 8] == Terrain::Village {
                let j = choose|j: int| k <= j < 64 && #[trigger] g[j / 8][j % 8] == Terrain::Village;
                assert(j != k);
                assert(k + 1 <= j);
            }
        }
    }
}

/// Where a quadrant with a village has its first village: a tile of the
/// grid that is a village.
pub proof fn lemma_village_pos_is_village(q: MapQuad)
    requires
        has_village(grid_view(q.terrain_spaces)),
    ensures
        0 <= village_pos(q).0 < 8,
        0 <= village_pos(q).1 < 8,
        q.terrain_spaces@[village_pos(q).0]@[village_pos(q).1] == Terrain::Village,
{
    let g = grid_view(q.terrain_spaces);
    lemma_first_village(g, 0);
    let (x, y) = choose|x: int, y: int| 0 <= x < 8 && 0 <= y < 8 && #[trigger] g[x][y] == Terrain::Village;
    let j = 8 * x + y;
    assert(j / 8 == x && j % 8 == y);
    assert(g[j / 8][j % 8] == Terrain::Village);
}

impl MapQuad {
    /// The fragment this quadrant shows.
    pub open spec fn fragment_view(&self) -> FragmentView {
        FragmentView { terrain: grid_view(self.terrain_spaces), items: grid_view(self.item_spaces) }
    }

    /// No player has explored any tile.
    pub open spec fn unexplored(&self) -> bool {
        forall|x: int, y: int, p: int|
            0 <= x < 8 && 0 <= y < 8 && 0 <= p < 4 ==> !#[trigger] explored(*self, x, y, p)
    }

    /// A quadrant showing `f`, explored by nobody.
    pub fn from_fragment(f: &Fragment) -> (q: MapQuad)
        ensures
            q.fragment_view() == f@,
            q.unexplored(),
    {
        MapQuad { terrain_spaces: f.terrain, item_spaces: f.items, explored_spaces: [[[false; 4]; 8]; 8] }
    }

    /// The first village, scanning `x` then `y`; `None` when there is none.
    pub fn get_village_pos(&self) -> (r: Option<(usize, usize)>)
        ensures
            r is Some <==> has_village(grid_view(self.terrain_spaces)),
            r matches Some(p) ==> p.0 < 8 && p.1 < 8 && (p.0 as int, p.1 as int) == village_pos(*self)
                && self.terrain_spaces@[p.0 as int]@[p.1 as int] == Terrain::Village,
    {
        let ghost g = grid_view(self.terrain_spaces);
        proof {
            lemma_first_village(g, 0);
            if has_village(g) {
                let (x, y) = choose|x: int, y: int|
                    0 <= x < 8 && 0 <= y < 8 && #[trigger] g[x][y] == Terrain::Village;
                let j = 8 * x + y;
                assert(j / 8 == x && j % 8 == y);
                assert(g[j / 8][j % 8] == Terrain::Village);
            }
        }
        let mut k: usize = 0;
        while k < 64
            invariant
                k <= 64,
                g == grid_view(self.terrain_spaces),
                first_village_from(g, 0) == first_village_from(g, k as int),
            decreases 64 - k,
        {
            if self.terrain_spaces[k / 8][k % 8] == Terrain::Village {
                return Some((k / 8, k % 8));
            }
            k = k + 1;
        }
        None
    }
}

fn centre_distance_of(i: usize, x: usize, y: usize) -> (d: usize)
    requires
        i < 4,
        x < 8,
        y < 8,
    ensures
        d == centre_distance(i as int, x as int, y as int),
{
    let (cx, cy): (usize, usize) = if i == 0 {
        (8, 8)
    } else if i == 1 {
        (0, 8)
    } else if i == 2 {
        (8, 0)
    } else {
        (0, 0)
    };
    let dx: usize = if cx >= x { cx - x } else { x - cx };
    let dy: usize = if cy >= y { cy - y } else { y - cy };
    assert(dx * dx <= 64) by (nonlinear_arith)
        requires
            dx <= 8,
    ;
    assert(dy * dy <= 64) by (nonlinear_arith)
        requires
            dy <= 8,
    ;
    dx * dx + dy * dy
}

/// The nearest village depends on the terrain of the quadrants alone.
pub proof fn lemma_nearest_follows_terrain(m1: GameMap, m2: GameMap)
    requires
        forall|i: int| 0 <= i < 4 ==> #[trigger] m1.quads@[i].terrain_spaces == m2.quads@[i].terrain_spaces,
    ensures
        nearest_quad(m1) == nearest_quad(m2),
{
    assert forall|i: int| 0 <= i < 4 implies start_distance(m1, i) == start_distance(m2, i) by {
        assert(m1.quads@[i].terrain_spaces == m2.quads@[i].terrain_spaces);
    }
    assert(nearest_among(m1, 1) == nearest_among(m2, 1));
    assert(nearest_among(m1, 2) == nearest_among(m2, 2));
    assert(nearest_among(m1, 3) == nearest_among(m2, 3));
}

impl GameMap {
    /// The quadrant whose village lies nearest the map's centre; on a tie,
    /// the lowest quadrant.
    pub fn nearest_village_quad(&self) -> (n: usize)
        requires
            all_have_villages(*self),
        ensures
            n == nearest_quad(*self),
            n < 4,
            forall|i: int| 0 <= i < 4 ==> start_distance(*self, n as int) <= #[trigger] start_distance(*self, i),
            forall|i: int| 0 <= i < n ==> start_distance(*self, n as int) < #[trigger] start_distance(*self, i),
    {
        let mut best: usize = 0;
        let mut best_d: usize = 0;
        let mut i: usize = 0;
        while i < 4
            invariant
                i <= 4,
                all_have_villages(*self),
                i > 0 ==> {
                    &&& best == nearest_among(*self, i as int)
                    &&& best < i
                    &&& best_d == start_distance(*self, best as int)
                    &&& forall|j: int| 0 <= j < i ==> start_distance(*self, best as int) <= #[trigger] start_distance(*self, j)
                    &&& forall|j: int| 0 <= j < best ==> start_distance(*self, best as int) < #[trigger] start_distance(*self, j)
                },
            decreases 4 - i,
        {
            assert(has_village(grid_view(self.quads@[i as int].terrain_spaces)));
            if let Some((x, y)) = self.quads[i].get_village_pos() {
                let d = centre_distance_of(i, x, y);
                if i == 0 || d < best_d {
                    best = i;
                    best_d = d;
                }
            }
            i = i + 1;
        }
        best
    }

    /// Marks the village nearest the map's centre explored for every player.
    /// Nothing else changes.
    pub fn seed_start_village(&mut self)
        requires
            all_have_villages(*old(self)),
        ensures
            forall|i: int| 0 <= i < 4 ==> #[trigger] final(self).quads@[i].terrain_spaces == old(self).quads@[i].terrain_spaces
                && final(self).quads@[i].item_spaces == old(self).quads@[i].item_spaces,
            forall|i: int, x: int, y: int, p: int|
                0 <= i < 4 && 0 <= x < 8 && 0 <= y < 8 && 0 <= p < 4 ==> #[trigger] explored(final(self).quads@[i], x, y, p)
                    == (explored(old(self).quads@[i], x, y, p) || (i == nearest_quad(*old(self))
                    && (x, y) == village_pos(old(self).quads@[i]))),
    {
        let n = self.nearest_village_quad();
        assert(has_village(grid_view(self.quads@[n as int].terrain_spaces)));
        if let Some((x, y)) = self.quads[n].get_village_pos() {
            let mut quads = self.quads;
            let mut quad = quads[n];
            let mut grid = quad.explored_spaces;
            let mut column = grid[x];
            column[y] = [true; 4];
            grid[x] = column;
            quad.explored_spaces = grid;
            quads[n] = quad;
            self.quads = quads;
        }
    }

    /// A fresh map from `pool`: four distinct fragments, each turned by a
    /// rotation of its own, with the village nearest the map's centre
    /// explored for every player and nothing else explored.
    pub fn new(pool: &FragmentPool) -> (m: GameMap)
        requires
            pool.wf(),
        ensures
            exists|idx: Seq<usize>, rots: Seq<Rotation>|
                idx.no_duplicates() && #[trigger] assembled_from(m, pool@, idx, rots),
            all_have_villages(m),
            forall|i: int, x: int, y: int, p: int|
                0 <= i < 4 && 0 <= x < 8 && 0 <= y < 8 && 0 <= p < 4 ==> #[trigger] explored(m.quads@[i], x, y, p)
                    == (i == nearest_quad(m) && (x, y) == village_pos(m.quads@[i])),
    {
        let sel = draw_selection(32, 4);
        let mut m = GameMap::assemble(pool, &sel);
        let ghost fresh = m;
        proof {
            assert forall|i: int| 0 <= i < 4 implies has_village(grid_view(#[trigger] m.quads@[i].terrain_spaces)) by {
                let f = pool@[sel.indices@[i] as int];
                assert(fragment_wf(f));
                lemma_counted_village_exists(f.terrain, 64);
                lemma_rotation_keeps_village(f.terrain, sel.rotations@[i]);
                assert(m.quads@[i].fragment_view().terrain == grid_view(m.quads@[i].terrain_spaces));
            }
        }
        m.seed_start_village();
        proof {
            lemma_nearest_follows_terrain(fresh, m);
            assert forall|i: int| 0 <= i < 4 implies (#[trigger] m.quads@[i]).fragment_view() == fresh.quads@[i].fragment_view() by {
                assert(m.quads@[i].terrain_spaces == fresh.quads@[i].terrain_spaces);
            }
            assert(assembled_from(m, pool@, sel.indices@, sel.rotations@));
            assert forall|i: int, x: int, y: int, p: int|
                0 <= i < 4 && 0 <= x < 8 && 0 <= y < 8 && 0 <= p < 4 implies !explored(fresh.quads@[i], x, y, p) by {
                assert(fresh.quads@[i].unexplored());
            }
            assert forall|i: int| 0 <= i < 4 implies village_pos(#[trigger] m.quads@[i]) == village_pos(fresh.quads@[i]) by {
                assert(m.quads@[i].terrain_spaces == fresh.quads@[i].terrain_spaces);
            }
            assert forall|i: int| 0 <= i < 4 implies has_village(grid_view(#[trigger] m.quads@[i].terrain_spaces)) by {
                assert(m.quads@[i].terrain_spaces == fresh.quads@[i].terrain_spaces);
                assert(has_village(grid_view(fresh.quads@[i].terrain_spaces)));
            }
        }
        m
    }


    /// Builds the map from the chosen fragments: quadrant `i` is fragment
    /// `sel.indices[i]` turned by `sel.rotations[i]`, explored by nobody.
    pub fn assemble(pool: &FragmentPool, sel: &Selection) -> (m: GameMap)
        requires
            pool.wf(),
            sel.indices@.len() == 4,
            sel.rotations@.len() == 4,
            forall|i: int| 0 <= i < 4 ==> #[trigger] sel.indices@[i] < 32,
        ensures
            assembled_from(m, pool@, sel.indices@, sel.rotations@),
            map_unexplored(m),
    {
        let q0 = MapQuad::from_fragment(&rotate(pool.get(sel.indices[0]), sel.rotations[0]));
        let q1 = MapQuad::from_fragment(&rotate(pool.get(sel.indices[1]), sel.rotations[1]));
        let q2 = MapQuad::from_fragment(&rotate(pool.get(sel.indices[2]), sel.rotations[2]));
        let q3 = MapQuad::from_fragment(&rotate(pool.get(sel.indices[3]), sel.rotations[3]));
        let m = GameMap { quads: [q0, q1, q2, q3] };
        assert(m.quads@[0] == q0 && m.quads@[1] == q1 && m.quads@[2] == q2 && m.quads@[3] == q3);
        m
    }
}

} // verus!
