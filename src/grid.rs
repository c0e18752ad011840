//! Square 8x8 grids and their rotations by multiples of a quarter turn.
use vstd::prelude::*;

verus! {

/// Side length of every grid.
pub const SIDE: usize = 8;

/// A clockwise rotation by a multiple of 90 degrees.
#[derive(Clone, Copy, Debug, PartialEq, Eq, Structural)]
pub enum Rotation {
    Deg0,
    Deg90,
    Deg180,
    Deg270,
}

/// The rows of a grid, each as a sequence of cells.
pub open spec fn grid_view<T>(g: [[T; 8]; 8]) -> Seq<Seq<T>> {
    Seq::new(8, |r: int| g@[r]@)
}

/// An 8x8 grid in its sequence form.
pub open spec fn is_square<T>(s: Seq<Seq<T>>) -> bool {
    &&& s.len() == 8
    &&& forall|r: int| 0 <= r < 8 ==> #[trigger] s[r].len() == 8
}

/// Where cell `(r, c)` of a grid rotated by `rot` is read from in the unrotated grid.
pub open spec fn source_cell(rot: Rotation, r: int, c: int) -> (int, int) {
    match rot {
        Rotation::Deg0 => (r, c),
        Rotation::Deg90 => (7 - c, r),
        Rotation::Deg180 => (7 - r, 7 - c),
        Rotation::Deg270 => (c, 7 - r),
    }
}

/// Where cell `(r, c)` of the unrotated grid lands after rotating by `rot`.
/// A quarter turn transposes and then reverses each row; three quarters
/// transpose and then reverse each column.
pub open spec fn dest_cell(rot: Rotation, r: int, c: int) -> (int, int) {
    match rot {
        Rotation::Deg0 => (r, c),
        Rotation::Deg90 => (c, 7 - r),
        Rotation::Deg180 => (7 - r, 7 - c),
        Rotation::Deg270 => (7 - c, r),
    }
}

/// The grid `s` rotated by `rot`.
pub open spec fn rotated<T>(s: Seq<Seq<T>>, rot: Rotation) -> Seq<Seq<T>> {
    Seq::new(
        8,
        |r: int| Seq::new(8, |c: int| s[source_cell(rot, r, c).0][source_cell(rot, r, c).1]),
    )
}

fn source_index(rot: Rotation, r: usize, c: usize) -> (res: (usize, usize))
    requires
        r < 8,
        c < 8,
    ensures
        res.0 < 8,
        res.1 < 8,
        (res.0 as int, res.1 as int) == source_cell(rot, r as int, c as int),
{
    match rot {
        Rotation::Deg0 => (r, c),
        Rotation::Deg90 => (7 - c, r),
        Rotation::Deg180 => (7 - r, 7 - c),
        Rotation::Deg270 => (c, 7 - r),
    }
}

/// Rotates one layer of a fragment. Every layer goes through this one
/// function, so all layers of a fragment undergo the same permutation.
pub fn rotate_grid<T: Copy>(g: &[[T; 8]; 8], rot: Rotation) -> (out: [[T; 8]; 8])
    ensures
        grid_view(out) == rotated(grid_view(*g), rot),
{
    let ghost want = rotated(grid_view(*g), rot);
    let mut out: [[T; 8]; 8] = *g;
    let mut r: usize = 0;
    while r < SIDE
        invariant
            r <= 8,
            want == rotated(grid_view(*g), rot),
            forall|i: int, j: int| 0 <= i < r && 0 <= j < 8 ==> out@[i]@[j] == want[i][j],
        decreases 8 - r,
    {
        let mut row: [T; 8] = g[0];
        let mut c: usize = 0;
        while c < SIDE
            invariant
                r < 8,
                c <= 8,
                want == rotated(grid_view(*g), rot),
                forall|j: int| 0 <= j < c ==> row@[j] == want[r as int][j],
            decreases 8 - c,
        {
            let (sr, sc) = source_index(rot, r, c);
            row[c] = g[sr][sc];
            c += 1;
        }
        out[r] = row;
        r += 1;
    }
    assert(grid_view(out) =~~= want);
    out
}

/// A rotated grid is again 8x8, whatever the rotation.
pub proof fn lemma_rotation_keeps_shape<T>(s: Seq<Seq<T>>, rot: Rotation)
    ensures
        is_square(rotated(s, rot)),
{
}

/// Four quarter turns give back the grid they started from.
pub proof fn lemma_four_quarter_turns<T>(s: Seq<Seq<T>>)
    requires
        is_square(s),
    ensures
        rotated(rotated(rotated(rotated(s, Rotation::Deg90), Rotation::Deg90), Rotation::Deg90), Rotation::Deg90) == s,
{
    let t = rotated(rotated(rotated(rotated(s, Rotation::Deg90), Rotation::Deg90), Rotation::Deg90), Rotation::Deg90);
    assert(t =~~= s);
}

/// Four three-quarter turns give back the grid they started from.
pub proof fn lemma_four_three_quarter_turns<T>(s: Seq<Seq<T>>)
    requires
        is_square(s),
    ensures
        rotated(rotated(rotated(rotated(s, Rotation::Deg270), Rotation::Deg270), Rotation::Deg270), Rotation::Deg270) == s,
{
    let t = rotated(rotated(rotated(rotated(s, Rotation::Deg270), Rotation::Deg270), Rotation::Deg270), Rotation::Deg270);
    assert(t =~~= s);
}

/// A half turn undoes itself.
pub proof fn lemma_half_turn_twice<T>(s: Seq<Seq<T>>)
    requires
        is_square(s),
    ensures
        rotated(rotated(s, Rotation::Deg180), Rotation::Deg180) == s,
{
    assert(rotated(rotated(s, Rotation::Deg180), Rotation::Deg180) =~~= s);
}

/// A half turn is two quarter turns.
pub proof fn lemma_two_quarter_turns<T>(s: Seq<Seq<T>>)
    ensures
        rotated(rotated(s, Rotation::Deg90), Rotation::Deg90) == rotated(s, Rotation::Deg180),
{
    assert(rotated(rotated(s, Rotation::Deg90), Rotation::Deg90) =~~= rotated(s, Rotation::Deg180));
}

/// A three-quarter turn undoes a quarter turn.
pub proof fn lemma_quarter_then_three_quarter<T>(s: Seq<Seq<T>>)
    requires
        is_square(s),
    ensures
        rotated(rotated(s, Rotation::Deg90), Rotation::Deg270) == s,
{
    assert(rotated(rotated(s, Rotation::Deg90), Rotation::Deg270) =~~= s);
}

/// Cell `(r, c)` of the unrotated grid is found at `dest_cell(rot, r, c)` of the
/// rotated grid.
pub proof fn lemma_dest_cell<T>(s: Seq<Seq<T>>, rot: Rotation, r: int, c: int)
    requires
        0 <= r < 8,
        0 <= c < 8,
    ensures
        0 <= dest_cell(rot, r, c).0 < 8,
        0 <= dest_cell(rot, r, c).1 < 8,
        rotated(s, rot)[dest_cell(rot, r, c).0][dest_cell(rot, r, c).1] == s[r][c],
{
}

} // verus!
