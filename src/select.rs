//! Choosing which fragments make up a map, and how each is turned.
use vstd::prelude::*;
use crate::grid::Rotation;
use rand::Rng;

verus! {

/// A request that no pool can serve.
#[derive(Clone, Copy, Debug, PartialEq, Eq, Structural)]
pub enum SelectError {
    /// `count` distinct fragments were asked of a pool of `pool_size`.
    PoolTooSmall { pool_size: usize, count: usize },
}

/// The fragments chosen for a map and the rotation of each.
#[derive(Debug)]
pub struct Selection {
    pub indices: Vec<usize>,
    pub rotations: Vec<Rotation>,
}

/// Relies on `rand::Rng::gen_range` over `rand::thread_rng`: a value in
/// `0..bound`; it panics only on an empty range, which `requires` leaves out.
#[verifier::external_body]
fn random_below(bound: usize) -> (r: usize)
    requires
        bound > 0,
    ensures
        r < bound,
{
    rand::thread_rng().gen_range(0..bound)
}

/// The values `0..n`, in order.
pub open spec fn range_seq(n: nat) -> Seq<usize> {
    Seq::new(n, |i: int| i as usize)
}

/// Drawing without replacement from `cands`: each draw, taken modulo the
/// number of candidates left, picks one of them and removes it.
pub open spec fn picks(cands: Seq<usize>, draws: Seq<usize>) -> Seq<usize>
    decreases draws.len(),
{
    if draws.len() == 0 || cands.len() == 0 {
        Seq::empty()
    } else {
        let k = (draws[0] as int) % (cands.len() as int);
        seq![cands[k as int]] + picks(cands.remove(k as int), draws.drop_first())
    }
}

/// The rotation that a draw stands for: the draw modulo four quarter turns.
pub open spec fn rotation_of(n: usize) -> Rotation {
    if n % 4 == 0 {
        Rotation::Deg0
    } else if n % 4 == 1 {
        Rotation::Deg90
    } else if n % 4 == 2 {
        Rotation::Deg180
    } else {
        Rotation::Deg270
    }
}

/// Turns a draw into a rotation.
pub fn rotation_from_draw(n: usize) -> (r: Rotation)
    ensures
        r == rotation_of(n),
{
    match n % 4 {
        0 => Rotation::Deg0,
        1 => Rotation::Deg90,
        2 => Rotation::Deg180,
        _ => Rotation::Deg270,
    }
}

/// Drawing from distinct candidates gives distinct values, each a candidate,
/// one per draw while candidates last.
pub proof fn lemma_picks_distinct(cands: Seq<usize>, draws: Seq<usize>)
    requires
        cands.no_duplicates(),
    ensures
        picks(cands, draws).no_duplicates(),
        picks(cands, draws).len() == if draws.len() <= cands.len() {
            draws.len()
        } else {
            cands.len()
        },
        forall|i: int| 0 <= i < picks(cands, draws).len() ==> cands.contains(#[trigger] picks(cands, draws)[i]),
    decreases draws.len(),
{
    if draws.len() == 0 || cands.len() == 0 {
    } else {
        let k = (draws[0] as int) % (cands.len() as int);
        let rest = cands.remove(k);
        assert forall|a: int, b: int| 0 <= a < b < rest.len() implies rest[a] != rest[b] by {
            let a0 = if a < k { a } else { a + 1 };
            let b0 = if b < k { b } else { b + 1 };
            assert(rest[a] == cands[a0] && rest[b] == cands[b0]);
        }
        assert forall|i: int| 0 <= i < rest.len() implies #[trigger] rest[i] != cands[k] && cands.contains(rest[i]) by {
            let i0 = if i < k { i } else { i + 1 };
            assert(rest[i] == cands[i0]);
        }
        lemma_picks_distinct(rest, draws.drop_first());
        let tail = picks(rest, draws.drop_first());
        let all = picks(cands, draws);
        assert(all == seq![cands[k]] + tail);
        assert forall|i: int| 0 <= i < all.len() implies cands.contains(#[trigger] all[i]) by {
            if i > 0 {
                assert(all[i] == tail[i - 1]);
                assert(rest.contains(tail[i - 1]));
            }
        }
        assert forall|a: int, b: int| 0 <= a < b < all.len() implies all[a] != all[b] by {
            assert(all[b] == tail[b - 1]);
            assert(rest.contains(tail[b - 1]));
            if a > 0 {
                assert(all[a] == tail[a - 1]);
            }
        }
    }
}

fn picks_below(pool_size: usize, draws: &Vec<usize>) -> (out: Vec<usize>)
    requires
        draws@.len() <= pool_size,
    ensures
        out@ == picks(range_seq(pool_size as nat), draws@),
{
    let mut cands: Vec<usize> = Vec::new();
    let mut i: usize = 0;
    while i < pool_size
        invariant
            i <= pool_size,
            cands@ == range_seq(i as nat),
        decreases pool_size - i,
    {
        cands.push(i);
        assert(cands@ =~= range_seq((i + 1) as nat));
        i = i + 1;
    }
    let ghost want = picks(range_seq(pool_size as nat), draws@);
    let mut out: Vec<usize> = Vec::new();
    let mut k: usize = 0;
    assert(draws@.skip(0) =~= draws@);
    assert(out@ + picks(cands@, draws@.skip(0)) =~= want);
    while k < draws.len()
        invariant
            k <= draws@.len() <= pool_size,
            cands@.len() == pool_size - k,
            want == picks(range_seq(pool_size as nat), draws@),
            out@ + picks(cands@, draws@.skip(k as int)) == want,
        decreases draws@.len() - k,
    {
        let j = draws[k] % cands.len();
        let ghost before = cands@;
        assert(draws@.skip(k as int).drop_first() == draws@.skip(k + 1));
        assert(draws@.skip(k as int)[0] == draws@[k as int]);
        let x = cands.remove(j);
        assert(picks(before, draws@.skip(k as int)) == seq![x] + picks(cands@, draws@.skip(k + 1)));
        assert(out@.push(x) + picks(cands@, draws@.skip(k + 1)) =~= out@ + (seq![x] + picks(
            cands@,
            draws@.skip(k + 1),
        )));
        out.push(x);
        k = k + 1;
    }
    assert(picks(cands@, draws@.skip(k as int)) == Seq::<usize>::empty());
    assert(out@ =~= want);
    out
}

/// Picks `draws.len()` distinct fragment indices below `pool_size`, draw by
/// draw, without replacement.
pub fn pick_distinct(pool_size: usize, draws: &Vec<usize>) -> (r: Result<Vec<usize>, SelectError>)
    ensures
        r is Ok <==> draws@.len() <= pool_size,
        match r {
            Ok(v) => v@ == picks(range_seq(pool_size as nat), draws@),
            Err(e) => e == (SelectError::PoolTooSmall { pool_size, count: draws@.len() as usize }),
        },
{
    if draws.len() > pool_size {
        return Err(SelectError::PoolTooSmall { pool_size, count: draws.len() });
    }
    Ok(picks_below(pool_size, draws))
}

pub(crate) fn draw_selection(pool_size: usize, count: usize) -> (s: Selection)
    requires
        count <= pool_size,
    ensures
        s.indices@.len() == count,
        s.rotations@.len() == count,
        s.indices@.no_duplicates(),
        forall|i: int| 0 <= i < count ==> #[trigger] s.indices@[i] < pool_size,
{
    let mut draws: Vec<usize> = Vec::new();
    let mut rotations: Vec<Rotation> = Vec::new();
    let mut k: usize = 0;
    while k < count
        invariant
            k <= count <= pool_size,
            draws@.len() == k,
            rotations@.len() == k,
        decreases count - k,
    {
        draws.push(random_below(pool_size - k));
        rotations.push(rotation_from_draw(random_below(4)));
        k = k + 1;
    }
    let indices = picks_below(pool_size, &draws);
    proof {
        let cands = range_seq(pool_size as nat);
        assert(cands.no_duplicates());
        lemma_picks_distinct(cands, draws@);
        assert forall|i: int| 0 <= i < count implies #[trigger] indices@[i] < pool_size by {
            assert(cands.contains(indices@[i]));
        }
    }
    Selection { indices, rotations }
}

/// Chooses `count` distinct fragments of a pool of `pool_size`, each with a
/// rotation drawn on its own. Fails only when the pool is too small.
pub fn select(pool_size: usize, count: usize) -> (r: Result<Selection, SelectError>)
    ensures
        r is Ok <==> count <= pool_size,
        match r {
            Ok(s) => {
                &&& s.indices@.len() == count
                &&& s.rotations@.len() == count
                &&& s.indices@.no_duplicates()
                &&& forall|i: int| 0 <= i < count ==> #[trigger] s.indices@[i] < pool_size
            },
            Err(e) => e == (SelectError::PoolTooSmall { pool_size, count }),
        },
{
    if count > pool_size {
        return Err(SelectError::PoolTooSmall { pool_size, count });
    }
    Ok(draw_selection(pool_size, count))
}

} // verus!
