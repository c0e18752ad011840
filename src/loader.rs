//! Reading the fragment pool from its two text encodings.
//!
//! Each source is a run of whitespace-separated tokens of eight one-byte
//! codes. Token `8 * f + r` of the terrain source is row `r` of fragment
//! `f`'s terrain layer; the same token of the item source is that row's items.
use vstd::prelude::*;
use crate::fragment::{Fragment, FragmentView, fragment_wf, count_villages, village_count};
use crate::grid::grid_view;
use crate::tiles::{Item, Terrain};

verus! {

/// Number of fragments in a pool.
pub const POOL_SIZE: usize = 32;

/// Number of tokens each source must hold: eight rows per fragment.
pub const TOKEN_COUNT: usize = 256;

/// Why a pair of sources does not describe a pool.
#[derive(Clone, Copy, Debug, PartialEq, Eq, Structural)]
pub enum LoadError {
    /// The terrain source holds this many tokens instead of 256.
    TerrainTokenCount(usize),
    /// The item source holds this many tokens instead of 256.
    ItemTokenCount(usize),
    /// Terrain token `line` is not eight terrain codes.
    BadTerrainToken { line: usize },
    /// Item token `line` is not eight item codes.
    BadItemToken { line: usize },
    /// A pool was offered this many fragments instead of 32.
    FragmentCount(usize),
    /// Fragment `fragment` holds `count` villages instead of exactly one.
    VillageCount { fragment: usize, count: usize },
}

/// ASCII whitespace: space, tab, line feed, vertical tab, form feed, return.
pub open spec fn is_space(b: u8) -> bool {
    b == 32 || (9 <= b && b <= 13)
}

/// Splitting `s` so far: the finished tokens and the token still open.
pub open spec fn split_state(s: Seq<u8>) -> (Seq<Seq<u8>>, Seq<u8>)
    decreases s.len(),
{
    if s.len() == 0 {
        (Seq::empty(), Seq::empty())
    } else {
        let (done, open) = split_state(s.drop_last());
        let b = s.last();
        if is_space(b) {
            if open.len() > 0 {
                (done.push(open), Seq::empty())
            } else {
                (done, open)
            }
        } else {
            (done, open.push(b))
        }
    }
}

/// The maximal runs of non-space bytes of `s`, in order.
pub open spec fn tokens(s: Seq<u8>) -> Seq<Seq<u8>> {
    let (done, open) = split_state(s);
    if open.len() > 0 {
        done.push(open)
    } else {
        done
    }
}

/// The terrain that byte `b` encodes, if any: `p`, `w`, `d`, `m`, `v`.
pub open spec fn terrain_code(b: u8) -> Option<Terrain> {
    if b == 112 {
        Some(Terrain::Prarie)
    } else if b == 119 {
        Some(Terrain::Water)
    } else if b == 100 {
        Some(Terrain::Desert)
    } else if b == 109 {
        Some(Terrain::Mountain)
    } else if b == 118 {
        Some(Terrain::Village)
    } else {
        None
    }
}

/// The item that byte `b` encodes, if any: `k`, `s`, `h`, `a`, `c`, `f`,
/// `g`, `t`, `v`, and `n` for no item.
pub open spec fn item_code(b: u8) -> Option<Item> {
    if b == 107 {
        Some(Item::Key)
    } else if b == 115 {
        Some(Item::Scroll)
    } else if b == 104 {
        Some(Item::Horse)
    } else if b == 97 {
        Some(Item::Apple)
    } else if b == 99 {
        Some(Item::Carrot)
    } else if b == 102 {
        Some(Item::Fish)
    } else if b == 103 {
        Some(Item::Gemstone)
    } else if b == 116 {
        Some(Item::Temple)
    } else if b == 118 {
        Some(Item::Village)
    } else if b == 110 {
        Some(Item::Nothing)
    } else {
        None
    }
}

/// `tok` is a row of eight terrain codes.
pub open spec fn terrain_row_ok(tok: Seq<u8>) -> bool {
    tok.len() == 8 && forall|c: int| 0 <= c < 8 ==> (#[trigger] terrain_code(tok[c])).is_some()
}

/// `tok` is a row of eight item codes.
pub open spec fn item_row_ok(tok: Seq<u8>) -> bool {
    tok.len() == 8 && forall|c: int| 0 <= c < 8 ==> (#[trigger] item_code(tok[c])).is_some()
}

/// Every row up to `line` (exclusive) is well formed in both sources.
pub open spec fn rows_ok(tt: Seq<Seq<u8>>, it: Seq<Seq<u8>>, line: int) -> bool {
    forall|l: int| 0 <= l < line ==> terrain_row_ok(#[trigger] tt[l]) && item_row_ok(it[l])
}

/// Fragment `f` as the two token lists describe it.
pub open spec fn decoded_fragment(tt: Seq<Seq<u8>>, it: Seq<Seq<u8>>, f: int) -> FragmentView {
    FragmentView {
        terrain: Seq::new(8, |r: int| Seq::new(8, |c: int| terrain_code(tt[8 * f + r][c])->Some_0)),
        items: Seq::new(8, |r: int| Seq::new(8, |c: int| item_code(it[8 * f + r][c])->Some_0)),
    }
}

/// Every fragment before `f` holds exactly one village.
pub open spec fn fragments_ok(tt: Seq<Seq<u8>>, it: Seq<Seq<u8>>, f: int) -> bool {
    forall|g: int| 0 <= g < f ==> fragment_wf(#[trigger] decoded_fragment(tt, it, g))
}

/// The two sources describe a pool.
pub open spec fn sources_ok(terrain: Seq<u8>, items: Seq<u8>) -> bool {
    let tt = tokens(terrain);
    let it = tokens(items);
    &&& tt.len() == 256
    &&& it.len() == 256
    &&& rows_ok(tt, it, 256)
    &&& fragments_ok(tt, it, 32)
}

fn terrain_of_code(b: u8) -> (r: Option<Terrain>)
    ensures
        r == terrain_code(b),
{
    match b {
        112 => Some(Terrain::Prarie),  // 'p'
        119 => Some(Terrain::Water),  // 'w'
        100 => Some(Terrain::Desert),  // 'd'
        109 => Some(Terrain::Mountain),  // 'm'
        118 => Some(Terrain::Village),  // 'v'
        _ => None,
    }
}

fn item_of_code(b: u8) -> (r: Option<Item>)
    ensures
        r == item_code(b),
{
    match b {
        107 => Some(Item::Key),  // 'k'
        115 => Some(Item::Scroll),  // 's'
        104 => Some(Item::Horse),  // 'h'
        97 => Some(Item::Apple),  // 'a'
        99 => Some(Item::Carrot),  // 'c'
        102 => Some(Item::Fish),  // 'f'
        103 => Some(Item::Gemstone),  // 'g'
        116 => Some(Item::Temple),  // 't'
        118 => Some(Item::Village),  // 'v'
        110 => Some(Item::Nothing),  // 'n'
        _ => None,
    }
}

/// A token of `s`, given by its start and end.
pub open spec fn span_holds(s: Seq<u8>, span: (usize, usize), tok: Seq<u8>) -> bool {
    span.0 <= span.1 <= s.len() && s.subrange(span.0 as int, span.1 as int) == tok
}

/// Finds the tokens of `s`: where each starts and ends.
pub fn token_spans(s: &[u8]) -> (spans: Vec<(usize, usize)>)
    ensures
        spans@.len() == tokens(s@).len(),
        forall|k: int| 0 <= k < spans@.len() ==> span_holds(s@, #[trigger] spans@[k], tokens(s@)[k]),
{
    let mut spans: Vec<(usize, usize)> = Vec::new();
    let mut start: usize = 0;
    let mut open = false;
    let mut i: usize = 0;
    while i < s.len()
        invariant
            i <= s@.len(),
            start <= i,
            open ==> start < i,
            spans@.len() == split_state(s@.take(i as int)).0.len(),
            forall|k: int|
                0 <= k < spans@.len() ==> span_holds(s@, #[trigger] spans@[k], split_state(s@.take(i as int)).0[k]),
            split_state(s@.take(i as int)).1 == if open {
                s@.subrange(start as int, i as int)
            } else {
                Seq::<u8>::empty()
            },
        decreases s@.len() - i,
    {
        let b = s[i];
        assert(s@.take(i + 1).drop_last() == s@.take(i as int));
        assert(s@.take(i + 1).last() == b);
        if b == 32 || (9 <= b && b <= 13) {
            if open {
                spans.push((start, i));
                open = false;
            }
        } else {
            if !open {
                start = i;
                open = true;
                assert(s@.subrange(start as int, i + 1) =~= Seq::<u8>::empty().push(b));
            } else {
                assert(s@.subrange(start as int, i + 1) =~= s@.subrange(start as int, i as int).push(b));
            }
        }
        i = i + 1;
    }
    assert(s@.take(s@.len() as int) == s@);
    if open {
        spans.push((start, i));
    }
    spans
}

/// Decodes row `span` of the terrain source.
fn decode_terrain_row(s: &[u8], span: (usize, usize)) -> (r: Option<[Terrain; 8]>)
    requires
        span.0 <= span.1 <= s@.len(),
    ensures
        r is Some <==> terrain_row_ok(s@.subrange(span.0 as int, span.1 as int)),
        r matches Some(row) ==> forall|c: int|
            0 <= c < 8 ==> row@[c] == terrain_code(#[trigger] s@.subrange(span.0 as int, span.1 as int)[c])->Some_0,
{
    let ghost tok = s@.subrange(span.0 as int, span.1 as int);
    if span.1 - span.0 != 8 {
        return None;
    }
    let mut row: [Terrain; 8] = [Terrain::Prarie; 8];
    let mut c: usize = 0;
    while c < 8
        invariant
            c <= 8,
            span.0 + 8 == span.1 <= s@.len(),
            tok == s@.subrange(span.0 as int, span.1 as int),
            forall|j: int| 0 <= j < c ==> terrain_code(#[trigger] tok[j]).is_some(),
            forall|j: int| 0 <= j < c ==> row@[j] == terrain_code(#[trigger] tok[j])->Some_0,
        decreases 8 - c,
    {
        match terrain_of_code(s[span.0 + c]) {
            Some(t) => {
                row[c] = t;
            },
            None => {
                assert(terrain_code(tok[c as int]) is None);
                return None;
            },
        }
        c = c + 1;
    }
    Some(row)
}

/// Decodes row `span` of the item source.
fn decode_item_row(s: &[u8], span: (usize, usize)) -> (r: Option<[Item; 8]>)
    requires
        span.0 <= span.1 <= s@.len(),
    ensures
        r is Some <==> item_row_ok(s@.subrange(span.0 as int, span.1 as int)),
        r matches Some(row) ==> forall|c: int|
            0 <= c < 8 ==> row@[c] == item_code(#[trigger] s@.subrange(span.0 as int, span.1 as int)[c])->Some_0,
{
    let ghost tok = s@.subrange(span.0 as int, span.1 as int);
    if span.1 - span.0 != 8 {
        return None;
    }
    let mut row: [Item; 8] = [Item::Nothing; 8];
    let mut c: usize = 0;
    while c < 8
        invariant
            c <= 8,
            span.0 + 8 == span.1 <= s@.len(),
            tok == s@.subrange(span.0 as int, span.1 as int),
            forall|j: int| 0 <= j < c ==> item_code(#[trigger] tok[j]).is_some(),
            forall|j: int| 0 <= j < c ==> row@[j] == item_code(#[trigger] tok[j])->Some_0,
        decreases 8 - c,
    {
        match item_of_code(s[span.0 + c]) {
            Some(t) => {
                row[c] = t;
            },
            None => {
                assert(item_code(tok[c as int]) is None);
                return None;
            },
        }
        c = c + 1;
    }
    Some(row)
}

/// The fixed pool of 32 fragments, each with exactly one village. It is
/// never changed once built.
pub struct FragmentPool {
    fragments: Vec<Fragment>,
}

impl View for FragmentPool {
    type V = Seq<FragmentView>;

    closed spec fn view(&self) -> Seq<FragmentView> {
        self.fragments@.map_values(|f: Fragment| f@)
    }
}

impl FragmentPool {
    /// 32 fragments, each with exactly one village.
    pub open spec fn wf(&self) -> bool {
        &&& self@.len() == 32
        &&& forall|i: int| 0 <= i < 32 ==> fragment_wf(#[trigger] self@[i])
    }

    /// Builds a pool from fragments laid out in memory, checking the count
    /// and the villages.
    pub fn from_fragments(fragments: Vec<Fragment>) -> (r: Result<FragmentPool, LoadError>)
        ensures
            match r {
                Ok(p) => p.wf() && p@ == fragments@.map_values(|f: Fragment| f@),
                Err(LoadError::FragmentCount(n)) => fragments@.len() != 32 && n == fragments@.len(),
                Err(LoadError::VillageCount { fragment, count }) => {
                    &&& fragments@.len() == 32
                    &&& fragment < 32
                    &&& count == village_count(fragments@[fragment as int]@.terrain)
                    &&& count != 1
                    &&& forall|g: int|
                        0 <= g < fragment ==> fragment_wf(#[trigger] fragments@[g]@)
                },
                Err(_) => false,
            },
            r is Ok <==> (fragments@.len() == 32 && forall|g: int|
                0 <= g < 32 ==> fragment_wf(#[trigger] fragments@[g]@)),
    {
        if fragments.len() != POOL_SIZE {
            return Err(LoadError::FragmentCount(fragments.len()));
        }
        let mut f: usize = 0;
        while f < POOL_SIZE
            invariant
                f <= 32,
                fragments@.len() == 32,
                forall|g: int| 0 <= g < f ==> fragment_wf(#[trigger] fragments@[g]@),
            decreases 32 - f,
        {
            let count = count_villages(&fragments[f].terrain);
            if count != 1 {
                assert(!fragment_wf(fragments@[f as int]@));
                return Err(LoadError::VillageCount { fragment: f, count });
            }
            f = f + 1;
        }
        let pool = FragmentPool { fragments };
        assert(pool.wf());
        Ok(pool)
    }

    /// Reads the pool from its terrain and item sources. Rows are checked in
    /// order, each terrain token before its item token, and each fragment's
    /// villages are counted once its eight rows are read; the first fault
    /// found is reported.
    pub fn load(terrain: &[u8], items: &[u8]) -> (r: Result<FragmentPool, LoadError>)
        ensures
            r is Ok <==> sources_ok(terrain@, items@),
            ({
                let tt = tokens(terrain@);
                let it = tokens(items@);
                match r {
                    Ok(p) => p.wf() && forall|f: int|
                        0 <= f < 32 ==> #[trigger] p@[f] == decoded_fragment(tt, it, f),
                    Err(LoadError::TerrainTokenCount(n)) => n == tt.len() && n != 256,
                    Err(LoadError::ItemTokenCount(n)) => tt.len() == 256 && n == it.len() && n != 256,
                    Err(LoadError::BadTerrainToken { line }) => {
                        &&& tt.len() == 256
                        &&& it.len() == 256
                        &&& line < 256
                        &&& rows_ok(tt, it, line as int)
                        &&& fragments_ok(tt, it, line as int / 8)
                        &&& !terrain_row_ok(tt[line as int])
                    },
                    Err(LoadError::BadItemToken { line }) => {
                        &&& tt.len() == 256
                        &&& it.len() == 256
                        &&& line < 256
                        &&& rows_ok(tt, it, line as int)
                        &&& fragments_ok(tt, it, line as int / 8)
                        &&& terrain_row_ok(tt[line as int])
                        &&& !item_row_ok(it[line as int])
                    },
                    Err(LoadError::VillageCount { fragment, count }) => {
                        &&& tt.len() == 256
                        &&& it.len() == 256
                        &&& fragment < 32
                        &&& rows_ok(tt, it, 8 * fragment + 8)
                        &&& fragments_ok(tt, it, fragment as int)
                        &&& count == village_count(decoded_fragment(tt, it, fragment as int).terrain)
                        &&& count != 1
                    },
                    Err(LoadError::FragmentCount(_)) => false,
                }
            }),
    {
        let ghost tt = tokens(terrain@);
        let ghost it = tokens(items@);
        let ts = token_spans(terrain);
        let is = token_spans(items);
        if ts.len() != TOKEN_COUNT {
            return Err(LoadError::TerrainTokenCount(ts.len()));
        }
        if is.len() != TOKEN_COUNT {
            return Err(LoadError::ItemTokenCount(is.len()));
        }
        let mut fragments: Vec<Fragment> = Vec::new();
        let mut f: usize = 0;
        while f < POOL_SIZE
            invariant
                f <= 32,
                tt == tokens(terrain@),
                it == tokens(items@),
                ts@.len() == 256,
                is@.len() == 256,
                tt.len() == 256,
                it.len() == 256,
                forall|k: int| 0 <= k < 256 ==> span_holds(terrain@, #[trigger] ts@[k], tt[k]),
                forall|k: int| 0 <= k < 256 ==> span_holds(items@, #[trigger] is@[k], it[k]),
                fragments@.len() == f,
                rows_ok(tt, it, 8 * f),
                fragments_ok(tt, it, f as int),
                forall|g: int| 0 <= g < f ==> #[trigger] fragments@[g]@ == decoded_fragment(tt, it, g),
            decreases 32 - f,
        {
            let ghost want = decoded_fragment(tt, it, f as int);
            let mut tg: [[Terrain; 8]; 8] = [[Terrain::Prarie; 8]; 8];
            let mut ig: [[Item; 8]; 8] = [[Item::Nothing; 8]; 8];
            let mut r: usize = 0;
            while r < 8
                invariant
                    f < 32,
                    r <= 8,
                    tt == tokens(terrain@),
                    it == tokens(items@),
                    want == decoded_fragment(tt, it, f as int),
                    ts@.len() == 256,
                    is@.len() == 256,
                    tt.len() == 256,
                    it.len() == 256,
                    forall|k: int| 0 <= k < 256 ==> span_holds(terrain@, #[trigger] ts@[k], tt[k]),
                    forall|k: int| 0 <= k < 256 ==> span_holds(items@, #[trigger] is@[k], it[k]),
                    rows_ok(tt, it, 8 * f + r),
                    fragments_ok(tt, it, f as int),
                    forall|i: int, j: int| 0 <= i < r && 0 <= j < 8 ==> tg@[i]@[j] == want.terrain[i][j],
                    forall|i: int, j: int| 0 <= i < r && 0 <= j < 8 ==> ig@[i]@[j] == want.items[i][j],
                decreases 8 - r,
            {
                let line = 8 * f + r;
                assert(span_holds(terrain@, ts@[line as int], tt[line as int]));
                assert(span_holds(items@, is@[line as int], it[line as int]));
                assert(line / 8 == f);
                match decode_terrain_row(terrain, ts[line]) {
                    Some(row) => {
                        tg[r] = row;
                    },
                    None => {
                        return Err(LoadError::BadTerrainToken { line });
                    },
                }
                match decode_item_row(items, is[line]) {
                    Some(row) => {
                        ig[r] = row;
                    },
                    None => {
                        return Err(LoadError::BadItemToken { line });
                    },
                }
                r = r + 1;
            }
            let frag = Fragment { terrain: tg, items: ig };
            assert(frag@.terrain =~~= want.terrain);
            assert(frag@.items =~~= want.items);
            let count = count_villages(&frag.terrain);
            if count != 1 {
                return Err(LoadError::VillageCount { fragment: f, count });
            }
            fragments.push(frag);
            f = f + 1;
        }
        let pool = FragmentPool { fragments };
        assert(forall|g: int| 0 <= g < 32 ==> #[trigger] pool@[g] == decoded_fragment(tt, it, g));
        Ok(pool)
    }

    /// Fragment `i` of the pool.
    pub fn get(&self, i: usize) -> (f: &Fragment)
        requires
            self.wf(),
            i < 32,
        ensures
            f@ == self@[i as int],
    {
        &self.fragments[i]
    }
}

} // verus!
