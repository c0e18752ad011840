use explorers::fragment::{count_villages, rotate, Fragment};
use explorers::grid::Rotation;
use explorers::loader::{FragmentPool, LoadError};
use explorers::map::{GameMap, MapQuad};
use explorers::select::{pick_distinct, rotation_from_draw, select, SelectError, Selection};
use explorers::tiles::{Item, Terrain};

/// 256 terrain rows: all prairie, but a village at row 3, column 4 of
/// every fragment.
fn terrain_rows() -> Vec<String> {
    let mut rows = Vec::new();
    for line in 0..256 {
        if line % 8 == 3 {
            rows.push("ppppvppp".to_string());
        } else {
            rows.push("pwdmpwdm".to_string());
        }
    }
    rows
}

fn item_rows() -> Vec<String> {
    let mut rows = Vec::new();
    for line in 0..256 {
        if line % 8 == 3 {
            rows.push("nnnnvnnn".to_string());
        } else {
            rows.push("kshacfgt".to_string());
        }
    }
    rows
}

fn join(rows: &[String]) -> String {
    rows.join("\n") + "\n"
}

fn load(t: &[String], i: &[String]) -> Result<FragmentPool, LoadError> {
    FragmentPool::load(join(t).as_bytes(), join(i).as_bytes())
}

fn synthetic_pool() -> FragmentPool {
    let mut frags = Vec::new();
    for f in 0..32 {
        let mut fr = Fragment { terrain: [[Terrain::Water; 8]; 8], items: [[Item::Nothing; 8]; 8] };
        fr.terrain[f % 8][(f / 8) % 8] = Terrain::Village;
        frags.push(fr);
    }
    frags[5].terrain = [[Terrain::Prarie; 8]; 8];
    frags[5].terrain[3][4] = Terrain::Village;
    frags[5].items[3][4] = Item::Village;
    FragmentPool::from_fragments(frags).unwrap()
}

#[test]
fn loads_well_formed_sources() {
    let pool = load(&terrain_rows(), &item_rows()).unwrap();
    for f in 0..32 {
        let fr = pool.get(f);
        assert_eq!(fr.terrain[3][4], Terrain::Village);
        assert_eq!(fr.items[3][4], Item::Village);
        assert_eq!(fr.terrain[0], [Terrain::Prarie, Terrain::Water, Terrain::Desert, Terrain::Mountain, Terrain::Prarie, Terrain::Water, Terrain::Desert, Terrain::Mountain]);
        assert_eq!(fr.items[7], [Item::Key, Item::Scroll, Item::Horse, Item::Apple, Item::Carrot, Item::Fish, Item::Gemstone, Item::Temple]);
        assert_eq!(count_villages(&fr.terrain), 1);
    }
}

#[test]
fn row_of_fragment_comes_from_its_token() {
    let mut t = terrain_rows();
    let mut i = item_rows();
    t[8 * 6 + 2] = "mmmmmmmm".to_string();
    i[8 * 6 + 2] = "ffffffff".to_string();
    let pool = load(&t, &i).unwrap();
    assert_eq!(pool.get(6).terrain[2], [Terrain::Mountain; 8]);
    assert_eq!(pool.get(6).items[2], [Item::Fish; 8]);
    assert_eq!(pool.get(5).terrain[2][0], Terrain::Prarie);
}

#[test]
fn any_whitespace_separates_tokens() {
    let t = terrain_rows().join(" \t ");
    let i = item_rows().join("\r\n");
    assert!(FragmentPool::load(t.as_bytes(), i.as_bytes()).is_ok());
}

#[test]
fn rejects_unknown_terrain_code() {
    let mut t = terrain_rows();
    t[42] = "ppxppppp".to_string();
    assert_eq!(load(&t, &item_rows()).err(), Some(LoadError::BadTerrainToken { line: 42 }));
}

#[test]
fn rejects_unknown_item_code_with_its_line() {
    let mut i = item_rows();
    i[100] = "nnnnnnnz".to_string();
    assert_eq!(load(&terrain_rows(), &i).err(), Some(LoadError::BadItemToken { line: 100 }));
}

#[test]
fn first_fault_is_reported() {
    let mut t = terrain_rows();
    let mut i = item_rows();
    t[20] = "xxxxxxxx".to_string();
    i[10] = "xxxxxxxx".to_string();
    assert_eq!(load(&t, &i).err(), Some(LoadError::BadItemToken { line: 10 }));
}

#[test]
fn rejects_short_or_long_token() {
    let mut t = terrain_rows();
    t[7] = "ppppppp".to_string();
    assert_eq!(load(&t, &item_rows()).err(), Some(LoadError::BadTerrainToken { line: 7 }));
    let mut i = item_rows();
    i[255] = "nnnnnnnnn".to_string();
    assert_eq!(load(&terrain_rows(), &i).err(), Some(LoadError::BadItemToken { line: 255 }));
}

#[test]
fn rejects_too_few_tokens() {
    let mut t = terrain_rows();
    t.pop();
    assert_eq!(load(&t, &item_rows()).err(), Some(LoadError::TerrainTokenCount(255)));
    let mut i = item_rows();
    i.push("nnnnnnnn".to_string());
    assert_eq!(load(&terrain_rows(), &i).err(), Some(LoadError::ItemTokenCount(257)));
    assert_eq!(FragmentPool::load(b"", b"").err(), Some(LoadError::TerrainTokenCount(0)));
}

#[test]
fn rejects_fragment_without_one_village() {
    let mut t = terrain_rows();
    t[8 * 9 + 3] = "pppppppp".to_string();
    assert_eq!(load(&t, &item_rows()).err(), Some(LoadError::VillageCount { fragment: 9, count: 0 }));
    let mut t = terrain_rows();
    t[8 * 31] = "vvpppppp".to_string();
    assert_eq!(load(&t, &item_rows()).err(), Some(LoadError::VillageCount { fragment: 31, count: 3 }));
}

#[test]
fn pool_needs_thirty_two_fragments() {
    let fr = Fragment { terrain: [[Terrain::Village; 8]; 8], items: [[Item::Nothing; 8]; 8] };
    assert_eq!(FragmentPool::from_fragments(vec![fr; 31]).err(), Some(LoadError::FragmentCount(31)));
    assert_eq!(
        FragmentPool::from_fragments(vec![fr; 32]).err(),
        Some(LoadError::VillageCount { fragment: 0, count: 64 })
    );
}

#[test]
fn picks_without_replacement() {
    assert_eq!(pick_distinct(32, &vec![0, 0, 0, 0]).unwrap(), vec![0, 1, 2, 3]);
    assert_eq!(pick_distinct(32, &vec![31, 31, 31, 31]).unwrap(), vec![31, 0, 2, 4]);
    assert_eq!(pick_distinct(4, &vec![9, 9, 9, 9]).unwrap(), vec![1, 0, 3, 2]);
    assert_eq!(pick_distinct(3, &vec![0, 0, 0, 0]).err(), Some(SelectError::PoolTooSmall { pool_size: 3, count: 4 }));
}

#[test]
fn draws_map_to_rotations() {
    assert_eq!(rotation_from_draw(0), Rotation::Deg0);
    assert_eq!(rotation_from_draw(1), Rotation::Deg90);
    assert_eq!(rotation_from_draw(6), Rotation::Deg180);
    assert_eq!(rotation_from_draw(7), Rotation::Deg270);
}

#[test]
fn selection_never_repeats_a_fragment() {
    for _ in 0..1000 {
        let s = select(32, 4).unwrap();
        assert_eq!(s.indices.len(), 4);
        assert_eq!(s.rotations.len(), 4);
        for a in 0..4 {
            assert!(s.indices[a] < 32);
            for b in 0..4 {
                if a != b {
                    assert_ne!(s.indices[a], s.indices[b]);
                }
            }
        }
    }
}

#[test]
fn selection_takes_whole_small_pool() {
    let s = select(4, 4).unwrap();
    let mut v = s.indices.clone();
    v.sort();
    assert_eq!(v, vec![0, 1, 2, 3]);
}

#[test]
fn selection_refuses_small_pool() {
    assert_eq!(select(3, 4).err(), Some(SelectError::PoolTooSmall { pool_size: 3, count: 4 }));
}

#[test]
fn quarter_turn_moves_village_of_fragment_five() {
    let pool = synthetic_pool();
    let turned = rotate(pool.get(5), Rotation::Deg90);
    assert_eq!(turned.terrain[4][4], Terrain::Village);
    assert_eq!(turned.items[4][4], Item::Village);
    assert_eq!(count_villages(&turned.terrain), 1);
    assert_eq!(MapQuad::from_fragment(&turned).get_village_pos(), Some((4, 4)));
}

#[test]
fn assembled_map_is_unexplored() {
    let pool = synthetic_pool();
    let sel = Selection {
        indices: vec![5, 0, 9, 31],
        rotations: vec![Rotation::Deg90, Rotation::Deg0, Rotation::Deg180, Rotation::Deg270],
    };
    let m = GameMap::assemble(&pool, &sel);
    for q in 0..4 {
        let want = rotate(pool.get(sel.indices[q]), sel.rotations[q]);
        assert_eq!(m.quads[q].terrain_spaces, want.terrain);
        assert_eq!(m.quads[q].item_spaces, want.items);
        assert_eq!(m.quads[q].explored_spaces, [[[false; 4]; 8]; 8]);
    }
}

#[test]
fn nearest_village_is_seeded_for_every_player() {
    let pool = synthetic_pool();
    let sel = Selection {
        indices: vec![0, 5, 9, 31],
        rotations: vec![Rotation::Deg0, Rotation::Deg0, Rotation::Deg0, Rotation::Deg0],
    };
    let mut m = GameMap::assemble(&pool, &sel);
    // villages: (0,0) in 0, (3,4) in 1, (1,1) in 2, (7,3) in 3; distances
    // from the centre: 128, 25, 50, 58
    assert_eq!(m.nearest_village_quad(), 1);
    m.seed_start_village();
    for q in 0..4 {
        for x in 0..8 {
            for y in 0..8 {
                for p in 0..4 {
                    assert_eq!(m.quads[q].explored_spaces[x][y][p], q == 1 && x == 3 && y == 4);
                }
            }
        }
    }
}

#[test]
fn nearest_village_tie_goes_to_lowest_quadrant() {
    let pool = synthetic_pool();
    // villages (7,3) in quadrant 0: 1 + 25; (0,3) in 1: 0 + 25; (3,0) in 2:
    // 25 + 0; (7,2) in 3: 49 + 4
    let sel = Selection {
        indices: vec![31, 24, 3, 23],
        rotations: vec![Rotation::Deg0, Rotation::Deg0, Rotation::Deg0, Rotation::Deg0],
    };
    let m = GameMap::assemble(&pool, &sel);
    assert_eq!(m.nearest_village_quad(), 1);
}

#[test]
fn new_map_has_one_explored_village() {
    let pool = load(&terrain_rows(), &item_rows()).unwrap();
    for _ in 0..50 {
        let m = GameMap::new(&pool);
        let mut seen = Vec::new();
        for q in 0..4 {
            for x in 0..8 {
                for y in 0..8 {
                    let cell = m.quads[q].explored_spaces[x][y];
                    if cell[0] {
                        seen.push((q, x, y));
                    }
                    assert!(cell.iter().all(|&b| b == cell[0]));
                }
            }
        }
        assert_eq!(seen.len(), 1);
        let (q, x, y) = seen[0];
        assert_eq!(m.quads[q].terrain_spaces[x][y], Terrain::Village);
    }
}
