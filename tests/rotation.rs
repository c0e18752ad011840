use explorers::fragment::{rotate, Fragment};
use explorers::grid::{rotate_grid, Rotation};
use explorers::tiles::{Item, Terrain};

const ALL: [Rotation; 4] = [Rotation::Deg0, Rotation::Deg90, Rotation::Deg180, Rotation::Deg270];

fn numbered() -> [[u32; 8]; 8] {
    let mut g = [[0u32; 8]; 8];
    for r in 0..8 {
        for c in 0..8 {
            g[r][c] = (10 * r + c) as u32;
        }
    }
    g
}

fn sample_fragment() -> Fragment {
    let terrains = [Terrain::Prarie, Terrain::Water, Terrain::Desert, Terrain::Mountain];
    let items = [Item::Nothing, Item::Key, Item::Scroll, Item::Horse, Item::Apple, Item::Carrot, Item::Fish, Item::Gemstone, Item::Temple];
    let mut f = Fragment { terrain: [[Terrain::Prarie; 8]; 8], items: [[Item::Nothing; 8]; 8] };
    for r in 0..8 {
        for c in 0..8 {
            f.terrain[r][c] = terrains[(r * 3 + c) % 4];
            f.items[r][c] = items[(r * 5 + c * 7) % 9];
        }
    }
    f.terrain[1][6] = Terrain::Village;
    f.items[1][6] = Item::Village;
    f
}

#[test]
fn rotation_keeps_eight_by_eight() {
    let g = numbered();
    for rot in ALL {
        let out = rotate_grid(&g, rot);
        assert_eq!(out.len(), 8);
        for row in out.iter() {
            assert_eq!(row.len(), 8);
        }
    }
}

#[test]
fn zero_rotation_is_identity() {
    let g = numbered();
    assert_eq!(rotate_grid(&g, Rotation::Deg0), g);
}

#[test]
fn quarter_turn_transposes_then_reverses_rows() {
    let g = numbered();
    let out = rotate_grid(&g, Rotation::Deg90);
    for r in 0..8 {
        for c in 0..8 {
            assert_eq!(out[r][c], g[7 - c][r]);
        }
    }
    assert_eq!(out[0], [70, 60, 50, 40, 30, 20, 10, 0]);
}

#[test]
fn half_turn_reverses_rows_and_columns() {
    let g = numbered();
    let out = rotate_grid(&g, Rotation::Deg180);
    for r in 0..8 {
        for c in 0..8 {
            assert_eq!(out[r][c], g[7 - r][7 - c]);
        }
    }
}

#[test]
fn three_quarter_turn_transposes_then_reverses_columns() {
    let g = numbered();
    let out = rotate_grid(&g, Rotation::Deg270);
    for r in 0..8 {
        for c in 0..8 {
            assert_eq!(out[r][c], g[c][7 - r]);
        }
    }
    assert_eq!(out[0], [7, 17, 27, 37, 47, 57, 67, 77]);
}

#[test]
fn four_quarter_turns_restore_fragment() {
    let f = sample_fragment();
    let mut g = f;
    for _ in 0..4 {
        g = rotate(&g, Rotation::Deg90);
    }
    assert_eq!(g.terrain, f.terrain);
    assert_eq!(g.items, f.items);
}

#[test]
fn four_three_quarter_turns_restore_fragment() {
    let f = sample_fragment();
    let mut g = f;
    for _ in 0..4 {
        g = rotate(&g, Rotation::Deg270);
    }
    assert_eq!(g.terrain, f.terrain);
    assert_eq!(g.items, f.items);
}

#[test]
fn half_turn_twice_restores_fragment() {
    let f = sample_fragment();
    let g = rotate(&rotate(&f, Rotation::Deg180), Rotation::Deg180);
    assert_eq!(g.terrain, f.terrain);
    assert_eq!(g.items, f.items);
}

#[test]
fn two_quarter_turns_make_a_half_turn() {
    let g = numbered();
    let twice = rotate_grid(&rotate_grid(&g, Rotation::Deg90), Rotation::Deg90);
    assert_eq!(twice, rotate_grid(&g, Rotation::Deg180));
}

#[test]
fn quarter_turn_is_not_identity() {
    let g = numbered();
    assert_ne!(rotate_grid(&g, Rotation::Deg90), g);
    assert_ne!(rotate_grid(&g, Rotation::Deg270), rotate_grid(&g, Rotation::Deg90));
}

#[test]
fn layers_move_together() {
    let f = sample_fragment();
    let idx = numbered();
    for rot in ALL {
        let moved = rotate(&f, rot);
        let moved_idx = rotate_grid(&idx, rot);
        for r in 0..8 {
            for c in 0..8 {
                let src = moved_idx[r][c] as usize;
                let (sr, sc) = (src / 10, src % 10);
                assert_eq!(moved.terrain[r][c], f.terrain[sr][sc]);
                assert_eq!(moved.items[r][c], f.items[sr][sc]);
            }
        }
    }
    // tile (2, 3) goes to (3, 5) under a quarter turn, in both layers
    let mut g = Fragment { terrain: [[Terrain::Prarie; 8]; 8], items: [[Item::Nothing; 8]; 8] };
    g.terrain[2][3] = Terrain::Mountain;
    g.items[2][3] = Item::Gemstone;
    let h = rotate(&g, Rotation::Deg90);
    assert_eq!(h.terrain[3][5], Terrain::Mountain);
    assert_eq!(h.items[3][5], Item::Gemstone);
}
