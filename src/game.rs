//! A game session over a map: the players, whose turn it is, and what the
//! board shows on each tile.
use vstd::prelude::*;
use crate::map::{GameMap, explored};
use crate::tiles::{Item, Terrain};

verus! {

/// A point on the screen, in character cells.
#[derive(Clone, Copy, Debug, PartialEq, Eq, Structural)]
pub struct Position {
    pub x: i32,
    pub y: i32,
}

/// One player: where their cursor stands on the screen.
#[derive(Clone, Copy, Debug)]
pub struct Player {
    pub cursor_position: Position,
}

/// What a player asks of the session.
#[derive(Clone, Copy, Debug, PartialEq, Eq, Structural)]
pub enum Command {
    Quit,
    Left,
    Right,
    Up,
    Down,
}

/// The session: the map, the round and turn, whose move it is, and the
/// four players.
#[derive(Clone, Copy, Debug)]
pub struct Explorers {
    pub map: GameMap,
    pub round: usize,
    pub turn: usize,
    pub player: usize,
    pub players: [Player; 4],
}

/// `v + d`, held within the range of `i32`.
pub open spec fn saturated(v: int, d: int) -> i32 {
    if v + d > i32::MAX {
        i32::MAX
    } else if v + d < i32::MIN {
        i32::MIN
    } else {
        (v + d) as i32
    }
}

/// Where the cursor at `p` goes on `cmd`: two cells, a tile, in its
/// direction; `Quit` leaves it.
pub open spec fn moved(p: Position, cmd: Command) -> Position {
    match cmd {
        Command::Quit => p,
        Command::Left => Position { x: saturated(p.x as int, -2), y: p.y },
        Command::Right => Position { x: saturated(p.x as int, 2), y: p.y },
        Command::Up => Position { x: p.x, y: saturated(p.y as int, -2) },
        Command::Down => Position { x: p.x, y: saturated(p.y as int, 2) },
    }
}

/// The cursor at `p` after the commands `cmds`, in order.
pub open spec fn moved_all(p: Position, cmds: Seq<Command>) -> Position
    decreases cmds.len(),
{
    if cmds.len() == 0 {
        p
    } else {
        moved(moved_all(p, cmds.drop_last()), cmds.last())
    }
}

/// The character that stands for a tile: its item, or else its terrain.
pub open spec fn glyph(t: Terrain, i: Item) -> char {
    match i {
        Item::Apple => 'a',
        Item::Carrot => 'c',
        Item::Fish => 'f',
        Item::Gemstone => 'g',
        Item::Horse => 'h',
        Item::Key => 'k',
        Item::Scroll => 's',
        Item::Temple => 't',
        _ => match t {
            Terrain::Desert => '*',
            Terrain::Mountain => '^',
            Terrain::Prarie => '.',
            Terrain::Water => '~',
            Terrain::Village => 'A',
        },
    }
}

fn step(v: i32, d: i32) -> (r: i32)
    requires
        d == 2 || d == -2,
    ensures
        r == saturated(v as int, d as int),
{
    if d > 0 {
        if v > i32::MAX - d { i32::MAX } else { v + d }
    } else {
        if v < i32::MIN - d { i32::MIN } else { v + d }
    }
}

/// Moves a cursor as `moved` says.
pub fn move_cursor(p: Position, cmd: Command) -> (r: Position)
    ensures
        r == moved(p, cmd),
{
    match cmd {
        Command::Quit => p,
        Command::Left => Position { x: step(p.x, -2), y: p.y },
        Command::Right => Position { x: step(p.x, 2), y: p.y },
        Command::Up => Position { x: p.x, y: step(p.y, -2) },
        Command::Down => Position { x: p.x, y: step(p.y, 2) },
    }
}

/// The character drawn for a tile.
pub fn tile_glyph(t: Terrain, i: Item) -> (c: char)
    ensures
        c == glyph(t, i),
{
    match i {
        Item::Apple => 'a',
        Item::Carrot => 'c',
        Item::Fish => 'f',
        Item::Gemstone => 'g',
        Item::Horse => 'h',
        Item::Key => 'k',
        Item::Scroll => 's',
        Item::Temple => 't',
        _ => match t {
            Terrain::Desert => '*',
            Terrain::Mountain => '^',
            Terrain::Prarie => '.',
            Terrain::Water => '~',
            Terrain::Village => 'A',
        },
    }
}

/// The screen cell at the top left of the 2x2 block that draws tile
/// `(x, y)` of quadrant `q`.
pub fn tile_origin(q: usize, x: usize, y: usize) -> (r: (usize, usize))
    requires
        q < 4,
        x < 8,
        y < 8,
    ensures
        r.0 == 2 * x + if q == 1 || q == 3 { 16int } else { 0int },
        r.1 == 2 * y + if q == 2 || q == 3 { 16int } else { 0int },
{
    let dx: usize = if q == 1 || q == 3 { 16 } else { 0 };
    let dy: usize = if q == 2 || q == 3 { 16 } else { 0 };
    (2 * x + dx, 2 * y + dy)
}

impl Player {
    /// A player with the cursor at the top-left corner.
    pub fn new() -> (p: Player)
        ensures
            p.cursor_position == (Position { x: 0, y: 0 }),
    {
        Player { cursor_position: Position { x: 0, y: 0 } }
    }
}

impl Explorers {
    /// A session on `map` at its start: round 0, turn 0, player 0 to move,
    /// every cursor at the top-left corner.
    pub fn new(map: GameMap) -> (e: Explorers)
        ensures
            e.map == map,
            e.round == 0,
            e.turn == 0,
            e.player == 0,
            forall|i: int| 0 <= i < 4 ==> (#[trigger] e.players@[i]).cursor_position == (Position { x: 0, y: 0 }),
    {
        Explorers {
            map,
            round: 0,
            turn: 0,
            player: 0,
            players: [Player::new(), Player::new(), Player::new(), Player::new()],
        }
    }

    /// Applies the commands of one frame to the player to move, in order.
    /// Returns whether one of them asked to quit; the session is otherwise
    /// left as it was.
    pub fn run_logic(&mut self, cmds: &Vec<Command>) -> (quit: bool)
        requires
            old(self).player < 4,
        ensures
            quit == cmds@.contains(Command::Quit),
            final(self).map == old(self).map,
            final(self).round == old(self).round,
            final(self).turn == old(self).turn,
            final(self).player == old(self).player,
            final(self).players@[old(self).player as int].cursor_position == moved_all(
                old(self).players@[old(self).player as int].cursor_position,
                cmds@,
            ),
            forall|i: int| 0 <= i < 4 && i != old(self).player ==> #[trigger] final(self).players@[i] == old(self).players@[i],
    {
        let ghost start = *self;
        let me = self.player;
        let mut quit = false;
        let mut k: usize = 0;
        while k < cmds.len()
            invariant
                k <= cmds@.len(),
                me == start.player,
                me < 4,
                self.map == start.map,
                self.round == start.round,
                self.turn == start.turn,
                self.player == start.player,
                self.players@[me as int].cursor_position == moved_all(
                    start.players@[me as int].cursor_position,
                    cmds@.take(k as int),
                ),
                forall|i: int| 0 <= i < 4 && i != me ==> #[trigger] self.players@[i] == start.players@[i],
                quit == exists|j: int| 0 <= j < k && #[trigger] cmds@[j] == Command::Quit,
            decreases cmds@.len() - k,
        {
            let cmd = cmds[k];
            assert(cmds@.take(k + 1).drop_last() == cmds@.take(k as int));
            assert(cmds@.take(k + 1).last() == cmd);
            if cmd == Command::Quit {
                quit = true;
            }
            let mut players = self.players;
            let mut p = players[me];
            p.cursor_position = move_cursor(p.cursor_position, cmd);
            players[me] = p;
            self.players = players;
            k = k + 1;
        }
        assert(cmds@.take(cmds@.len() as int) == cmds@);
        quit
    }

    /// The two characters drawn for tile `(x, y)` of quadrant `q`: the
    /// tile's glyph, and an `X` in its place where the player to move has
    /// explored the tile.
    pub fn cell_glyphs(&self, q: usize, x: usize, y: usize) -> (r: (char, char))
        requires
            q < 4,
            x < 8,
            y < 8,
            self.player < 4,
        ensures
            r.0 == glyph(self.map.quads@[q as int].terrain_spaces@[x as int]@[y as int], self.map.quads@[q as int].item_spaces@[x as int]@[y as int]),
            r.1 == if explored(self.map.quads@[q as int], x as int, y as int, self.player as int) {
                'X'
            } else {
                r.0
            },
    {
        let quad = &self.map.quads[q];
        let g = tile_glyph(quad.terrain_spaces[x][y], quad.item_spaces[x][y]);
        let e = if quad.explored_spaces[x][y][self.player] { 'X' } else { g };
        (g, e)
    }
}

} // verus!
