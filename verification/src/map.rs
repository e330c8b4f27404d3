//! The map: a grid of sidewalk and fresh-grass tiles, the ring of buildings
//! around it, its bounds, and the win condition (no fresh grass left).

use vstd::prelude::*;
use crate::state::{GameResult, GameState, allowed_transition};

verus! {

/// Side of a square map tile, in pixels.
pub const TILE_SIZE: i32 = 14;

/// Columns of the map layout.
pub const MAP_COLS: u32 = 18;

/// Rows of the map layout.
pub const MAP_ROWS: u32 = 10;

/// Width of the map in pixels.
pub const MAP_WIDTH: i32 = 252;

/// Height of the map in pixels.
pub const MAP_HEIGHT: i32 = 140;

/// Map tiles per building tile, across.
pub const BUILDING_RATIO: u32 = 3;

/// Building tiles needed to span the map's width (rounded up).
pub const MAP_COLS_IN_BUILDINGS: u32 = (MAP_COLS + BUILDING_RATIO - 1) / BUILDING_RATIO;

/// Building tiles needed to span the map's height (rounded up), plus one.
pub const MAP_ROWS_IN_BUILDINGS: u32 = (MAP_ROWS + BUILDING_RATIO - 1) / BUILDING_RATIO + 1;

/// Columns of the building ring: the map plus one building on each side.
pub const BORDER_COLS: u32 = MAP_COLS_IN_BUILDINGS + 2;

/// Rows of the building ring: the map plus one building on each side.
pub const BORDER_ROWS: u32 = MAP_ROWS_IN_BUILDINGS + 2;

/// Row `r` of the map layout: `#` is sidewalk, `.` is fresh grass.
pub open spec fn layout_row(r: int) -> Seq<char> {
    if r == 0 {
        "##################"@
    } else if r == 1 {
        "###............###"@
    } else if r == 2 {
        "###..########..###"@
    } else if r == 3 {
        "###..##....##..###"@
    } else if r == 4 {
        "###..##....##..###"@
    } else if r == 5 {
        "###..##....##..###"@
    } else if r == 6 {
        "###..##....##..###"@
    } else if r == 7 {
        "###..########..###"@
    } else if r == 8 {
        "###............###"@
    } else {
        "##################"@
    }
}

/// Row `row` of the map layout.
pub fn map_row(row: u32) -> (s: &'static str)
    requires
        row < MAP_ROWS,
    ensures
        s@ == layout_row(row as int),
{
    if row == 0 {
        "##################"
    } else if row == 1 {
        "###............###"
    } else if row == 2 {
        "###..########..###"
    } else if row == 3 {
        "###..##....##..###"
    } else if row == 4 {
        "###..##....##..###"
    } else if row == 5 {
        "###..##....##..###"
    } else if row == 6 {
        "###..##....##..###"
    } else if row == 7 {
        "###..########..###"
    } else if row == 8 {
        "###............###"
    } else {
        "##################"
    }
}

/// Every row of the layout is `MAP_COLS` tiles wide.
pub proof fn lemma_layout_rows_full(r: int)
    requires
        0 <= r < MAP_ROWS,
    ensures
        layout_row(r).len() == MAP_COLS,
{
    reveal_strlit("##################");
    reveal_strlit("###............###");
    reveal_strlit("###..########..###");
    reveal_strlit("###..##....##..###");
}

/// Every character of the layout is a sidewalk `#` or a fresh-grass `.`.
pub proof fn lemma_layout_chars(r: int, c: int)
    requires
        0 <= r < MAP_ROWS,
        0 <= c < MAP_COLS,
    ensures
        layout_row(r)[c] == '#' || layout_row(r)[c] == '.',
{
    reveal_strlit("##################");
    reveal_strlit("###............###");
    reveal_strlit("###..########..###");
    reveal_strlit("###..##....##..###");
}

/// Kind of a map tile.
#[derive(Debug, Clone, Copy, PartialEq, Eq, Structural)]
pub enum TileKind {
    Sidewalk,
    FreshGrass,
}

/// A tile of the map: its kind, its place in the layout, and the centre of
/// its square in world pixels (the map is centred on the origin, y up).
#[derive(Debug, Clone, Copy, PartialEq, Eq, Structural)]
pub struct MapTile {
    pub kind: TileKind,
    pub row: u32,
    pub col: u32,
    pub x: i32,
    pub y: i32,
}

/// Centre of column `col` on the x axis.
pub open spec fn tile_x(col: int) -> int {
    -(MAP_WIDTH / 2) + TILE_SIZE / 2 + col * TILE_SIZE
}

/// Centre of row `row` on the y axis.
pub open spec fn tile_y(row: int) -> int {
    MAP_HEIGHT / 2 - TILE_SIZE / 2 - row * TILE_SIZE
}

/// Tiles in the map, one per layout character.
pub open spec fn tile_count() -> int {
    (MAP_ROWS * MAP_COLS) as int
}

/// Tile `i` of the map, counting row by row: row `i / 18`, column `i % 18`,
/// sidewalk for a `#` in the layout and fresh grass for a `.`.
pub open spec fn map_tile(i: int) -> MapTile {
    let row = i / (MAP_COLS as int);
    let col = i % (MAP_COLS as int);
    MapTile {
        kind: if layout_row(row)[col] == '#' { TileKind::Sidewalk } else { TileKind::FreshGrass },
        row: row as u32,
        col: col as u32,
        x: tile_x(col) as i32,
        y: tile_y(row) as i32,
    }
}

/// Lays out the map: a sidewalk tile for each `#` and a fresh-grass tile for
/// each `.` of the layout, row by row.
pub fn draw_map() -> (tiles: Vec<MapTile>)
    ensures
        tiles@.len() == tile_count(),
        forall|i: int| 0 <= i < tile_count() ==> #[trigger] tiles@[i] == map_tile(i),
{
    let mut tiles: Vec<MapTile> = Vec::new();
    let mut r: u32 = 0;
    while r < MAP_ROWS
        invariant
            r <= MAP_ROWS,
            tiles@.len() == r * MAP_COLS,
            forall|i: int| 0 <= i < tiles@.len() ==> #[trigger] tiles@[i] == map_tile(i),
        decreases MAP_ROWS - r,
    {
        let row = map_row(r);
        proof {
            lemma_layout_rows_full(r as int);
        }
        let n = row.unicode_len();
        let mut c: usize = 0;
        while c < n
            invariant
                r < MAP_ROWS,
                row@ == layout_row(r as int),
                n == row@.len(),
                n == MAP_COLS,
                c <= n,
                tiles@.len() == r * MAP_COLS + c,
                forall|i: int| 0 <= i < tiles@.len() ==> #[trigger] tiles@[i] == map_tile(i),
            decreases n - c,
        {
            let ch = row.get_char(c);
            let x: i32 = -(MAP_WIDTH / 2) + TILE_SIZE / 2 + (c as i32) * TILE_SIZE;
            let y: i32 = MAP_HEIGHT / 2 - TILE_SIZE / 2 - (r as i32) * TILE_SIZE;
            proof {
                let k = r * MAP_COLS + c;
                assert(k / (MAP_COLS as int) == r as int && k % (MAP_COLS as int) == c as int) by (nonlinear_arith)
                    requires
                        k == r * MAP_COLS + c,
                        0 <= c < MAP_COLS,
                        MAP_COLS == 18,
                ;
                lemma_layout_chars(r as int, c as int);
            }
            if ch == '#' {
                tiles.push(MapTile { kind: TileKind::Sidewalk, row: r, col: c as u32, x, y });
            } else if ch == '.' {
                tiles.push(MapTile { kind: TileKind::FreshGrass, row: r, col: c as u32, x, y });
            }
            c = c + 1;
        }
        r = r + 1;
    }
    tiles
}

/// The rectangle the characters must stay in, in world pixels.
#[derive(Debug, Clone, Copy, PartialEq, Eq, Structural)]
pub struct MapBounds {
    pub x_min: i32,
    pub y_min: i32,
    pub x_max: i32,
    pub y_max: i32,
}

/// The map's rectangle, centred on the origin.
pub fn map_bounds() -> (b: MapBounds)
    ensures
        b.x_min == -(MAP_WIDTH / 2),
        b.y_min == -(MAP_HEIGHT / 2),
        b.x_max == MAP_WIDTH / 2,
        b.y_max == MAP_HEIGHT / 2,
{
    MapBounds { x_min: -(MAP_WIDTH / 2), y_min: -(MAP_HEIGHT / 2), x_max: MAP_WIDTH / 2, y_max: MAP_HEIGHT / 2 }
}

/// Every tile of the map lies wholly inside the map's bounds, and the
/// bounds are exactly the layout's size in tiles.
pub proof fn lemma_tiles_inside_bounds(i: int)
    requires
        0 <= i < tile_count(),
    ensures
        -(MAP_WIDTH / 2) + TILE_SIZE / 2 <= map_tile(i).x <= MAP_WIDTH / 2 - TILE_SIZE / 2,
        -(MAP_HEIGHT / 2) + TILE_SIZE / 2 <= map_tile(i).y <= MAP_HEIGHT / 2 - TILE_SIZE / 2,
        map_tile(i).row < MAP_ROWS,
        map_tile(i).col < MAP_COLS,
        MAP_WIDTH == MAP_COLS * TILE_SIZE,
        MAP_HEIGHT == MAP_ROWS * TILE_SIZE,
{
}

/// Which building sprite a tile of the ring shows.
#[derive(Debug, Clone, Copy, PartialEq, Eq, Structural)]
pub enum BuildingKind {
    /// The building seen from the front, along the top and bottom edges.
    Front,
    /// The building seen from the side, in the corners and on the left and
    /// right edges.
    Side,
}

/// A building of the ring around the map, by its place in the ring's grid
/// (row 0 at the top).
#[derive(Debug, Clone, Copy, PartialEq, Eq, Structural)]
pub struct BorderTile {
    pub row: u32,
    pub col: u32,
    pub kind: BuildingKind,
}

/// The building at a cell of the ring's grid, if the cell is not over the map.
pub open spec fn border_cell(row: int, col: int) -> Option<BuildingKind> {
    if 1 <= row <= MAP_ROWS_IN_BUILDINGS && 1 <= col <= MAP_COLS_IN_BUILDINGS {
        None
    } else if (row == 0 || row == BORDER_ROWS - 1) && col != 0 && col != BORDER_COLS - 1 {
        Some(BuildingKind::Front)
    } else {
        Some(BuildingKind::Side)
    }
}

/// A cell of the ring's grid of seven rows by eight columns that lies
/// outside the map's block of rows 1 to 5 and columns 1 to 6.
pub open spec fn ring_cell(row: int, col: int) -> bool {
    0 <= row < 7 && 0 <= col < 8 && !(1 <= row <= 5 && 1 <= col <= 6)
}

/// Place of a ring tile in row-by-row order.
pub open spec fn ring_order(row: int, col: int) -> int {
    row * BORDER_COLS + col
}

/// The ring of buildings framing the map, row by row: one building tile
/// beyond the map on each side, front views along the top and bottom,
/// side views elsewhere. Each cell of the ring's grid not over the map has
/// exactly one building, and they come in row-by-row order.
pub fn draw_map_borders() -> (tiles: Vec<BorderTile>)
    ensures
        forall|i: int| 0 <= i < tiles@.len() ==> {
            let t = #[trigger] tiles@[i];
            &&& t.row < BORDER_ROWS
            &&& t.col < BORDER_COLS
            &&& !(1 <= t.row <= MAP_ROWS_IN_BUILDINGS && 1 <= t.col <= MAP_COLS_IN_BUILDINGS)
            &&& border_cell(t.row as int, t.col as int) == Some(t.kind)
        },
        forall|i: int, j: int| 0 <= i < j < tiles@.len() ==> ring_order(
            (#[trigger] tiles@[i]).row as int,
            tiles@[i].col as int,
        ) < ring_order((#[trigger] tiles@[j]).row as int, tiles@[j].col as int),
        forall|row: int, col: int|
            0 <= row < BORDER_ROWS && 0 <= col < BORDER_COLS && #[trigger] border_cell(row, col) is Some
                ==> exists|i: int| 0 <= i < tiles@.len() && tiles@[i].row == row && tiles@[i].col == col,
        forall|i: int| 0 <= i < tiles@.len() ==> {
            let t = #[trigger] tiles@[i];
            &&& ring_cell(t.row as int, t.col as int)
            &&& (t.kind == BuildingKind::Front <==> ((t.row == 0 || t.row == 6) && 0 < t.col < 7))
        },
        forall|row: int, col: int| #[trigger] ring_cell(row, col) ==> exists|i: int|
            0 <= i < tiles@.len() && tiles@[i].row == row && tiles@[i].col == col,
{
    let mut tiles: Vec<BorderTile> = Vec::new();
    let mut row: u32 = 0;
    while row < BORDER_ROWS
        invariant
            row <= BORDER_ROWS,
            forall|i: int| 0 <= i < tiles@.len() ==> {
                let t = #[trigger] tiles@[i];
                &&& t.row < row
                &&& t.col < BORDER_COLS
                &&& border_cell(t.row as int, t.col as int) == Some(t.kind)
            },
            forall|i: int, j: int| 0 <= i < j < tiles@.len() ==> ring_order(
                (#[trigger] tiles@[i]).row as int,
                tiles@[i].col as int,
            ) < ring_order((#[trigger] tiles@[j]).row as int, tiles@[j].col as int),
            forall|rr: int, cc: int|
                0 <= rr < row && 0 <= cc < BORDER_COLS && #[trigger] border_cell(rr, cc) is Some
                    ==> exists|i: int| 0 <= i < tiles@.len() && tiles@[i].row == rr && tiles@[i].col == cc,
        decreases BORDER_ROWS - row,
    {
        let mut col: u32 = 0;
        while col < BORDER_COLS
            invariant
                row < BORDER_ROWS,
                col <= BORDER_COLS,
                forall|i: int| 0 <= i < tiles@.len() ==> {
                    let t = #[trigger] tiles@[i];
                    &&& (t.row < row || (t.row == row && t.col < col))
                    &&& t.col < BORDER_COLS
                    &&& border_cell(t.row as int, t.col as int) == Some(t.kind)
                },
                forall|i: int, j: int| 0 <= i < j < tiles@.len() ==> ring_order(
                    (#[trigger] tiles@[i]).row as int,
                    tiles@[i].col as int,
                ) < ring_order((#[trigger] tiles@[j]).row as int, tiles@[j].col as int),
                forall|rr: int, cc: int|
                    0 <= rr < BORDER_ROWS && 0 <= cc < BORDER_COLS && (rr < row || (rr == row && cc < col))
                        && #[trigger] border_cell(rr, cc) is Some
                        ==> exists|i: int| 0 <= i < tiles@.len() && tiles@[i].row == rr && tiles@[i].col == cc,
            decreases BORDER_COLS - col,
        {
            if row >= 1 && row <= MAP_ROWS_IN_BUILDINGS && col >= 1 && col <= MAP_COLS_IN_BUILDINGS {
            } else {
                let kind = if (row == 0 || row == BORDER_ROWS - 1) && col != 0 && col != BORDER_COLS - 1 {
                    BuildingKind::Front
                } else {
                    BuildingKind::Side
                };
                let ghost before = tiles@;
                tiles.push(BorderTile { row, col, kind });
                proof {
                    assert forall|i: int| 0 <= i < before.len() implies ring_order(
                        before[i].row as int,
                        before[i].col as int,
                    ) < ring_order(row as int, col as int) by {
                        let t = before[i];
                        assert(t.row < row || (t.row == row && t.col < col));
                        if t.row < row {
                            assert(t.row * BORDER_COLS + t.col < row * BORDER_COLS) by (nonlinear_arith)
                                requires
                                    t.row < row,
                                    t.col < BORDER_COLS,
                            ;
                        }
                    }
                    assert forall|rr: int, cc: int|
                        0 <= rr < BORDER_ROWS && 0 <= cc < BORDER_COLS && (rr < row || (rr == row && cc < col + 1))
                            && #[trigger] border_cell(rr, cc) is Some implies exists|i: int|
                        0 <= i < tiles@.len() && tiles@[i].row == rr && tiles@[i].col == cc by {
                        if rr == row && cc == col {
                            assert(tiles@[before.len() as int].row == rr);
                        } else {
                            let i = choose|i: int| 0 <= i < before.len() && before[i].row == rr && before[i].col == cc;
                            assert(tiles@[i] == before[i]);
                        }
                    }
                }
            }
            col = col + 1;
        }
        row = row + 1;
    }
    proof {
        lemma_ring_cells(tiles@);
    }
    tiles
}

/// The ring's grid is seven rows by eight columns around a block of five
/// rows by six columns.
pub proof fn lemma_ring_dims()
    ensures
        BORDER_ROWS == 7,
        BORDER_COLS == 8,
        MAP_ROWS_IN_BUILDINGS == 5,
        MAP_COLS_IN_BUILDINGS == 6,
{
}

/// A ring laid out cell by cell as `border_cell` says, in numbers: every
/// building stands on a cell of the seven-by-eight grid outside the map's
/// block, shows its front exactly on the top and bottom rows away from the
/// corner columns, and every such cell has a building.
pub proof fn lemma_ring_cells(tiles: Seq<BorderTile>)
    requires
        forall|i: int| 0 <= i < tiles.len() ==> {
            let t = #[trigger] tiles[i];
            &&& t.row < BORDER_ROWS
            &&& t.col < BORDER_COLS
            &&& border_cell(t.row as int, t.col as int) == Some(t.kind)
        },
        forall|row: int, col: int|
            0 <= row < BORDER_ROWS && 0 <= col < BORDER_COLS && #[trigger] border_cell(row, col) is Some
                ==> exists|i: int| 0 <= i < tiles.len() && tiles[i].row == row && tiles[i].col == col,
    ensures
        forall|i: int| 0 <= i < tiles.len() ==> {
            let t = #[trigger] tiles[i];
            &&& ring_cell(t.row as int, t.col as int)
            &&& (t.kind == BuildingKind::Front <==> ((t.row == 0 || t.row == 6) && 0 < t.col < 7))
        },
        forall|row: int, col: int| #[trigger] ring_cell(row, col) ==> exists|i: int|
            0 <= i < tiles.len() && tiles[i].row == row && tiles[i].col == col,
{
    lemma_ring_dims();
    assert forall|i: int| 0 <= i < tiles.len() implies {
        let t = #[trigger] tiles[i];
        &&& ring_cell(t.row as int, t.col as int)
        &&& (t.kind == BuildingKind::Front <==> ((t.row == 0 || t.row == 6) && 0 < t.col < 7))
    } by {
        let t = tiles[i];
        assert(border_cell(t.row as int, t.col as int) == Some(t.kind));
    }
    assert forall|r: int, c: int| #[trigger] ring_cell(r, c) implies exists|i: int|
        0 <= i < tiles.len() && tiles[i].row == r && tiles[i].col == c by {
        assert(border_cell(r, c) is Some);
    }
}

/// Checks for the win: once no fresh grass is left the game is over and won,
/// with the default messages; until then the result is left as it was.
pub fn check_win_state(fresh_grass_left: usize, result: &mut GameResult) -> (next: Option<GameState>)
    ensures
        next == (if fresh_grass_left == 0 { Some(GameState::GameOver) } else { None }),
        next matches Some(s) ==> allowed_transition(GameState::Playing, s),
        fresh_grass_left == 0 ==> final(result).won && final(result).title@.len() == 0
            && final(result).subtitle@.len() == 0,
        fresh_grass_left != 0 ==> final(result).won == old(result).won && final(result).title@ == old(
            result,
        ).title@ && final(result).subtitle@ == old(result).subtitle@,
{
    if fresh_grass_left == 0 {
        result.set_outcome(true);
        Some(GameState::GameOver)
    } else {
        None
    }
}

} // verus!
