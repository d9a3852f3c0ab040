use vstd::prelude::*;

verus! {

/// Number of columns of the playfield.
pub const GRID_COLS: i32 = 26;

/// Number of rows of the playfield.
pub const GRID_ROWS: i32 = 16;

/// Number of cells of the playfield.
pub const GRID_CELLS: u32 = 416;

/// A grid cell: `x` is the column (0 = left edge), `y` the row (0 = bottom row).
#[derive(Clone, Copy, Debug, PartialEq, Eq, Structural)]
pub struct Cell {
    pub x: i32,
    pub y: i32,
}

impl Cell {
    /// The cell at column `x`, row `y`.
    pub fn new(x: i32, y: i32) -> (c: Cell)
        ensures
            c.x == x,
            c.y == y,
    {
        Cell { x, y }
    }
}

/// True when `c` lies inside the playfield.
pub open spec fn cell_in_bounds(c: Cell) -> bool {
    0 <= c.x < GRID_COLS && 0 <= c.y < GRID_ROWS
}

/// True if `cell` lies inside the playfield.
pub fn in_bounds(cell: Cell) -> (b: bool)
    ensures
        b == cell_in_bounds(cell),
{
    0 <= cell.x && cell.x < GRID_COLS && 0 <= cell.y && cell.y < GRID_ROWS
}

/// Width of the window, in pixels.
pub const WIN_W: i32 = 800;

/// Height of the window, in pixels.
pub const WIN_H: i32 = 600;

/// Side of one grid cell, in pixels.
pub const CELL_PX: i32 = 28;

/// The playfield sits slightly below window center to leave a HUD band on top.
pub const PLAYFIELD_OFFSET_Y: i32 = -10;

/// World x of the center of column `x`: the grid is centered on x = 0.
pub open spec fn world_x(x: int) -> int {
    x * CELL_PX - (GRID_COLS - 1) * CELL_PX / 2
}

/// World y of the center of row `y`: rows are centered on y = 0, then the
/// whole playfield is shifted by `PLAYFIELD_OFFSET_Y`.
pub open spec fn world_y(y: int) -> int {
    y * CELL_PX - (GRID_ROWS - 1) * CELL_PX / 2 + PLAYFIELD_OFFSET_Y
}

/// A cell whose world position, and each step computing it, fits in `i32`.
pub open spec fn cell_on_screen_range(c: Cell) -> bool {
    &&& i32::MIN <= c.x * CELL_PX <= i32::MAX
    &&& i32::MIN <= world_x(c.x as int) <= i32::MAX
    &&& i32::MIN <= c.y * CELL_PX <= i32::MAX
    &&& i32::MIN <= c.y * CELL_PX - (GRID_ROWS - 1) * CELL_PX / 2 <= i32::MAX
    &&& i32::MIN <= world_y(c.y as int) <= i32::MAX
}

/// World position, in pixels, of the center of grid cell `cell`. Column 0 is
/// the left edge, row 0 the bottom; the grid is centered on x = 0 with the
/// whole playfield shifted by `PLAYFIELD_OFFSET_Y`.
pub fn cell_to_world_px(cell: Cell) -> (p: (i32, i32))
    requires
        cell_on_screen_range(cell),
    ensures
        p.0 == world_x(cell.x as int),
        p.1 == world_y(cell.y as int),
{
    (
        cell.x * CELL_PX - (GRID_COLS - 1) * CELL_PX / 2,
        cell.y * CELL_PX - (GRID_ROWS - 1) * CELL_PX / 2 + PLAYFIELD_OFFSET_Y,
    )
}

/// The columns mirror around x = 0, a step of one column or row moves one cell
/// in world space (row + 1 moves up), and the playfield, edges included, fits
/// inside the window with a HUD band above and banner room below.
pub proof fn lemma_playfield_layout(x: int, y: int)
    ensures
        world_x(x) + world_x(GRID_COLS - 1 - x) == 0,
        world_x(x + 1) - world_x(x) == CELL_PX,
        world_y(y + 1) - world_y(y) == CELL_PX,
        world_y(GRID_ROWS - 1) + CELL_PX / 2 < WIN_H / 2 - 40,
        world_y(0) - CELL_PX / 2 > -WIN_H / 2 + 30,
        world_x(GRID_COLS - 1) + CELL_PX / 2 < WIN_W / 2 - 10,
{
}

/// Thickness of the wall frame drawn around the playfield, in pixels.
pub const WALL_THICKNESS: i32 = 6;

/// One bar of the wall frame: its name, center and size, in pixels.
#[derive(Clone, Copy, Debug)]
pub struct WallBar {
    pub name: &'static str,
    pub center: (i32, i32),
    pub size: (i32, i32),
}

/// Width of the playfield, in pixels.
pub open spec fn field_w() -> int {
    GRID_COLS * CELL_PX
}

/// Height of the playfield, in pixels.
pub open spec fn field_h() -> int {
    GRID_ROWS * CELL_PX
}

/// The four wall bars framing the playfield: top, bottom, left, right. The
/// horizontal bars run past the corners to cover them.
pub open spec fn wall_bars_spec() -> Seq<(Seq<char>, (int, int), (int, int))> {
    let cy = PLAYFIELD_OFFSET_Y as int;
    let horizontal = (field_w() + 2 * WALL_THICKNESS, WALL_THICKNESS as int);
    let vertical = (WALL_THICKNESS as int, field_h());
    let left = -(field_w() + WALL_THICKNESS) / 2;
    let top = cy + (field_h() + WALL_THICKNESS) / 2;
    let bottom = cy - (field_h() + WALL_THICKNESS) / 2;
    seq![
        ("Wall Top"@, (0, top), horizontal),
        ("Wall Bottom"@, (0, bottom), horizontal),
        ("Wall Left"@, (left, cy), vertical),
        ("Wall Right"@, ((field_w() + WALL_THICKNESS) / 2, cy), vertical),
    ]
}

/// The four bars of the wall frame around the playfield. Purely visual: the
/// wall rule is the bounds check of a step.
pub fn wall_bars() -> (v: Vec<WallBar>)
    ensures
        v@.len() == 4,
        forall|i: int|
            0 <= i < 4 ==> (#[trigger] v@[i]).name@ == wall_bars_spec()[i].0 && v@[i].center.0
                == wall_bars_spec()[i].1.0 && v@[i].center.1 == wall_bars_spec()[i].1.1
                && v@[i].size.0 == wall_bars_spec()[i].2.0 && v@[i].size.1
                == wall_bars_spec()[i].2.1,
{
    let field_w: i32 = GRID_COLS * CELL_PX;
    let field_h: i32 = GRID_ROWS * CELL_PX;
    let horizontal = (field_w + 2 * WALL_THICKNESS, WALL_THICKNESS);
    let vertical = (WALL_THICKNESS, field_h);
    let cy = PLAYFIELD_OFFSET_Y;
    let half_h: i32 = (field_h + WALL_THICKNESS) / 2;
    let half_w: i32 = (field_w + WALL_THICKNESS) / 2;
    let top: i32 = cy + half_h;
    let bottom: i32 = cy - half_h;
    let left: i32 = -(field_w + WALL_THICKNESS) / 2;
    vec![
        WallBar { name: "Wall Top", center: (0, top), size: horizontal },
        WallBar { name: "Wall Bottom", center: (0, bottom), size: horizontal },
        WallBar { name: "Wall Left", center: (left, cy), size: vertical },
        WallBar { name: "Wall Right", center: (half_w, cy), size: vertical },
    ]
}

/// The wall frame hugs the playfield: each bar's inner edge is the field's
/// outer edge (half a cell beyond the outermost cell centers), the side bars
/// span the field's height, and the horizontal bars span the field plus both
/// side bars.
pub proof fn lemma_walls_frame_the_field()
    ensures
        ({
            let w = wall_bars_spec();
            &&& w[0].1.1 - w[0].2.1 / 2 == world_y(GRID_ROWS - 1) + CELL_PX / 2
            &&& w[1].1.1 + w[1].2.1 / 2 == world_y(0) - CELL_PX / 2
            &&& w[2].1.0 + w[2].2.0 / 2 == world_x(0) - CELL_PX / 2
            &&& w[3].1.0 - w[3].2.0 / 2 == world_x(GRID_COLS - 1) + CELL_PX / 2
            &&& w[2].2.1 == w[3].2.1 && w[2].2.1 == field_h()
            &&& w[0].2.0 == field_w() + w[2].2.0 + w[3].2.0
        }),
{
}

/// A heading on the grid.
#[derive(Clone, Copy, Debug, PartialEq, Eq, Structural)]
pub enum Direction {
    Up,
    Down,
    Left,
    Right,
}

/// Column step of one move in direction `d`.
pub open spec fn delta_x(d: Direction) -> int {
    match d {
        Direction::Left => -1,
        Direction::Right => 1,
        _ => 0,
    }
}

/// Row step of one move in direction `d`. Row 0 is the bottom row, so `Up` is +1.
pub open spec fn delta_y(d: Direction) -> int {
    match d {
        Direction::Up => 1,
        Direction::Down => -1,
        _ => 0,
    }
}

/// The heading pointing the other way.
pub open spec fn opposite_of(d: Direction) -> Direction {
    match d {
        Direction::Up => Direction::Down,
        Direction::Down => Direction::Up,
        Direction::Left => Direction::Right,
        Direction::Right => Direction::Left,
    }
}

impl Direction {
    /// Grid delta for one step. Row 0 is the bottom row, so `Up` is +y.
    pub fn delta(self) -> (d: Cell)
        ensures
            d.x == delta_x(self),
            d.y == delta_y(self),
    {
        match self {
            Direction::Up => Cell { x: 0, y: 1 },
            Direction::Down => Cell { x: 0, y: -1 },
            Direction::Left => Cell { x: -1, y: 0 },
            Direction::Right => Cell { x: 1, y: 0 },
        }
    }

    /// The heading pointing the other way.
    pub fn opposite(self) -> (o: Direction)
        ensures
            o == opposite_of(self),
    {
        match self {
            Direction::Up => Direction::Down,
            Direction::Down => Direction::Up,
            Direction::Left => Direction::Right,
            Direction::Right => Direction::Left,
        }
    }
}

/// Turning around twice gives back the starting heading, and no heading is its
/// own opposite.
pub proof fn lemma_opposite_is_an_involution(d: Direction)
    ensures
        opposite_of(opposite_of(d)) == d,
        opposite_of(d) != d,
{
}

/// Every heading moves exactly one cell, and a step followed by a step in the
/// opposite heading returns to the start.
pub proof fn lemma_delta_is_a_unit_step(d: Direction)
    ensures
        (if delta_x(d) < 0 { -delta_x(d) } else { delta_x(d) }) + (if delta_y(d) < 0 {
            -delta_y(d)
        } else {
            delta_y(d)
        }) == 1,
        delta_x(d) + delta_x(opposite_of(d)) == 0,
        delta_y(d) + delta_y(opposite_of(d)) == 0,
{
}

/// Euclidean remainder of `v` by `n`: the value in `0..n` congruent to `v`.
pub fn wrap_coord(v: i32, n: i32) -> (r: i32)
    requires
        n > 0,
    ensures
        r == v as int % n as int,
        0 <= r < n,
{
    if v >= 0 {
        v % n
    } else {
        let k: i32 = -(v + 1);
        let q: i32 = k % n;
        proof {
            let a = k as int / n as int;
            assert(k as int == a * n + q) by (nonlinear_arith)
                requires
                    n > 0,
                    k >= 0,
                    a == k as int / n as int,
                    q == k as int % n as int,
            ;
            assert(v as int == (-(a + 1)) * n + (n - 1 - q)) by (nonlinear_arith)
                requires
                    k as int == a * n + q,
                    v == -(k + 1),
            ;
            vstd::arithmetic::div_mod::lemma_fundamental_div_mod_converse(
                v as int,
                n as int,
                -(a + 1),
                n - 1 - q,
            );
        }
        n - 1 - q
    }
}

} // verus!
