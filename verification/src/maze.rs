//! The maze grid: cell categories, world-coordinate lookup, wall
//! classification, the per-category color table and the spawn scan.

use vstd::prelude::*;
use crate::color::Color;
use crate::FP_ONE;

verus! {

/// Widest grid the fixed-point ray caster accepts, in cells per axis.
pub const MAX_DIM: usize = 1024;

/// Largest accepted cell edge, in world units.
pub const MAX_BLOCK: i64 = 4096;

/// One cell category of the maze. Every category except `Empty` stops a
/// ray; every category except `Empty` and `Exit` blocks motion (walking
/// onto the exit is what wins the game, so the exit must stay reachable).
#[derive(Clone, Copy, PartialEq, Eq, Structural, Debug)]
pub enum Cell {
    Brick,
    Green,
    Blue,
    Yellow,
    Magenta,
    Exit,
    Empty,
}

/// Whether a ray ends on this cell.
pub open spec fn spec_stops_ray(c: Cell) -> bool {
    c != Cell::Empty
}

/// Whether the player may not walk into this cell.
pub open spec fn spec_blocks_motion(c: Cell) -> bool {
    c != Cell::Empty && c != Cell::Exit
}

/// Which category a map symbol stands for; unknown symbols are passable.
pub open spec fn spec_cell_of_char(ch: char) -> Cell {
    if ch == '#' {
        Cell::Brick
    } else if ch == 'A' {
        Cell::Green
    } else if ch == 'B' {
        Cell::Blue
    } else if ch == 'C' {
        Cell::Yellow
    } else if ch == 'D' {
        Cell::Magenta
    } else if ch == 'E' {
        Cell::Exit
    } else {
        Cell::Empty
    }
}

/// Converts one map symbol to its cell category.
pub fn cell_of_char(ch: char) -> (c: Cell)
    ensures
        c == spec_cell_of_char(ch),
{
    if ch == '#' {
        Cell::Brick
    } else if ch == 'A' {
        Cell::Green
    } else if ch == 'B' {
        Cell::Blue
    } else if ch == 'C' {
        Cell::Yellow
    } else if ch == 'D' {
        Cell::Magenta
    } else if ch == 'E' {
        Cell::Exit
    } else {
        Cell::Empty
    }
}

/// The color drawn for each cell category, shared by the 3D view and the
/// minimap; the fallback gray is what `Empty` would render as.
pub open spec fn spec_wall_color(c: Cell) -> Color {
    match c {
        Cell::Brick => Color { r: 180, g: 60, b: 60, a: 255 },
        Cell::Green => Color { r: 60, g: 180, b: 60, a: 255 },
        Cell::Blue => Color { r: 60, g: 60, b: 180, a: 255 },
        Cell::Yellow => Color { r: 180, g: 180, b: 60, a: 255 },
        Cell::Magenta => Color { r: 180, g: 60, b: 180, a: 255 },
        Cell::Exit => Color { r: 255, g: 99, b: 130, a: 255 },
        Cell::Empty => Color { r: 120, g: 120, b: 120, a: 255 },
    }
}

/// Looks up the color a cell category is drawn with.
pub fn wall_color(cell: Cell) -> (c: Color)
    ensures
        c == spec_wall_color(cell),
{
    match cell {
        Cell::Brick => Color { r: 180, g: 60, b: 60, a: 255 },
        Cell::Green => Color { r: 60, g: 180, b: 60, a: 255 },
        Cell::Blue => Color { r: 60, g: 60, b: 180, a: 255 },
        Cell::Yellow => Color { r: 180, g: 180, b: 60, a: 255 },
        Cell::Magenta => Color { r: 180, g: 60, b: 180, a: 255 },
        Cell::Exit => Color { r: 255, g: 99, b: 130, a: 255 },
        Cell::Empty => Color { r: 120, g: 120, b: 120, a: 255 },
    }
}

/// A rectangular grid of cells. Out-of-range lookups yield `Brick`, so the
/// boundary behaves as an infinite wall.
pub struct MazeGrid {
    pub rows: Vec<Vec<Cell>>,
}

impl MazeGrid {
    /// The grid is nonempty, rectangular, and small enough for the
    /// fixed-point distance arithmetic.
    pub open spec fn wf(self) -> bool {
        &&& 1 <= self.rows@.len() <= MAX_DIM
        &&& 1 <= self.rows@[0]@.len() <= MAX_DIM
        &&& forall|i: int|
            0 <= i < self.rows@.len() ==> (#[trigger] self.rows@[i]@.len())
                == self.rows@[0]@.len()
    }

    /// Number of rows.
    pub open spec fn spec_height(self) -> int {
        self.rows@.len() as int
    }

    /// Number of columns.
    pub open spec fn spec_width(self) -> int {
        self.rows@[0]@.len() as int
    }

    /// The cell at a grid position; the boundary symbol for out-of-range
    /// positions.
    pub open spec fn spec_cell(self, row: int, col: int) -> Cell {
        if 0 <= row < self.spec_height() && 0 <= col < self.spec_width() {
            self.rows@[row]@[col]
        } else {
            Cell::Brick
        }
    }

    /// Validates a candidate grid once at load time: it must be nonempty,
    /// rectangular and within `MAX_DIM`, else the asset is rejected.
    pub fn new(rows: Vec<Vec<Cell>>) -> (r: Option<MazeGrid>)
        ensures
            match r {
                Some(m) => m.rows == rows && m.wf(),
                None => !(MazeGrid { rows }).wf(),
            },
    {
        if rows.len() < 1 || rows.len() > MAX_DIM {
            return None;
        }
        let width = rows[0].len();
        if width < 1 || width > MAX_DIM {
            return None;
        }
        let mut i: usize = 0;
        while i < rows.len()
            invariant
                i <= rows@.len(),
                1 <= width <= MAX_DIM,
                width == rows@[0]@.len(),
                forall|j: int| 0 <= j < i ==> rows@[j]@.len() == width,
            decreases rows@.len() - i,
        {
            if rows[i].len() != width {
                return None;
            }
            i = i + 1;
        }
        Some(MazeGrid { rows })
    }

    /// Whether rows of map symbols form a valid grid: nonempty,
    /// rectangular, within the size cap.
    pub open spec fn spec_lines_wf(lines: Seq<Vec<char>>) -> bool {
        &&& 1 <= lines.len() <= MAX_DIM
        &&& 1 <= lines[0]@.len() <= MAX_DIM
        &&& forall|i: int|
            0 <= i < lines.len() ==> (#[trigger] lines[i]@.len()) == lines[0]@.len()
    }

    /// Builds a grid from rows of map symbols, validating the shape: a
    /// malformed asset is rejected at load time, never cast through.
    pub fn from_chars(lines: &Vec<Vec<char>>) -> (r: Option<MazeGrid>)
        ensures
            match r {
                Some(m) => {
                    &&& m.wf()
                    &&& MazeGrid::spec_lines_wf(lines@)
                    &&& m.spec_height() == lines@.len()
                    &&& forall|i: int|
                        0 <= i < lines@.len() ==> m.rows@[i]@.len() == lines@[i]@.len()
                    &&& forall|i: int, j: int|
                        0 <= i < lines@.len() && 0 <= j < lines@[i]@.len()
                            ==> m.rows@[i]@[j] == spec_cell_of_char(lines@[i]@[j])
                },
                None => !MazeGrid::spec_lines_wf(lines@),
            },
    {
        let mut rows: Vec<Vec<Cell>> = Vec::new();
        let mut i: usize = 0;
        while i < lines.len()
            invariant
                i <= lines@.len(),
                rows@.len() == i,
                forall|k: int| 0 <= k < i ==> rows@[k]@.len() == lines@[k]@.len(),
                forall|k: int, j: int|
                    0 <= k < i && 0 <= j < lines@[k]@.len()
                        ==> rows@[k]@[j] == spec_cell_of_char(lines@[k]@[j]),
            decreases lines@.len() - i,
        {
            let line = &lines[i];
            let mut row: Vec<Cell> = Vec::new();
            let mut j: usize = 0;
            while j < line.len()
                invariant
                    j <= line@.len(),
                    row@.len() == j,
                    forall|t: int| 0 <= t < j ==> row@[t] == spec_cell_of_char(line@[t]),
                decreases line@.len() - j,
            {
                row.push(cell_of_char(line[j]));
                j = j + 1;
            }
            rows.push(row);
            i = i + 1;
        }
        MazeGrid::new(rows)
    }
}

/// The cell under a fixed-point world position: integer division by the
/// cell edge, with everything outside the grid reading as the boundary
/// wall (negative coordinates included).
pub open spec fn spec_get_maze_cell(m: MazeGrid, x: int, y: int, block_size: int) -> Cell {
    if x < 0 || y < 0 {
        Cell::Brick
    } else {
        m.spec_cell(y / (block_size * FP_ONE), x / (block_size * FP_ONE))
    }
}

/// Looks up the maze cell under the world position `(x, y)`, both in 16.16
/// fixed point; positions outside the grid read as `Brick`.
pub fn get_maze_cell(maze: &MazeGrid, x: i64, y: i64, block_size: i64) -> (c: Cell)
    requires
        maze.wf(),
        1 <= block_size <= MAX_BLOCK,
    ensures
        c == spec_get_maze_cell(*maze, x as int, y as int, block_size as int),
{
    if x < 0 || y < 0 {
        return Cell::Brick;
    }
    let bfp: i64 = block_size * FP_ONE;
    let col: i64 = x / bfp;
    let row: i64 = y / bfp;
    if row >= maze.rows.len() as i64 {
        return Cell::Brick;
    }
    let r = row as usize;
    if col >= maze.rows[r].len() as i64 {
        return Cell::Brick;
    }
    maze.rows[r][col as usize]
}

/// Whether the world position `(x, y)` lies in a cell that blocks motion.
/// The exit does not: rays stop on it, the player walks onto it to win.
pub fn is_wall(maze: &MazeGrid, x: i64, y: i64, block_size: i64) -> (r: bool)
    requires
        maze.wf(),
        1 <= block_size <= MAX_BLOCK,
    ensures
        r == spec_blocks_motion(
            spec_get_maze_cell(*maze, x as int, y as int, block_size as int),
        ),
{
    let cell = get_maze_cell(maze, x, y, block_size);
    match cell {
        Cell::Empty => false,
        Cell::Exit => false,
        _ => true,
    }
}

/// Scans the grid in row-major order for the first cell of the wanted
/// category; used once at startup to place the spawn and the exit.
pub fn find_cell(maze: &MazeGrid, cell: Cell) -> (r: Option<(usize, usize)>)
    requires
        maze.wf(),
    ensures
        match r {
            Some(pos) => {
                &&& 0 <= pos.0 < maze.spec_height()
                &&& 0 <= pos.1 < maze.spec_width()
                &&& maze.spec_cell(pos.0 as int, pos.1 as int) == cell
                &&& forall|i: int, j: int|
                    0 <= i < maze.spec_height() && 0 <= j < maze.spec_width()
                        && (i < pos.0 || (i == pos.0 && j < pos.1))
                        ==> maze.spec_cell(i, j) != cell
            },
            None => forall|i: int, j: int|
                0 <= i < maze.spec_height() && 0 <= j < maze.spec_width()
                    ==> maze.spec_cell(i, j) != cell,
        },
{
    let mut row: usize = 0;
    while row < maze.rows.len()
        invariant
            maze.wf(),
            row <= maze.spec_height(),
            forall|i: int, j: int|
                0 <= i < row && 0 <= j < maze.spec_width() ==> maze.spec_cell(i, j) != cell,
        decreases maze.spec_height() - row,
    {
        let mut col: usize = 0;
        while col < maze.rows[row].len()
            invariant
                maze.wf(),
                row < maze.spec_height(),
                col <= maze.spec_width(),
                forall|i: int, j: int|
                    0 <= i < row && 0 <= j < maze.spec_width() ==> maze.spec_cell(i, j) != cell,
                forall|j: int| 0 <= j < col ==> maze.spec_cell(row as int, j) != cell,
            decreases maze.spec_width() - col,
        {
            if maze.rows[row][col] == cell {
                return Some((row, col));
            }
            col = col + 1;
        }
        row = row + 1;
    }
    None
}

} // verus!
