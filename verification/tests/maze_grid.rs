use raycasting::maze::{Cell, MazeGrid, cell_of_char, find_cell, get_maze_cell, is_wall, wall_color};
use raycasting::color::Color;
use raycasting::FP_ONE;

fn grid_from(rows: &[&str]) -> MazeGrid {
    let lines: Vec<Vec<char>> = rows.iter().map(|r| r.chars().collect()).collect();
    MazeGrid::from_chars(&lines).expect("rectangular maze")
}

fn default_maze() -> MazeGrid {
    grid_from(&[
        "AAAAAAAAAAAA",
        "A     A    A",
        "A BBB A CC A",
        "A B   A C  A",
        "A B BBB CCCC",
        "A   A      A",
        "BBB A DDDD A",
        "A   A    A A",
        "A DDDDD CC A",
        "A       A  A",
        "AAAAAAAAAAEA",
        "AAAAAAAAAAAA",
    ])
}

#[test]
fn cell_of_char_maps_every_symbol() {
    assert_eq!(cell_of_char('#'), Cell::Brick);
    assert_eq!(cell_of_char('A'), Cell::Green);
    assert_eq!(cell_of_char('B'), Cell::Blue);
    assert_eq!(cell_of_char('C'), Cell::Yellow);
    assert_eq!(cell_of_char('D'), Cell::Magenta);
    assert_eq!(cell_of_char('E'), Cell::Exit);
    assert_eq!(cell_of_char(' '), Cell::Empty);
    assert_eq!(cell_of_char('z'), Cell::Empty);
}

#[test]
fn wall_color_table_matches_categories() {
    assert_eq!(wall_color(Cell::Brick), Color { r: 180, g: 60, b: 60, a: 255 });
    assert_eq!(wall_color(Cell::Green), Color { r: 60, g: 180, b: 60, a: 255 });
    assert_eq!(wall_color(Cell::Blue), Color { r: 60, g: 60, b: 180, a: 255 });
    assert_eq!(wall_color(Cell::Yellow), Color { r: 180, g: 180, b: 60, a: 255 });
    assert_eq!(wall_color(Cell::Magenta), Color { r: 180, g: 60, b: 180, a: 255 });
    assert_eq!(wall_color(Cell::Exit), Color { r: 255, g: 99, b: 130, a: 255 });
    assert_eq!(wall_color(Cell::Empty), Color { r: 120, g: 120, b: 120, a: 255 });
}

#[test]
fn get_maze_cell_divides_world_coordinates() {
    let m = default_maze();
    // The middle of cell (row 1, col 1) is open.
    assert_eq!(get_maze_cell(&m, 96 * FP_ONE, 96 * FP_ONE, 64), Cell::Empty);
    // The top-left corner cell is a green wall.
    assert_eq!(get_maze_cell(&m, 0, 0, 64), Cell::Green);
    // Outside the grid everything reads as the boundary brick.
    assert_eq!(get_maze_cell(&m, -FP_ONE, 96 * FP_ONE, 64), Cell::Brick);
    assert_eq!(get_maze_cell(&m, 96 * FP_ONE, 100000 * FP_ONE, 64), Cell::Brick);
}

#[test]
fn is_wall_blocks_walls_but_not_exit() {
    let m = default_maze();
    assert!(is_wall(&m, 0, 0, 64));
    assert!(!is_wall(&m, 96 * FP_ONE, 96 * FP_ONE, 64));
    // The exit cell at (row 10, col 10) does not block motion.
    let exit_x = (10 * 64 + 32) * FP_ONE;
    let exit_y = (10 * 64 + 32) * FP_ONE;
    assert_eq!(get_maze_cell(&m, exit_x, exit_y, 64), Cell::Exit);
    assert!(!is_wall(&m, exit_x, exit_y, 64));
    // Outside the grid blocks.
    assert!(is_wall(&m, -1, 0, 64));
}

#[test]
fn find_cell_returns_first_occurrence_row_major() {
    let m = default_maze();
    assert_eq!(find_cell(&m, Cell::Empty), Some((1, 1)));
    assert_eq!(find_cell(&m, Cell::Exit), Some((10, 10)));
    assert_eq!(find_cell(&m, Cell::Green), Some((0, 0)));
    let small = grid_from(&["AA", "AA"]);
    assert_eq!(find_cell(&small, Cell::Exit), None);
}

#[test]
fn grid_validation_rejects_ragged_and_empty() {
    let ragged: Vec<Vec<char>> = vec!["AAA".chars().collect(), "AA".chars().collect()];
    assert!(MazeGrid::from_chars(&ragged).is_none());
    let empty: Vec<Vec<char>> = Vec::new();
    assert!(MazeGrid::from_chars(&empty).is_none());
    let ok: Vec<Vec<char>> = vec!["AB".chars().collect(), "C ".chars().collect()];
    let m = MazeGrid::from_chars(&ok).expect("valid");
    assert_eq!(get_maze_cell(&m, 0, 0, 64), Cell::Green);
    assert_eq!(get_maze_cell(&m, 64 * FP_ONE, 64 * FP_ONE, 64), Cell::Empty);
}
