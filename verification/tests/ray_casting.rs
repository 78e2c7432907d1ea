use raycasting::maze::{Cell, MazeGrid};
use raycasting::ray::cast_ray;
use raycasting::FP_ONE;

fn grid_from(rows: &[&str]) -> MazeGrid {
    let lines: Vec<Vec<char>> = rows.iter().map(|r| r.chars().collect()).collect();
    MazeGrid::from_chars(&lines).expect("rectangular maze")
}

#[test]
fn straight_ray_reports_exit_at_exact_distance() {
    // A corridor row with the exit nine cells right of the player's cell:
    // cast due east from the left edge of column 1 with 64-unit cells and
    // the exit must be hit at exactly 9 * 64 = 576 world units.
    let m = grid_from(&[
        "############",
        "#         E#",
        "############",
    ]);
    let hit = cast_ray(&m, 64 * FP_ONE, 96 * FP_ONE, FP_ONE, 0, 64);
    assert_eq!(hit.cell, Cell::Exit);
    assert_eq!(hit.distance, 576 * FP_ONE);
    assert!(!hit.side);
}

#[test]
fn straight_ray_into_wall_k_blocks_away() {
    // One open cell, then a wall: from the middle of column 1 the near
    // face of column 3 is 1.5 cells = 96 world units away.
    let m = grid_from(&[
        "#####",
        "#  B#",
        "#####",
    ]);
    let hit = cast_ray(&m, 96 * FP_ONE, 96 * FP_ONE, FP_ONE, 0, 64);
    assert_eq!(hit.cell, Cell::Blue);
    assert_eq!(hit.distance, 96 * FP_ONE);
    assert!(!hit.side);
}

#[test]
fn ray_leaving_the_grid_hits_the_boundary_brick() {
    let m = grid_from(&["    ", "    "]);
    let hit = cast_ray(&m, 32 * FP_ONE, 32 * FP_ONE, FP_ONE, 0, 64);
    assert_eq!(hit.cell, Cell::Brick);
    // The boundary line sits at 4 * 64 = 256 world units.
    assert_eq!(hit.distance, (256 - 32) * FP_ONE);
    assert!(!hit.side);
}

#[test]
fn side_flag_names_the_axis_of_the_final_step() {
    let m = grid_from(&[
        "#####",
        "#   #",
        "#   #",
        "#####",
    ]);
    let east = cast_ray(&m, 96 * FP_ONE, 96 * FP_ONE, FP_ONE, 0, 64);
    assert!(!east.side);
    let west = cast_ray(&m, 96 * FP_ONE, 96 * FP_ONE, -FP_ONE, 0, 64);
    assert!(!west.side);
    let south = cast_ray(&m, 96 * FP_ONE, 96 * FP_ONE, 0, FP_ONE, 64);
    assert!(south.side);
    let north = cast_ray(&m, 96 * FP_ONE, 96 * FP_ONE, 0, -FP_ONE, 64);
    assert!(north.side);
}

#[test]
fn west_ray_distance_is_exact() {
    let m = grid_from(&[
        "####",
        "#  #",
        "####",
    ]);
    // From the middle of column 2, the wall at column 0 shows its near
    // face at x = 64, so the distance is 160 - 64 = 96 world units.
    let hit = cast_ray(&m, 160 * FP_ONE, 96 * FP_ONE, -FP_ONE, 0, 64);
    assert_eq!(hit.cell, Cell::Brick);
    assert_eq!(hit.distance, 96 * FP_ONE);
    assert!(!hit.side);
}

#[test]
fn south_ray_distance_is_exact_and_flags_the_side() {
    let m = grid_from(&[
        "###",
        "# #",
        "# #",
        "###",
    ]);
    // From the middle of row 1, the wall at row 3 shows its near face at
    // y = 192, so the distance is 192 - 96 = 96 world units.
    let hit = cast_ray(&m, 96 * FP_ONE, 96 * FP_ONE, 0, FP_ONE, 64);
    assert_eq!(hit.cell, Cell::Brick);
    assert_eq!(hit.distance, 96 * FP_ONE);
    assert!(hit.side);
}

#[test]
fn any_angle_yields_nonnegative_distance_and_a_stopping_cell() {
    let m = grid_from(&[
        "ABCDE",
        "B   A",
        "C   B",
        "DABCD",
    ]);
    let dirs: Vec<(i64, i64)> = vec![
        (FP_ONE, 0),
        (-FP_ONE, 0),
        (0, FP_ONE),
        (0, -FP_ONE),
        (46341, 46341),
        (-46341, 46341),
        (46341, -46341),
        (-46341, -46341),
        (60000, 26000),
        (-1, FP_ONE),
    ];
    for (dx, dy) in dirs {
        let hit = cast_ray(&m, 150 * FP_ONE, 130 * FP_ONE, dx, dy, 64);
        assert!(hit.distance >= 0);
        assert!(hit.cell != Cell::Empty);
    }
}
