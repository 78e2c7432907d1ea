//! The executable ray caster: walks the maze grid cell by cell along a
//! ray until a stopping cell, and returns the perpendicular wall distance,
//! the cell hit, and which axis the final step crossed. Verified to
//! compute exactly the state the model in `dda` designates.

use vstd::prelude::*;
use crate::maze::{Cell, MazeGrid, spec_stops_ray, MAX_BLOCK, MAX_DIM};
use crate::dda::{
    RayQuery, DdaState, dda_init, dda_step, dda_run, dda_measure, dda_fuel, dda_final,
    dda_inv, hit_distance, lemma_init_inv, lemma_step_inv, lemma_final, lemma_hit_is_final,
    lemma_hit_distance_bounds, SENTINEL,
};
use crate::FP_ONE;

verus! {

/// What one cast returns: the perpendicular distance to the hit wall face
/// in fixed-point world units, the cell category hit, and whether the
/// final step crossed a horizontal grid line (a "side" hit, drawn darker).
pub struct RayHit {
    pub distance: i64,
    pub cell: Cell,
    pub side: bool,
}

/// The model query that a call with these arguments stands for.
pub open spec fn spec_ray_query(
    m: MazeGrid,
    ox: i64,
    oy: i64,
    dx: i64,
    dy: i64,
    block_size: i64,
) -> RayQuery {
    RayQuery {
        grid: m.rows@.map_values(|r: Vec<Cell>| r@),
        block: block_size as int,
        ox: ox as int,
        oy: oy as int,
        dx: dx as int,
        dy: dy as int,
    }
}

/// The inputs a cast accepts: a well-formed grid, a valid cell edge, an
/// origin strictly inside the grid, and fixed-point unit-vector direction
/// components that are not both zero.
pub open spec fn valid_ray_args(
    m: MazeGrid,
    ox: i64,
    oy: i64,
    dx: i64,
    dy: i64,
    block_size: i64,
) -> bool {
    &&& m.wf()
    &&& 1 <= block_size <= MAX_BLOCK
    &&& 0 <= ox < m.spec_width() * (block_size * FP_ONE)
    &&& 0 <= oy < m.spec_height() * (block_size * FP_ONE)
    &&& -FP_ONE <= dx <= FP_ONE
    &&& -FP_ONE <= dy <= FP_ONE
    &&& !(dx == 0 && dy == 0)
}

/// Valid arguments denote a well-formed query whose grid mirrors the
/// maze cell for cell.
pub proof fn lemma_query_wf(m: MazeGrid, ox: i64, oy: i64, dx: i64, dy: i64, block_size: i64)
    requires
        valid_ray_args(m, ox, oy, dx, dy, block_size),
    ensures
        spec_ray_query(m, ox, oy, dx, dy, block_size).wf(),
        spec_ray_query(m, ox, oy, dx, dy, block_size).width() == m.spec_width(),
        spec_ray_query(m, ox, oy, dx, dy, block_size).height() == m.spec_height(),
        forall|mx: int, my: int|
            #[trigger] spec_ray_query(m, ox, oy, dx, dy, block_size).cell(mx, my)
                == m.spec_cell(my, mx),
{
    let q = spec_ray_query(m, ox, oy, dx, dy, block_size);
    assert(q.grid.len() == m.rows@.len());
    assert(forall|i: int|
        0 <= i < q.grid.len() ==> (#[trigger] q.grid[i]) == m.rows@[i]@);
    assert forall|mx: int, my: int| #[trigger] q.cell(mx, my) == m.spec_cell(my, mx) by {
        if q.in_range(mx, my) {
            assert(q.grid[my] == m.rows@[my]@);
        }
    }
}

/// Casts a ray from `(origin_x, origin_y)` along `(dir_x, dir_y)` — all in
/// 16.16 fixed point, the direction being a scaled unit vector — through a
/// maze with cells `block_size` world units wide. Returns the state the
/// DDA model designates: the first stopping cell, the side flag, and the
/// exact perpendicular distance, which is never negative; the cell hit is
/// never passable (the grid boundary reads as brick).
pub fn cast_ray(
    maze: &MazeGrid,
    origin_x: i64,
    origin_y: i64,
    dir_x: i64,
    dir_y: i64,
    block_size: i64,
) -> (hit: RayHit)
    requires
        valid_ray_args(*maze, origin_x, origin_y, dir_x, dir_y, block_size),
    ensures
        ({
            let q = spec_ray_query(*maze, origin_x, origin_y, dir_x, dir_y, block_size);
            &&& hit.distance == hit_distance(q, dda_final(q))
            &&& hit.cell == q.cell(dda_final(q).mx, dda_final(q).my)
            &&& hit.side == dda_final(q).side
            &&& 0 <= hit.distance <= 0x40_0000_0000_0000
            &&& spec_stops_ray(hit.cell)
        }),
{
    let ghost q = spec_ray_query(*maze, origin_x, origin_y, dir_x, dir_y, block_size);
    proof {
        lemma_query_wf(*maze, origin_x, origin_y, dir_x, dir_y, block_size);
        lemma_init_inv(q);
    }
    let bfp: i64 = block_size * FP_ONE;
    let width: usize = maze.rows[0].len();
    let height: usize = maze.rows.len();
    proof {
        assert(0 <= q.ox / q.bfp() * q.bfp() <= q.ox && q.ox < (q.ox / q.bfp() + 1) * q.bfp()
            && q.ox / q.bfp() < q.width()) by (nonlinear_arith)
            requires
                0 < q.bfp() && 0 <= q.ox < q.width() * q.bfp(),
        ;
        assert(0 <= q.oy / q.bfp() * q.bfp() <= q.oy && q.oy < (q.oy / q.bfp() + 1) * q.bfp()
            && q.oy / q.bfp() < q.height()) by (nonlinear_arith)
            requires
                0 < q.bfp() && 0 <= q.oy < q.height() * q.bfp(),
        ;
        assert(q.width() * q.bfp() <= (MAX_DIM as int) * (MAX_BLOCK * FP_ONE))
            by (nonlinear_arith)
            requires
                0 < q.bfp() <= MAX_BLOCK * FP_ONE && 0 < q.width() <= MAX_DIM,
        ;
        assert(q.height() * q.bfp() <= (MAX_DIM as int) * (MAX_BLOCK * FP_ONE))
            by (nonlinear_arith)
            requires
                0 < q.bfp() <= MAX_BLOCK * FP_ONE && 0 < q.height() <= MAX_DIM,
        ;
    }
    let mut map_x: i64 = origin_x / bfp;
    let mut map_y: i64 = origin_y / bfp;
    proof {
        assert(map_x as int == q.mx0() && map_y as int == q.my0());
        assert((q.mx0() + 1) * q.bfp() <= q.width() * q.bfp() && 0 <= q.mx0() * q.bfp())
            by (nonlinear_arith)
            requires
                0 <= q.mx0() && q.mx0() + 1 <= q.width() && 0 < q.bfp(),
        ;
        assert((q.my0() + 1) * q.bfp() <= q.height() * q.bfp() && 0 <= q.my0() * q.bfp())
            by (nonlinear_arith)
            requires
                0 <= q.my0() && q.my0() + 1 <= q.height() && 0 < q.bfp(),
        ;
    }

    let step_x: i64;
    let delta_x: i64;
    let mut side_dist_x: i64;
    if dir_x == 0 {
        step_x = 1;
        delta_x = SENTINEL;
        side_dist_x = SENTINEL;
    } else if dir_x < 0 {
        step_x = -1;
        delta_x = bfp * FP_ONE / (-dir_x);
        side_dist_x = (origin_x - map_x * bfp) * FP_ONE / (-dir_x);
    } else {
        step_x = 1;
        delta_x = bfp * FP_ONE / dir_x;
        side_dist_x = ((map_x + 1) * bfp - origin_x) * FP_ONE / dir_x;
    }

    let step_y: i64;
    let delta_y: i64;
    let mut side_dist_y: i64;
    if dir_y == 0 {
        step_y = 1;
        delta_y = SENTINEL;
        side_dist_y = SENTINEL;
    } else if dir_y < 0 {
        step_y = -1;
        delta_y = bfp * FP_ONE / (-dir_y);
        side_dist_y = (origin_y - map_y * bfp) * FP_ONE / (-dir_y);
    } else {
        step_y = 1;
        delta_y = bfp * FP_ONE / dir_y;
        side_dist_y = ((map_y + 1) * bfp - origin_y) * FP_ONE / dir_y;
    }

    let mut side: bool = false;
    let mut hit_wall: bool = false;
    let ghost mut steps: nat = 0;

    proof {
        assert(dda_run(q, dda_init(q), 0) == dda_init(q));
    }

    while !hit_wall
        invariant
            q == spec_ray_query(*maze, origin_x, origin_y, dir_x, dir_y, block_size),
            valid_ray_args(*maze, origin_x, origin_y, dir_x, dir_y, block_size),
            q.wf(),
            width == q.width(),
            height == q.height(),
            bfp == block_size * FP_ONE,
            step_x as int == q.step_x(),
            step_y as int == q.step_y(),
            delta_x as int == q.delta_x(),
            delta_y as int == q.delta_y(),
            dda_run(q, dda_init(q), steps) == (DdaState {
                mx: map_x as int,
                my: map_y as int,
                sdx: side_dist_x as int,
                sdy: side_dist_y as int,
                side: side,
                hit: hit_wall,
            }),
            dda_inv(q, DdaState {
                mx: map_x as int,
                my: map_y as int,
                sdx: side_dist_x as int,
                sdy: side_dist_y as int,
                side: side,
                hit: hit_wall,
            }),
            steps + dda_measure(q, DdaState {
                mx: map_x as int,
                my: map_y as int,
                sdx: side_dist_x as int,
                sdy: side_dist_y as int,
                side: side,
                hit: hit_wall,
            }) <= dda_fuel(q),
        decreases dda_measure(q, DdaState {
            mx: map_x as int,
            my: map_y as int,
            sdx: side_dist_x as int,
            sdy: side_dist_y as int,
            side: side,
            hit: hit_wall,
        }),
    {
        let ghost cur = DdaState {
            mx: map_x as int,
            my: map_y as int,
            sdx: side_dist_x as int,
            sdy: side_dist_y as int,
            side: side,
            hit: hit_wall,
        };
        proof {
            lemma_step_inv(q, cur);
        }
        if side_dist_x < side_dist_y {
            side_dist_x = side_dist_x + delta_x;
            map_x = map_x + step_x;
            side = false;
        } else {
            side_dist_y = side_dist_y + delta_y;
            map_y = map_y + step_y;
            side = true;
        }
        if map_x < 0 || map_y < 0 || map_x >= width as i64 || map_y >= height as i64 {
            hit_wall = true;
        } else {
            proof {
                assert(q.grid[map_y as int] == maze.rows@[map_y as int]@);
            }
            let c = maze.rows[map_y as usize][map_x as usize];
            hit_wall = match c {
                Cell::Empty => false,
                _ => true,
            };
        }
        proof {
            steps = steps + 1;
        }
    }

    let ghost fin = DdaState {
        mx: map_x as int,
        my: map_y as int,
        sdx: side_dist_x as int,
        sdy: side_dist_y as int,
        side: side,
        hit: hit_wall,
    };
    proof {
        lemma_hit_is_final(q, steps);
        lemma_hit_distance_bounds(q, fin);
    }

    let distance: i64 = if !side {
        if dir_x >= 0 {
            (map_x * bfp - origin_x) * FP_ONE / dir_x
        } else {
            (origin_x - (map_x + 1) * bfp) * FP_ONE / (-dir_x)
        }
    } else {
        if dir_y >= 0 {
            (map_y * bfp - origin_y) * FP_ONE / dir_y
        } else {
            (origin_y - (map_y + 1) * bfp) * FP_ONE / (-dir_y)
        }
    };

    let cell: Cell = if map_x < 0 || map_y < 0 || map_x >= width as i64
        || map_y >= height as i64 {
        Cell::Brick
    } else {
        proof {
            assert(q.grid[map_y as int] == maze.rows@[map_y as int]@);
        }
        maze.rows[map_y as usize][map_x as usize]
    };

    RayHit { distance, cell, side }
}

/// A ray cast from strictly inside the grid, whatever its direction, ends
/// on a ray-stopping cell — never a passable one — at a nonnegative
/// distance.
pub proof fn lemma_cast_ray_hits_wall(
    m: MazeGrid,
    ox: i64,
    oy: i64,
    dx: i64,
    dy: i64,
    block_size: i64,
)
    requires
        valid_ray_args(m, ox, oy, dx, dy, block_size),
    ensures
        ({
            let q = spec_ray_query(m, ox, oy, dx, dy, block_size);
            &&& 0 <= hit_distance(q, dda_final(q))
            &&& spec_stops_ray(q.cell(dda_final(q).mx, dda_final(q).my))
        }),
{
    let q = spec_ray_query(m, ox, oy, dx, dy, block_size);
    lemma_query_wf(m, ox, oy, dx, dy, block_size);
    lemma_final(q);
    lemma_hit_distance_bounds(q, dda_final(q));
}

/// A ray cast due east (a unit x direction, no y component) down a
/// corridor of passable cells ends on the first stopping cell, `k`
/// columns right of the origin's cell, as an x-axis hit whose distance is
/// exactly the fixed-point world distance from the origin to that cell's
/// near face: `k` whole cells minus the origin's offset within its own.
pub proof fn lemma_cast_ray_straight_east(m: MazeGrid, ox: i64, oy: i64, block_size: i64, k: int)
    requires
        valid_ray_args(m, ox, oy, FP_ONE, 0, block_size),
        1 <= k,
        forall|t: int|
            1 <= t < k ==> !spec_stops_ray(#[trigger] m.spec_cell(oy as int / (block_size
                * FP_ONE), ox as int / (block_size * FP_ONE) + t)),
        spec_stops_ray(m.spec_cell(oy as int / (block_size * FP_ONE), ox as int / (
        block_size * FP_ONE) + k)),
    ensures
        ({
            let q = spec_ray_query(m, ox, oy, FP_ONE, 0, block_size);
            &&& hit_distance(q, dda_final(q)) == (ox as int / (block_size * FP_ONE) + k) * (
            block_size * FP_ONE) - ox
            &&& q.cell(dda_final(q).mx, dda_final(q).my) == m.spec_cell(oy as int / (
            block_size * FP_ONE), ox as int / (block_size * FP_ONE) + k)
            &&& !dda_final(q).side
        }),
{
    let q = spec_ray_query(m, ox, oy, FP_ONE, 0, block_size);
    lemma_query_wf(m, ox, oy, FP_ONE, 0, block_size);
    assert(q.mx0() == ox as int / (block_size * FP_ONE));
    assert(q.my0() == oy as int / (block_size * FP_ONE));
    assert forall|t: int| 1 <= t < k implies !spec_stops_ray(#[trigger] q.cell(q.mx0() + t,
    q.my0())) by {
        assert(q.cell(q.mx0() + t, q.my0()) == m.spec_cell(q.my0(), q.mx0() + t));
    }
    assert(q.cell(q.mx0() + k, q.my0()) == m.spec_cell(q.my0(), q.mx0() + k));
    crate::dda::lemma_cast_straight_east(q, k);
}

/// The matching law for a ray cast due south (a unit y direction, no x
/// component): a y-axis hit on the first stopping cell `k` rows below,
/// at the exact fixed-point distance to its near face.
pub proof fn lemma_cast_ray_straight_south(
    m: MazeGrid,
    ox: i64,
    oy: i64,
    block_size: i64,
    k: int,
)
    requires
        valid_ray_args(m, ox, oy, 0, FP_ONE, block_size),
        1 <= k,
        forall|t: int|
            1 <= t < k ==> !spec_stops_ray(#[trigger] m.spec_cell(oy as int / (block_size
                * FP_ONE) + t, ox as int / (block_size * FP_ONE))),
        spec_stops_ray(m.spec_cell(oy as int / (block_size * FP_ONE) + k, ox as int / (
        block_size * FP_ONE))),
    ensures
        ({
            let q = spec_ray_query(m, ox, oy, 0, FP_ONE, block_size);
            &&& hit_distance(q, dda_final(q)) == (oy as int / (block_size * FP_ONE) + k) * (
            block_size * FP_ONE) - oy
            &&& q.cell(dda_final(q).mx, dda_final(q).my) == m.spec_cell(oy as int / (
            block_size * FP_ONE) + k, ox as int / (block_size * FP_ONE))
            &&& dda_final(q).side
        }),
{
    let q = spec_ray_query(m, ox, oy, 0, FP_ONE, block_size);
    lemma_query_wf(m, ox, oy, 0, FP_ONE, block_size);
    assert(q.mx0() == ox as int / (block_size * FP_ONE));
    assert(q.my0() == oy as int / (block_size * FP_ONE));
    assert forall|t: int| 1 <= t < k implies !spec_stops_ray(#[trigger] q.cell(q.mx0(),
    q.my0() + t)) by {
        assert(q.cell(q.mx0(), q.my0() + t) == m.spec_cell(q.my0() + t, q.mx0()));
    }
    assert(q.cell(q.mx0(), q.my0() + k) == m.spec_cell(q.my0() + k, q.mx0()));
    crate::dda::lemma_cast_straight_south(q, k);
}

/// The side flag names the axis of the final step: a ray with no y
/// component can only end on an x step, and a ray with no x component
/// can only end on a y step.
pub proof fn lemma_cast_ray_axis_side(
    m: MazeGrid,
    ox: i64,
    oy: i64,
    dx: i64,
    dy: i64,
    block_size: i64,
)
    requires
        valid_ray_args(m, ox, oy, dx, dy, block_size),
    ensures
        dy == 0 ==> !dda_final(spec_ray_query(m, ox, oy, dx, dy, block_size)).side,
        dx == 0 ==> dda_final(spec_ray_query(m, ox, oy, dx, dy, block_size)).side,
{
    let q = spec_ray_query(m, ox, oy, dx, dy, block_size);
    lemma_query_wf(m, ox, oy, dx, dy, block_size);
    lemma_final(q);
}

} // verus!
