//! The mathematical model of the DDA grid walk that the ray caster
//! implements: a small-step state machine over exact integers, together
//! with the lemmas that drive it (the walk stays inside its bounds, every
//! step shrinks a measure, and a fixed fuel always reaches the hit state).
//!
//! All quantities are 16.16 fixed point carried in `int`: a side distance
//! holds `ray_length * FP_ONE` in world units, a delta holds the ray
//! length consumed by crossing one cell on that axis. A zero direction
//! component would never win the axis race in exact arithmetic; it is
//! modelled, as in the executable code, by the huge `SENTINEL` side
//! distance, which the lemmas show no reachable side distance ever equals.

use vstd::prelude::*;
use vstd::math::abs;
use crate::maze::{Cell, spec_stops_ray, MAX_DIM, MAX_BLOCK};
use crate::FP_ONE;

verus! {

/// Stands in for an infinite side distance on an axis the ray never
/// crosses; far above any side distance a real walk can accumulate.
pub const SENTINEL: i64 = 0x1000_0000_0000_0000;

/// One ray cast: the grid, the cell edge in world units, the origin in
/// fixed-point world units, and the fixed-point direction components.
pub ghost struct RayQuery {
    pub grid: Seq<Seq<Cell>>,
    pub block: int,
    pub ox: int,
    pub oy: int,
    pub dx: int,
    pub dy: int,
}

impl RayQuery {
    /// Number of grid rows.
    pub open spec fn height(self) -> int {
        self.grid.len() as int
    }

    /// Number of grid columns.
    pub open spec fn width(self) -> int {
        self.grid[0].len() as int
    }

    /// The cell edge in fixed point.
    pub open spec fn bfp(self) -> int {
        self.block * FP_ONE
    }

    /// The grid is nonempty, rectangular, and within the size cap.
    pub open spec fn grid_wf(self) -> bool {
        &&& 1 <= self.height() <= MAX_DIM
        &&& 1 <= self.width() <= MAX_DIM
        &&& forall|i: int|
            0 <= i < self.height() ==> (#[trigger] self.grid[i].len()) == self.width()
    }

    /// A well-formed query: valid grid and block, origin strictly inside
    /// the grid, unit-vector direction components, not both zero.
    pub open spec fn wf(self) -> bool {
        &&& self.grid_wf()
        &&& 1 <= self.block <= MAX_BLOCK
        &&& 0 <= self.ox < self.width() * self.bfp()
        &&& 0 <= self.oy < self.height() * self.bfp()
        &&& -FP_ONE <= self.dx <= FP_ONE
        &&& -FP_ONE <= self.dy <= FP_ONE
        &&& !(self.dx == 0 && self.dy == 0)
    }

    /// Whether a cell position lies inside the grid.
    pub open spec fn in_range(self, mx: int, my: int) -> bool {
        0 <= mx < self.width() && 0 <= my < self.height()
    }

    /// The cell at a position; outside the grid the boundary reads as an
    /// infinite brick wall.
    pub open spec fn cell(self, mx: int, my: int) -> Cell {
        if self.in_range(mx, my) {
            self.grid[my][mx]
        } else {
            Cell::Brick
        }
    }

    /// Which way the walk moves along x.
    pub open spec fn step_x(self) -> int {
        if self.dx < 0 { -1 } else { 1 }
    }

    /// Which way the walk moves along y.
    pub open spec fn step_y(self) -> int {
        if self.dy < 0 { -1 } else { 1 }
    }

    /// Ray length consumed by crossing one cell along x, in fixed point.
    pub open spec fn delta_x(self) -> int {
        if self.dx == 0 {
            SENTINEL as int
        } else {
            self.bfp() * FP_ONE / abs(self.dx) as int
        }
    }

    /// Ray length consumed by crossing one cell along y, in fixed point.
    pub open spec fn delta_y(self) -> int {
        if self.dy == 0 {
            SENTINEL as int
        } else {
            self.bfp() * FP_ONE / abs(self.dy) as int
        }
    }

    /// The column the origin starts in.
    pub open spec fn mx0(self) -> int {
        self.ox / self.bfp()
    }

    /// The row the origin starts in.
    pub open spec fn my0(self) -> int {
        self.oy / self.bfp()
    }

    /// Ray length to the first x grid line the walk will cross.
    pub open spec fn sdx0(self) -> int {
        if self.dx == 0 {
            SENTINEL as int
        } else if self.dx < 0 {
            (self.ox - self.mx0() * self.bfp()) * FP_ONE / (-self.dx)
        } else {
            ((self.mx0() + 1) * self.bfp() - self.ox) * FP_ONE / self.dx
        }
    }

    /// Ray length to the first y grid line the walk will cross.
    pub open spec fn sdy0(self) -> int {
        if self.dy == 0 {
            SENTINEL as int
        } else if self.dy < 0 {
            (self.oy - self.my0() * self.bfp()) * FP_ONE / (-self.dy)
        } else {
            ((self.my0() + 1) * self.bfp() - self.oy) * FP_ONE / self.dy
        }
    }
}

/// The walk's state: the current cell, the accumulated side distances,
/// which axis the last step crossed, and whether the walk has ended.
pub ghost struct DdaState {
    pub mx: int,
    pub my: int,
    pub sdx: int,
    pub sdy: int,
    pub side: bool,
    pub hit: bool,
}

/// Where the walk begins: the origin's cell, the initial side distances.
pub open spec fn dda_init(q: RayQuery) -> DdaState {
    DdaState {
        mx: q.mx0(),
        my: q.my0(),
        sdx: q.sdx0(),
        sdy: q.sdy0(),
        side: false,
        hit: false,
    }
}

/// One step once the walk is still going: advance along the axis whose
/// next grid line is nearer (y on ties), then stop if the cell entered
/// stops a ray or lies outside the grid.
pub open spec fn dda_step(q: RayQuery, s: DdaState) -> DdaState {
    if s.hit {
        s
    } else {
        let t = if s.sdx < s.sdy {
            DdaState { mx: s.mx + q.step_x(), sdx: s.sdx + q.delta_x(), side: false, ..s }
        } else {
            DdaState { my: s.my + q.step_y(), sdy: s.sdy + q.delta_y(), side: true, ..s }
        };
        DdaState { hit: !q.in_range(t.mx, t.my) || spec_stops_ray(q.cell(t.mx, t.my)), ..t }
    }
}

/// The state after `n` steps.
pub open spec fn dda_run(q: RayQuery, s: DdaState, n: nat) -> DdaState
    decreases n,
{
    if n == 0 {
        s
    } else {
        dda_step(q, dda_run(q, s, (n - 1) as nat))
    }
}

/// How many cells remain before the walk must leave the grid: an upper
/// bound on the steps still possible, shrinking by one per step.
pub open spec fn dda_measure(q: RayQuery, s: DdaState) -> int {
    (if q.step_x() == 1 {
        q.width() - s.mx
    } else {
        s.mx + 1
    }) + (if q.step_y() == 1 {
        q.height() - s.my
    } else {
        s.my + 1
    })
}

/// Fuel that always suffices to reach the hit state from the start.
pub open spec fn dda_fuel(q: RayQuery) -> nat {
    (q.width() + q.height() + 2) as nat
}

/// The ended state the walk reaches: where the cast ray stops.
pub open spec fn dda_final(q: RayQuery) -> DdaState {
    dda_run(q, dda_init(q), dda_fuel(q))
}

/// Everything a reachable state satisfies: the walk sits inside the grid
/// until it ends, it ends only on a ray-stopping cell, each cell index
/// moves monotonically from the start, each live side distance is exactly
/// the initial one plus one delta per cell crossed and stays far below the
/// sentinel, a zero direction component freezes its axis, and the side
/// flag of an ended walk names an axis that actually stepped.
pub open spec fn dda_inv(q: RayQuery, s: DdaState) -> bool {
    &&& 0 <= s.sdx
    &&& 0 <= s.sdy
    &&& (!s.hit ==> q.in_range(s.mx, s.my))
    &&& (s.hit ==> spec_stops_ray(q.cell(s.mx, s.my)))
    &&& -1 <= s.mx <= q.width()
    &&& -1 <= s.my <= q.height()
    &&& (q.step_x() == 1 ==> s.mx >= q.mx0())
    &&& (q.step_x() == -1 ==> s.mx <= q.mx0())
    &&& (q.step_y() == 1 ==> s.my >= q.my0())
    &&& (q.step_y() == -1 ==> s.my <= q.my0())
    &&& (q.dx == 0 ==> s.mx == q.mx0() && s.sdx == SENTINEL as int && (s.hit ==> s.side))
    &&& (q.dy == 0 ==> s.my == q.my0() && s.sdy == SENTINEL as int && !s.side)
    &&& (q.dx != 0 ==> s.sdx == q.sdx0() + abs(s.mx - q.mx0()) * q.delta_x()
        && s.sdx < SENTINEL)
    &&& (q.dy != 0 ==> s.sdy == q.sdy0() + abs(s.my - q.my0()) * q.delta_y()
        && s.sdy < SENTINEL)
    &&& (s.hit && !s.side ==> q.dx != 0 && (if q.step_x() == 1 {
        s.mx >= q.mx0() + 1
    } else {
        s.mx <= q.mx0() - 1
    }))
    &&& (s.hit && s.side ==> q.dy != 0 && (if q.step_y() == 1 {
        s.my >= q.my0() + 1
    } else {
        s.my <= q.my0() - 1
    }))
}

/// An initial side distance plus up to `MAX_DIM + 2` deltas stays far
/// below the sentinel: the core numeric bound behind the invariant.
proof fn lemma_sd_value_bound(bfp: int, d: int, num: int, k: int)
    requires
        1 <= bfp <= MAX_BLOCK * FP_ONE,
        1 <= d <= FP_ONE,
        0 <= num <= bfp,
        0 <= k <= MAX_DIM + 2,
    ensures
        0 <= num * FP_ONE / d + k * (bfp * FP_ONE / d) < SENTINEL,
        0 <= bfp * FP_ONE / d <= bfp * FP_ONE,
        0 <= num * FP_ONE / d <= bfp * FP_ONE,
{
    assert(0 <= num * FP_ONE <= bfp * FP_ONE && bfp * FP_ONE <= MAX_BLOCK * FP_ONE * FP_ONE)
        by (nonlinear_arith)
        requires
            1 <= bfp <= MAX_BLOCK * FP_ONE && 0 <= num <= bfp,
    ;
    assert(0 <= num * FP_ONE / d <= bfp * FP_ONE / d && bfp * FP_ONE / d <= bfp * FP_ONE)
        by (nonlinear_arith)
        requires
            1 <= d && 0 <= num * FP_ONE <= bfp * FP_ONE,
    ;
    assert(0 <= k * (bfp * FP_ONE / d) <= (MAX_DIM + 2) * (MAX_BLOCK * FP_ONE * FP_ONE))
        by (nonlinear_arith)
        requires
            0 <= k <= MAX_DIM + 2 && 0 <= bfp * FP_ONE / d <= bfp * FP_ONE
                && bfp * FP_ONE <= MAX_BLOCK * FP_ONE * FP_ONE,
    ;
    assert(MAX_BLOCK * FP_ONE * FP_ONE + (MAX_DIM + 2) * (MAX_BLOCK * FP_ONE * FP_ONE)
        < SENTINEL) by (nonlinear_arith);
}

/// The start state satisfies the invariant, and the fuel covers its
/// measure.
pub proof fn lemma_init_inv(q: RayQuery)
    requires
        q.wf(),
    ensures
        dda_inv(q, dda_init(q)),
        0 <= dda_measure(q, dda_init(q)) <= dda_fuel(q),
{
    let b = q.bfp();
    assert(1 <= b <= MAX_BLOCK * FP_ONE) by (nonlinear_arith)
        requires
            1 <= q.block <= MAX_BLOCK && b == q.block * FP_ONE,
    ;
    // The origin's cell indices lie inside the grid.
    assert(0 <= q.mx0() < q.width() && q.ox - q.mx0() * b < b && q.ox - q.mx0() * b >= 0)
        by (nonlinear_arith)
        requires
            0 < b && 0 <= q.ox < q.width() * b && q.mx0() == q.ox / b,
    ;
    assert(0 <= q.my0() < q.height() && q.oy - q.my0() * b < b && q.oy - q.my0() * b >= 0)
        by (nonlinear_arith)
        requires
            0 < b && 0 <= q.oy < q.height() * b && q.my0() == q.oy / b,
    ;
    if q.dx != 0 {
        let d = abs(q.dx) as int;
        let num = if q.dx < 0 { q.ox - q.mx0() * b } else { (q.mx0() + 1) * b - q.ox };
        assert(num == (q.mx0() + 1) * b - q.ox ==> num == q.mx0() * b + b - q.ox)
            by (nonlinear_arith);
        lemma_sd_value_bound(b, d, num, 0);
        assert(q.sdx0() == num * FP_ONE / d);
        assert(abs(q.mx0() - q.mx0()) * q.delta_x() == 0) by (nonlinear_arith)
            requires
                abs(q.mx0() - q.mx0()) == 0,
        ;
    }
    if q.dy != 0 {
        let d = abs(q.dy) as int;
        let num = if q.dy < 0 { q.oy - q.my0() * b } else { (q.my0() + 1) * b - q.oy };
        assert(num == (q.my0() + 1) * b - q.oy ==> num == q.my0() * b + b - q.oy)
            by (nonlinear_arith);
        lemma_sd_value_bound(b, d, num, 0);
        assert(q.sdy0() == num * FP_ONE / d);
        assert(abs(q.my0() - q.my0()) * q.delta_y() == 0) by (nonlinear_arith)
            requires
                abs(q.my0() - q.my0()) == 0,
        ;
    }
}

/// One step keeps the invariant, and if the walk was still going it
/// shrinks the measure by exactly one.
pub proof fn lemma_step_inv(q: RayQuery, s: DdaState)
    requires
        q.wf(),
        dda_inv(q, s),
    ensures
        dda_inv(q, dda_step(q, s)),
        !s.hit ==> dda_measure(q, dda_step(q, s)) == dda_measure(q, s) - 1
            && 2 <= dda_measure(q, s),
{
    if !s.hit {
        let b = q.bfp();
        assert(1 <= b <= MAX_BLOCK * FP_ONE) by (nonlinear_arith)
            requires
                1 <= q.block <= MAX_BLOCK && b == q.block * FP_ONE,
        ;
        assert(0 <= q.mx0() < q.width() && q.ox - q.mx0() * b < b && q.ox - q.mx0() * b >= 0)
            by (nonlinear_arith)
            requires
                0 < b && 0 <= q.ox < q.width() * b && q.mx0() == q.ox / b,
        ;
        assert(0 <= q.my0() < q.height() && q.oy - q.my0() * b < b && q.oy - q.my0() * b >= 0)
            by (nonlinear_arith)
            requires
                0 < b && 0 <= q.oy < q.height() * b && q.my0() == q.oy / b,
        ;
        if s.sdx < s.sdy {
            // The x axis steps; the sentinel never wins the race, so the
            // x direction component cannot be zero here.
            assert(q.dx != 0);
            let d = abs(q.dx) as int;
            let num = if q.dx < 0 { q.ox - q.mx0() * b } else { (q.mx0() + 1) * b - q.ox };
            assert(num == (q.mx0() + 1) * b - q.ox ==> num == q.mx0() * b + b - q.ox)
                by (nonlinear_arith);
            let k = abs(s.mx - q.mx0()) as int;
            let k1 = abs(s.mx + q.step_x() - q.mx0()) as int;
            assert(k1 == k + 1);
            assert((k + 1) * q.delta_x() == k * q.delta_x() + q.delta_x())
                by (nonlinear_arith);
            lemma_sd_value_bound(b, d, num, k1);
            assert(q.sdx0() == num * FP_ONE / d && q.delta_x() == b * FP_ONE / d);
        } else {
            assert(q.dy != 0);
            let d = abs(q.dy) as int;
            let num = if q.dy < 0 { q.oy - q.my0() * b } else { (q.my0() + 1) * b - q.oy };
            assert(num == (q.my0() + 1) * b - q.oy ==> num == q.my0() * b + b - q.oy)
                by (nonlinear_arith);
            let k = abs(s.my - q.my0()) as int;
            let k1 = abs(s.my + q.step_y() - q.my0()) as int;
            assert(k1 == k + 1);
            assert((k + 1) * q.delta_y() == k * q.delta_y() + q.delta_y())
                by (nonlinear_arith);
            lemma_sd_value_bound(b, d, num, k1);
            assert(q.sdy0() == num * FP_ONE / d && q.delta_y() == b * FP_ONE / d);
        }
    }
}

/// Running for `m + n` steps is running for `m`, then for `n`.
pub proof fn lemma_run_add(q: RayQuery, s: DdaState, m: nat, n: nat)
    ensures
        dda_run(q, s, m + n) == dda_run(q, dda_run(q, s, m), n),
    decreases n,
{
    if n > 0 {
        lemma_run_add(q, s, m, (n - 1) as nat);
    }
}

/// An ended walk stays where it is.
pub proof fn lemma_run_frozen(q: RayQuery, s: DdaState, n: nat)
    requires
        s.hit,
    ensures
        dda_run(q, s, n) == s,
    decreases n,
{
    if n > 0 {
        lemma_run_frozen(q, s, (n - 1) as nat);
    }
}

/// The invariant holds along the whole run.
pub proof fn lemma_run_inv(q: RayQuery, s: DdaState, n: nat)
    requires
        q.wf(),
        dda_inv(q, s),
    ensures
        dda_inv(q, dda_run(q, s, n)),
    decreases n,
{
    if n > 0 {
        lemma_run_inv(q, s, (n - 1) as nat);
        lemma_step_inv(q, dda_run(q, s, (n - 1) as nat));
    }
}

/// With fuel at least the measure, the run ends.
pub proof fn lemma_run_reaches_hit(q: RayQuery, s: DdaState, n: nat)
    requires
        q.wf(),
        dda_inv(q, s),
        dda_measure(q, s) <= n,
    ensures
        dda_run(q, s, n).hit,
    decreases n,
{
    if s.hit {
        lemma_run_frozen(q, s, n);
    } else {
        lemma_step_inv(q, s);
        let s1 = dda_step(q, s);
        assert(dda_run(q, s, 0) == s);
        assert(dda_run(q, s, 1) == s1);
        lemma_run_add(q, s, 1, (n - 1) as nat);
        lemma_run_reaches_hit(q, s1, (n - 1) as nat);
    }
}

/// The designated final state has indeed ended and satisfies the
/// invariant.
pub proof fn lemma_final(q: RayQuery)
    requires
        q.wf(),
    ensures
        dda_final(q).hit,
        dda_inv(q, dda_final(q)),
{
    lemma_init_inv(q);
    lemma_run_inv(q, dda_init(q), dda_fuel(q));
    lemma_run_reaches_hit(q, dda_init(q), dda_fuel(q));
}

/// Any run that has ended equals the designated final state: the walk is
/// deterministic and stationary, so the fuel does not matter.
pub proof fn lemma_hit_is_final(q: RayQuery, n: nat)
    requires
        q.wf(),
        n <= dda_fuel(q),
        dda_run(q, dda_init(q), n).hit,
    ensures
        dda_run(q, dda_init(q), n) == dda_final(q),
{
    lemma_run_add(q, dda_init(q), n, (dda_fuel(q) - n) as nat);
    lemma_run_frozen(q, dda_run(q, dda_init(q), n), (dda_fuel(q) - n) as nat);
}

/// The perpendicular distance from the origin to the grid line whose
/// crossing ended the walk, in fixed-point world units: the ray length
/// projected on the stepped axis, divided by that direction component.
/// Projecting on the axis rather than taking the Euclidean ray length is
/// what keeps projected wall heights free of fish-eye distortion.
pub open spec fn hit_distance(q: RayQuery, s: DdaState) -> int {
    if !s.side {
        if q.dx >= 0 {
            (s.mx * q.bfp() - q.ox) * FP_ONE / q.dx
        } else {
            (q.ox - (s.mx + 1) * q.bfp()) * FP_ONE / (-q.dx)
        }
    } else {
        if q.dy >= 0 {
            (s.my * q.bfp() - q.oy) * FP_ONE / q.dy
        } else {
            (q.oy - (s.my + 1) * q.bfp()) * FP_ONE / (-q.dy)
        }
    }
}

/// Distance arithmetic on one axis: the crossed grid line lies within the
/// grid span on the walk's side of the origin, so the quotient is
/// nonnegative and fits comfortably in 64 bits.
proof fn lemma_axis_distance(b: int, d: int, o: int, m0: int, m: int, dim: int, neg: bool)
    requires
        1 <= b <= MAX_BLOCK * FP_ONE,
        1 <= d <= FP_ONE,
        1 <= dim <= MAX_DIM,
        0 <= o < dim * b,
        m0 == o / b,
        neg ==> -1 <= m && m + 1 <= m0,
        !neg ==> m0 + 1 <= m <= dim,
    ensures
        !neg ==> 0 <= m * b - o <= (MAX_DIM as int) * (MAX_BLOCK * FP_ONE)
            && 0 <= (m * b - o) * FP_ONE / d <= 0x40_0000_0000_0000,
        neg ==> 0 <= o - (m + 1) * b <= (MAX_DIM as int) * (MAX_BLOCK * FP_ONE)
            && 0 <= (o - (m + 1) * b) * FP_ONE / d <= 0x40_0000_0000_0000,
{
    assert(m0 * b <= o && o < (m0 + 1) * b && 0 <= m0 < dim) by (nonlinear_arith)
        requires
            0 < b && 0 <= o < dim * b && m0 == o / b,
    ;
    if neg {
        assert(0 <= o - (m + 1) * b && o - (m + 1) * b <= (MAX_DIM as int) * (MAX_BLOCK
            * FP_ONE)) by (nonlinear_arith)
            requires
                0 < b <= MAX_BLOCK * FP_ONE && 0 <= m + 1 <= m0 && m0 * b <= o
                    && o < dim * b && dim <= MAX_DIM,
        ;
        assert(0 <= (o - (m + 1) * b) * FP_ONE / d <= 0x40_0000_0000_0000)
            by (nonlinear_arith)
            requires
                1 <= d <= FP_ONE && 0 <= o - (m + 1) * b <= (MAX_DIM as int) * (MAX_BLOCK
                    * FP_ONE),
        ;
    } else {
        assert(0 <= m * b - o && m * b - o <= (MAX_DIM as int) * (MAX_BLOCK * FP_ONE))
            by (nonlinear_arith)
            requires
                0 < b <= MAX_BLOCK * FP_ONE && o < (m0 + 1) * b && 0 <= m0
                    && m0 + 1 <= m <= MAX_DIM && 0 <= o,
        ;
        assert(0 <= (m * b - o) * FP_ONE / d <= 0x40_0000_0000_0000) by (nonlinear_arith)
            requires
                1 <= d <= FP_ONE && 0 <= m * b - o <= (MAX_DIM as int) * (MAX_BLOCK
                    * FP_ONE),
        ;
    }
}

/// On any ended reachable state the distance is nonnegative and small
/// enough for 64-bit arithmetic.
pub proof fn lemma_hit_distance_bounds(q: RayQuery, s: DdaState)
    requires
        q.wf(),
        dda_inv(q, s),
        s.hit,
    ensures
        0 <= hit_distance(q, s) <= 0x40_0000_0000_0000,
        !s.side ==> q.dx != 0,
        s.side ==> q.dy != 0,
        !s.side && q.dx >= 0 ==> 0 <= s.mx * q.bfp() - q.ox <= (MAX_DIM as int) * (
        MAX_BLOCK * FP_ONE),
        !s.side && q.dx < 0 ==> 0 <= q.ox - (s.mx + 1) * q.bfp() <= (MAX_DIM as int) * (
        MAX_BLOCK * FP_ONE),
        s.side && q.dy >= 0 ==> 0 <= s.my * q.bfp() - q.oy <= (MAX_DIM as int) * (
        MAX_BLOCK * FP_ONE),
        s.side && q.dy < 0 ==> 0 <= q.oy - (s.my + 1) * q.bfp() <= (MAX_DIM as int) * (
        MAX_BLOCK * FP_ONE),
{
    let b = q.bfp();
    assert(1 <= b <= MAX_BLOCK * FP_ONE) by (nonlinear_arith)
        requires
            1 <= q.block <= MAX_BLOCK && b == q.block * FP_ONE,
    ;
    if !s.side {
        lemma_axis_distance(b, abs(q.dx) as int, q.ox, q.mx0(), s.mx, q.width(), q.dx < 0);
    } else {
        lemma_axis_distance(b, abs(q.dy) as int, q.oy, q.my0(), s.my, q.height(), q.dy < 0);
    }
}

/// Along a ray pointing due east through open cells, the walk after `j`
/// steps sits exactly `j` columns right of the start, still going.
proof fn lemma_straight_east_run(q: RayQuery, j: nat)
    requires
        q.wf(),
        q.dx == FP_ONE,
        q.dy == 0,
        forall|t: int|
            1 <= t <= j ==> !spec_stops_ray(#[trigger] q.cell(q.mx0() + t, q.my0())),
    ensures
        dda_run(q, dda_init(q), j) == (DdaState {
            mx: q.mx0() + j,
            my: q.my0(),
            sdx: q.sdx0() + j * q.delta_x(),
            sdy: SENTINEL as int,
            side: false,
            hit: false,
        }),
    decreases j,
{
    lemma_init_inv(q);
    if j == 0 {
        assert((0 as int) * q.delta_x() == 0) by (nonlinear_arith);
    } else {
        lemma_straight_east_run(q, (j - 1) as nat);
        let s = dda_run(q, dda_init(q), (j - 1) as nat);
        lemma_run_inv(q, dda_init(q), (j - 1) as nat);
        assert(((j - 1) as int) * q.delta_x() + q.delta_x() == (j as int) * q.delta_x())
            by (nonlinear_arith);
        assert(dda_run(q, dda_init(q), j) == dda_step(q, s));
    }
}

/// A ray cast due east down an open corridor ends on the first stopping
/// cell, `k` columns right of the start, flagged as an x-axis hit, at the
/// exact fixed-point distance from the origin to that cell's near face.
pub proof fn lemma_cast_straight_east(q: RayQuery, k: int)
    requires
        q.wf(),
        q.dx == FP_ONE,
        q.dy == 0,
        1 <= k,
        forall|t: int|
            1 <= t < k ==> !spec_stops_ray(#[trigger] q.cell(q.mx0() + t, q.my0())),
        spec_stops_ray(q.cell(q.mx0() + k, q.my0())),
    ensures
        dda_final(q).mx == q.mx0() + k,
        dda_final(q).my == q.my0(),
        !dda_final(q).side,
        hit_distance(q, dda_final(q)) == (q.mx0() + k) * q.bfp() - q.ox,
{
    lemma_init_inv(q);
    lemma_straight_east_run(q, (k - 1) as nat);
    let s = dda_run(q, dda_init(q), (k - 1) as nat);
    lemma_run_inv(q, dda_init(q), (k - 1) as nat);
    let s1 = dda_step(q, s);
    assert(dda_run(q, dda_init(q), k as nat) == s1);
    assert(((k - 1) as nat) as int == k - 1);
    assert((k - 1) * q.delta_x() + q.delta_x() == k * q.delta_x()) by (nonlinear_arith);
    assert(s1.hit);
    // Every open cell walked through lies inside the grid, so the stopping
    // column is at most one past the walked corridor, within the fuel.
    assert(q.mx0() + (k - 1) <= q.width());
    lemma_hit_is_final(q, k as nat);
    // Dividing the numerator, a multiple of `FP_ONE`, by the unit x
    // component returns it unchanged.
    let num = (q.mx0() + k) * q.bfp() - q.ox;
    assert(num * FP_ONE / (FP_ONE as int) == num) by (nonlinear_arith);
}

/// Along a ray pointing due south through open cells, the walk after `j`
/// steps sits exactly `j` rows below the start, still going; every step
/// crossed a horizontal grid line, so the side flag is set from the first
/// step on.
proof fn lemma_straight_south_run(q: RayQuery, j: nat)
    requires
        q.wf(),
        q.dx == 0,
        q.dy == FP_ONE,
        forall|t: int|
            1 <= t <= j ==> !spec_stops_ray(#[trigger] q.cell(q.mx0(), q.my0() + t)),
    ensures
        dda_run(q, dda_init(q), j) == (DdaState {
            mx: q.mx0(),
            my: q.my0() + j,
            sdx: SENTINEL as int,
            sdy: q.sdy0() + j * q.delta_y(),
            side: j > 0,
            hit: false,
        }),
    decreases j,
{
    lemma_init_inv(q);
    if j == 0 {
        assert((0 as int) * q.delta_y() == 0) by (nonlinear_arith);
    } else {
        lemma_straight_south_run(q, (j - 1) as nat);
        let s = dda_run(q, dda_init(q), (j - 1) as nat);
        lemma_run_inv(q, dda_init(q), (j - 1) as nat);
        assert(((j - 1) as int) * q.delta_y() + q.delta_y() == (j as int) * q.delta_y())
            by (nonlinear_arith);
        assert(dda_run(q, dda_init(q), j) == dda_step(q, s));
    }
}

/// A ray cast due south down an open corridor ends on the first stopping
/// cell, `k` rows below the start, flagged as a y-axis hit, at the exact
/// fixed-point distance from the origin to that cell's near face.
pub proof fn lemma_cast_straight_south(q: RayQuery, k: int)
    requires
        q.wf(),
        q.dx == 0,
        q.dy == FP_ONE,
        1 <= k,
        forall|t: int|
            1 <= t < k ==> !spec_stops_ray(#[trigger] q.cell(q.mx0(), q.my0() + t)),
        spec_stops_ray(q.cell(q.mx0(), q.my0() + k)),
    ensures
        dda_final(q).mx == q.mx0(),
        dda_final(q).my == q.my0() + k,
        dda_final(q).side,
        hit_distance(q, dda_final(q)) == (q.my0() + k) * q.bfp() - q.oy,
{
    lemma_init_inv(q);
    lemma_straight_south_run(q, (k - 1) as nat);
    let s = dda_run(q, dda_init(q), (k - 1) as nat);
    lemma_run_inv(q, dda_init(q), (k - 1) as nat);
    let s1 = dda_step(q, s);
    assert(dda_run(q, dda_init(q), k as nat) == s1);
    assert(((k - 1) as nat) as int == k - 1);
    assert((k - 1) * q.delta_y() + q.delta_y() == k * q.delta_y()) by (nonlinear_arith);
    assert(s1.hit);
    // Every open cell walked through lies inside the grid, so the stopping
    // row is at most one past the walked corridor, within the fuel.
    assert(q.my0() + (k - 1) <= q.height());
    lemma_hit_is_final(q, k as nat);
    // Dividing the numerator, a multiple of `FP_ONE`, by the unit y
    // component returns it unchanged.
    let num = (q.my0() + k) * q.bfp() - q.oy;
    assert(num * FP_ONE / (FP_ONE as int) == num) by (nonlinear_arith);
}

} // verus!
