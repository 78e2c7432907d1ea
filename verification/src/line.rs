//! Bresenham line drawing on the framebuffer, with a small-step model of
//! the walk: the set of points the line visits is defined by a recursive
//! spec function, and `draw_line` paints exactly those points. The error
//! term bookkeeping shows the walk never overshoots an endpoint, so a
//! fuel of one step per cell crossed always suffices.

use vstd::prelude::*;
use crate::color::Color;
use crate::framebuffer::Framebuffer;

verus! {

/// One line-drawing job: both endpoints, the per-axis spans and the
/// per-axis step directions.
pub ghost struct LineParams {
    pub x0: int,
    pub y0: int,
    pub x1: int,
    pub y1: int,
    pub dx: int,
    pub dy: int,
    pub sx: int,
    pub sy: int,
}

/// The job a call with these endpoints describes.
pub open spec fn line_params(x0: int, y0: int, x1: int, y1: int) -> LineParams {
    LineParams {
        x0,
        y0,
        x1,
        y1,
        dx: if x1 >= x0 { x1 - x0 } else { x0 - x1 },
        dy: if y1 >= y0 { y1 - y0 } else { y0 - y1 },
        sx: if x0 < x1 { 1 } else { -1 },
        sy: if y0 < y1 { 1 } else { -1 },
    }
}

/// The walk's position and the Bresenham error term.
pub ghost struct LineState {
    pub x: int,
    pub y: int,
    pub err: int,
}

/// Where the walk begins.
pub open spec fn line_init(p: LineParams) -> LineState {
    LineState { x: p.x0, y: p.y0, err: p.dx - p.dy }
}

/// The walk ends on reaching the far endpoint.
pub open spec fn line_done(p: LineParams, s: LineState) -> bool {
    s.x == p.x1 && s.y == p.y1
}

/// One Bresenham step: each axis advances when twice the error term says
/// its grid line is due, and the error term is adjusted per axis stepped.
pub open spec fn line_step(p: LineParams, s: LineState) -> LineState {
    let e2 = 2 * s.err;
    LineState {
        x: if e2 > -p.dy { s.x + p.sx } else { s.x },
        y: if e2 < p.dx { s.y + p.sy } else { s.y },
        err: s.err + (if e2 > -p.dy { -p.dy } else { 0 }) + (if e2 < p.dx { p.dx } else { 0 }),
    }
}

/// The points the walk visits from `s` with `fuel` steps left: its own
/// position, then, until the walk is done, whatever the next state visits.
pub open spec fn line_points(p: LineParams, s: LineState, fuel: nat) -> Seq<(int, int)>
    decreases fuel,
{
    if line_done(p, s) || fuel == 0 {
        seq![(s.x, s.y)]
    } else {
        seq![(s.x, s.y)] + line_points(p, line_step(p, s), (fuel - 1) as nat)
    }
}

/// Every point the line from `(x0, y0)` to `(x1, y1)` paints: the walk
/// from the near endpoint, with one step of fuel per cell crossed.
pub open spec fn spec_line_points(x0: int, y0: int, x1: int, y1: int) -> Seq<(int, int)> {
    let p = line_params(x0, y0, x1, y1);
    line_points(p, line_init(p), (p.dx + p.dy) as nat)
}

/// How many steps each axis has taken so far.
pub open spec fn line_ix(p: LineParams, s: LineState) -> int {
    if p.sx == 1 {
        s.x - p.x0
    } else {
        p.x0 - s.x
    }
}

/// How many steps the y axis has taken so far.
pub open spec fn line_iy(p: LineParams, s: LineState) -> int {
    if p.sy == 1 {
        s.y - p.y0
    } else {
        p.y0 - s.y
    }
}

/// The job is internally consistent: spans nonnegative, directions unit,
/// and the far endpoint one span away in each direction.
pub open spec fn line_params_wf(p: LineParams) -> bool {
    &&& p.dx >= 0
    &&& p.dy >= 0
    &&& (p.sx == 1 || p.sx == -1)
    &&& (p.sy == 1 || p.sy == -1)
    &&& p.x1 == p.x0 + p.sx * p.dx
    &&& p.y1 == p.y0 + p.sy * p.dy
}

/// What every reachable walk state satisfies: neither axis has stepped
/// past its span, and the error term is exactly the span cross-difference
/// of the steps taken.
pub open spec fn line_inv(p: LineParams, s: LineState) -> bool {
    &&& 0 <= line_ix(p, s) <= p.dx
    &&& 0 <= line_iy(p, s) <= p.dy
    &&& s.err == p.dx * (1 + line_iy(p, s)) - p.dy * (1 + line_ix(p, s))
}

/// A call's endpoints denote a consistent job whose start state satisfies
/// the invariant.
pub proof fn lemma_line_init(x0: int, y0: int, x1: int, y1: int)
    ensures
        line_params_wf(line_params(x0, y0, x1, y1)),
        line_inv(line_params(x0, y0, x1, y1), line_init(line_params(x0, y0, x1, y1))),
        line_done(line_params(x0, y0, x1, y1), line_init(line_params(x0, y0, x1, y1)))
            <==> (line_ix(line_params(x0, y0, x1, y1), line_init(line_params(x0, y0, x1,
            y1))) == line_params(x0, y0, x1, y1).dx && line_iy(line_params(x0, y0, x1, y1),
            line_init(line_params(x0, y0, x1, y1))) == line_params(x0, y0, x1, y1).dy),
{
    let p = line_params(x0, y0, x1, y1);
    assert(p.x1 == p.x0 + p.sx * p.dx && p.y1 == p.y0 + p.sy * p.dy) by (nonlinear_arith)
        requires
            p == line_params(x0, y0, x1, y1),
    ;
    assert(p.dx * (1 + 0) == p.dx && p.dy * (1 + 0) == p.dy) by (nonlinear_arith);
}

/// One step keeps the invariant, reaches the end exactly when both spans
/// are used up, and uses up at least one span cell.
pub proof fn lemma_line_step_inv(p: LineParams, s: LineState)
    requires
        line_params_wf(p),
        line_inv(p, s),
        !line_done(p, s),
    ensures
        line_inv(p, line_step(p, s)),
        ({
            let t = line_step(p, s);
            (p.dx - line_ix(p, t)) + (p.dy - line_iy(p, t)) < (p.dx - line_ix(p, s)) + (
            p.dy - line_iy(p, s))
        }),
        line_done(p, s) <==> (line_ix(p, s) == p.dx && line_iy(p, s) == p.dy),
        line_done(p, line_step(p, s)) <==> (line_ix(p, line_step(p, s)) == p.dx && line_iy(
        p, line_step(p, s)) == p.dy),
{
    let ix = line_ix(p, s);
    let iy = line_iy(p, s);
    let e2 = 2 * s.err;
    // Done exactly when both spans are used up, since position determines
    // the step counts one for one.
    assert(s.x == p.x1 <==> ix == p.dx) by (nonlinear_arith)
        requires
            (p.sx == 1 || p.sx == -1) && p.x1 == p.x0 + p.sx * p.dx && ix == (if p.sx == 1 {
                s.x - p.x0
            } else {
                p.x0 - s.x
            }),
    ;
    assert(s.y == p.y1 <==> iy == p.dy) by (nonlinear_arith)
        requires
            (p.sy == 1 || p.sy == -1) && p.y1 == p.y0 + p.sy * p.dy && iy == (if p.sy == 1 {
                s.y - p.y0
            } else {
                p.y0 - s.y
            }),
    ;
    // The x axis never oversteps: once its span is used up, the error
    // term holds the step condition false until the walk ends.
    if ix == p.dx {
        assert(iy < p.dy);
        assert(!(2 * (p.dx * (1 + iy) - p.dy * (1 + p.dx)) > -p.dy)) by (nonlinear_arith)
            requires
                0 <= iy && iy + 1 <= p.dy && 0 <= p.dx,
        ;
    }
    // Nor does the y axis.
    if iy == p.dy {
        assert(ix < p.dx);
        assert(!(2 * (p.dx * (1 + p.dy) - p.dy * (1 + ix)) < p.dx)) by (nonlinear_arith)
            requires
                0 <= ix && ix + 1 <= p.dx && 0 <= p.dy,
        ;
    }
    // At least one axis steps: were both conditions false, the spans
    // would both be zero and the walk already done.
    let t = line_step(p, s);
    if e2 > -p.dy {
        assert(line_ix(p, t) == ix + 1) by (nonlinear_arith)
            requires
                (p.sx == 1 || p.sx == -1) && line_ix(p, t) == (if p.sx == 1 {
                    t.x - p.x0
                } else {
                    p.x0 - t.x
                }) && t.x == s.x + p.sx && ix == (if p.sx == 1 {
                    s.x - p.x0
                } else {
                    p.x0 - s.x
                }),
        ;
    }
    if e2 < p.dx {
        assert(line_iy(p, t) == iy + 1) by (nonlinear_arith)
            requires
                (p.sy == 1 || p.sy == -1) && line_iy(p, t) == (if p.sy == 1 {
                    t.y - p.y0
                } else {
                    p.y0 - t.y
                }) && t.y == s.y + p.sy && iy == (if p.sy == 1 {
                    s.y - p.y0
                } else {
                    p.y0 - s.y
                }),
        ;
    }
    assert(p.dx * (1 + iy + 1) == p.dx * (1 + iy) + p.dx) by (nonlinear_arith);
    assert(p.dy * (1 + ix + 1) == p.dy * (1 + ix) + p.dy) by (nonlinear_arith);
}

/// Every point the walk visits from a reachable state stays within the
/// axis-aligned box spanned by the two endpoints.
pub proof fn lemma_line_points_in_box(p: LineParams, s: LineState, fuel: nat)
    requires
        line_params_wf(p),
        line_inv(p, s),
    ensures
        forall|t: (int, int)|
            #[trigger] line_points(p, s, fuel).contains(t) ==> {
                &&& if p.sx == 1 { p.x0 <= t.0 <= p.x1 } else { p.x1 <= t.0 <= p.x0 }
                &&& if p.sy == 1 { p.y0 <= t.1 <= p.y1 } else { p.y1 <= t.1 <= p.y0 }
            },
    decreases fuel,
{
    assert(if p.sx == 1 { p.x0 <= s.x <= p.x1 } else { p.x1 <= s.x <= p.x0 })
        by (nonlinear_arith)
        requires
            line_params_wf(p) && 0 <= line_ix(p, s) <= p.dx && line_ix(p, s) == (if p.sx
                == 1 { s.x - p.x0 } else { p.x0 - s.x }) && p.x1 == p.x0 + p.sx * p.dx,
    ;
    assert(if p.sy == 1 { p.y0 <= s.y <= p.y1 } else { p.y1 <= s.y <= p.y0 })
        by (nonlinear_arith)
        requires
            line_params_wf(p) && 0 <= line_iy(p, s) <= p.dy && line_iy(p, s) == (if p.sy
                == 1 { s.y - p.y0 } else { p.y0 - s.y }) && p.y1 == p.y0 + p.sy * p.dy,
    ;
    if !(line_done(p, s) || fuel == 0) {
        lemma_line_step_inv(p, s);
        lemma_line_points_in_box(p, line_step(p, s), (fuel - 1) as nat);
        assert forall|t: (int, int)| #[trigger] line_points(p, s, fuel).contains(t) implies {
            &&& if p.sx == 1 { p.x0 <= t.0 <= p.x1 } else { p.x1 <= t.0 <= p.x0 }
            &&& if p.sy == 1 { p.y0 <= t.1 <= p.y1 } else { p.y1 <= t.1 <= p.y0 }
        } by {
            let pts = line_points(p, s, fuel);
            let rest = line_points(p, line_step(p, s), (fuel - 1) as nat);
            let i = choose|i: int| 0 <= i < pts.len() && pts[i] == t;
            if i > 0 {
                assert(rest[i - 1] == t);
                assert(rest.contains(t));
            }
        }
    }
}

impl Framebuffer {
    /// Draws the Bresenham line from `(x0, y0)` to `(x1, y1)` with the
    /// current pen: exactly the points of the modelled walk are painted,
    /// each bounds-checked. Coordinates are capped so the error-term
    /// arithmetic stays far inside 64 bits.
    pub fn draw_line(&mut self, x0: i32, y0: i32, x1: i32, y1: i32)
        requires
            old(self).wf(),
            -0x100000 <= x0 <= 0x100000,
            -0x100000 <= y0 <= 0x100000,
            -0x100000 <= x1 <= 0x100000,
            -0x100000 <= y1 <= 0x100000,
        ensures
            final(self).wf(),
            final(self).same_config(*old(self)),
            forall|px: int, py: int|
                #[trigger] final(self).pix(px, py) == if spec_line_points(x0 as int,
                    y0 as int, x1 as int, y1 as int).contains((px, py))
                    && old(self).spec_in_bounds(px, py) {
                    old(self).current_color
                } else {
                    old(self).pix(px, py)
                },
    {
        let ghost p = line_params(x0 as int, y0 as int, x1 as int, y1 as int);
        let ghost all = spec_line_points(x0 as int, y0 as int, x1 as int, y1 as int);
        proof {
            lemma_line_init(x0 as int, y0 as int, x1 as int, y1 as int);
        }
        let mut x: i32 = x0;
        let mut y: i32 = y0;
        let dx: i32 = if x1 >= x0 { x1 - x0 } else { x0 - x1 };
        let dy: i32 = if y1 >= y0 { y1 - y0 } else { y0 - y1 };
        let sx: i32 = if x0 < x1 { 1 } else { -1 };
        let sy: i32 = if y0 < y1 { 1 } else { -1 };
        let mut err: i64 = dx as i64 - dy as i64;
        let ghost mut painted: Seq<(int, int)> = Seq::empty();
        let ghost mut fuel: nat = (p.dx + p.dy) as nat;
        let mut finished: bool = false;

        proof {
            assert(all == painted + line_points(p, line_init(p), fuel));
        }

        while !finished
            invariant
                self.wf(),
                self.same_config(*old(self)),
                p == line_params(x0 as int, y0 as int, x1 as int, y1 as int),
                all == spec_line_points(x0 as int, y0 as int, x1 as int, y1 as int),
                line_params_wf(p),
                dx == p.dx,
                dy == p.dy,
                sx == p.sx,
                sy == p.sy,
                -0x100000 <= x0 <= 0x100000,
                -0x100000 <= y0 <= 0x100000,
                -0x100000 <= x1 <= 0x100000,
                -0x100000 <= y1 <= 0x100000,
                line_inv(p, LineState { x: x as int, y: y as int, err: err as int }),
                !finished ==> all == painted + line_points(p, LineState {
                    x: x as int,
                    y: y as int,
                    err: err as int,
                }, fuel),
                finished ==> all == painted,
                !finished ==> fuel >= (p.dx - line_ix(p, LineState {
                    x: x as int,
                    y: y as int,
                    err: err as int,
                })) + (p.dy - line_iy(p, LineState {
                    x: x as int,
                    y: y as int,
                    err: err as int,
                })),
                forall|px: int, py: int|
                    #[trigger] self.pix(px, py) == if painted.contains((px, py))
                        && old(self).spec_in_bounds(px, py) {
                        old(self).current_color
                    } else {
                        old(self).pix(px, py)
                    },
            decreases 2 * fuel + if finished { 0int } else { 1int },
        {
            let ghost cur = LineState { x: x as int, y: y as int, err: err as int };
            let ghost rest = line_points(p, cur, fuel);
            if x >= 0 && y >= 0 {
                self.set_pixel(x as u32, y as u32);
            }
            let ghost prev_painted = painted;
            proof {
                painted = painted + seq![(x as int, y as int)];
                assert forall|px: int, py: int|
                    #[trigger] painted.contains((px, py)) <==> (prev_painted.contains((px,
                    py)) || (px == x as int && py == y as int)) by {
                    if painted.contains((px, py)) {
                        let i = choose|i: int|
                            0 <= i < painted.len() && painted[i] == ((px, py));
                        if i < prev_painted.len() {
                            assert(prev_painted[i] == ((px, py)));
                            assert(prev_painted.contains((px, py)));
                        }
                    }
                    if prev_painted.contains((px, py)) {
                        let i = choose|i: int|
                            0 <= i < prev_painted.len() && prev_painted[i] == ((px, py));
                        assert(painted[i] == ((px, py)));
                        assert(painted.contains((px, py)));
                    }
                    if px == x as int && py == y as int {
                        assert(painted[prev_painted.len() as int] == ((px, py)));
                        assert(painted.contains((px, py)));
                    }
                }
            }
            if x == x1 && y == y1 {
                proof {
                    assert(rest =~= seq![(x as int, y as int)]);
                    assert(all =~= painted);
                }
                finished = true;
            } else {
                proof {
                    lemma_line_step_inv(p, cur);
                    assert(-0x8_0000_0000_0000 <= cur.err <= 0x8_0000_0000_0000)
                        by (nonlinear_arith)
                        requires
                            cur.err == p.dx * (1 + line_iy(p, cur)) - p.dy * (1 + line_ix(
                            p, cur)) && 0 <= p.dx <= 0x200000 && 0 <= p.dy <= 0x200000
                                && 0 <= line_iy(p, cur) <= p.dy && 0 <= line_ix(p, cur)
                                <= p.dx,
                    ;
                    assert(fuel >= 1);
                    assert(rest =~= seq![(x as int, y as int)] + line_points(p,
                        line_step(p, cur), (fuel - 1) as nat));
                    assert(all =~= painted + line_points(p, line_step(p, cur), (fuel
                        - 1) as nat));
                }
                let e2: i64 = 2 * err;
                if e2 > -(dy as i64) {
                    err = err - dy as i64;
                    x = x + sx;
                }
                if e2 < dx as i64 {
                    err = err + dx as i64;
                    y = y + sy;
                }
                proof {
                    fuel = (fuel - 1) as nat;
                }
            }
        }
    }
}

} // verus!
