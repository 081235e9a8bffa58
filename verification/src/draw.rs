#![verifier::loop_isolation(false)]
//! Integer line rasterization: the raw drawing primitive under the graph.
//!
//! A segment is walked along its major axis one pixel per column, carrying a
//! doubled error term; when the error crosses zero the minor coordinate
//! steps by one. Steep segments are walked along y instead of x, and a
//! segment is always walked from its lower major coordinate upward, so the
//! pixel set does not depend on the direction the segment was given in.

use vstd::prelude::*;

use crate::canvas::{Canvas, Px, set_px};

verus! {

pub open spec fn spec_abs(a: int) -> int {
    if a < 0 {
        -a
    } else {
        a
    }
}

/// The walk state after `k` columns: the minor coordinate and the doubled
/// error term. `d0` is the starting minor coordinate, `dx` and `dy` the
/// major and minor spans, `ystep` the direction of the minor axis.
pub open spec fn bres_state(d0: int, dx: int, dy: int, ystep: int, k: nat) -> (int, int)
    decreases k,
{
    if k == 0 {
        (d0, dx)
    } else {
        let prev = bres_state(d0, dx, dy, ystep, (k - 1) as nat);
        let e = prev.1 - 2 * dy;
        if e < 0 {
            (prev.0 + ystep, e + 2 * dx)
        } else {
            (prev.0, e)
        }
    }
}

/// The pixels of the segment from `(x0, y0)` to `(x1, y1)`, in walk order.
pub open spec fn line_points(x0: int, y0: int, x1: int, y1: int) -> Seq<(int, int)> {
    let steep = spec_abs(y1 - y0) > spec_abs(x1 - x0);
    let (a0, b0, a1, b1) = if steep {
        (y0, x0, y1, x1)
    } else {
        (x0, y0, x1, y1)
    };
    let (c0, d0, c1, d1) = if a0 > a1 {
        (a1, b1, a0, b0)
    } else {
        (a0, b0, a1, b1)
    };
    Seq::new(
        (c1 - c0 + 1) as nat,
        |k: int|
            {
                let st = bres_state(
                    d0,
                    c1 - c0,
                    spec_abs(d1 - d0),
                    if d0 < d1 {
                        1
                    } else {
                        -1
                    },
                    k as nat,
                );
                if steep {
                    (st.0, c0 + k)
                } else {
                    (c0 + k, st.0)
                }
            },
    )
}

proof fn lemma_bres_state_bounds(d0: int, dx: int, dy: int, ystep: int, k: nat)
    requires
        0 <= dy <= dx,
        ystep == 1 || ystep == -1,
    ensures
        0 <= bres_state(d0, dx, dy, ystep, k).1 <= 2 * dx,
        spec_abs(bres_state(d0, dx, dy, ystep, k).0 - d0) <= k,
    decreases k,
{
    if k > 0 {
        lemma_bres_state_bounds(d0, dx, dy, ystep, (k - 1) as nat);
    }
}

fn abs_i64(v: i64) -> (r: i64)
    requires
        v != i64::MIN,
    ensures
        r as int == spec_abs(v as int),
{
    if v < 0 {
        -v
    } else {
        v
    }
}

/// A segment's pixels do not depend on the direction it was given in:
/// both orientations canonicalize to the same walk.
pub proof fn lemma_line_points_symmetric(x0: int, y0: int, x1: int, y1: int)
    ensures
        line_points(x0, y0, x1, y1) == line_points(x1, y1, x0, y0),
{
    assert(spec_abs(y1 - y0) == spec_abs(y0 - y1));
    assert(spec_abs(x1 - x0) == spec_abs(x0 - x1));
}

/// Computes the pixels of the segment, in walk order.
#[verifier::rlimit(60)]
pub fn line_points_vec(x0: i32, y0: i32, x1: i32, y1: i32) -> (pts: Vec<(i32, i32)>)
    requires
        -0x20000000 <= x0 <= 0x20000000,
        -0x20000000 <= y0 <= 0x20000000,
        -0x20000000 <= x1 <= 0x20000000,
        -0x20000000 <= y1 <= 0x20000000,
    ensures
        pts@.map_values(|p: (i32, i32)| (p.0 as int, p.1 as int)) == line_points(
            x0 as int,
            y0 as int,
            x1 as int,
            y1 as int,
        ),
        pts@.len() >= 1,
        forall|i: int|
            0 <= i < pts@.len() ==> -0x60000000 <= (#[trigger] pts@[i]).0 <= 0x60000000
                && -0x60000000 <= pts@[i].1 <= 0x60000000,
{
    let ghost pts_spec = line_points(x0 as int, y0 as int, x1 as int, y1 as int);
    let steep = abs_i64(y1 as i64 - y0 as i64) > abs_i64(x1 as i64 - x0 as i64);
    let (a0, b0, a1, b1) = if steep {
        (y0 as i64, x0 as i64, y1 as i64, x1 as i64)
    } else {
        (x0 as i64, y0 as i64, x1 as i64, y1 as i64)
    };
    let (c0, d0, c1, d1) = if a0 > a1 {
        (a1, b1, a0, b0)
    } else {
        (a0, b0, a1, b1)
    };
    let dx: i64 = c1 - c0;
    let dy: i64 = abs_i64(d1 - d0);
    let ystep: i64 = if d0 < d1 {
        1
    } else {
        -1
    };
    let mut y: i64 = d0;
    let mut e: i64 = dx;
    let mut pts: Vec<(i32, i32)> = Vec::new();
    let mut k: i64 = 0;
    while k <= dx
        invariant
            0 <= k <= dx + 1,
            pts@.len() == k,
            (y as int, e as int) == bres_state(d0 as int, dx as int, dy as int, ystep as int, k as nat),
            forall|i: int|
                0 <= i < k ==> pts@[i] == {
                    let st = bres_state(d0 as int, dx as int, dy as int, ystep as int, i as nat);
                    if steep {
                        (st.0 as i32, (c0 + i) as i32)
                    } else {
                        ((c0 + i) as i32, st.0 as i32)
                    }
                },
        decreases dx + 1 - k,
    {
        proof {
            lemma_bres_state_bounds(d0 as int, dx as int, dy as int, ystep as int, k as nat);
        }
        if steep {
            pts.push((y as i32, (c0 + k) as i32));
        } else {
            pts.push(((c0 + k) as i32, y as i32));
        }
        proof {
            lemma_bres_state_bounds(d0 as int, dx as int, dy as int, ystep as int, (k + 1) as nat);
        }
        e = e - 2 * dy;
        if e < 0 {
            y = y + ystep;
            e = e + 2 * dx;
        }
        k = k + 1;
    }
    proof {
        assert forall|i: int| 0 <= i < pts@.len() implies pts@.map_values(
            |p: (i32, i32)| (p.0 as int, p.1 as int),
        )[i] == pts_spec[i] by {
            lemma_bres_state_bounds(d0 as int, dx as int, dy as int, ystep as int, i as nat);
        }
        assert(pts@.map_values(|p: (i32, i32)| (p.0 as int, p.1 as int)) =~= pts_spec);
        assert forall|i: int| 0 <= i < pts@.len() implies -0x60000000 <= (#[trigger] pts@[i]).0
            <= 0x60000000 && -0x60000000 <= pts@[i].1 <= 0x60000000 by {
            lemma_bres_state_bounds(d0 as int, dx as int, dy as int, ystep as int, i as nat);
        }
    }
    pts
}

/// The canvas after plotting every point of the list whose index is a
/// multiple of `step`, each clipped to the canvas.
pub open spec fn plot_every(
    s: Seq<Px>,
    w: int,
    h: int,
    pts: Seq<(int, int)>,
    c: Px,
    step: int,
    n: nat,
) -> Seq<Px>
    decreases n,
{
    if n == 0 {
        s
    } else {
        let prev = plot_every(s, w, h, pts, c, step, (n - 1) as nat);
        if (n - 1) % step == 0 {
            set_px(prev, w, h, pts[n - 1].0, pts[n - 1].1, c)
        } else {
            prev
        }
    }
}

/// Draws the solid segment from `start` to `end`, clipped to the canvas.
pub fn draw_line_segment_mut(canvas: &mut Canvas, start: (i32, i32), end: (i32, i32), color: Px)
    requires
        old(canvas).wf(),
        -0x20000000 <= start.0 <= 0x20000000,
        -0x20000000 <= start.1 <= 0x20000000,
        -0x20000000 <= end.0 <= 0x20000000,
        -0x20000000 <= end.1 <= 0x20000000,
    ensures
        final(canvas).wf(),
        final(canvas).spec_width() == old(canvas).spec_width(),
        final(canvas).spec_height() == old(canvas).spec_height(),
        final(canvas).pixels() == plot_every(
            old(canvas).pixels(),
            old(canvas).spec_width(),
            old(canvas).spec_height(),
            line_points(start.0 as int, start.1 as int, end.0 as int, end.1 as int),
            color,
            1,
            line_points(start.0 as int, start.1 as int, end.0 as int, end.1 as int).len(),
        ),
{
    plot_points(canvas, start, end, color, 1);
}

/// Draws every fourth pixel of the segment, the dotted "now" marker style.
pub fn draw_line_segment_dotted_mut(
    canvas: &mut Canvas,
    start: (i32, i32),
    end: (i32, i32),
    color: Px,
)
    requires
        old(canvas).wf(),
        -0x20000000 <= start.0 <= 0x20000000,
        -0x20000000 <= start.1 <= 0x20000000,
        -0x20000000 <= end.0 <= 0x20000000,
        -0x20000000 <= end.1 <= 0x20000000,
    ensures
        final(canvas).wf(),
        final(canvas).spec_width() == old(canvas).spec_width(),
        final(canvas).spec_height() == old(canvas).spec_height(),
        final(canvas).pixels() == plot_every(
            old(canvas).pixels(),
            old(canvas).spec_width(),
            old(canvas).spec_height(),
            line_points(start.0 as int, start.1 as int, end.0 as int, end.1 as int),
            color,
            4,
            line_points(start.0 as int, start.1 as int, end.0 as int, end.1 as int).len(),
        ),
{
    plot_points(canvas, start, end, color, 4);
}

fn plot_points(canvas: &mut Canvas, start: (i32, i32), end: (i32, i32), color: Px, step: u32)
    requires
        old(canvas).wf(),
        step == 1 || step == 4,
        -0x20000000 <= start.0 <= 0x20000000,
        -0x20000000 <= start.1 <= 0x20000000,
        -0x20000000 <= end.0 <= 0x20000000,
        -0x20000000 <= end.1 <= 0x20000000,
    ensures
        final(canvas).wf(),
        final(canvas).spec_width() == old(canvas).spec_width(),
        final(canvas).spec_height() == old(canvas).spec_height(),
        final(canvas).pixels() == plot_every(
            old(canvas).pixels(),
            old(canvas).spec_width(),
            old(canvas).spec_height(),
            line_points(start.0 as int, start.1 as int, end.0 as int, end.1 as int),
            color,
            step as int,
            line_points(start.0 as int, start.1 as int, end.0 as int, end.1 as int).len(),
        ),
{
    let ghost w = canvas.spec_width();
    let ghost h = canvas.spec_height();
    let ghost orig = canvas.pixels();
    let ghost pts_spec = line_points(start.0 as int, start.1 as int, end.0 as int, end.1 as int);
    let pts = line_points_vec(start.0, start.1, end.0, end.1);
    let ghost view_map = pts@.map_values(|p: (i32, i32)| (p.0 as int, p.1 as int));
    let mut i: usize = 0;
    let n = pts.len();
    while i < n
        invariant
            i <= n,
            n == pts@.len(),
            n == pts_spec.len(),
            canvas.wf(),
            canvas.spec_width() == w,
            canvas.spec_height() == h,
            canvas.pixels() == plot_every(orig, w, h, pts_spec, color, step as int, i as nat),
        decreases n - i,
    {
        let (px, py) = pts[i];
        proof {
            assert(view_map[i as int] == (px as int, py as int));
            assert(pts_spec[i as int] == (px as int, py as int));
        }
        if (i as u32) % step == 0 {
            canvas.set_clipped(px as i64, py as i64, color);
        }
        proof {
            assert(i as int % step as int == (i as u32) as int % step as int);
        }
        i = i + 1;
    }
}

} // verus!
