#![verifier::loop_isolation(false)]
//! The weekly temperature and rain chart, drawn from line primitives.
//!
//! Layers, later ones occluding earlier ones: weekday separators with their
//! labels and a dotted marker at the current hour; the rain line, recording
//! per column the lowest row it touches; a diagonal stripe pattern filled in
//! under the recorded rain line; and last the temperature line, drawn three
//! times at vertical offsets so it reads as a thick stroke.

use vstd::prelude::*;

use crate::canvas::{Canvas, Px, rowmajor, set_px, spec_black, spec_red, spec_white};
use crate::dithering::tdiv;
use crate::draw::{
    draw_line_segment_dotted_mut, draw_line_segment_mut, line_points, line_points_vec, plot_every,
};
use crate::text::{TextRaster, draw_text_mut, stamp_spec};
use crate::weather::{HourlyWeather, LocalTime, WeatherData, forecast_wf, trunc_div_i64};

verus! {

/// The x pixel of sample `i`: evenly spaced columns over `width` pixels.
pub open spec fn graph_x(i: int, width: int, n: int) -> int {
    (i * (width - 1)) / (n - 1)
}

/// The y pixel row of a temperature (in tenths) against the axis bounds
/// (in whole degrees): the bottom row for the lower bound, the top row for
/// the upper bound.
pub open spec fn spec_temp_y(t: int, min_s: int, max_s: int, height: int) -> int {
    height - tdiv((t - 10 * min_s) * (height - 1), 10 * (max_s - min_s)) - 1
}

/// The y pixel row of a rain amount (in tenths) against `[0, max_rain_s]`
/// whole millimeters, clamped onto the chart.
pub open spec fn spec_rain_y(r: int, max_rain_s: int, height: int) -> int {
    let y = height - tdiv(r * (height - 1), 10 * max_rain_s) - 1;
    if y < 0 {
        0
    } else if y > height {
        height
    } else {
        y
    }
}

/// The temperature axis anchors its bounds exactly: the lower bound maps to
/// the bottom pixel row and the upper bound to the top row.
pub proof fn lemma_temp_y_anchors(min_s: int, max_s: int, height: int)
    requires
        min_s < max_s,
        height >= 1,
    ensures
        spec_temp_y(10 * min_s, min_s, max_s, height) == height - 1,
        spec_temp_y(10 * max_s, min_s, max_s, height) == 0,
{
    let d = 10 * (max_s - min_s);
    assert(10 * min_s - 10 * min_s == 0);
    assert(0 * (height - 1) == 0) by (nonlinear_arith);
    assert(tdiv(0, d) == 0);
    assert(10 * max_s - 10 * min_s == d);
    assert((10 * max_s - 10 * min_s) * (height - 1) == d * (height - 1));
    assert(d * (height - 1) >= 0) by (nonlinear_arith)
        requires
            d >= 1,
            height >= 1,
    ;
    assert((d * (height - 1)) / d == height - 1) by (nonlinear_arith)
        requires
            d >= 1,
            height >= 1,
    ;
    assert(tdiv(d * (height - 1), d) == height - 1);
}

/// Whether the boundary between samples `i` and `i + 1` carries the dotted
/// marker for the current hour.
pub open spec fn now_marker_cond(d1: HourlyWeather, d2: HourlyWeather, now: LocalTime) -> bool {
    d1.day == now.day && d1.hour <= now.hour && d2.hour > now.hour
}

/// One boundary of the separator layer: a dotted line at the current hour,
/// a solid line at a day change, and the weekday label at a day change or
/// at the very first boundary.
pub open spec fn sep_step(
    s: Seq<Px>,
    w: int,
    h: int,
    fc: Seq<HourlyWeather>,
    labels: Seq<TextRaster>,
    now: LocalTime,
    i: int,
) -> Seq<Px> {
    let x = graph_x(i + 1, w, fc.len() as int);
    let vert = line_points(x, 0, x, h);
    let s1 = if now_marker_cond(fc[i], fc[i + 1], now) {
        plot_every(s, w, h, vert, spec_black(), 4, vert.len())
    } else {
        s
    };
    let s2 = if fc[i].day != fc[i + 1].day {
        plot_every(s1, w, h, vert, spec_black(), 1, vert.len())
    } else {
        s1
    };
    if fc[i].day != fc[i + 1].day || i == 0 {
        stamp_spec(s2, w, h, labels[fc[i + 1].weekday as int].pixels@, x + 5, 0, spec_black())
    } else {
        s2
    }
}

/// The separator layer over the first `n` boundaries.
pub open spec fn sep_upto(
    s: Seq<Px>,
    w: int,
    h: int,
    fc: Seq<HourlyWeather>,
    labels: Seq<TextRaster>,
    now: LocalTime,
    n: nat,
) -> Seq<Px>
    decreases n,
{
    if n == 0 {
        s
    } else {
        sep_step(sep_upto(s, w, h, fc, labels, now, (n - 1) as nat), w, h, fc, labels, now, n - 1)
    }
}

/// One rain pixel: inside the chart it is painted black and, when it lies
/// lower than anything recorded for its column, recorded as the column's
/// deepest rain row.
pub open spec fn rain_point_step(st: (Seq<Px>, Seq<i64>), w: int, h: int, p: (int, int)) -> (
    Seq<Px>,
    Seq<i64>,
) {
    if 0 <= p.0 < w && 0 <= p.1 < h {
        let cv = st.0.update(rowmajor(p.0, p.1, w), spec_black());
        let my = if p.1 > st.1[p.0] {
            st.1.update(p.0, p.1 as i64)
        } else {
            st.1
        };
        (cv, my)
    } else {
        st
    }
}

/// The first `k` pixels of one rain segment.
pub open spec fn rain_points_upto(
    st: (Seq<Px>, Seq<i64>),
    w: int,
    h: int,
    pts: Seq<(int, int)>,
    k: nat,
) -> (Seq<Px>, Seq<i64>)
    decreases k,
{
    if k == 0 {
        st
    } else {
        rain_point_step(rain_points_upto(st, w, h, pts, (k - 1) as nat), w, h, pts[k - 1])
    }
}

/// The rain segment between samples `i` and `i + 1`.
pub open spec fn rain_seg(
    st: (Seq<Px>, Seq<i64>),
    w: int,
    h: int,
    fc: Seq<HourlyWeather>,
    max_rain_s: int,
    i: int,
) -> (Seq<Px>, Seq<i64>) {
    let n = fc.len() as int;
    let pts = line_points(
        graph_x(i, w, n),
        spec_rain_y(fc[i].rain(), max_rain_s, h),
        graph_x(i + 1, w, n),
        spec_rain_y(fc[i + 1].rain(), max_rain_s, h),
    );
    rain_points_upto(st, w, h, pts, pts.len())
}

/// The rain layer over the first `n` segments, with the per-column deepest
/// rain row; a column no rain pixel touched holds -1.
pub open spec fn rain_upto(
    st: (Seq<Px>, Seq<i64>),
    w: int,
    h: int,
    fc: Seq<HourlyWeather>,
    max_rain_s: int,
    n: nat,
) -> (Seq<Px>, Seq<i64>)
    decreases n,
{
    if n == 0 {
        st
    } else {
        rain_seg(rain_upto(st, w, h, fc, max_rain_s, (n - 1) as nat), w, h, fc, max_rain_s, n - 1)
    }
}

/// Whether the stripe pattern paints the cell at `(x, y)`: on the diagonal
/// texture and strictly below the column's recorded rain row.
pub open spec fn shade_cell(x: int, y: int, my: Seq<i64>) -> bool {
    let ym = y % 6;
    let xm = (x + 2 * (y / 6)) % 6;
    (xm == ym || xm == ym + 1) && ym < 3 && my[x] >= 0 && y > my[x]
}

/// The stripe layer over the first `x` cells of row `y`.
pub open spec fn shade_row_upto(s: Seq<Px>, w: int, h: int, my: Seq<i64>, y: int, x: nat) -> Seq<
    Px,
>
    decreases x,
{
    if x == 0 {
        s
    } else {
        let prev = shade_row_upto(s, w, h, my, y, (x - 1) as nat);
        if shade_cell(x - 1, y, my) {
            set_px(prev, w, h, x - 1, y, spec_black())
        } else {
            prev
        }
    }
}

/// The stripe layer over the first `y` full rows.
pub open spec fn shade_rows_upto(s: Seq<Px>, w: int, h: int, my: Seq<i64>, y: nat) -> Seq<Px>
    decreases y,
{
    if y == 0 {
        s
    } else {
        shade_row_upto(shade_rows_upto(s, w, h, my, (y - 1) as nat), w, h, my, y - 1, w as nat)
    }
}

/// The chart position of temperature sample `i`.
pub open spec fn temp_pt(
    fc: Seq<HourlyWeather>,
    i: int,
    w: int,
    min_s: int,
    max_s: int,
    h: int,
) -> (int, int) {
    (graph_x(i, w, fc.len() as int), spec_temp_y(fc[i].temp(), min_s, max_s, h))
}

/// One temperature segment, drawn three times at vertical offsets +1, 0,
/// -1 so the stroke reads three pixels thick.
pub open spec fn temp_seg(s: Seq<Px>, w: int, h: int, p1: (int, int), p2: (int, int)) -> Seq<Px> {
    let l1 = line_points(p1.0, p1.1 + 1, p2.0, p2.1 + 1);
    let s1 = plot_every(s, w, h, l1, spec_red(), 1, l1.len());
    let l2 = line_points(p1.0, p1.1, p2.0, p2.1);
    let s2 = plot_every(s1, w, h, l2, spec_red(), 1, l2.len());
    let l3 = line_points(p1.0, p1.1 - 1, p2.0, p2.1 - 1);
    plot_every(s2, w, h, l3, spec_red(), 1, l3.len())
}

/// The temperature layer over the first `n` segments.
pub open spec fn temp_upto(
    s: Seq<Px>,
    w: int,
    h: int,
    fc: Seq<HourlyWeather>,
    min_s: int,
    max_s: int,
    n: nat,
) -> Seq<Px>
    decreases n,
{
    if n == 0 {
        s
    } else {
        temp_seg(
            temp_upto(s, w, h, fc, min_s, max_s, (n - 1) as nat),
            w,
            h,
            temp_pt(fc, n - 1, w, min_s, max_s, h),
            temp_pt(fc, n as int, w, min_s, max_s, h),
        )
    }
}

/// The finished chart: white background, separators, rain, stripes under
/// the rain, and the temperature stroke on top.
pub open spec fn graph_spec(
    fc: Seq<HourlyWeather>,
    labels: Seq<TextRaster>,
    now: LocalTime,
    min_s: int,
    max_s: int,
    max_rain_s: int,
    w: int,
    h: int,
) -> Seq<Px> {
    let base = Seq::new((w * h) as nat, |i: int| spec_white());
    let segs = (fc.len() - 1) as nat;
    let s1 = sep_upto(base, w, h, fc, labels, now, segs);
    let my0 = Seq::new(w as nat, |i: int| -1i64);
    let st = rain_upto((s1, my0), w, h, fc, max_rain_s, segs);
    let s3 = shade_rows_upto(st.0, w, h, st.1, h as nat);
    temp_upto(s3, w, h, fc, min_s, max_s, segs)
}

fn graph_x_at(i: usize, width: u32, n: usize) -> (r: i32)
    requires
        2 <= n <= 0x1000,
        i < n,
        2 <= width <= 0xFFFF,
    ensures
        r as int == graph_x(i as int, width as int, n as int),
        0 <= r <= 0x10000000,
{
    proof {
        assert((i as int) * ((width - 1) as int) <= 0x1000 * 0xFFFF) by (nonlinear_arith)
            requires
                0 <= i <= 0x1000,
                2 <= width <= 0xFFFF,
        ;
        assert((i as int) * ((width - 1) as int) >= 0) by (nonlinear_arith)
            requires
                0 <= i,
                2 <= width,
        ;
    }
    let p: u64 = (i as u64) * ((width - 1) as u64);
    let q: u64 = p / ((n - 1) as u64);
    proof {
        assert((p as int) / ((n - 1) as int) <= p as int) by (nonlinear_arith)
            requires
                p >= 0,
                n >= 2,
        ;
    }
    q as i32
}

fn temp_y_at(t: i32, min_s: i32, max_s: i32, height: u32) -> (r: i32)
    requires
        -20000 <= t <= 20000,
        -3000 <= min_s,
        min_s < max_s,
        max_s <= 3000,
        2 <= height <= 0xFFFF,
    ensures
        r as int == spec_temp_y(t as int, min_s as int, max_s as int, height as int),
        -0x1FFFFFFE <= r <= 0x1FFFFFFE,
{
    proof {
        assert((t as int - 10 * (min_s as int)) * ((height - 1) as int) <= 50000 * 0xFFFF && (t
            as int - 10 * (min_s as int)) * ((height - 1) as int) >= -50000 * 0xFFFF)
            by (nonlinear_arith)
            requires
                -50000 <= t as int - 10 * (min_s as int) <= 50000,
                0 <= (height - 1) as int <= 0xFFFF,
        ;
    }
    let num: i64 = (t as i64 - 10 * (min_s as i64)) * ((height - 1) as i64);
    let den: i64 = 10 * (max_s as i64 - min_s as i64);
    let q = trunc_div_i64(num, den);
    proof {
        let ni = num as int;
        let di = den as int;
        if ni >= 0 {
            vstd::arithmetic::div_mod::lemma_div_is_ordered_by_denominator(ni, 10, di);
            assert(ni / di <= ni / 10);
            assert(ni / di >= 0) by (nonlinear_arith)
                requires
                    ni >= 0,
                    di >= 1,
            ;
        } else {
            vstd::arithmetic::div_mod::lemma_div_is_ordered_by_denominator(-ni, 10, di);
            assert((-ni) / di <= (-ni) / 10);
            assert((-ni) / di >= 0) by (nonlinear_arith)
                requires
                    -ni >= 0,
                    di >= 1,
            ;
        }
    }
    let y: i64 = (height as i64) - q - 1;
    y as i32
}

fn rain_y_at(r: i32, max_rain_s: i32, height: u32) -> (y: i32)
    requires
        -20000 <= r <= 20000,
        1 <= max_rain_s <= 3000,
        2 <= height <= 0xFFFF,
    ensures
        y as int == spec_rain_y(r as int, max_rain_s as int, height as int),
        0 <= y <= height,
{
    proof {
        assert((r as int) * ((height - 1) as int) <= 20000 * 0xFFFF && (r as int) * ((height - 1)
            as int) >= -20000 * 0xFFFF) by (nonlinear_arith)
            requires
                -20000 <= r <= 20000,
                0 <= (height - 1) as int <= 0xFFFF,
        ;
    }
    let num: i64 = (r as i64) * ((height - 1) as i64);
    let den: i64 = 10 * (max_rain_s as i64);
    let q = trunc_div_i64(num, den);
    let yy: i64 = (height as i64) - q - 1;
    if yy < 0 {
        0
    } else if yy > height as i64 {
        height as i32
    } else {
        yy as i32
    }
}

/// Holds when the label list carries one raster for each of the seven
/// weekdays.
pub open spec fn labels_wf(labels: Seq<TextRaster>) -> bool {
    &&& labels.len() == 7
    &&& forall|i: int| 0 <= i < 7 ==> (#[trigger] labels[i]).wf()
}

/// Draws the weekly chart of the forecast series onto a fresh canvas:
/// weekday separators and labels, the dotted marker at the current hour,
/// the rain line with its stripe shading, and the temperature stroke.
pub fn draw_graph(
    weather_data: &WeatherData,
    min_temp_scale: i32,
    max_temp_scale: i32,
    max_rain_scale: i32,
    width: u32,
    height: u32,
    weekday_labels: &Vec<TextRaster>,
    now: LocalTime,
) -> (g: Canvas)
    requires
        forecast_wf(weather_data.weather_forecast@),
        weather_data.weather_forecast@.len() >= 2,
        -3000 <= min_temp_scale,
        min_temp_scale < max_temp_scale,
        max_temp_scale <= 3000,
        1 <= max_rain_scale <= 3000,
        2 <= width <= 0xFFFF,
        2 <= height <= 0xFFFF,
        labels_wf(weekday_labels@),
    ensures
        g.wf(),
        g.spec_width() == width,
        g.spec_height() == height,
        g.pixels() == graph_spec(
            weather_data.weather_forecast@,
            weekday_labels@,
            now,
            min_temp_scale as int,
            max_temp_scale as int,
            max_rain_scale as int,
            width as int,
            height as int,
        ),
{
    let ghost fc = weather_data.weather_forecast@;
    let ghost labels = weekday_labels@;
    let ghost wi = width as int;
    let ghost hi = height as int;
    let n = weather_data.weather_forecast.len();
    let mut image = Canvas::new_white(width as usize, height as usize);
    let ghost base = image.pixels();

    // Separator layer: day boundaries, weekday labels, the "now" marker.
    let mut i: usize = 0;
    while i < n - 1
        invariant
            i <= n - 1,
            n == fc.len(),
            image.wf(),
            image.spec_width() == wi,
            image.spec_height() == hi,
            image.pixels() == sep_upto(base, wi, hi, fc, labels, now, i as nat),
        decreases n - 1 - i,
    {
        let d1 = weather_data.weather_forecast[i];
        let d2 = weather_data.weather_forecast[i + 1];
        let x = graph_x_at(i + 1, width, n);
        if d1.day == now.day && d1.hour <= now.hour && d2.hour > now.hour {
            draw_line_segment_dotted_mut(&mut image, (x, 0), (x, height as i32), Px::black());
        }
        if d1.day != d2.day {
            draw_line_segment_mut(&mut image, (x, 0), (x, height as i32), Px::black());
        }
        if d1.day != d2.day || i == 0 {
            let label = &weekday_labels[d2.weekday as usize];
            draw_text_mut(&mut image, Px::black(), x as i64 + 5, 0, &label.pixels);
        }
        proof {
            assert(image.pixels() == sep_step(
                sep_upto(base, wi, hi, fc, labels, now, i as nat),
                wi,
                hi,
                fc,
                labels,
                now,
                i as int,
            ));
        }
        i = i + 1;
    }

    // Rain layer, recording the deepest rain row of every column.
    let ghost after_sep = image.pixels();
    let mut max_y: Vec<i64> = Vec::new();
    let mut c: usize = 0;
    while c < width as usize
        invariant
            c <= width,
            max_y@.len() == c,
            forall|k: int| 0 <= k < c ==> max_y@[k] == -1i64,
        decreases width - c,
    {
        max_y.push(-1);
        c = c + 1;
    }
    proof {
        assert(max_y@ =~= Seq::new(wi as nat, |i: int| -1i64));
    }
    let mut i: usize = 0;
    while i < n - 1
        invariant
            i <= n - 1,
            n == fc.len(),
            image.wf(),
            image.spec_width() == wi,
            image.spec_height() == hi,
            max_y@.len() == wi,
            (image.pixels(), max_y@) == rain_upto(
                (after_sep, Seq::new(wi as nat, |k: int| -1i64)),
                wi,
                hi,
                fc,
                max_rain_scale as int,
                i as nat,
            ),
        decreases n - 1 - i,
    {
        let ghost st0 = (image.pixels(), max_y@);
        let r1 = rain_value_at(weather_data, i);
        let r2 = rain_value_at(weather_data, i + 1);
        let x1 = graph_x_at(i, width, n);
        let x2 = graph_x_at(i + 1, width, n);
        let y1 = rain_y_at(r1, max_rain_scale, height);
        let y2 = rain_y_at(r2, max_rain_scale, height);
        let pts = line_points_vec(x1, y1, x2, y2);
        let ghost pts_spec = line_points(x1 as int, y1 as int, x2 as int, y2 as int);
        let ghost pts_view = pts@.map_values(|p: (i32, i32)| (p.0 as int, p.1 as int));
        let mut k: usize = 0;
        let m = pts.len();
        while k < m
            invariant
                k <= m,
                m == pts_spec.len(),
                pts@.map_values(|p: (i32, i32)| (p.0 as int, p.1 as int)) == pts_spec,
                image.wf(),
                image.spec_width() == wi,
                image.spec_height() == hi,
                max_y@.len() == wi,
                (image.pixels(), max_y@) == rain_points_upto(st0, wi, hi, pts_spec, k as nat),
            decreases m - k,
        {
            let (px, py) = pts[k];
            proof {
                assert(pts_view[k as int] == (px as int, py as int));
                assert(pts_spec[k as int] == (px as int, py as int));
            }
            if 0 <= px && (px as u32) < width && 0 <= py && (py as u32) < height {
                image.set(px as usize, py as usize, Px::black());
                let cur = max_y[px as usize];
                if py as i64 > cur {
                    max_y.set(px as usize, py as i64);
                }
            }
            proof {
                assert((image.pixels(), max_y@) == rain_point_step(
                    rain_points_upto(st0, wi, hi, pts_spec, k as nat),
                    wi,
                    hi,
                    pts_spec[k as int],
                ));
            }
            k = k + 1;
        }
        i = i + 1;
    }

    // Stripe shading under the recorded rain line.
    let ghost my = max_y@;
    let ghost after_rain = image.pixels();
    let mut y: usize = 0;
    while y < height as usize
        invariant
            y <= height,
            image.wf(),
            image.spec_width() == wi,
            image.spec_height() == hi,
            max_y@ == my,
            max_y@.len() == wi,
            image.pixels() == shade_rows_upto(after_rain, wi, hi, my, y as nat),
        decreases height - y,
    {
        let ghost row_base = image.pixels();
        let mut x: usize = 0;
        while x < width as usize
            invariant
                x <= width,
                y < height,
                image.wf(),
                image.spec_width() == wi,
                image.spec_height() == hi,
                max_y@ == my,
                max_y@.len() == wi,
                image.pixels() == shade_row_upto(row_base, wi, hi, my, y as int, x as nat),
            decreases width - x,
        {
            let ym = y % 6;
            let yd = y / 6;
            let xm = (x + 2 * yd) % 6;
            let xcond = xm == ym || xm == ym + 1;
            let ycond = ym < 3;
            let gcond = max_y[x] >= 0 && (y as i64) > max_y[x];
            if xcond && ycond && gcond {
                image.set(x, y, Px::black());
            }
            proof {
                assert(shade_cell(x as int, y as int, my) == (xcond && ycond && gcond));
            }
            x = x + 1;
        }
        y = y + 1;
    }

    // Temperature stroke on top of everything.
    let ghost after_shade = image.pixels();
    let mut i: usize = 0;
    while i < n - 1
        invariant
            i <= n - 1,
            n == fc.len(),
            image.wf(),
            image.spec_width() == wi,
            image.spec_height() == hi,
            image.pixels() == temp_upto(
                after_shade,
                wi,
                hi,
                fc,
                min_temp_scale as int,
                max_temp_scale as int,
                i as nat,
            ),
        decreases n - 1 - i,
    {
        let t1 = temp_value_at(weather_data, i);
        let t2 = temp_value_at(weather_data, i + 1);
        let x1 = graph_x_at(i, width, n);
        let x2 = graph_x_at(i + 1, width, n);
        let y1 = temp_y_at(t1, min_temp_scale, max_temp_scale, height);
        let y2 = temp_y_at(t2, min_temp_scale, max_temp_scale, height);
        draw_line_segment_mut(&mut image, (x1, y1 + 1), (x2, y2 + 1), Px::red());
        draw_line_segment_mut(&mut image, (x1, y1), (x2, y2), Px::red());
        draw_line_segment_mut(&mut image, (x1, y1 - 1), (x2, y2 - 1), Px::red());
        i = i + 1;
    }
    image
}

/// The temperature of sample `i`, which the preconditions say is present.
fn temp_value_at(weather_data: &WeatherData, i: usize) -> (r: i32)
    requires
        forecast_wf(weather_data.weather_forecast@),
        i < weather_data.weather_forecast@.len(),
    ensures
        r as int == weather_data.weather_forecast@[i as int].temp(),
        -20000 <= r <= 20000,
{
    match weather_data.weather_forecast[i].temperature {
        Some(t) => t,
        None => 0,
    }
}

/// The precipitation of sample `i`, which the preconditions say is present.
fn rain_value_at(weather_data: &WeatherData, i: usize) -> (r: i32)
    requires
        forecast_wf(weather_data.weather_forecast@),
        i < weather_data.weather_forecast@.len(),
    ensures
        r as int == weather_data.weather_forecast@[i as int].rain(),
        -20000 <= r <= 20000,
{
    match weather_data.weather_forecast[i].precipitation {
        Some(r) => r,
        None => 0,
    }
}

} // verus!
