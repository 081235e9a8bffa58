#![verifier::loop_isolation(false)]
//! Error-diffusion dithering of a grayscale image down to pure black and
//! white, with the quantization error of each pixel carried forward to its
//! not-yet-visited neighbors.
//!
//! Pixels are visited in row-major order. Each is snapped to 0 when its
//! intensity is below 128 and to 255 otherwise; the difference between the
//! old and the new value is then spread over the in-bounds neighbors to the
//! right and below with the weights 7/16, 3/16, 5/16 and 1/16.

use vstd::prelude::*;

use crate::canvas::{Canvas, Px, rowmajor, lemma_rowmajor_in_range};

verus! {

/// A single-channel grayscale image, stored row-major.
pub struct GrayImage {
    pub width: usize,
    pub height: usize,
    pub data: Vec<u8>,
}

impl GrayImage {
    pub open spec fn wf(self) -> bool {
        &&& self.data@.len() == self.width * self.height
        &&& self.width <= 0xFFFF
        &&& self.height <= 0xFFFF
    }
}

/// The hard threshold: black below 128, white from 128 up.
pub open spec fn quantize(v: int) -> int {
    if v < 128 {
        0
    } else {
        255
    }
}

/// Clamping of an adjusted intensity back into a byte.
pub open spec fn clamp_byte(v: int) -> int {
    if v < 0 {
        0
    } else if v > 255 {
        255
    } else {
        v
    }
}

/// Division truncating toward zero, as machine signed division does.
pub open spec fn tdiv(a: int, b: int) -> int {
    if a >= 0 {
        a / b
    } else {
        -((-a) / b)
    }
}

/// One diffusion: index `idx` takes `e * f / 16` of the error, clamped.
pub open spec fn diffuse_spec(s: Seq<u8>, idx: int, e: int, f: int) -> Seq<u8> {
    s.update(idx, clamp_byte(s[idx] + tdiv(e * f, 16)) as u8)
}

/// One full step at pixel `(x, y)`: quantize it, then diffuse its error to
/// the in-bounds neighbors right, lower-left, below and lower-right.
pub open spec fn dither_step(s: Seq<u8>, w: int, h: int, x: int, y: int) -> Seq<u8> {
    let old = s[rowmajor(x, y, w)] as int;
    let e = old - quantize(old);
    let s0 = s.update(rowmajor(x, y, w), quantize(old) as u8);
    let s1 = if x + 1 < w {
        diffuse_spec(s0, rowmajor(x + 1, y, w), e, 7)
    } else {
        s0
    };
    let s2 = if x - 1 >= 0 && y + 1 < h {
        diffuse_spec(s1, rowmajor(x - 1, y + 1, w), e, 3)
    } else {
        s1
    };
    let s3 = if y + 1 < h {
        diffuse_spec(s2, rowmajor(x, y + 1, w), e, 5)
    } else {
        s2
    };
    if x + 1 < w && y + 1 < h {
        diffuse_spec(s3, rowmajor(x + 1, y + 1, w), e, 1)
    } else {
        s3
    }
}

/// The first `x` steps of row `y`, applied after state `s`.
pub open spec fn dither_row(s: Seq<u8>, w: int, h: int, y: int, x: nat) -> Seq<u8>
    decreases x,
{
    if x == 0 {
        s
    } else {
        dither_step(dither_row(s, w, h, y, (x - 1) as nat), w, h, x - 1, y)
    }
}

/// The first `y` whole rows of the pass.
pub open spec fn dither_rows(s: Seq<u8>, w: int, h: int, y: nat) -> Seq<u8>
    decreases y,
{
    if y == 0 {
        s
    } else {
        dither_row(dither_rows(s, w, h, (y - 1) as nat), w, h, y - 1, w as nat)
    }
}

/// The complete dithering pass over a `w` by `h` buffer.
pub open spec fn spec_dither(s: Seq<u8>, w: int, h: int) -> Seq<u8> {
    dither_rows(s, w, h, h as nat)
}

/// Holds when the first `k` entries are pure black or white.
pub open spec fn pure_upto(s: Seq<u8>, k: int) -> bool {
    forall|i: int| 0 <= i < k ==> s[i] == 0 || s[i] == 255
}

/// Holds when the whole buffer is pure black or white.
pub open spec fn pure_bw(s: Seq<u8>) -> bool {
    pure_upto(s, s.len() as int)
}

/// One step changes nothing before its own pixel, quantizes that pixel, and
/// keeps the buffer length.
proof fn lemma_step_frame(s: Seq<u8>, w: int, h: int, x: int, y: int)
    requires
        s.len() == w * h,
        0 <= x < w,
        0 <= y < h,
    ensures
        dither_step(s, w, h, x, y).len() == s.len(),
        forall|i: int| 0 <= i < rowmajor(x, y, w) ==> dither_step(s, w, h, x, y)[i] == s[i],
        dither_step(s, w, h, x, y)[rowmajor(x, y, w)] == quantize(s[rowmajor(x, y, w)] as int),
{
    lemma_rowmajor_in_range(x, y, w, h);
    assert((y + 1) * w == y * w + w) by (nonlinear_arith);
    if x + 1 < w {
        lemma_rowmajor_in_range(x + 1, y, w, h);
    }
    if y + 1 < h {
        lemma_rowmajor_in_range(x, y + 1, w, h);
        if x >= 1 {
            lemma_rowmajor_in_range(x - 1, y + 1, w, h);
        }
        if x + 1 < w {
            lemma_rowmajor_in_range(x + 1, y + 1, w, h);
        }
    }
}

/// On a pixel that is already pure black or white a step changes nothing:
/// the threshold keeps the value and the error it spreads is zero.
proof fn lemma_step_pure_id(s: Seq<u8>, w: int, h: int, x: int, y: int)
    requires
        s.len() == w * h,
        0 <= x < w,
        0 <= y < h,
        s[rowmajor(x, y, w)] == 0 || s[rowmajor(x, y, w)] == 255,
    ensures
        dither_step(s, w, h, x, y) == s,
{
    lemma_rowmajor_in_range(x, y, w, h);
    let base = rowmajor(x, y, w);
    let old = s[base] as int;
    assert(quantize(old) == old);
    assert(s.update(base, quantize(old) as u8) =~= s);
    let e = old - quantize(old);
    assert(e == 0);
    assert forall|t: Seq<u8>, idx: int, f: int|
        t.len() == s.len() && 0 <= idx < t.len() && 0 <= f implies #[trigger] diffuse_spec(
        t,
        idx,
        0,
        f,
    ) == t by {
        assert(0 * f == 0) by (nonlinear_arith);
        assert(tdiv(0, 16) == 0);
        assert(clamp_byte(t[idx] + 0) == t[idx] as int);
        assert(t.update(idx, t[idx]) =~= t);
    }
    assert((y + 1) * w == y * w + w) by (nonlinear_arith);
    if x + 1 < w {
        lemma_rowmajor_in_range(x + 1, y, w, h);
    }
    if y + 1 < h {
        lemma_rowmajor_in_range(x, y + 1, w, h);
        if x >= 1 {
            lemma_rowmajor_in_range(x - 1, y + 1, w, h);
        }
        if x + 1 < w {
            lemma_rowmajor_in_range(x + 1, y + 1, w, h);
        }
    }
}

proof fn lemma_row_pure_id(s: Seq<u8>, w: int, h: int, y: int, x: nat)
    requires
        s.len() == w * h,
        pure_bw(s),
        0 <= y < h,
        x <= w,
    ensures
        dither_row(s, w, h, y, x) == s,
    decreases x,
{
    if x > 0 {
        lemma_row_pure_id(s, w, h, y, (x - 1) as nat);
        lemma_rowmajor_in_range(x - 1, y, w, h);
        lemma_step_pure_id(s, w, h, x - 1, y);
    }
}

proof fn lemma_rows_pure_id(s: Seq<u8>, w: int, h: int, y: nat)
    requires
        s.len() == w * h,
        pure_bw(s),
        w >= 0,
        y <= h,
    ensures
        dither_rows(s, w, h, y) == s,
    decreases y,
{
    if y > 0 {
        lemma_rows_pure_id(s, w, h, (y - 1) as nat);
        lemma_row_pure_id(s, w, h, y - 1, w as nat);
    }
}

/// Dithering a buffer that is already pure black and white changes nothing.
pub proof fn lemma_dither_pure_identity(s: Seq<u8>, w: int, h: int)
    requires
        s.len() == w * h,
        w >= 0,
        h >= 0,
        pure_bw(s),
    ensures
        spec_dither(s, w, h) == s,
{
    lemma_rows_pure_id(s, w, h, h as nat);
}

proof fn lemma_row_pure(s: Seq<u8>, w: int, h: int, y: int, x: nat)
    requires
        s.len() == w * h,
        0 <= y < h,
        x <= w,
        pure_upto(s, y * w),
    ensures
        dither_row(s, w, h, y, x).len() == s.len(),
        pure_upto(dither_row(s, w, h, y, x), y * w + x),
    decreases x,
{
    if x > 0 {
        lemma_row_pure(s, w, h, y, (x - 1) as nat);
        let prev = dither_row(s, w, h, y, (x - 1) as nat);
        lemma_step_frame(prev, w, h, x - 1, y);
        assert(rowmajor(x - 1, y, w) == y * w + x - 1);
        let cur = dither_row(s, w, h, y, x);
        assert(cur == dither_step(prev, w, h, x - 1, y));
        assert forall|i: int| 0 <= i < y * w + x implies (cur[i] == 0 || cur[i] == 255) by {
            if i < y * w + x - 1 {
                assert(cur[i] == prev[i]);
            } else {
                assert(i == y * w + x - 1);
                assert(cur[i] == quantize(prev[i] as int));
            }
        }
    }
}

proof fn lemma_rows_pure(s: Seq<u8>, w: int, h: int, y: nat)
    requires
        s.len() == w * h,
        w >= 0,
        y <= h,
    ensures
        dither_rows(s, w, h, y).len() == s.len(),
        pure_upto(dither_rows(s, w, h, y), y * w),
    decreases y,
{
    if y > 0 {
        lemma_rows_pure(s, w, h, (y - 1) as nat);
        lemma_row_pure(dither_rows(s, w, h, (y - 1) as nat), w, h, y - 1, w as nat);
        assert((y - 1) * w + w == y * w) by (nonlinear_arith);
    } else {
        assert(y * w == 0) by (nonlinear_arith)
            requires
                y == 0,
        ;
    }
}

/// Every pixel of a dithered buffer is pure black or white.
pub proof fn lemma_dither_pure(s: Seq<u8>, w: int, h: int)
    requires
        s.len() == w * h,
        w >= 0,
        h >= 0,
    ensures
        spec_dither(s, w, h).len() == s.len(),
        pure_bw(spec_dither(s, w, h)),
{
    lemma_rows_pure(s, w, h, h as nat);
    assert(h * w == w * h) by (nonlinear_arith);
}

/// Dithering is idempotent: a second pass over an already dithered buffer
/// returns it unchanged.
pub proof fn lemma_dither_idempotent(s: Seq<u8>, w: int, h: int)
    requires
        s.len() == w * h,
        w >= 0,
        h >= 0,
    ensures
        spec_dither(spec_dither(s, w, h), w, h) == spec_dither(s, w, h),
{
    lemma_dither_pure(s, w, h);
    lemma_dither_pure_identity(spec_dither(s, w, h), w, h);
}

/// Adds the given share of the error onto `data[idx]`, clamped to a byte.
fn diffuse(data: &mut Vec<u8>, idx: usize, e: i16, f: u16)
    requires
        idx < old(data)@.len(),
        -255 <= e <= 255,
        f <= 7,
    ensures
        final(data)@ == diffuse_spec(old(data)@, idx as int, e as int, f as int),
{
    proof {
        assert((e as int) * (f as int) <= 255 * 7 && (-(e as int)) * (f as int) <= 255 * 7)
            by (nonlinear_arith)
            requires
                -255 <= e <= 255,
                0 <= f <= 7,
        ;
    }
    let v: u16 = data[idx] as u16;
    let nv: u16 = if e >= 0 {
        let add: u16 = (e as u16) * f / 16;
        let s = v + add;
        if s > 255 {
            255
        } else {
            s
        }
    } else {
        let sub: u16 = ((-e) as u16) * f / 16;
        if v >= sub {
            v - sub
        } else {
            0
        }
    };
    proof {
        if e >= 0 {
            assert(tdiv(e * f, 16) == (e * f) / 16);
        } else {
            assert(e * f == -((-e) * f)) by (nonlinear_arith);
            assert(tdiv(e * f, 16) == -(((-e) * f) / 16));
        }
        assert(nv as int == clamp_byte(old(data)@[idx as int] + tdiv(e as int * f as int, 16)));
    }
    data.set(idx, nv as u8);
}

/// Quantizes `data[idx]` to 0 or 255 and returns the error it leaves behind.
fn quantize_at(data: &mut Vec<u8>, idx: usize) -> (e: i16)
    requires
        idx < old(data)@.len(),
    ensures
        final(data)@ == old(data)@.update(
            idx as int,
            quantize(old(data)@[idx as int] as int) as u8,
        ),
        e as int == old(data)@[idx as int] - quantize(old(data)@[idx as int] as int),
        -255 <= e <= 255,
{
    let v = data[idx];
    if v < 128 {
        data.set(idx, 0);
        v as i16
    } else {
        data.set(idx, 255);
        v as i16 - 255
    }
}

/// Dithers the image in place: the result is `spec_dither` of the old
/// contents, and every output pixel is pure black or white.
pub fn dither(img: &mut GrayImage)
    requires
        old(img).wf(),
    ensures
        final(img).wf(),
        final(img).width == old(img).width,
        final(img).height == old(img).height,
        final(img).data@ == spec_dither(
            old(img).data@,
            old(img).width as int,
            old(img).height as int,
        ),
{
    let w = img.width;
    let h = img.height;
    let ghost orig = img.data@;
    let ghost wi = w as int;
    let ghost hi = h as int;
    let mut y: usize = 0;
    while y < h
        invariant
            y <= h,
            img.width == w,
            img.height == h,
            img.data@.len() == orig.len(),
            img.data@ == dither_rows(orig, wi, hi, y as nat),
        decreases h - y,
    {
        let ghost row_start = img.data@;
        let mut x: usize = 0;
        while x < w
            invariant
                x <= w,
                y < h,
                img.width == w,
                img.height == h,
                img.data@.len() == orig.len(),
                img.data@ == dither_row(row_start, wi, hi, y as int, x as nat),
            decreases w - x,
        {
            let ghost before = img.data@;
            proof {
                crate::canvas::lemma_dims_bound(wi, hi);
                lemma_rowmajor_in_range(x as int, y as int, wi, hi);
                if x + 1 < w {
                    lemma_rowmajor_in_range(x as int + 1, y as int, wi, hi);
                }
                if y + 1 < h {
                    lemma_rowmajor_in_range(x as int, y as int + 1, wi, hi);
                    if x >= 1 {
                        lemma_rowmajor_in_range(x as int - 1, y as int + 1, wi, hi);
                    }
                    if x + 1 < w {
                        lemma_rowmajor_in_range(x as int + 1, y as int + 1, wi, hi);
                    }
                }
            }
            let idx = y * w + x;
            let e = quantize_at(&mut img.data, idx);
            if x + 1 < w {
                diffuse(&mut img.data, idx + 1, e, 7);
            }
            if y + 1 < h {
                if x >= 1 {
                    diffuse(&mut img.data, (y + 1) * w + x - 1, e, 3);
                }
                diffuse(&mut img.data, (y + 1) * w + x, e, 5);
                if x + 1 < w {
                    diffuse(&mut img.data, (y + 1) * w + x + 1, e, 1);
                }
            }
            proof {
                assert(img.data@ == dither_step(before, wi, hi, x as int, y as int));
            }
            x = x + 1;
        }
        y = y + 1;
    }
}

/// A gray buffer expanded to three equal channels per pixel.
pub open spec fn gray_expand(g: Seq<u8>) -> Seq<Px> {
    g.map_values(|v: u8| Px { r: v, g: v, b: v })
}

/// Dithers the grayscale image and expands it back to a three-channel
/// canvas with equal channels, ready to composite.
pub fn dither_image_grayscale(image: GrayImage) -> (out: Canvas)
    requires
        image.wf(),
    ensures
        out.wf(),
        out.spec_width() == image.width,
        out.spec_height() == image.height,
        out.pixels() == gray_expand(
            spec_dither(image.data@, image.width as int, image.height as int),
        ),
{
    let mut img = image;
    dither(&mut img);
    let w = img.width;
    let h = img.height;
    let ghost dithered = img.data@;
    let n = img.data.len();
    let mut px: Vec<Px> = Vec::new();
    let mut k: usize = 0;
    while k < n
        invariant
            k <= n,
            n == dithered.len(),
            img.data@ == dithered,
            px@.len() == k,
            forall|i: int|
                0 <= i < k ==> px@[i] == (Px {
                    r: dithered[i],
                    g: dithered[i],
                    b: dithered[i],
                }),
        decreases n - k,
    {
        let v = img.data[k];
        px.push(Px { r: v, g: v, b: v });
        k = k + 1;
    }
    proof {
        assert(px@ =~= gray_expand(dithered));
    }
    Canvas::from_pixels(w, h, px)
}

} // verus!
