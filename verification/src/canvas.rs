#![verifier::loop_isolation(false)]
//! The mutable RGB pixel grid that every drawing step writes into.

use vstd::prelude::*;

verus! {

/// A single pixel of the render canvas, in plain 8-bit RGB.
#[derive(Clone, Copy, PartialEq, Eq, Structural, Debug)]
pub struct Px {
    pub r: u8,
    pub g: u8,
    pub b: u8,
}

/// The canvas background and the display's "off" tone.
pub open spec fn spec_white() -> Px {
    Px { r: 255, g: 255, b: 255 }
}

/// The display's black tone.
pub open spec fn spec_black() -> Px {
    Px { r: 0, g: 0, b: 0 }
}

/// The display's chromatic (spot color) tone, kept as red in software.
pub open spec fn spec_red() -> Px {
    Px { r: 255, g: 0, b: 0 }
}

impl Px {
    pub fn white() -> (c: Px)
        ensures
            c == spec_white(),
    {
        Px { r: 255, g: 255, b: 255 }
    }

    pub fn black() -> (c: Px)
        ensures
            c == spec_black(),
    {
        Px { r: 0, g: 0, b: 0 }
    }

    pub fn red() -> (c: Px)
        ensures
            c == spec_red(),
    {
        Px { r: 255, g: 0, b: 0 }
    }

    /// A gray tone with all three channels equal, as the ditherer emits.
    pub fn gray(v: u8) -> (c: Px)
        ensures
            c == (Px { r: v, g: v, b: v }),
    {
        Px { r: v, g: v, b: v }
    }
}

/// Row-major index of a pixel position.
pub open spec fn rowmajor(x: int, y: int, width: int) -> int {
    y * width + x
}

pub proof fn lemma_rowmajor_in_range(x: int, y: int, width: int, height: int)
    by (nonlinear_arith)
    requires
        0 <= x < width,
        0 <= y < height,
    ensures
        0 <= rowmajor(x, y, width) < width * height,
{
}

pub proof fn lemma_dims_bound(width: int, height: int)
    by (nonlinear_arith)
    requires
        0 <= width <= 0xFFFF,
        0 <= height <= 0xFFFF,
    ensures
        width * height <= 0xFFFF * 0xFFFF,
{
}

pub proof fn lemma_rowmajor_injective(x1: int, y1: int, x2: int, y2: int, width: int)
    by (nonlinear_arith)
    requires
        0 <= x1 < width,
        0 <= x2 < width,
        (x1, y1) != (x2, y2),
    ensures
        rowmajor(x1, y1, width) != rowmajor(x2, y2, width),
{
}

/// One clipped pixel write on a row-major pixel sequence: the sequence is
/// updated when the position is on the `w` by `h` grid and kept otherwise.
pub open spec fn set_px(s: Seq<Px>, w: int, h: int, x: int, y: int, c: Px) -> Seq<Px> {
    if 0 <= x < w && 0 <= y < h {
        s.update(rowmajor(x, y, w), c)
    } else {
        s
    }
}

/// A fixed-size grid of RGB pixels, stored row-major.
pub struct Canvas {
    width: usize,
    height: usize,
    px: Vec<Px>,
}

impl Canvas {
    /// Well-formedness: the pixel store matches the stated dimensions.
    pub closed spec fn wf(self) -> bool {
        &&& self.px@.len() == self.width * self.height
        &&& self.width <= 0xFFFF
        &&& self.height <= 0xFFFF
    }

    pub closed spec fn spec_width(self) -> int {
        self.width as int
    }

    pub closed spec fn spec_height(self) -> int {
        self.height as int
    }

    /// The pixel store as a row-major sequence.
    pub closed spec fn pixels(self) -> Seq<Px> {
        self.px@
    }

    /// The pixel at column `x`, row `y`.
    pub open spec fn at(self, x: int, y: int) -> Px {
        self.pixels()[rowmajor(x, y, self.spec_width())]
    }

    /// Holds when `(x, y)` lies on the canvas.
    pub open spec fn in_bounds(self, x: int, y: int) -> bool {
        0 <= x < self.spec_width() && 0 <= y < self.spec_height()
    }

    /// A well-formed canvas has bounded dimensions.
    pub proof fn lemma_wf_dims(self)
        requires
            self.wf(),
        ensures
            0 <= self.spec_width() <= 0xFFFF,
            0 <= self.spec_height() <= 0xFFFF,
    {
    }

    pub fn width(&self) -> (w: usize)
        ensures
            w == self.spec_width(),
    {
        self.width
    }

    pub fn height(&self) -> (h: usize)
        ensures
            h == self.spec_height(),
    {
        self.height
    }

    /// A fresh canvas with every pixel set to the given color.
    pub fn new_filled(width: usize, height: usize, color: Px) -> (c: Canvas)
        requires
            width <= 0xFFFF,
            height <= 0xFFFF,
        ensures
            c.wf(),
            c.spec_width() == width,
            c.spec_height() == height,
            c.pixels() == Seq::new((width * height) as nat, |i: int| color),
            forall|x: int, y: int| c.in_bounds(x, y) ==> c.at(x, y) == color,
    {
        proof {
            assert(width * height <= 0xFFFF * 0xFFFF) by (nonlinear_arith)
                requires
                    width <= 0xFFFF,
                    height <= 0xFFFF,
            ;
        }
        let total: usize = width * height;
        let mut px: Vec<Px> = Vec::new();
        let mut i: usize = 0;
        while i < total
            invariant
                i <= total,
                px@.len() == i,
                forall|k: int| 0 <= k < i ==> px@[k] == color,
            decreases total - i,
        {
            px.push(color);
            i = i + 1;
        }
        let c = Canvas { width, height, px };
        proof {
            assert(c.pixels() =~= Seq::new((width * height) as nat, |k: int| color));
            assert forall|x: int, y: int| c.in_bounds(x, y) implies c.at(x, y) == color by {
                lemma_rowmajor_in_range(x, y, width as int, height as int);
            }
        }
        c
    }

    /// A fresh all-white canvas, the background of every render.
    pub fn new_white(width: usize, height: usize) -> (c: Canvas)
        requires
            width <= 0xFFFF,
            height <= 0xFFFF,
        ensures
            c.wf(),
            c.spec_width() == width,
            c.spec_height() == height,
            c.pixels() == Seq::new((width * height) as nat, |i: int| spec_white()),
            forall|x: int, y: int| c.in_bounds(x, y) ==> c.at(x, y) == spec_white(),
    {
        Canvas::new_filled(width, height, Px::white())
    }

    /// A canvas over the given pixel store.
    pub fn from_pixels(width: usize, height: usize, px: Vec<Px>) -> (c: Canvas)
        requires
            px@.len() == width * height,
            width <= 0xFFFF,
            height <= 0xFFFF,
        ensures
            c.wf(),
            c.spec_width() == width,
            c.spec_height() == height,
            c.pixels() == px@,
    {
        Canvas { width, height, px }
    }

    pub fn get(&self, x: usize, y: usize) -> (c: Px)
        requires
            self.wf(),
            self.in_bounds(x as int, y as int),
        ensures
            c == self.at(x as int, y as int),
    {
        proof {
            lemma_rowmajor_in_range(x as int, y as int, self.width as int, self.height as int);
            lemma_dims_bound(self.width as int, self.height as int);
        }
        self.px[y * self.width + x]
    }

    /// Sets one in-bounds pixel and leaves every other pixel alone.
    pub fn set(&mut self, x: usize, y: usize, color: Px)
        requires
            old(self).wf(),
            old(self).in_bounds(x as int, y as int),
        ensures
            final(self).wf(),
            final(self).spec_width() == old(self).spec_width(),
            final(self).spec_height() == old(self).spec_height(),
            final(self).pixels() == old(self).pixels().update(
                rowmajor(x as int, y as int, old(self).spec_width()),
                color,
            ),
            final(self).at(x as int, y as int) == color,
            forall|i: int, j: int|
                old(self).in_bounds(i, j) && (i, j) != (x as int, y as int) ==> final(self).at(
                    i,
                    j,
                ) == old(self).at(i, j),
    {
        proof {
            lemma_rowmajor_in_range(x as int, y as int, self.width as int, self.height as int);
            lemma_dims_bound(self.width as int, self.height as int);
        }
        let idx: usize = y * self.width + x;
        self.px.set(idx, color);
        proof {
            assert forall|i: int, j: int|
                old(self).in_bounds(i, j) && (i, j) != (x as int, y as int) implies final(self).at(
                i,
                j,
            ) == old(self).at(i, j) by {
                lemma_rowmajor_in_range(i, j, self.width as int, self.height as int);
                lemma_rowmajor_injective(i, j, x as int, y as int, self.width as int);
            }
        }
    }

    /// Sets the pixel when it is on the canvas and does nothing otherwise.
    pub fn set_clipped(&mut self, x: i64, y: i64, color: Px)
        requires
            old(self).wf(),
        ensures
            final(self).wf(),
            final(self).spec_width() == old(self).spec_width(),
            final(self).spec_height() == old(self).spec_height(),
            final(self).pixels() == set_px(
                old(self).pixels(),
                old(self).spec_width(),
                old(self).spec_height(),
                x as int,
                y as int,
                color,
            ),
            old(self).in_bounds(x as int, y as int) ==> final(self).at(x as int, y as int)
                == color,
            forall|i: int, j: int|
                old(self).in_bounds(i, j) && (i, j) != (x as int, y as int) ==> final(self).at(
                    i,
                    j,
                ) == old(self).at(i, j),
    {
        if 0 <= x && x < self.width as i64 && 0 <= y && y < self.height as i64 {
            self.set(x as usize, y as usize, color);
        }
    }
}

/// The destination after copying the first `x` pixels of source row `y`,
/// the source's top-left corner sitting at `(ox, oy)`.
pub open spec fn overlay_row(
    dst: Seq<Px>,
    dw: int,
    dh: int,
    src: Seq<Px>,
    sw: int,
    ox: int,
    oy: int,
    y: int,
    x: nat,
) -> Seq<Px>
    decreases x,
{
    if x == 0 {
        dst
    } else {
        set_px(
            overlay_row(dst, dw, dh, src, sw, ox, oy, y, (x - 1) as nat),
            dw,
            dh,
            ox + x - 1,
            oy + y,
            src[rowmajor(x - 1, y, sw)],
        )
    }
}

/// The destination after copying the first `y` full source rows.
pub open spec fn overlay_rows(
    dst: Seq<Px>,
    dw: int,
    dh: int,
    src: Seq<Px>,
    sw: int,
    ox: int,
    oy: int,
    y: nat,
) -> Seq<Px>
    decreases y,
{
    if y == 0 {
        dst
    } else {
        overlay_row(
            overlay_rows(dst, dw, dh, src, sw, ox, oy, (y - 1) as nat),
            dw,
            dh,
            src,
            sw,
            ox,
            oy,
            y - 1,
            sw as nat,
        )
    }
}

/// The destination after pasting the whole source at `(ox, oy)`, clipped
/// to the destination.
pub open spec fn overlay_spec(
    dst: Seq<Px>,
    dw: int,
    dh: int,
    src: Seq<Px>,
    sw: int,
    sh: int,
    ox: int,
    oy: int,
) -> Seq<Px> {
    overlay_rows(dst, dw, dh, src, sw, ox, oy, sh as nat)
}

/// Pastes `src` onto `dst` with its top-left corner at `(ox, oy)`; parts
/// falling off the destination are clipped.
pub fn overlay(dst: &mut Canvas, src: &Canvas, ox: i64, oy: i64)
    requires
        old(dst).wf(),
        src.wf(),
        -0x100000 <= ox <= 0x100000,
        -0x100000 <= oy <= 0x100000,
    ensures
        final(dst).wf(),
        final(dst).spec_width() == old(dst).spec_width(),
        final(dst).spec_height() == old(dst).spec_height(),
        final(dst).pixels() == overlay_spec(
            old(dst).pixels(),
            old(dst).spec_width(),
            old(dst).spec_height(),
            src.pixels(),
            src.spec_width(),
            src.spec_height(),
            ox as int,
            oy as int,
        ),
{
    let ghost dw = dst.spec_width();
    let ghost dh = dst.spec_height();
    let ghost orig = dst.pixels();
    let ghost sp = src.pixels();
    let sw = src.width();
    let sh = src.height();
    let mut y: usize = 0;
    while y < sh
        invariant
            y <= sh,
            src.wf(),
            sw == src.spec_width(),
            sh == src.spec_height(),
            dst.wf(),
            dst.spec_width() == dw,
            dst.spec_height() == dh,
            dst.pixels() == overlay_rows(orig, dw, dh, sp, sw as int, ox as int, oy as int, y as nat),
        decreases sh - y,
    {
        let ghost row_base = dst.pixels();
        let mut x: usize = 0;
        while x < sw
            invariant
                x <= sw,
                y < sh,
                src.wf(),
                sw == src.spec_width(),
                sh == src.spec_height(),
                dst.wf(),
                dst.spec_width() == dw,
                dst.spec_height() == dh,
                dst.pixels() == overlay_row(
                    row_base,
                    dw,
                    dh,
                    sp,
                    sw as int,
                    ox as int,
                    oy as int,
                    y as int,
                    x as nat,
                ),
            decreases sw - x,
        {
            let c = src.get(x, y);
            dst.set_clipped(ox + x as i64, oy + y as i64, c);
            x = x + 1;
        }
        y = y + 1;
    }
}

} // verus!
