#![verifier::loop_isolation(false)]
//! Packing of a finished three-color canvas into the display controller's
//! two-bitplane frame buffer.
//!
//! The buffer is row-major with rows padded to byte boundaries, most
//! significant bit first. The first plane carries black-vs-white (bit 1 =
//! white), the second carries chromatic-vs-not (bit 1 = chromatic). Any pixel
//! that is not exactly one of the three device colors counts as white.

use vstd::prelude::*;

use crate::canvas::{Canvas, Px, rowmajor, spec_black, spec_red, spec_white};

verus! {

/// Width of the target display in pixels.
pub const EPD_WIDTH: usize = 800;

/// Height of the target display in pixels.
pub const EPD_HEIGHT: usize = 480;

/// The bit a pixel contributes to one plane. In the black/white plane white
/// (and any unrecognized color) is 1 and black or chromatic is 0; in the
/// chromatic plane exactly the chromatic color is 1.
pub open spec fn plane_bit(c: Px, chrom: bool) -> int {
    if chrom {
        if c == spec_red() {
            1
        } else {
            0
        }
    } else {
        if c == spec_black() || c == spec_red() {
            0
        } else {
            1
        }
    }
}

/// The bit stored for column `x` of row `y`: a real pixel's bit inside the
/// canvas, and 1 in the padding bits past its right edge.
pub open spec fn stored_bit(s: Seq<Px>, w: int, x: int, y: int, chrom: bool) -> int {
    if x < w {
        plane_bit(s[rowmajor(x, y, w)], chrom)
    } else {
        1
    }
}

/// The value of the first `k` bits of the byte whose leftmost pixel is
/// `base`, most significant bit first.
pub open spec fn byte_prefix(s: Seq<Px>, w: int, y: int, base: int, k: nat, chrom: bool) -> int
    decreases k,
{
    if k == 0 {
        0
    } else {
        2 * byte_prefix(s, w, y, base, (k - 1) as nat, chrom) + stored_bit(
            s,
            w,
            base + k - 1,
            y,
            chrom,
        )
    }
}

/// The full byte `j` of row `y` in one plane.
pub open spec fn plane_byte(s: Seq<Px>, w: int, y: int, j: int, chrom: bool) -> int {
    byte_prefix(s, w, y, 8 * j, 8, chrom)
}

/// Number of buffer bytes per pixel row.
pub open spec fn spec_bytes_per_row(width: int) -> int {
    (width + 7) / 8
}

/// Number of bytes in one plane of the buffer.
pub open spec fn spec_plane_len(width: int, height: int) -> int {
    spec_bytes_per_row(width) * height
}

proof fn lemma_byte_prefix_bound(s: Seq<Px>, w: int, y: int, base: int, k: nat, chrom: bool)
    ensures
        0 <= byte_prefix(s, w, y, base, k, chrom) < pow2_spec(k),
    decreases k,
{
    if k > 0 {
        lemma_byte_prefix_bound(s, w, y, base, (k - 1) as nat, chrom);
    }
}

/// Two to the power `k`.
pub open spec fn pow2_spec(k: nat) -> int
    decreases k,
{
    if k == 0 {
        1
    } else {
        2 * pow2_spec((k - 1) as nat)
    }
}

/// Encodes one plane of the canvas, row-major, rows padded to bytes.
fn encode_plane(cv: &Canvas, chrom: bool, out: &mut Vec<u8>)
    requires
        cv.wf(),
        old(out)@.len() == 0,
    ensures
        final(out)@.len() == spec_plane_len(cv.spec_width(), cv.spec_height()),
        forall|y: int, j: int|
            0 <= y < cv.spec_height() && 0 <= j < spec_bytes_per_row(cv.spec_width())
                ==> final(out)@[y * spec_bytes_per_row(cv.spec_width()) + j] == plane_byte(
                cv.pixels(),
                cv.spec_width(),
                y,
                j,
                chrom,
            ),
{
    proof {
        cv.lemma_wf_dims();
    }
    let ghost pxs = cv.pixels();
    let ghost wi = cv.spec_width();
    let width = cv.width();
    let height = cv.height();
    let bpr: usize = (width + 7) / 8;
    let ghost bpr_i = bpr as int;
    let mut y: usize = 0;
    while y < height
        invariant
            y <= height,
            out@.len() == y * bpr_i,
            forall|y0: int, j0: int|
                0 <= y0 < y && 0 <= j0 < bpr_i ==> out@[y0 * bpr_i + j0] == plane_byte(
                    pxs,
                    wi,
                    y0,
                    j0,
                    chrom,
                ),
        decreases height - y,
    {
        let mut j: usize = 0;
        while j < bpr
            invariant
                j <= bpr,
                out@.len() == y * bpr_i + j,
                forall|y0: int, j0: int|
                    0 <= y0 < y && 0 <= j0 < bpr_i ==> out@[y0 * bpr_i + j0] == plane_byte(
                        pxs,
                        wi,
                        y0,
                        j0,
                        chrom,
                    ),
                forall|j0: int|
                    0 <= j0 < j ==> out@[y * bpr_i + j0] == plane_byte(pxs, wi, y as int, j0, chrom),
            decreases bpr - j,
        {
            let mut acc: u8 = 0;
            let mut k: usize = 0;
            let base: usize = 8 * j;
            while k < 8
                invariant
                    k <= 8,
                    acc as int == byte_prefix(pxs, wi, y as int, 8 * j, k as nat, chrom),
                decreases 8 - k,
            {
                proof {
                    lemma_byte_prefix_bound(pxs, wi, y as int, 8 * (j as int), k as nat, chrom);
                    assert(pow2_spec(7) == 128) by {
                        reveal_with_fuel(pow2_spec, 9);
                    }
                    assert(pow2_spec(k as nat) <= pow2_spec(7)) by {
                        lemma_pow2_monotone(k as nat, 7);
                    }
                }
                let x = base + k;
                let bit: u8 = if x < width {
                    let c = cv.get(x, y);
                    if chrom {
                        if c.r == 255 && c.g == 0 && c.b == 0 {
                            1
                        } else {
                            0
                        }
                    } else {
                        if (c.r == 0 && c.g == 0 && c.b == 0) || (c.r == 255 && c.g == 0 && c.b
                            == 0) {
                            0
                        } else {
                            1
                        }
                    }
                } else {
                    1
                };
                acc = 2 * acc + bit;
                k = k + 1;
            }
            out.push(acc);
            proof {
                assert forall|y0: int, j0: int|
                    0 <= y0 < y && 0 <= j0 < bpr_i implies out@[y0 * bpr_i + j0] == plane_byte(
                    pxs,
                    wi,
                    y0,
                    j0,
                    chrom,
                ) by {
                    assert(y0 * bpr_i + j0 < y * bpr_i) by (nonlinear_arith)
                        requires
                            0 <= y0,
                            y0 + 1 <= y,
                            0 <= j0 < bpr_i,
                    ;
                }
            }
            j = j + 1;
        }
        proof {
            assert(out@.len() == y * bpr_i + bpr_i);
            assert(y * bpr_i + bpr_i == (y + 1) * bpr_i) by (nonlinear_arith);
            assert forall|y0: int, j0: int|
                0 <= y0 < y + 1 && 0 <= j0 < bpr_i implies out@[y0 * bpr_i + j0] == plane_byte(
                pxs,
                wi,
                y0,
                j0,
                chrom,
            ) by {
                if y0 == y as int {
                    assert(out@[y * bpr_i + j0] == plane_byte(pxs, wi, y as int, j0, chrom));
                }
            }
        }
        y = y + 1;
    }
    proof {
        assert(out@.len() == height * bpr_i);
        assert(height * bpr_i == bpr_i * height) by (nonlinear_arith);
    }
}

proof fn lemma_pow2_monotone(a: nat, b: nat)
    requires
        a <= b,
    ensures
        pow2_spec(a) <= pow2_spec(b),
    decreases b,
{
    if a < b {
        lemma_pow2_monotone(a, (b - 1) as nat);
        lemma_pow2_pos(b);
    }
}

proof fn lemma_pow2_pos(k: nat)
    ensures
        pow2_spec(k) >= 1,
    decreases k,
{
    if k > 0 {
        lemma_pow2_pos((k - 1) as nat);
    }
}

/// Packs the canvas into the two-plane frame buffer: first the black/white
/// plane, then the chromatic plane, each row padded to a whole byte.
pub fn rgb_image_to_epd_image(image: &Canvas) -> (buf: Vec<u8>)
    requires
        image.wf(),
    ensures
        buf@.len() == 2 * spec_plane_len(image.spec_width(), image.spec_height()),
        forall|y: int, j: int|
            0 <= y < image.spec_height() && 0 <= j < spec_bytes_per_row(image.spec_width()) ==> {
                &&& buf@[y * spec_bytes_per_row(image.spec_width()) + j] == plane_byte(
                    image.pixels(),
                    image.spec_width(),
                    y,
                    j,
                    false,
                )
                &&& buf@[spec_plane_len(image.spec_width(), image.spec_height()) + y
                    * spec_bytes_per_row(image.spec_width()) + j] == plane_byte(
                    image.pixels(),
                    image.spec_width(),
                    y,
                    j,
                    true,
                )
            },
{
    let mut bw: Vec<u8> = Vec::new();
    encode_plane(image, false, &mut bw);
    let mut chrom: Vec<u8> = Vec::new();
    encode_plane(image, true, &mut chrom);
    let ghost bw_snap = bw@;
    let ghost pl = spec_plane_len(image.spec_width(), image.spec_height());
    let mut i: usize = 0;
    let n = chrom.len();
    while i < n
        invariant
            i <= n,
            n == pl,
            chrom@.len() == n,
            bw@.len() == bw_snap.len() + i,
            bw@ == bw_snap + chrom@.subrange(0, i as int),
        decreases n - i,
    {
        let b = chrom[i];
        bw.push(b);
        i = i + 1;
        proof {
            assert(bw@ == bw_snap + chrom@.subrange(0, i as int));
        }
    }
    proof {
        assert(chrom@.subrange(0, n as int) == chrom@);
        let bpr = spec_bytes_per_row(image.spec_width());
        assert forall|y: int, j: int|
            0 <= y < image.spec_height() && 0 <= j < bpr implies {
            &&& bw@[y * bpr + j] == plane_byte(image.pixels(), image.spec_width(), y, j, false)
            &&& bw@[pl + y * bpr + j] == plane_byte(image.pixels(), image.spec_width(), y, j, true)
        } by {
            crate::canvas::lemma_rowmajor_in_range(j, y, bpr, image.spec_height());
            assert(bw@[y * bpr + j] == bw_snap[y * bpr + j]);
            assert(bw@[pl + y * bpr + j] == chrom@[y * bpr + j]);
        }
    }
    bw
}

proof fn lemma_byte_prefix_uniform(
    s: Seq<Px>,
    w: int,
    y: int,
    base: int,
    k: nat,
    chrom: bool,
    b: int,
)
    requires
        b == 0 || b == 1,
        forall|x: int| base <= x < base + k ==> stored_bit(s, w, x, y, chrom) == b,
    ensures
        byte_prefix(s, w, y, base, k, chrom) == b * (pow2_spec(k) - 1),
    decreases k,
{
    if k > 0 {
        lemma_byte_prefix_uniform(s, w, y, base, (k - 1) as nat, chrom, b);
    }
}

/// On a canvas of one uniform color whose width is a whole number of bytes,
/// every byte of each plane is the color's bit repeated eight times.
proof fn lemma_encode_uniform(s: Seq<Px>, w: int, h: int, c: Px, y: int, j: int, chrom: bool)
    requires
        w % 8 == 0,
        forall|x: int, y0: int|
            0 <= x < w && 0 <= y0 < h ==> s[rowmajor(x, y0, w)] == c,
        0 <= y < h,
        0 <= j < spec_bytes_per_row(w),
    ensures
        plane_byte(s, w, y, j, chrom) == 255 * plane_bit(c, chrom),
{
    assert(8 * j + 8 <= w);
    assert(forall|x: int| 8 * j <= x < 8 * j + 8 ==> stored_bit(s, w, x, y, chrom) == plane_bit(
        c,
        chrom,
    ));
    lemma_byte_prefix_uniform(s, w, y, 8 * j, 8, chrom, plane_bit(c, chrom));
    assert(byte_prefix(s, w, y, 8 * j, 8, chrom) == plane_bit(c, chrom) * (pow2_spec(8) - 1));
    assert(pow2_spec(8) == 256) by {
        reveal_with_fuel(pow2_spec, 9);
    }
    assert(plane_byte(s, w, y, j, chrom) == byte_prefix(s, w, y, 8 * j, 8, chrom));
    assert(byte_prefix(s, w, y, 8 * j, 8, chrom) == plane_bit(c, chrom) * 255);
    assert(plane_bit(c, chrom) * 255 == 255 * plane_bit(c, chrom));
}

/// Round trip for an all-white canvas: the black/white plane is the all-white
/// bit pattern (every byte 0xFF) and the chromatic plane is all zero.
pub proof fn lemma_encode_all_white(s: Seq<Px>, w: int, h: int, y: int, j: int)
    requires
        w % 8 == 0,
        forall|x: int, y0: int|
            0 <= x < w && 0 <= y0 < h ==> s[rowmajor(x, y0, w)] == spec_white(),
        0 <= y < h,
        0 <= j < spec_bytes_per_row(w),
    ensures
        plane_byte(s, w, y, j, false) == 0xFF,
        plane_byte(s, w, y, j, true) == 0x00,
{
    lemma_encode_uniform(s, w, h, spec_white(), y, j, false);
    lemma_encode_uniform(s, w, h, spec_white(), y, j, true);
}

/// Round trip for an all-black canvas: the black/white plane is the all-black
/// pattern (every byte zero) while the chromatic plane stays all zero.
pub proof fn lemma_encode_all_black(s: Seq<Px>, w: int, h: int, y: int, j: int)
    requires
        w % 8 == 0,
        forall|x: int, y0: int|
            0 <= x < w && 0 <= y0 < h ==> s[rowmajor(x, y0, w)] == spec_black(),
        0 <= y < h,
        0 <= j < spec_bytes_per_row(w),
    ensures
        plane_byte(s, w, y, j, false) == 0x00,
        plane_byte(s, w, y, j, true) == 0x00,
{
    lemma_encode_uniform(s, w, h, spec_black(), y, j, false);
    lemma_encode_uniform(s, w, h, spec_black(), y, j, true);
}

/// Round trip for an all-chromatic canvas: every chromatic plane byte is set
/// and every black/white plane byte is cleared.
pub proof fn lemma_encode_all_chromatic(s: Seq<Px>, w: int, h: int, y: int, j: int)
    requires
        w % 8 == 0,
        forall|x: int, y0: int|
            0 <= x < w && 0 <= y0 < h ==> s[rowmajor(x, y0, w)] == spec_red(),
        0 <= y < h,
        0 <= j < spec_bytes_per_row(w),
    ensures
        plane_byte(s, w, y, j, false) == 0x00,
        plane_byte(s, w, y, j, true) == 0xFF,
{
    lemma_encode_uniform(s, w, h, spec_red(), y, j, false);
    lemma_encode_uniform(s, w, h, spec_red(), y, j, true);
}

/// The size of the packed buffer for the fixed dashboard dimensions: two
/// planes of `ceil(width / 8) * height` bytes each.
pub fn get_buffer_size() -> (n: usize)
    ensures
        n == 96000,
        n == 2 * spec_plane_len(EPD_WIDTH as int, EPD_HEIGHT as int),
{
    (EPD_WIDTH + 7) / 8 * (EPD_HEIGHT * 2)
}

} // verus!
