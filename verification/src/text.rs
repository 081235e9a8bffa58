#![verifier::loop_isolation(false)]
//! Greedy word-wrap layout and the linear auto-fit scale searches.
//!
//! The engine works on pre-rasterized words: for each word the caller
//! supplies its advance width, the advance width of a space followed by the
//! word, its pixel height, and the glyph pixels relative to the word origin.
//! Wrapping places each word whole on the current line, advancing by the
//! spaced width, and starts a new line when the bare width would cross the
//! right edge and the line already has content. A single word wider than
//! the line is never split; it overflows past the edge on its own line.

use vstd::prelude::*;

use crate::canvas::{Canvas, Px, set_px};

verus! {

/// One rasterized word at one scale: its metrics and its glyph pixels,
/// each pixel relative to the word's draw origin.
pub struct WordRaster {
    /// Advance width of the bare word.
    pub width: u32,
    /// Advance width of a single space followed by the word.
    pub spaced_width: u32,
    /// Pixel height of the word.
    pub height: u32,
    /// Glyph pixels whose coverage passed the threshold.
    pub pixels: Vec<(i32, i32)>,
}

impl WordRaster {
    pub open spec fn wf(self) -> bool {
        &&& self.width <= 0xFFFF
        &&& self.spaced_width <= 0xFFFF
        &&& self.height <= 0xFFFF
    }
}

/// Metric bounds under which all layout arithmetic stays in range.
pub open spec fn words_wf(ws: Seq<WordRaster>) -> bool {
    &&& ws.len() <= 0x1000
    &&& forall|i: int| 0 <= i < ws.len() ==> #[trigger] ws[i].wf()
}

/// The plain (width, spaced width, height) triples of a word list.
pub open spec fn dims_of(ws: Seq<WordRaster>) -> Seq<(int, int, int)> {
    ws.map_values(|w: WordRaster| (w.width as int, w.spaced_width as int, w.height as int))
}

/// Layout state after some words: cursor x, cursor y, widest line reached,
/// and total height consumed.
pub open spec fn wrap_step(
    st: (int, int, int, int),
    wd: (int, int, int),
    max_width: int,
    line_spacing: int,
) -> (int, int, int, int) {
    let wraps = st.0 > 0 && st.0 + wd.0 > max_width;
    let cx = if wraps {
        0
    } else {
        st.0
    };
    let cy = if wraps {
        st.1 + wd.2 + line_spacing
    } else {
        st.1
    };
    let nx = cx + wd.1;
    let ml = if st.2 < nx {
        nx
    } else {
        st.2
    };
    (nx, cy, ml, cy + wd.2)
}

/// The layout state after the first `n` words, starting from the origin.
pub open spec fn wrap_states(
    words: Seq<(int, int, int)>,
    max_width: int,
    line_spacing: int,
    n: nat,
) -> (int, int, int, int)
    decreases n,
{
    if n == 0 {
        (0, 0, 0, 0)
    } else {
        wrap_step(
            wrap_states(words, max_width, line_spacing, (n - 1) as nat),
            words[n - 1],
            max_width,
            line_spacing,
        )
    }
}

/// Where word `i` is drawn, relative to the layout origin.
pub open spec fn word_pos(
    words: Seq<(int, int, int)>,
    max_width: int,
    line_spacing: int,
    i: int,
) -> (int, int) {
    let st = wrap_states(words, max_width, line_spacing, i as nat);
    if st.0 > 0 && st.0 + words[i].0 > max_width {
        (0, st.1 + words[i].2 + line_spacing)
    } else {
        (st.0, st.1)
    }
}

/// The (widest line, total height) pair of the fully wrapped text.
pub open spec fn wrapped_size(words: Seq<(int, int, int)>, max_width: int, line_spacing: int) -> (
    int,
    int,
) {
    let st = wrap_states(words, max_width, line_spacing, words.len());
    (st.2, st.3)
}

/// Line-count state after the first `n` words: cursor x and lines used.
pub open spec fn count_states(words: Seq<(int, int, int)>, max_width: int, n: nat) -> (int, int)
    decreases n,
{
    if n == 0 {
        (0, 1)
    } else {
        let st = count_states(words, max_width, (n - 1) as nat);
        let wd = words[n - 1];
        if st.0 > 0 && st.0 + wd.0 > max_width {
            (wd.1, st.1 + 1)
        } else {
            (st.0 + wd.1, st.1)
        }
    }
}

/// How many lines the greedy wrap uses; one line even for no words.
pub open spec fn spec_line_count(words: Seq<(int, int, int)>, max_width: int) -> int {
    count_states(words, max_width, words.len()).1
}

/// Holds when the wrapped text fits the given box.
pub open spec fn fits_box(
    words: Seq<(int, int, int)>,
    box_width: int,
    box_height: int,
    line_spacing: int,
) -> bool {
    wrapped_size(words, box_width, line_spacing).0 <= box_width && wrapped_size(
        words,
        box_width,
        line_spacing,
    ).1 <= box_height
}

/// Measuring a wrapped text is reproducible: the result is a function of
/// the words' metrics, the wrap width and the line spacing alone, so two
/// rasterizations with equal metrics measure alike, whatever their glyph
/// pixels hold.
pub proof fn lemma_measure_deterministic(
    a: Seq<WordRaster>,
    b: Seq<WordRaster>,
    max_width: int,
    line_spacing: int,
)
    requires
        dims_of(a) == dims_of(b),
    ensures
        wrapped_size(dims_of(a), max_width, line_spacing) == wrapped_size(
            dims_of(b),
            max_width,
            line_spacing,
        ),
        spec_line_count(dims_of(a), max_width) == spec_line_count(dims_of(b), max_width),
{
}

/// The wrap never starts a word beyond the right edge: a word no wider than
/// the line width is always drawn fully inside the line, wrapped whole to a
/// fresh line instead of being split.
pub proof fn lemma_word_never_overflows(
    words: Seq<(int, int, int)>,
    max_width: int,
    line_spacing: int,
    i: int,
)
    requires
        0 <= i < words.len(),
        forall|k: int| 0 <= k < words.len() ==> #[trigger] words[k].0 >= 0 && words[k].1 >= 0,
        words[i].0 <= max_width,
    ensures
        word_pos(words, max_width, line_spacing, i).0 >= 0,
        word_pos(words, max_width, line_spacing, i).0 + words[i].0 <= max_width,
{
    lemma_wrap_state_nonneg(words, max_width, line_spacing, i as nat);
}

/// All layout state components stay nonnegative when word widths do.
pub proof fn lemma_wrap_state_nonneg(
    words: Seq<(int, int, int)>,
    max_width: int,
    line_spacing: int,
    n: nat,
)
    requires
        n <= words.len(),
        forall|k: int| 0 <= k < words.len() ==> #[trigger] words[k].0 >= 0 && words[k].1 >= 0,
    ensures
        wrap_states(words, max_width, line_spacing, n).0 >= 0,
    decreases n,
{
    if n > 0 {
        lemma_wrap_state_nonneg(words, max_width, line_spacing, (n - 1) as nat);
        assert(words[n - 1].0 >= 0 && words[n - 1].1 >= 0);
    }
}

/// Measures the wrapped text without drawing it: the widest line reached
/// and the total height consumed, exactly as the greedy wrap lays it out.
pub fn get_text_wrapped_size(words: &Vec<WordRaster>, max_width: u32, line_spacing: u32) -> (r: (
    u32,
    u32,
))
    requires
        words_wf(words@),
        max_width <= 0xFFFF,
        line_spacing <= 0xFFFF,
    ensures
        (r.0 as int, r.1 as int) == wrapped_size(dims_of(words@), max_width as int, line_spacing as int),
{
    let ghost dims = dims_of(words@);
    let ghost mw = max_width as int;
    let ghost ls = line_spacing as int;
    let mut cx: u32 = 0;
    let mut cy: u32 = 0;
    let mut ml: u32 = 0;
    let mut th: u32 = 0;
    let mut i: usize = 0;
    let n = words.len();
    while i < n
        invariant
            i <= n,
            n == words@.len(),
            cx <= 0x1FFFE,
            ml <= 0x1FFFE,
            cy <= i * 0x20000,
            th <= i * 0x20000 + 0xFFFF,
            (cx as int, cy as int, ml as int, th as int) == wrap_states(dims, mw, ls, i as nat),
        decreases n - i,
    {
        let w = &words[i];
        proof {
            assert(words@[i as int].wf());
            assert(dims[i as int] == (w.width as int, w.spaced_width as int, w.height as int));
        }
        if cx > 0 && cx + w.width > max_width {
            cx = 0;
            cy = cy + w.height + line_spacing;
        }
        cx = cx + w.spaced_width;
        if ml < cx {
            ml = cx;
        }
        th = cy + w.height;
        i = i + 1;
    }
    (ml, th)
}

/// Counts the lines the greedy wrap would use at this width.
pub fn get_text_wrapped_line_count(words: &Vec<WordRaster>, max_width: u32) -> (r: u32)
    requires
        words_wf(words@),
        max_width <= 0xFFFF,
    ensures
        r as int == spec_line_count(dims_of(words@), max_width as int),
{
    let ghost dims = dims_of(words@);
    let ghost mw = max_width as int;
    let mut cx: u32 = 0;
    let mut count: u32 = 1;
    let mut i: usize = 0;
    let n = words.len();
    while i < n
        invariant
            i <= n,
            n == words@.len(),
            cx <= 0x1FFFE,
            count <= i + 1,
            (cx as int, count as int) == count_states(dims, mw, i as nat),
        decreases n - i,
    {
        let w = &words[i];
        proof {
            assert(words@[i as int].wf());
            assert(dims[i as int] == (w.width as int, w.spaced_width as int, w.height as int));
        }
        if cx > 0 && cx + w.width > max_width {
            cx = w.spaced_width;
            count = count + 1;
        } else {
            cx = cx + w.spaced_width;
        }
        i = i + 1;
    }
    count
}

/// The scale below which the box fit search stops.
pub const FIT_BOX_FLOOR: u32 = 13;

/// The scale below which the line-count fit search stops.
pub const FIT_LINES_FLOOR: u32 = 15;

/// The scale of a variant list's first entry: both fit searches read the
/// words rasterized at scale `s` from `variants[s - VARIANT_BASE_SCALE]`,
/// so the scale a search settles on is judged and later drawn from the
/// same word list.
pub const VARIANT_BASE_SCALE: u32 = 13;

/// Holds when `variants` carries one rasterization of the text per scale:
/// index `i` is the word list at scale `VARIANT_BASE_SCALE + i`.
pub open spec fn variants_wf(variants: Seq<Vec<WordRaster>>) -> bool {
    forall|i: int| 0 <= i < variants.len() ==> words_wf(#[trigger] variants[i]@)
}

/// The scale the linear box fit settles on, searching downward from `s`.
pub open spec fn spec_fit_box(
    variants: Seq<Vec<WordRaster>>,
    box_width: int,
    box_height: int,
    line_spacing: int,
    s: int,
) -> int
    decreases s,
{
    if s <= FIT_BOX_FLOOR {
        FIT_BOX_FLOOR as int
    } else if fits_box(dims_of(variants[s - VARIANT_BASE_SCALE]@), box_width, box_height, line_spacing) {
        s
    } else {
        spec_fit_box(variants, box_width, box_height, line_spacing, s - 1)
    }
}

/// The scale the linear line-count fit settles on, searching downward.
pub open spec fn spec_fit_lines(
    variants: Seq<Vec<WordRaster>>,
    line_width: int,
    line_count: int,
    s: int,
) -> int
    decreases s,
{
    if s <= FIT_LINES_FLOOR {
        FIT_LINES_FLOOR as int
    } else if spec_line_count(dims_of(variants[s - VARIANT_BASE_SCALE]@), line_width) <= line_count {
        s
    } else {
        spec_fit_lines(variants, line_width, line_count, s - 1)
    }
}

/// The linear box fit: starting at `start_scale` and stepping down by one,
/// the largest scale whose wrapped text fits the box, or the floor when no
/// scale at or above it fits. `variants[s - VARIANT_BASE_SCALE]` holds the
/// words rasterized at scale `s`.
#[verifier::loop_isolation(true)]
pub fn adjust_scale_to_fit_box(
    box_width: u32,
    box_height: u32,
    line_spacing: u32,
    variants: &Vec<Vec<WordRaster>>,
    start_scale: u32,
) -> (r: u32)
    requires
        variants_wf(variants@),
        FIT_BOX_FLOOR <= start_scale,
        variants@.len() > start_scale - VARIANT_BASE_SCALE,
        box_width <= 0xFFFF,
        box_height <= 0xFFFF,
        line_spacing <= 0xFFFF,
        start_scale <= 0xFFFF,
    ensures
        FIT_BOX_FLOOR <= r <= start_scale,
        r as int == spec_fit_box(
            variants@,
            box_width as int,
            box_height as int,
            line_spacing as int,
            start_scale as int,
        ),
        r > FIT_BOX_FLOOR ==> fits_box(
            dims_of(variants@[r - VARIANT_BASE_SCALE]@),
            box_width as int,
            box_height as int,
            line_spacing as int,
        ),
        forall|s: int|
            r < s <= start_scale ==> !fits_box(
                dims_of(#[trigger] variants@[s - VARIANT_BASE_SCALE]@),
                box_width as int,
                box_height as int,
                line_spacing as int,
            ),
{
    let mut scale: u32 = start_scale;
    loop
        invariant
            variants_wf(variants@),
            start_scale <= 0xFFFF,
            box_width <= 0xFFFF,
            box_height <= 0xFFFF,
            line_spacing <= 0xFFFF,
            variants@.len() > start_scale - VARIANT_BASE_SCALE,
            FIT_BOX_FLOOR <= scale <= start_scale,
            spec_fit_box(
                variants@,
                box_width as int,
                box_height as int,
                line_spacing as int,
                start_scale as int,
            ) == spec_fit_box(
                variants@,
                box_width as int,
                box_height as int,
                line_spacing as int,
                scale as int,
            ),
            forall|s: int|
                scale < s <= start_scale ==> !fits_box(
                    dims_of(#[trigger] variants@[s - VARIANT_BASE_SCALE]@),
                    box_width as int,
                    box_height as int,
                    line_spacing as int,
                ),
        ensures
            FIT_BOX_FLOOR <= scale <= start_scale,
            scale as int == spec_fit_box(
                variants@,
                box_width as int,
                box_height as int,
                line_spacing as int,
                start_scale as int,
            ),
            scale > FIT_BOX_FLOOR ==> fits_box(
                dims_of(variants@[scale - VARIANT_BASE_SCALE]@),
                box_width as int,
                box_height as int,
                line_spacing as int,
            ),
            forall|s: int|
                scale < s <= start_scale ==> !fits_box(
                    dims_of(#[trigger] variants@[s - VARIANT_BASE_SCALE]@),
                    box_width as int,
                    box_height as int,
                    line_spacing as int,
                ),
        decreases scale,
    {
        let idx = (scale - VARIANT_BASE_SCALE) as usize;
        let size = get_text_wrapped_size(&variants[idx], box_width, line_spacing);
        if size.0 <= box_width && size.1 <= box_height {
            break ;
        }
        if scale == FIT_BOX_FLOOR {
            break ;
        }
        scale = scale - 1;
        proof {
            assert(spec_fit_box(
                variants@,
                box_width as int,
                box_height as int,
                line_spacing as int,
                scale as int + 1,
            ) == spec_fit_box(
                variants@,
                box_width as int,
                box_height as int,
                line_spacing as int,
                scale as int,
            ));
        }
    }
    scale
}

/// The linear line-count fit: the largest scale at which the wrapped text
/// needs at most `line_count` lines, or the floor when none at or above it
/// does. `variants[s - VARIANT_BASE_SCALE]` holds the words at scale `s`,
/// the same indexing the box search and the drawing use.
#[verifier::loop_isolation(true)]
pub fn adjust_scale_to_fit_lines(
    line_width: u32,
    line_count: u32,
    variants: &Vec<Vec<WordRaster>>,
    start_scale: u32,
) -> (r: u32)
    requires
        variants_wf(variants@),
        FIT_LINES_FLOOR <= start_scale,
        variants@.len() > start_scale - VARIANT_BASE_SCALE,
        line_width <= 0xFFFF,
        start_scale <= 0xFFFF,
    ensures
        FIT_LINES_FLOOR <= r <= start_scale,
        r as int == spec_fit_lines(
            variants@,
            line_width as int,
            line_count as int,
            start_scale as int,
        ),
        r > FIT_LINES_FLOOR ==> spec_line_count(
            dims_of(variants@[r - VARIANT_BASE_SCALE]@),
            line_width as int,
        ) <= line_count,
        forall|s: int|
            r < s <= start_scale ==> spec_line_count(
                dims_of(#[trigger] variants@[s - VARIANT_BASE_SCALE]@),
                line_width as int,
            ) > line_count,
{
    let mut scale: u32 = start_scale;
    loop
        invariant
            variants_wf(variants@),
            start_scale <= 0xFFFF,
            line_width <= 0xFFFF,
            variants@.len() > start_scale - VARIANT_BASE_SCALE,
            FIT_LINES_FLOOR <= scale <= start_scale,
            spec_fit_lines(
                variants@,
                line_width as int,
                line_count as int,
                start_scale as int,
            ) == spec_fit_lines(variants@, line_width as int, line_count as int, scale as int),
            forall|s: int|
                scale < s <= start_scale ==> spec_line_count(
                    dims_of(#[trigger] variants@[s - VARIANT_BASE_SCALE]@),
                    line_width as int,
                ) > line_count,
        ensures
            FIT_LINES_FLOOR <= scale <= start_scale,
            scale as int == spec_fit_lines(
                variants@,
                line_width as int,
                line_count as int,
                start_scale as int,
            ),
            scale > FIT_LINES_FLOOR ==> spec_line_count(
                dims_of(variants@[scale - VARIANT_BASE_SCALE]@),
                line_width as int,
            ) <= line_count,
            forall|s: int|
                scale < s <= start_scale ==> spec_line_count(
                    dims_of(#[trigger] variants@[s - VARIANT_BASE_SCALE]@),
                    line_width as int,
                ) > line_count,
        decreases scale,
    {
        let idx = (scale - VARIANT_BASE_SCALE) as usize;
        let count = get_text_wrapped_line_count(&variants[idx], line_width);
        if count <= line_count {
            break ;
        }
        if scale == FIT_LINES_FLOOR {
            break ;
        }
        scale = scale - 1;
        proof {
            assert(spec_fit_lines(
                variants@,
                line_width as int,
                line_count as int,
                scale as int + 1,
            ) == spec_fit_lines(variants@, line_width as int, line_count as int, scale as int));
        }
    }
    scale
}

/// The word dimension triples of a well-formed word list are bounded.
pub proof fn lemma_dims_of_bounds(ws: Seq<WordRaster>)
    requires
        words_wf(ws),
    ensures
        dims_of(ws).len() == ws.len(),
        forall|i: int|
            0 <= i < ws.len() ==> {
                &&& 0 <= (#[trigger] dims_of(ws)[i]).0 <= 0xFFFF
                &&& 0 <= dims_of(ws)[i].1 <= 0xFFFF
                &&& 0 <= dims_of(ws)[i].2 <= 0xFFFF
            },
{
    assert forall|i: int|
        0 <= i < ws.len() implies {
        &&& 0 <= (#[trigger] dims_of(ws)[i]).0 <= 0xFFFF
        &&& 0 <= dims_of(ws)[i].1 <= 0xFFFF
        &&& 0 <= dims_of(ws)[i].2 <= 0xFFFF
    } by {
        assert(ws[i].wf());
    }
}

/// The layout never leaves the bounded region: with bounded word metrics
/// the total height grows by at most a fixed amount per word.
pub proof fn lemma_wrap_size_bounds(words: Seq<(int, int, int)>, mw: int, ls: int, n: nat)
    requires
        n <= words.len(),
        0 <= ls <= 0xFFFF,
        forall|i: int|
            0 <= i < words.len() ==> {
                &&& 0 <= (#[trigger] words[i]).0 <= 0xFFFF
                &&& 0 <= words[i].1 <= 0xFFFF
                &&& 0 <= words[i].2 <= 0xFFFF
            },
    ensures
        0 <= wrap_states(words, mw, ls, n).1 <= n * 0x20000,
        0 <= wrap_states(words, mw, ls, n).3 <= n * 0x20000 + 0xFFFF,
    decreases n,
{
    if n > 0 {
        lemma_wrap_size_bounds(words, mw, ls, (n - 1) as nat);
        assert(words[n - 1].2 <= 0xFFFF);
    }
}

/// One rasterized single-line string: its measured width and height and its
/// glyph pixels relative to the draw origin.
pub struct TextRaster {
    /// Measured width: the horizontal extent from the leftmost pixel of the
    /// first glyph to the rightmost pixel of the last.
    pub width: u32,
    /// Measured line height of the font at this scale.
    pub height: u32,
    /// Glyph pixels whose coverage passed the threshold.
    pub pixels: Vec<(i32, i32)>,
}

impl TextRaster {
    pub open spec fn wf(self) -> bool {
        &&& self.width <= 0xFFFF
        &&& self.height <= 0xFFFF
    }
}

/// The canvas contents after stamping the first `n` glyph pixels at the
/// origin `(ox, oy)`, each clipped to the canvas.
pub open spec fn stamp_upto(
    s: Seq<Px>,
    w: int,
    h: int,
    pixels: Seq<(i32, i32)>,
    ox: int,
    oy: int,
    c: Px,
    n: nat,
) -> Seq<Px>
    decreases n,
{
    if n == 0 {
        s
    } else {
        let p = pixels[n - 1];
        set_px(stamp_upto(s, w, h, pixels, ox, oy, c, (n - 1) as nat), w, h, ox + p.0, oy + p.1, c)
    }
}

/// The canvas contents after stamping all glyph pixels of one raster.
pub open spec fn stamp_spec(
    s: Seq<Px>,
    w: int,
    h: int,
    pixels: Seq<(i32, i32)>,
    ox: int,
    oy: int,
    c: Px,
) -> Seq<Px> {
    stamp_upto(s, w, h, pixels, ox, oy, c, pixels.len())
}

/// Draws one rasterized string (or word) in a single flat color at the
/// given origin; pixels falling off the canvas are clipped, not drawn.
pub fn draw_text_mut(canvas: &mut Canvas, color: Px, x: i64, y: i64, pixels: &Vec<(i32, i32)>)
    requires
        old(canvas).wf(),
        -0x40000000 <= x <= 0x40000000,
        -0x40000000 <= y <= 0x40000000,
    ensures
        final(canvas).wf(),
        final(canvas).spec_width() == old(canvas).spec_width(),
        final(canvas).spec_height() == old(canvas).spec_height(),
        final(canvas).pixels() == stamp_spec(
            old(canvas).pixels(),
            old(canvas).spec_width(),
            old(canvas).spec_height(),
            pixels@,
            x as int,
            y as int,
            color,
        ),
{
    let ghost w = canvas.spec_width();
    let ghost h = canvas.spec_height();
    let ghost orig = canvas.pixels();
    let mut i: usize = 0;
    let n = pixels.len();
    while i < n
        invariant
            i <= n,
            n == pixels@.len(),
            canvas.wf(),
            canvas.spec_width() == w,
            canvas.spec_height() == h,
            canvas.pixels() == stamp_upto(orig, w, h, pixels@, x as int, y as int, color, i as nat),
        decreases n - i,
    {
        let (dx, dy) = pixels[i];
        canvas.set_clipped(x + dx as i64, y + dy as i64, color);
        i = i + 1;
    }
}

/// The canvas contents after the first `n` words of a wrapped text block
/// are drawn: each word is stamped whole at its greedy wrap position.
pub open spec fn draw_words_upto(
    s: Seq<Px>,
    w: int,
    h: int,
    words: Seq<WordRaster>,
    x: int,
    y: int,
    max_width: int,
    line_spacing: int,
    c: Px,
    n: nat,
) -> Seq<Px>
    decreases n,
{
    if n == 0 {
        s
    } else {
        let prev = draw_words_upto(s, w, h, words, x, y, max_width, line_spacing, c, (n - 1) as nat);
        let pos = word_pos(dims_of(words), max_width, line_spacing, n - 1);
        stamp_spec(prev, w, h, words[n - 1].pixels@, x + pos.0, y + pos.1, c)
    }
}

/// Draws a whole word-wrapped text block at `(x, y)` and returns the
/// absolute extent reached: the rightmost cursor position over all lines
/// (zero for no words) and the total height consumed.
pub fn draw_text_wrapped(
    canvas: &mut Canvas,
    color: Px,
    x: u32,
    y: u32,
    max_width: u32,
    line_spacing: u32,
    words: &Vec<WordRaster>,
) -> (r: (u32, u32))
    requires
        old(canvas).wf(),
        words_wf(words@),
        x <= 0x4000000,
        y <= 0x4000000,
        max_width <= 0xFFFF,
        line_spacing <= 0xFFFF,
    ensures
        final(canvas).wf(),
        final(canvas).spec_width() == old(canvas).spec_width(),
        final(canvas).spec_height() == old(canvas).spec_height(),
        final(canvas).pixels() == draw_words_upto(
            old(canvas).pixels(),
            old(canvas).spec_width(),
            old(canvas).spec_height(),
            words@,
            x as int,
            y as int,
            max_width as int,
            line_spacing as int,
            color,
            words@.len(),
        ),
        r.0 as int == if words@.len() == 0 {
            0
        } else {
            x + wrapped_size(dims_of(words@), max_width as int, line_spacing as int).0
        },
        r.1 as int == wrapped_size(dims_of(words@), max_width as int, line_spacing as int).1,
{
    let ghost w = canvas.spec_width();
    let ghost h = canvas.spec_height();
    let ghost orig = canvas.pixels();
    let ghost dims = dims_of(words@);
    let ghost mw = max_width as int;
    let ghost ls = line_spacing as int;
    let mut cx: u32 = 0;
    let mut cy: u32 = 0;
    let mut ml: u32 = 0;
    let mut th: u32 = 0;
    let mut i: usize = 0;
    let n = words.len();
    while i < n
        invariant
            i <= n,
            n == words@.len(),
            cx <= 0x1FFFE,
            ml <= 0x1FFFE,
            cy <= i * 0x20000,
            th <= i * 0x20000 + 0xFFFF,
            (cx as int, cy as int, ml as int, th as int) == wrap_states(dims, mw, ls, i as nat),
            canvas.wf(),
            canvas.spec_width() == w,
            canvas.spec_height() == h,
            canvas.pixels() == draw_words_upto(
                orig,
                w,
                h,
                words@,
                x as int,
                y as int,
                mw,
                ls,
                color,
                i as nat,
            ),
        decreases n - i,
    {
        let word = &words[i];
        proof {
            assert(words@[i as int].wf());
            assert(dims[i as int] == (word.width as int, word.spaced_width as int, word.height
                as int));
        }
        if cx > 0 && cx + word.width > max_width {
            cx = 0;
            cy = cy + word.height + line_spacing;
        }
        proof {
            assert(word_pos(dims, mw, ls, i as int) == (cx as int, cy as int));
        }
        draw_text_mut(canvas, color, x as i64 + cx as i64, y as i64 + cy as i64, &word.pixels);
        cx = cx + word.spaced_width;
        if ml < cx {
            ml = cx;
        }
        th = cy + word.height;
        i = i + 1;
    }
    if n == 0 {
        (0, th)
    } else {
        (x + ml, th)
    }
}

/// Draws a single-line raster with its origin at `(x, y)`.
pub fn draw_text_left(image: &mut Canvas, text: &TextRaster, x: i64, y: i64, color: Px)
    requires
        old(image).wf(),
        text.wf(),
        -0x100000 <= x <= 0x100000,
        -0x100000 <= y <= 0x100000,
    ensures
        final(image).wf(),
        final(image).spec_width() == old(image).spec_width(),
        final(image).spec_height() == old(image).spec_height(),
        final(image).pixels() == stamp_spec(
            old(image).pixels(),
            old(image).spec_width(),
            old(image).spec_height(),
            text.pixels@,
            x as int,
            y as int,
            color,
        ),
{
    draw_text_mut(image, color, x, y, &text.pixels);
}

/// Draws a single-line raster so that its right edge ends at `x`.
pub fn draw_text_right(image: &mut Canvas, text: &TextRaster, x: i64, y: i64, color: Px)
    requires
        old(image).wf(),
        text.wf(),
        -0x100000 <= x <= 0x100000,
        -0x100000 <= y <= 0x100000,
    ensures
        final(image).wf(),
        final(image).spec_width() == old(image).spec_width(),
        final(image).spec_height() == old(image).spec_height(),
        final(image).pixels() == stamp_spec(
            old(image).pixels(),
            old(image).spec_width(),
            old(image).spec_height(),
            text.pixels@,
            x - text.width,
            y as int,
            color,
        ),
{
    draw_text_mut(image, color, x - text.width as i64, y, &text.pixels);
}

/// Draws a single-line raster so that its bottom edge ends at `y`.
pub fn draw_text_bottom(image: &mut Canvas, text: &TextRaster, x: i64, y: i64, color: Px)
    requires
        old(image).wf(),
        text.wf(),
        -0x100000 <= x <= 0x100000,
        -0x100000 <= y <= 0x100000,
    ensures
        final(image).wf(),
        final(image).spec_width() == old(image).spec_width(),
        final(image).spec_height() == old(image).spec_height(),
        final(image).pixels() == stamp_spec(
            old(image).pixels(),
            old(image).spec_width(),
            old(image).spec_height(),
            text.pixels@,
            x as int,
            y - text.height,
            color,
        ),
{
    draw_text_mut(image, color, x, y - text.height as i64, &text.pixels);
}

/// Draws a single-line raster whose right and bottom edges end at `(x, y)`.
pub fn draw_text_bottom_right(image: &mut Canvas, text: &TextRaster, x: i64, y: i64, color: Px)
    requires
        old(image).wf(),
        text.wf(),
        -0x100000 <= x <= 0x100000,
        -0x100000 <= y <= 0x100000,
    ensures
        final(image).wf(),
        final(image).spec_width() == old(image).spec_width(),
        final(image).spec_height() == old(image).spec_height(),
        final(image).pixels() == stamp_spec(
            old(image).pixels(),
            old(image).spec_width(),
            old(image).spec_height(),
            text.pixels@,
            x - text.width,
            y - text.height,
            color,
        ),
{
    draw_text_mut(image, color, x - text.width as i64, y - text.height as i64, &text.pixels);
}

} // verus!
