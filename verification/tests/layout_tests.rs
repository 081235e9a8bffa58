use epaper_dashboard::canvas::{Canvas, Px};
use epaper_dashboard::text::{
    WordRaster, adjust_scale_to_fit_box, adjust_scale_to_fit_lines, draw_text_wrapped,
    get_text_wrapped_line_count, get_text_wrapped_size,
};

fn word(width: u32, spaced: u32, height: u32) -> WordRaster {
    WordRaster { width, spaced_width: spaced, height, pixels: Vec::new() }
}

#[test]
fn wrapped_size_single_line() {
    // Two words that fit on one line: widths 10 and 20, spaced widths 14
    // and 24, height 8, wrapping at 100.
    let words = vec![word(10, 14, 8), word(20, 24, 8)];
    let (ml, th) = get_text_wrapped_size(&words, 100, 5);
    // Cursor after the words: 14 then 14 + 24 = 38; height one line.
    assert_eq!(ml, 38);
    assert_eq!(th, 8);
}

#[test]
fn wrapped_size_wraps_to_second_line() {
    // The second word would cross the edge, so it starts a fresh line.
    let words = vec![word(30, 34, 8), word(30, 34, 8)];
    let (ml, th) = get_text_wrapped_size(&words, 40, 5);
    assert_eq!(ml, 34);
    // Second line starts at 8 + 5; total height 13 + 8.
    assert_eq!(th, 21);
}

#[test]
fn wrapped_size_measures_deterministically() {
    let words = vec![word(17, 21, 9), word(5, 9, 9), word(40, 44, 9)];
    let first = get_text_wrapped_size(&words, 50, 3);
    let second = get_text_wrapped_size(&words, 50, 3);
    assert_eq!(first, second);
}

#[test]
fn wide_word_overflows_without_split() {
    // A single word wider than the line is never split, and an empty line
    // never wraps: the word stays on its one line and runs past the edge.
    let words = vec![word(80, 84, 8)];
    let (ml, th) = get_text_wrapped_size(&words, 40, 5);
    assert_eq!(ml, 84);
    assert_eq!(th, 8);
    assert_eq!(get_text_wrapped_line_count(&words, 40), 1);
}

#[test]
fn wide_word_after_content_starts_its_own_line() {
    // After a first word the line has content, so an over-wide second word
    // wraps whole onto the next line and overflows there.
    let words = vec![word(10, 14, 8), word(80, 84, 8)];
    let (ml, th) = get_text_wrapped_size(&words, 40, 5);
    assert_eq!(ml, 84);
    assert_eq!(th, 21);
    assert_eq!(get_text_wrapped_line_count(&words, 40), 2);
}

#[test]
fn narrow_word_causes_at_most_one_extra_line() {
    // A word narrower than the limit wraps whole to the next line.
    let words = vec![word(35, 39, 8), word(10, 14, 8)];
    assert_eq!(get_text_wrapped_line_count(&words, 40), 2);
}

#[test]
fn line_count_empty_is_one() {
    let words: Vec<WordRaster> = Vec::new();
    assert_eq!(get_text_wrapped_line_count(&words, 40), 1);
}

#[test]
fn fit_to_box_returns_floor_when_nothing_fits() {
    // A 10 by 8 word at every scale, a 50-wide box only 5 tall: no scale
    // fits, the search walks from 20 down and settles at the floor 13.
    let variants: Vec<Vec<WordRaster>> = (0..8).map(|_| vec![word(10, 14, 8)]).collect();
    let scale = adjust_scale_to_fit_box(50, 5, 0, &variants, 20);
    assert_eq!(scale, 13);
}

#[test]
fn fit_to_box_keeps_start_when_it_fits() {
    let variants: Vec<Vec<WordRaster>> = (0..8).map(|_| vec![word(10, 14, 8)]).collect();
    let scale = adjust_scale_to_fit_box(50, 100, 0, &variants, 20);
    assert_eq!(scale, 20);
}

#[test]
fn fit_to_box_stops_at_first_fitting_scale() {
    // Heights shrink with the scale: 8 + index. Box height 12 admits
    // heights up to 12, reached first at scale 17.
    let variants: Vec<Vec<WordRaster>> =
        (0..8).map(|i| vec![word(10, 14, 8 + i as u32)]).collect();
    let scale = adjust_scale_to_fit_box(50, 12, 0, &variants, 20);
    assert_eq!(scale, 17);
}

#[test]
fn fit_to_lines_respects_floor_and_target() {
    // Two words 30 wide on a 40-wide line take two lines at every scale:
    // a one-line target fails everywhere and lands on the floor 15. The
    // variant lists are indexed from the base scale 13.
    let variants: Vec<Vec<WordRaster>> =
        (0..16).map(|_| vec![word(30, 34, 8), word(30, 34, 8)]).collect();
    let scale = adjust_scale_to_fit_lines(40, 1, &variants, 28);
    assert_eq!(scale, 15);
    let ok = adjust_scale_to_fit_lines(40, 2, &variants, 28);
    assert_eq!(ok, 28);
}

#[test]
fn fit_to_lines_judges_the_scale_it_settles_on() {
    // Only the scale-26 rasterization (index 13 of the 13-based lists)
    // fits the two-line target; every other scale wraps to three lines.
    // The search must test each candidate scale's own word list and stop
    // at 26, not at a scale whose neighbor happened to fit.
    let variants: Vec<Vec<WordRaster>> = (0..16)
        .map(|i| {
            if i == 13 {
                vec![word(10, 14, 8)]
            } else {
                vec![word(30, 34, 8), word(30, 34, 8), word(30, 34, 8)]
            }
        })
        .collect();
    let scale = adjust_scale_to_fit_lines(40, 2, &variants, 28);
    assert_eq!(scale, 26);
}

#[test]
fn wrapped_draw_places_words_on_their_lines() {
    // Each word carries one glyph pixel at (1, 1). The second word wraps,
    // so its pixel lands one line height plus spacing lower.
    let words = vec![
        WordRaster { width: 30, spaced_width: 34, height: 8, pixels: vec![(1, 1)] },
        WordRaster { width: 30, spaced_width: 34, height: 8, pixels: vec![(1, 1)] },
    ];
    let mut canvas = Canvas::new_white(100, 50);
    let (_, total_h) = draw_text_wrapped(&mut canvas, Px::black(), 2, 3, 40, 5, &words);
    assert_eq!(total_h, 21);
    assert_eq!(canvas.get(3, 4), Px { r: 0, g: 0, b: 0 });
    assert_eq!(canvas.get(3, 17), Px { r: 0, g: 0, b: 0 });
    assert_eq!(canvas.get(3, 5), Px { r: 255, g: 255, b: 255 });
}
