#![verifier::loop_isolation(false)]
//! The compositor: from weather data, an optional article and the
//! pre-rasterized texts to the finished canvas and its packed frame buffer.
//!
//! Rendering is split in two verified halves. `plan_render` decides every
//! string the dashboard shows and at which point scales the glyphs are
//! needed; the caller rasterizes those strings with its font and hands the
//! results back as plain pixel data. `render_image` then lays out the full
//! canvas and packs it, with no further choices left to the caller.

use vstd::prelude::*;

use crate::canvas::{Canvas, Px, overlay, overlay_spec, spec_black, spec_red, spec_white};
use crate::config::Config;
use crate::dithering::{GrayImage, dither_image_grayscale, gray_expand, spec_dither};
use crate::encode::{plane_byte, rgb_image_to_epd_image, spec_bytes_per_row, spec_plane_len};
use crate::feed::Article;
use crate::graph::{draw_graph, graph_spec, labels_wf};
use crate::imgcodec::{decodes, gray_of, load_icon_rgb, load_teaser_gray, rgb_of};
use crate::strutil::{
    chars_to_string, int_to_chars, round_tenths, spec_int_str, spec_round_tenths, spec_split_ws,
    spec_tenths_str, split_words, tenths_to_chars,
};
use crate::text::{
    TextRaster, VARIANT_BASE_SCALE, WordRaster, adjust_scale_to_fit_box, adjust_scale_to_fit_lines,
    dims_of,
    draw_text_bottom, draw_text_bottom_right, draw_text_left, draw_text_right, draw_text_wrapped,
    draw_words_upto, lemma_dims_of_bounds, lemma_wrap_size_bounds, spec_fit_box, spec_fit_lines,
    stamp_spec, words_wf, wrapped_size,
};
use crate::timing::{round_display_hour, spec_display_hour};
use crate::weather::{
    CurrentWeather, LocalTime, WeatherData, forecast_bounded, forecast_wf, max_rain_idx, max_rain_scale,
    max_temp_idx, max_temp_scale, min_temp_idx, min_temp_scale, spec_max_rain_scale,
    spec_max_temp_scale, spec_min_temp_scale,
};

verus! {

/// Everything one render shows: the weather and an optional article.
pub struct DisplayData {
    pub weather: WeatherData,
    pub kym_article: Option<Article>,
}

/// Why a render attempt failed; one render produces no partial output.
#[derive(Clone, Copy, PartialEq, Eq, Structural, Debug)]
pub enum RenderError {
    /// A numeric weather field expected to be present is absent.
    MissingRequiredField,
    /// An embedded asset (an icon) failed to decode.
    AssetLoadFailure,
    /// The teaser photo failed to decode.
    ImageFetchFailure,
    /// The series is too short for the graph arithmetic.
    DegenerateInput,
}

/// One string the caller must rasterize, with its point scale.
pub struct TextRequest {
    pub text: String,
    pub scale: u32,
}

/// The strings of one render and the scales to rasterize them at. Wrapped
/// texts are already split into words; each word is wanted at every scale
/// from 13 through 28.
pub struct RenderPlan {
    /// Current temperature with its degree mark, scale 100.
    pub temp_text: TextRequest,
    /// Localized condition label, scale 36.
    pub condition_text: TextRequest,
    /// Humidity with a percent sign, scale 32; drawn only when present.
    pub humidity_text: TextRequest,
    /// Rounded wind speed with its unit, scale 32; drawn only when present.
    pub wind_text: TextRequest,
    /// Lower temperature axis label, scale 24.
    pub temp_min_text: TextRequest,
    /// Upper temperature axis label, scale 24.
    pub temp_max_text: TextRequest,
    /// Lower rain axis label, scale 24.
    pub rain_min_text: TextRequest,
    /// Upper rain axis label, scale 24.
    pub rain_max_text: TextRequest,
    /// The seven weekday labels, scale 24 each.
    pub weekday_texts: Vec<TextRequest>,
    /// The clock reading the header shows, to be formatted and rasterized
    /// at scale 36.
    pub display_time: LocalTime,
    /// The words of the article title, empty without an article.
    pub title_words: Vec<String>,
    /// The words of the article's subject name, when it carries one.
    pub meme_name_words: Option<Vec<String>>,
    /// The words of the article summary, empty without an article.
    pub summary_words: Vec<String>,
}

/// The series is too short for the graph arithmetic.
pub open spec fn input_degenerate(data: DisplayData) -> bool {
    data.weather.weather_forecast@.len() < 4
}

/// A required numeric field is absent: the current temperature, or a
/// sample's temperature or precipitation.
pub open spec fn input_missing(data: DisplayData) -> bool {
    ||| data.weather.current_weather.temperature is None
    ||| exists|i: int|
        0 <= i < data.weather.weather_forecast@.len() && !(
        #[trigger] data.weather.weather_forecast@[i]).has_values()
}

/// Bounds every input number must respect.
pub open spec fn data_bounded(data: DisplayData) -> bool {
    &&& forecast_bounded(data.weather.weather_forecast@)
    &&& data.weather.current_weather.wf()
}

/// The degree-marked temperature text of the header.
pub open spec fn spec_temp_text(cur: CurrentWeather) -> Seq<char> {
    spec_tenths_str(cur.temp()) + seq!['°']
}

/// The humidity text of the header.
pub open spec fn spec_humidity_text(cur: CurrentWeather) -> Seq<char> {
    spec_tenths_str(cur.humidity_or_zero()) + seq!['%']
}

/// The wind text of the header.
pub open spec fn spec_wind_text(cur: CurrentWeather) -> Seq<char> {
    spec_int_str(spec_round_tenths(cur.wind_or_zero())) + seq!['k', 'm', '/', 'h']
}

/// The lower temperature axis label: the true weekly minimum when the
/// padded bound was widened below zero, else the padded bound.
pub open spec fn spec_temp_min_text(min_t: int) -> Seq<char> {
    if spec_min_temp_scale(min_t) < 0 {
        spec_int_str(spec_round_tenths(min_t))
    } else {
        spec_int_str(spec_min_temp_scale(min_t))
    }
}

/// The upper temperature axis label: the true weekly maximum when the
/// padded bound was widened past twenty, else the padded bound.
pub open spec fn spec_temp_max_text(max_t: int) -> Seq<char> {
    if spec_max_temp_scale(max_t) > 20 {
        spec_int_str(spec_round_tenths(max_t))
    } else {
        spec_int_str(spec_max_temp_scale(max_t))
    }
}

/// The upper rain axis label, by the same rule at five millimeters.
pub open spec fn spec_rain_max_text(max_r: int) -> Seq<char> {
    if spec_max_rain_scale(max_r) > 5 {
        spec_int_str(spec_round_tenths(max_r))
    } else {
        spec_int_str(spec_max_rain_scale(max_r))
    }
}

fn req_from_chars(chars: Vec<char>, scale: u32) -> (r: TextRequest)
    ensures
        r.text@ == chars@,
        r.scale == scale,
{
    TextRequest { text: chars_to_string(&chars), scale }
}

/// Decides every string of the render. Fails exactly as the render itself
/// would on degenerate or incomplete weather input, before any drawing.
pub fn plan_render(data: &DisplayData, config: &Config, now: LocalTime) -> (r: Result<
    RenderPlan,
    RenderError,
>)
    requires
        data_bounded(*data),
        now.hour < 24,
    ensures
        r is Err <==> input_degenerate(*data) || input_missing(*data),
        input_degenerate(*data) ==> r == Err::<RenderPlan, RenderError>(
            RenderError::DegenerateInput,
        ),
        !input_degenerate(*data) && input_missing(*data) ==> r == Err::<RenderPlan, RenderError>(
            RenderError::MissingRequiredField,
        ),
        r matches Ok(plan) ==> {
            let cur = data.weather.current_weather;
            let fc = data.weather.weather_forecast@;
            let min_t = fc[min_temp_idx(fc, fc.len())].temp();
            let max_t = fc[max_temp_idx(fc, fc.len())].temp();
            let max_r = fc[max_rain_idx(fc, fc.len())].rain();
            &&& plan.temp_text.text@ == spec_temp_text(cur) && plan.temp_text.scale == 100
            &&& plan.condition_text.text@ == config.weather_conditions.spec_label(
                cur.condition_or_null(),
            ) && plan.condition_text.scale == 36
            &&& plan.humidity_text.text@ == spec_humidity_text(cur) && plan.humidity_text.scale
                == 32
            &&& plan.wind_text.text@ == spec_wind_text(cur) && plan.wind_text.scale == 32
            &&& plan.temp_min_text.text@ == spec_temp_min_text(min_t) && plan.temp_min_text.scale
                == 24
            &&& plan.temp_max_text.text@ == spec_temp_max_text(max_t) && plan.temp_max_text.scale
                == 24
            &&& plan.rain_min_text.text@ == "0"@ && plan.rain_min_text.scale == 24
            &&& plan.rain_max_text.text@ == spec_rain_max_text(max_r) && plan.rain_max_text.scale
                == 24
            &&& plan.weekday_texts@.len() == 7
            &&& forall|d: int|
                0 <= d < 7 ==> (#[trigger] plan.weekday_texts@[d]).text@
                    == config.weekday_names.spec_label(d) && plan.weekday_texts@[d].scale == 24
            &&& plan.display_time == (LocalTime {
                day: now.day,
                hour: spec_display_hour(now) as u8,
                minute: now.minute,
            })
            &&& match data.kym_article {
                Some(article) => {
                    &&& plan.title_words@.map_values(|w: String| w@) == spec_split_ws(
                        article.title@,
                    )
                    &&& plan.summary_words@.map_values(|w: String| w@) == spec_split_ws(
                        article.summary@,
                    )
                    &&& match article.meme_name {
                        Some(name) => plan.meme_name_words matches Some(ws)
                            && ws@.map_values(|w: String| w@) == spec_split_ws(name@),
                        None => plan.meme_name_words is None,
                    }
                },
                None => {
                    &&& plan.title_words@.len() == 0
                    &&& plan.summary_words@.len() == 0
                    &&& plan.meme_name_words is None
                },
            }
        },
{
    let current_temp = match validate_weather(data) {
        Ok(t) => t,
        Err(e) => {
            return Err(e);
        },
    };
    let wd = &data.weather;
    proof {
        assert forall|i: int|
            0 <= i < wd.weather_forecast@.len() implies (
        #[trigger] wd.weather_forecast@[i]).has_values() by {
            assert(!input_missing(*data));
        }
        assert(forecast_wf(wd.weather_forecast@));
    }
    let (min_temp, max_temp) = wd.week_minmax_temps();
    let max_rain = wd.week_max_rain();
    proof {
        let fc = wd.weather_forecast@;
        crate::weather::lemma_extreme_idx_in_range(fc, fc.len());
        assert(fc[min_temp_idx(fc, fc.len())].wf());
        assert(fc[max_temp_idx(fc, fc.len())].wf());
        assert(fc[max_rain_idx(fc, fc.len())].wf());
    }
    let min_scale = min_temp_scale(min_temp);
    let max_scale = max_temp_scale(max_temp);
    let rain_scale = max_rain_scale(max_rain);

    let mut temp_chars = tenths_to_chars(current_temp);
    temp_chars.push('°');
    let temp_text = req_from_chars(temp_chars, 100);

    let condition = match data.weather.current_weather.condition {
        Some(c) => c,
        None => crate::weather::Condition::Null,
    };
    let condition_text = TextRequest { text: config.weather_conditions.label(condition).clone(), scale: 36 };

    let humidity = match data.weather.current_weather.relative_humidity {
        Some(v) => v,
        None => 0,
    };
    let mut hum_chars = tenths_to_chars(humidity);
    hum_chars.push('%');
    let humidity_text = req_from_chars(hum_chars, 32);

    let wind = match data.weather.current_weather.wind_speed_30 {
        Some(v) => v,
        None => 0,
    };
    let mut wind_chars = int_to_chars(round_tenths(wind));
    wind_chars.push('k');
    wind_chars.push('m');
    wind_chars.push('/');
    wind_chars.push('h');
    let wind_text = req_from_chars(wind_chars, 32);

    let temp_min_text = if min_scale < 0 {
        req_from_chars(int_to_chars(round_tenths(min_temp)), 24)
    } else {
        req_from_chars(int_to_chars(min_scale), 24)
    };
    let temp_max_text = if max_scale > 20 {
        req_from_chars(int_to_chars(round_tenths(max_temp)), 24)
    } else {
        req_from_chars(int_to_chars(max_scale), 24)
    };
    let rain_min_text = TextRequest { text: "0".to_owned(), scale: 24 };
    let rain_max_text = if rain_scale > 5 {
        req_from_chars(int_to_chars(round_tenths(max_rain)), 24)
    } else {
        req_from_chars(int_to_chars(rain_scale), 24)
    };

    let mut weekday_texts: Vec<TextRequest> = Vec::new();
    let mut d: u8 = 0;
    while d < 7
        invariant
            d <= 7,
            weekday_texts@.len() == d,
            forall|k: int|
                0 <= k < d ==> (#[trigger] weekday_texts@[k]).text@
                    == config.weekday_names.spec_label(k) && weekday_texts@[k].scale == 24,
        decreases 7 - d,
    {
        weekday_texts.push(TextRequest { text: config.weekday_names.label(d).clone(), scale: 24 });
        d = d + 1;
    }

    let display_time = LocalTime { day: now.day, hour: round_display_hour(now), minute: now.minute };

    let (title_words, meme_name_words, summary_words) = match &data.kym_article {
        Some(article) => {
            let title_words = split_words(article.title.as_str());
            let summary_words = split_words(article.summary.as_str());
            let meme_name_words = match &article.meme_name {
                Some(name) => Some(split_words(name.as_str())),
                None => None,
            };
            (title_words, meme_name_words, summary_words)
        },
        None => (Vec::new(), None, Vec::new()),
    };

    proof {
        reveal_strlit("°");
        reveal_strlit("%");
        reveal_strlit("km/h");
        assert(temp_text.text@ =~= spec_temp_text(data.weather.current_weather));
        assert(humidity_text.text@ =~= spec_humidity_text(data.weather.current_weather));
        assert(wind_text.text@ =~= spec_wind_text(data.weather.current_weather));
    }
    Ok(
        RenderPlan {
            temp_text,
            condition_text,
            humidity_text,
            wind_text,
            temp_min_text,
            temp_max_text,
            rain_min_text,
            rain_max_text,
            weekday_texts,
            display_time,
            title_words,
            meme_name_words,
            summary_words,
        },
    )
}

/// An RGB byte buffer seen as `n` pixels.
pub open spec fn rgb_expand(s: Seq<u8>, n: int) -> Seq<Px> {
    Seq::new(
        n as nat,
        |i: int| Px { r: s[3 * i], g: s[3 * i + 1], b: s[3 * i + 2] },
    )
}

/// A canvas over a row-major RGB byte buffer.
fn canvas_from_rgb(w: u32, h: u32, data: &Vec<u8>) -> (c: Canvas)
    requires
        data@.len() == 3 * (w as int) * (h as int),
        w <= 0xFFFF,
        h <= 0xFFFF,
    ensures
        c.wf(),
        c.spec_width() == w,
        c.spec_height() == h,
        c.pixels() == rgb_expand(data@, (w as int) * (h as int)),
{
    proof {
        crate::canvas::lemma_dims_bound(w as int, h as int);
        assert(3 * (w as int) * (h as int) == 3 * ((w as int) * (h as int))) by (nonlinear_arith);
    }
    let n: usize = (w as usize) * (h as usize);
    let total: usize = data.len();
    proof {
        assert(total == 3 * n);
    }
    let mut px: Vec<Px> = Vec::new();
    let mut k: usize = 0;
    while k < n
        invariant
            k <= n,
            n == (w as int) * (h as int),
            data@.len() == 3 * n,
            3 * n <= usize::MAX,
            px@.len() == k,
            forall|i: int|
                0 <= i < k ==> px@[i] == (Px {
                    r: data@[3 * i],
                    g: data@[3 * i + 1],
                    b: data@[3 * i + 2],
                }),
        decreases n - k,
    {
        let r = data[3 * k];
        let g = data[3 * k + 1];
        let b = data[3 * k + 2];
        px.push(Px { r, g, b });
        k = k + 1;
    }
    proof {
        assert(px@ =~= rgb_expand(data@, (w as int) * (h as int)));
    }
    Canvas::from_pixels(w as usize, h as usize, px)
}

/// Holds when the variant list carries one word list per scale from the
/// variant base scale 13 through 28, each bounded for the teaser layout
/// arithmetic.
pub open spec fn teaser_variants_wf(v: Seq<Vec<WordRaster>>) -> bool {
    &&& v.len() == 16
    &&& forall|i: int| 0 <= i < 16 ==> words_wf((#[trigger] v[i])@) && v[i]@.len() <= 0x80
}

/// The canvas after the teaser block for one article: the dithered photo
/// on the left, and title, optional subject name, and summary stacked to
/// its right, each wrapped and auto-fit.
pub open spec fn spec_draw_meme(
    s: Seq<Px>,
    w: int,
    h: int,
    article: Article,
    bytes: Seq<u8>,
    tv: Seq<Vec<WordRaster>>,
    mv: Seq<Vec<WordRaster>>,
    sv: Seq<Vec<WordRaster>>,
    pos_y: int,
) -> Seq<Px> {
    let pos = pos_y + 15;
    let img_h = h - pos - 15;
    let img_w = img_h * 176 / 100;
    let dithered = spec_dither(gray_of(bytes, img_w as u32, img_h as u32), img_w, img_h);
    let s1 = overlay_spec(s, w, h, gray_expand(dithered), img_w, img_h, 15, pos);
    let text_x = 15 + img_w + 15;
    let text_mw = w - text_x - 15;
    let tscale = spec_fit_lines(tv, text_mw, 2, 28);
    let tw = tv[tscale - VARIANT_BASE_SCALE]@;
    let s2 = draw_words_upto(s1, w, h, tw, text_x, pos, text_mw, 5, spec_black(), tw.len());
    let title_h = wrapped_size(dims_of(tw), text_mw, 5).1;
    let name_y = pos + title_h + 5;
    let nres = match article.meme_name {
        Some(_) => {
            let nscale = if tscale - 8 > 13 {
                tscale - 8
            } else {
                13
            };
            let nw = mv[nscale - VARIANT_BASE_SCALE]@;
            (
                draw_words_upto(s2, w, h, nw, text_x, name_y, text_mw, 4, spec_black(), nw.len()),
                wrapped_size(dims_of(nw), text_mw, 4).1 + 3,
            )
        },
        None => (s2, 0),
    };
    let sum_y = name_y + nres.1 + 8;
    let sum_mh = img_h - 10;
    let sstart = if tscale - 4 > 13 {
        tscale - 4
    } else {
        13
    };
    let sscale = spec_fit_box(sv, text_mw, sum_mh, 3, sstart);
    let sw0 = sv[sscale - VARIANT_BASE_SCALE]@;
    draw_words_upto(nres.0, w, h, sw0, text_x, sum_y, text_mw, 3, spec_black(), sw0.len())
}

/// Draws the teaser block, or nothing at all when there is no article.
/// With an article, the only failure is a photo that will not decode, and
/// it leaves the canvas untouched.
pub fn draw_meme(
    image: &mut Canvas,
    article: &Option<Article>,
    image_bytes: &Option<Vec<u8>>,
    title_variants: &Vec<Vec<WordRaster>>,
    meme_variants: &Vec<Vec<WordRaster>>,
    summary_variants: &Vec<Vec<WordRaster>>,
    pos_y: u32,
) -> (r: Result<(), RenderError>)
    requires
        old(image).wf(),
        old(image).spec_width() == 800,
        old(image).spec_height() == 480,
        100 <= pos_y <= 400,
        article is Some ==> image_bytes is Some,
        article is Some ==> teaser_variants_wf(title_variants@) && teaser_variants_wf(
            summary_variants@,
        ),
        (article matches Some(a) && a.meme_name is Some) ==> teaser_variants_wf(meme_variants@),
    ensures
        final(image).wf(),
        final(image).spec_width() == 800,
        final(image).spec_height() == 480,
        article is None ==> r is Ok && final(image).pixels() == old(image).pixels(),
        article matches Some(art) ==> (image_bytes matches Some(b) && {
            &&& (r is Ok <==> decodes(b@))
            &&& (r is Err ==> r == Err::<(), RenderError>(RenderError::ImageFetchFailure)
                && final(image).pixels() == old(image).pixels())
            &&& (r is Ok ==> final(image).pixels() == spec_draw_meme(
                old(image).pixels(),
                800,
                480,
                *art,
                b@,
                title_variants@,
                meme_variants@,
                summary_variants@,
                pos_y as int,
            ))
        }),
{
    let art = match article {
        Some(a) => a,
        None => {
            return Ok(());
        },
    };
    let bytes = match image_bytes {
        Some(b) => b,
        None => {
            return Err(RenderError::ImageFetchFailure);
        },
    };
    let pos: u32 = pos_y + 15;
    let img_h: u32 = 480 - pos - 15;
    let img_w: u32 = img_h * 176 / 100;
    let gray = match load_teaser_gray(bytes, img_w, img_h) {
        Some(g) => g,
        None => {
            return Err(RenderError::ImageFetchFailure);
        },
    };
    let gimg = GrayImage { width: img_w as usize, height: img_h as usize, data: gray };
    let dcanvas = dither_image_grayscale(gimg);
    overlay(image, &dcanvas, 15, pos as i64);
    let text_x: u32 = 15 + img_w + 15;
    let text_mw: u32 = 800 - text_x - 15;
    let title_scale = adjust_scale_to_fit_lines(text_mw, 2, title_variants, 28);
    let tw = &title_variants[(title_scale - VARIANT_BASE_SCALE) as usize];
    let tres = draw_text_wrapped(image, Px::black(), text_x, pos, text_mw, 5, tw);
    let title_h = tres.1;
    proof {
        lemma_dims_of_bounds(tw@);
        lemma_wrap_size_bounds(dims_of(tw@), text_mw as int, 5, tw@.len());
    }
    let name_y: u32 = pos + title_h + 5;
    let mut name_h: u32 = 0;
    if art.meme_name.is_some() {
        let nscale = if title_scale > 21 {
            title_scale - 8
        } else {
            13
        };
        let nw = &meme_variants[(nscale - VARIANT_BASE_SCALE) as usize];
        let nres = draw_text_wrapped(image, Px::black(), text_x, name_y, text_mw, 4, nw);
        proof {
            lemma_dims_of_bounds(nw@);
            lemma_wrap_size_bounds(dims_of(nw@), text_mw as int, 4, nw@.len());
        }
        name_h = nres.1 + 3;
    }
    let sum_y: u32 = name_y + name_h + 8;
    let sum_mh: u32 = img_h - 10;
    let sstart = if title_scale > 17 {
        title_scale - 4
    } else {
        13
    };
    let sscale = adjust_scale_to_fit_box(text_mw, sum_mh, 3, summary_variants, sstart);
    let sw0 = &summary_variants[(sscale - VARIANT_BASE_SCALE) as usize];
    draw_text_wrapped(image, Px::black(), text_x, sum_y, text_mw, 3, sw0);
    Ok(())
}

/// The rasterized texts of one render, produced by the caller from the
/// plan: the fixed-scale header and axis texts, the weekday labels, and
/// for each wrapped teaser text one word list per scale from 13 to 28.
pub struct RasterSet {
    pub temp_text: TextRaster,
    pub condition_text: TextRaster,
    pub humidity_text: TextRaster,
    pub wind_text: TextRaster,
    pub time_text: TextRaster,
    pub temp_min_text: TextRaster,
    pub temp_max_text: TextRaster,
    pub rain_min_text: TextRaster,
    pub rain_max_text: TextRaster,
    pub weekday_labels: Vec<TextRaster>,
    pub title: Vec<Vec<WordRaster>>,
    pub meme_name: Vec<Vec<WordRaster>>,
    pub summary: Vec<Vec<WordRaster>>,
}

pub open spec fn rasters_wf(r: RasterSet, data: DisplayData) -> bool {
    &&& r.temp_text.wf()
    &&& r.condition_text.wf()
    &&& r.humidity_text.wf()
    &&& r.wind_text.wf()
    &&& r.time_text.wf()
    &&& r.temp_min_text.wf()
    &&& r.temp_max_text.wf()
    &&& r.rain_min_text.wf()
    &&& r.rain_max_text.wf()
    &&& labels_wf(r.weekday_labels@)
    &&& (data.kym_article is Some ==> teaser_variants_wf(r.title@) && teaser_variants_wf(
        r.summary@,
    ))
    &&& (match data.kym_article {
        Some(a) => a.meme_name is Some ==> teaser_variants_wf(r.meme_name@),
        None => true,
    })
}

/// The fetched bytes of the images a render composites: the two header
/// icons and, with an article, its downloaded photo.
pub struct RenderAssets {
    pub humidity_icon: Vec<u8>,
    pub wind_icon: Vec<u8>,
    pub teaser_image: Option<Vec<u8>>,
}

/// An icon asset decodes and has drawable dimensions.
pub open spec fn icon_ok(b: Seq<u8>) -> bool {
    &&& decodes(b)
    &&& rgb_of(b).0 <= 0xFFFF
    &&& rgb_of(b).1 <= 0xFFFF
}

/// With an article present, its photo bytes decode.
pub open spec fn teaser_ok(data: DisplayData, assets: RenderAssets) -> bool {
    match data.kym_article {
        None => true,
        Some(_) => match assets.teaser_image {
            Some(b) => decodes(b@),
            None => false,
        },
    }
}

/// The full composited canvas, as pixel contents: header, graph and
/// teaser block over a white background.
pub open spec fn spec_render_pixels(
    data: DisplayData,
    now: LocalTime,
    r: RasterSet,
    a: RenderAssets,
) -> Seq<Px> {
    let fc = data.weather.weather_forecast@;
    let cur = data.weather.current_weather;
    let min_t = fc[min_temp_idx(fc, fc.len())].temp();
    let max_t = fc[max_temp_idx(fc, fc.len())].temp();
    let max_r = fc[max_rain_idx(fc, fc.len())].rain();
    let min_s = spec_min_temp_scale(min_t);
    let max_s = spec_max_temp_scale(max_t);
    let rain_s = spec_max_rain_scale(max_r);
    let base = Seq::new((800 * 480) as nat, |i: int| spec_white());
    let temp_color = if cur.temp() <= 270 {
        spec_black()
    } else {
        spec_red()
    };
    let s1 = stamp_spec(base, 800, 480, r.temp_text.pixels@, 10, 0, temp_color);
    let desc_x = 10 + r.temp_text.width + 20;
    let desc_y = r.temp_text.height as int / 2;
    let s2 = stamp_spec(s1, 800, 480, r.condition_text.pixels@, desc_x, desc_y, spec_black());
    let hum = rgb_of(a.humidity_icon@);
    let hum_icon_x = desc_x - 5;
    let s3 = if cur.relative_humidity is Some {
        let si = overlay_spec(
            s2,
            800,
            480,
            rgb_expand(hum.2, (hum.0 as int) * (hum.1 as int)),
            hum.0 as int,
            hum.1 as int,
            hum_icon_x,
            7,
        );
        stamp_spec(si, 800, 480, r.humidity_text.pixels@, hum_icon_x + hum.0 + 2, 10, spec_black())
    } else {
        s2
    };
    let humidity_x = if cur.relative_humidity is Some {
        hum_icon_x + hum.0 + 2
    } else {
        0
    };
    let wind = rgb_of(a.wind_icon@);
    let wind_icon_x = humidity_x + r.humidity_text.width + 15;
    let s4 = if cur.wind_speed_30 is Some {
        let si = overlay_spec(
            s3,
            800,
            480,
            rgb_expand(wind.2, (wind.0 as int) * (wind.1 as int)),
            wind.0 as int,
            wind.1 as int,
            wind_icon_x,
            8,
        );
        stamp_spec(
            si,
            800,
            480,
            r.wind_text.pixels@,
            wind_icon_x + wind.0 + 5,
            10,
            spec_black(),
        )
    } else {
        s3
    };
    let s5 = stamp_spec(s4, 800, 480, r.time_text.pixels@, 790 - r.time_text.width, 10, spec_black());
    let s6 = stamp_spec(
        s5,
        800,
        480,
        r.temp_max_text.pixels@,
        40 - r.temp_max_text.width,
        118,
        spec_red(),
    );
    let s7 = stamp_spec(
        s6,
        800,
        480,
        r.temp_min_text.pixels@,
        40 - r.temp_min_text.width,
        300 - r.temp_min_text.height,
        spec_red(),
    );
    let s8 = stamp_spec(s7, 800, 480, r.rain_max_text.pixels@, 760, 118, spec_black());
    let s9 = stamp_spec(
        s8,
        800,
        480,
        r.rain_min_text.pixels@,
        760,
        300 - r.rain_min_text.height,
        spec_black(),
    );
    let g = graph_spec(fc, r.weekday_labels@, now, min_s, max_s, rain_s, 700, 200);
    let s10 = overlay_spec(s9, 800, 480, g, 700, 200, 50, 100);
    match data.kym_article {
        None => s10,
        Some(art) => {
            let bytes = match a.teaser_image {
                Some(b) => b@,
                None => Seq::empty(),
            };
            spec_draw_meme(s10, 800, 480, art, bytes, r.title@, r.meme_name@, r.summary@, 300)
        },
    }
}

/// Checks the weather inputs a render needs, in the order the errors are
/// reported, and hands back the current temperature.
fn validate_weather(data: &DisplayData) -> (r: Result<i32, RenderError>)
    requires
        data_bounded(*data),
    ensures
        r is Err <==> input_degenerate(*data) || input_missing(*data),
        input_degenerate(*data) ==> r == Err::<i32, RenderError>(RenderError::DegenerateInput),
        !input_degenerate(*data) && input_missing(*data) ==> r == Err::<i32, RenderError>(
            RenderError::MissingRequiredField,
        ),
        r matches Ok(t) ==> t as int == data.weather.current_weather.temp(),
{
    let n = data.weather.weather_forecast.len();
    if n < 4 {
        return Err(RenderError::DegenerateInput);
    }
    let current_temp = match data.weather.current_weather.temperature {
        Some(t) => t,
        None => {
            return Err(RenderError::MissingRequiredField);
        },
    };
    let mut i: usize = 0;
    while i < n
        invariant
            i <= n,
            n == data.weather.weather_forecast@.len(),
            forall|k: int|
                0 <= k < i ==> (#[trigger] data.weather.weather_forecast@[k]).has_values(),
        decreases n - i,
    {
        let s = &data.weather.weather_forecast[i];
        if s.temperature.is_none() || s.precipitation.is_none() {
            return Err(RenderError::MissingRequiredField);
        }
        i = i + 1;
    }
    Ok(current_temp)
}

/// Composites the full dashboard canvas: the header with temperature,
/// condition, humidity, wind and clock, the weekly graph with its axis
/// labels, and the teaser block. Fails, producing nothing, exactly on
/// degenerate or incomplete weather, an undecodable icon, or an
/// undecodable teaser photo.
pub fn render_canvas(
    display_data: &DisplayData,
    now: LocalTime,
    rasters: &RasterSet,
    assets: &RenderAssets,
) -> (r: Result<Canvas, RenderError>)
    requires
        data_bounded(*display_data),
        rasters_wf(*rasters, *display_data),
        display_data.kym_article is Some <==> assets.teaser_image is Some,
    ensures
        r is Err <==> (input_degenerate(*display_data) || input_missing(*display_data) || !icon_ok(
            assets.humidity_icon@,
        ) || !icon_ok(assets.wind_icon@) || !teaser_ok(*display_data, *assets)),
        input_degenerate(*display_data) ==> r == Err::<Canvas, RenderError>(
            RenderError::DegenerateInput,
        ),
        !input_degenerate(*display_data) && input_missing(*display_data) ==> r == Err::<
            Canvas,
            RenderError,
        >(RenderError::MissingRequiredField),
        !input_degenerate(*display_data) && !input_missing(*display_data) && (!icon_ok(
            assets.humidity_icon@,
        ) || !icon_ok(assets.wind_icon@)) ==> r == Err::<Canvas, RenderError>(
            RenderError::AssetLoadFailure,
        ),
        !input_degenerate(*display_data) && !input_missing(*display_data) && icon_ok(
            assets.humidity_icon@,
        ) && icon_ok(assets.wind_icon@) && !teaser_ok(*display_data, *assets) ==> r == Err::<
            Canvas,
            RenderError,
        >(RenderError::ImageFetchFailure),
        r matches Ok(cv) ==> {
            &&& cv.wf()
            &&& cv.spec_width() == 800
            &&& cv.spec_height() == 480
            &&& cv.pixels() == spec_render_pixels(*display_data, now, *rasters, *assets)
        },
{
    let data = display_data;
    let current_temp = match validate_weather(data) {
        Ok(t) => t,
        Err(e) => {
            return Err(e);
        },
    };
    proof {
        assert forall|i: int|
            0 <= i < data.weather.weather_forecast@.len() implies (
        #[trigger] data.weather.weather_forecast@[i]).has_values() by {
            assert(!input_missing(*data));
        }
        assert(forecast_wf(data.weather.weather_forecast@));
    }
    let hum_icon = match load_icon_rgb(&assets.humidity_icon) {
        Some(t) => t,
        None => {
            return Err(RenderError::AssetLoadFailure);
        },
    };
    if hum_icon.0 > 0xFFFF || hum_icon.1 > 0xFFFF {
        return Err(RenderError::AssetLoadFailure);
    }
    let wind_icon = match load_icon_rgb(&assets.wind_icon) {
        Some(t) => t,
        None => {
            return Err(RenderError::AssetLoadFailure);
        },
    };
    if wind_icon.0 > 0xFFFF || wind_icon.1 > 0xFFFF {
        return Err(RenderError::AssetLoadFailure);
    }
    let wd = &data.weather;
    let (min_temp, max_temp) = wd.week_minmax_temps();
    let max_rain = wd.week_max_rain();
    proof {
        let fc = wd.weather_forecast@;
        crate::weather::lemma_extreme_idx_in_range(fc, fc.len());
        assert(fc[min_temp_idx(fc, fc.len())].wf());
        assert(fc[max_temp_idx(fc, fc.len())].wf());
        assert(fc[max_rain_idx(fc, fc.len())].wf());
    }
    let min_scale = min_temp_scale(min_temp);
    let max_scale = max_temp_scale(max_temp);
    let rain_scale = max_rain_scale(max_rain);

    let mut image = Canvas::new_white(800, 480);
    let temp_color = if current_temp <= 270 {
        Px::black()
    } else {
        Px::red()
    };
    draw_text_left(&mut image, &rasters.temp_text, 10, 0, temp_color);
    let desc_x: i64 = 10 + rasters.temp_text.width as i64 + 20;
    let desc_y: i64 = (rasters.temp_text.height / 2) as i64;
    draw_text_left(&mut image, &rasters.condition_text, desc_x, desc_y, Px::black());

    let hum_icon_x: i64 = desc_x - 5;
    let humidity_present = data.weather.current_weather.relative_humidity.is_some();
    let mut humidity_x: i64 = 0;
    if humidity_present {
        let icon_canvas = canvas_from_rgb(hum_icon.0, hum_icon.1, &hum_icon.2);
        overlay(&mut image, &icon_canvas, hum_icon_x, 7);
        humidity_x = hum_icon_x + hum_icon.0 as i64 + 2;
        draw_text_left(&mut image, &rasters.humidity_text, humidity_x, 10, Px::black());
    }
    let wind_icon_x: i64 = humidity_x + rasters.humidity_text.width as i64 + 15;
    if data.weather.current_weather.wind_speed_30.is_some() {
        let icon_canvas = canvas_from_rgb(wind_icon.0, wind_icon.1, &wind_icon.2);
        overlay(&mut image, &icon_canvas, wind_icon_x, 8);
        let wind_x: i64 = wind_icon_x + wind_icon.0 as i64 + 5;
        draw_text_left(&mut image, &rasters.wind_text, wind_x, 10, Px::black());
    }
    draw_text_right(&mut image, &rasters.time_text, 790, 10, Px::black());
    draw_text_right(&mut image, &rasters.temp_max_text, 40, 118, Px::red());
    draw_text_bottom_right(&mut image, &rasters.temp_min_text, 40, 300, Px::red());
    draw_text_left(&mut image, &rasters.rain_max_text, 760, 118, Px::black());
    draw_text_bottom(&mut image, &rasters.rain_min_text, 760, 300, Px::black());

    let graph = draw_graph(
        &data.weather,
        min_scale,
        max_scale,
        rain_scale,
        700,
        200,
        &rasters.weekday_labels,
        now,
    );
    overlay(&mut image, &graph, 50, 100);

    match draw_meme(
        &mut image,
        &data.kym_article,
        &assets.teaser_image,
        &rasters.title,
        &rasters.meme_name,
        &rasters.summary,
        300,
    ) {
        Ok(_) => {
        },
        Err(e) => {
            return Err(e);
        },
    }
    proof {
        assert(image.pixels() == spec_render_pixels(*display_data, now, *rasters, *assets));
    }
    Ok(image)
}

/// One full render: the composited canvas packed into the controller's
/// two-plane buffer, 96000 bytes for the fixed 800 by 480 panel.
pub fn render_image(
    display_data: &DisplayData,
    now: LocalTime,
    rasters: &RasterSet,
    assets: &RenderAssets,
) -> (r: Result<Vec<u8>, RenderError>)
    requires
        data_bounded(*display_data),
        rasters_wf(*rasters, *display_data),
        display_data.kym_article is Some <==> assets.teaser_image is Some,
    ensures
        r is Err <==> (input_degenerate(*display_data) || input_missing(*display_data) || !icon_ok(
            assets.humidity_icon@,
        ) || !icon_ok(assets.wind_icon@) || !teaser_ok(*display_data, *assets)),
        input_degenerate(*display_data) ==> r == Err::<Vec<u8>, RenderError>(
            RenderError::DegenerateInput,
        ),
        !input_degenerate(*display_data) && input_missing(*display_data) ==> r == Err::<
            Vec<u8>,
            RenderError,
        >(RenderError::MissingRequiredField),
        !input_degenerate(*display_data) && !input_missing(*display_data) && (!icon_ok(
            assets.humidity_icon@,
        ) || !icon_ok(assets.wind_icon@)) ==> r == Err::<Vec<u8>, RenderError>(
            RenderError::AssetLoadFailure,
        ),
        !input_degenerate(*display_data) && !input_missing(*display_data) && icon_ok(
            assets.humidity_icon@,
        ) && icon_ok(assets.wind_icon@) && !teaser_ok(*display_data, *assets) ==> r == Err::<
            Vec<u8>,
            RenderError,
        >(RenderError::ImageFetchFailure),
        r matches Ok(buf) ==> {
            let pxs = spec_render_pixels(*display_data, now, *rasters, *assets);
            &&& buf@.len() == 2 * spec_plane_len(800, 480)
            &&& buf@.len() == 96000
            &&& forall|y: int, j: int|
                0 <= y < 480 && 0 <= j < spec_bytes_per_row(800) ==> {
                    &&& buf@[y * spec_bytes_per_row(800) + j] == plane_byte(pxs, 800, y, j, false)
                    &&& buf@[spec_plane_len(800, 480) + y * spec_bytes_per_row(800) + j]
                        == plane_byte(pxs, 800, y, j, true)
                }
        },
{
    let canvas = match render_canvas(display_data, now, rasters, assets) {
        Ok(cv) => cv,
        Err(e) => {
            return Err(e);
        },
    };
    let buf = rgb_image_to_epd_image(&canvas);
    Ok(buf)
}

} // verus!
