use epaper_dashboard::canvas::Px;
use epaper_dashboard::config::{Config, WeatherConditions, WeekdayNames};
use epaper_dashboard::feed::Article;
use epaper_dashboard::rendering::{
    DisplayData, RasterSet, RenderAssets, RenderError, plan_render, render_canvas, render_image,
};
use epaper_dashboard::text::TextRaster;
use epaper_dashboard::weather::{
    CurrentWeather, HourlyWeather, LocalTime, WeatherData, max_rain_scale, max_temp_scale,
    min_temp_scale,
};

fn sample(day: u8, hour: u8, weekday: u8, temp: i32, rain: i32) -> HourlyWeather {
    HourlyWeather {
        day,
        hour,
        weekday,
        temperature: Some(temp),
        precipitation: Some(rain),
    }
}

fn four_point_series() -> Vec<HourlyWeather> {
    // Temperatures 5, 10, 15, 8 degrees and rain 0, 2, 0, 1 millimeters,
    // carried in tenths.
    vec![
        sample(7, 9, 0, 50, 0),
        sample(7, 10, 0, 100, 20),
        sample(7, 11, 0, 150, 0),
        sample(7, 12, 0, 80, 10),
    ]
}

fn weather() -> WeatherData {
    WeatherData {
        current_weather: CurrentWeather {
            temperature: Some(215),
            condition: Some(epaper_dashboard::weather::Condition::Dry),
            relative_humidity: Some(550),
            wind_speed_30: Some(123),
        },
        weather_forecast: four_point_series(),
    }
}

fn empty_raster() -> TextRaster {
    TextRaster { width: 0, height: 0, pixels: Vec::new() }
}

fn empty_rasters() -> RasterSet {
    RasterSet {
        temp_text: empty_raster(),
        condition_text: empty_raster(),
        humidity_text: empty_raster(),
        wind_text: empty_raster(),
        time_text: empty_raster(),
        temp_min_text: empty_raster(),
        temp_max_text: empty_raster(),
        rain_min_text: empty_raster(),
        rain_max_text: empty_raster(),
        weekday_labels: (0..7).map(|_| empty_raster()).collect(),
        title: Vec::new(),
        meme_name: Vec::new(),
        summary: Vec::new(),
    }
}

fn teaser_rasters() -> RasterSet {
    let mut r = empty_rasters();
    r.title = (0..16).map(|_| Vec::new()).collect();
    r.meme_name = (0..16).map(|_| Vec::new()).collect();
    r.summary = (0..16).map(|_| Vec::new()).collect();
    r
}

fn png_bytes(width: u32, height: u32, color: [u8; 3]) -> Vec<u8> {
    let img = image::RgbImage::from_pixel(width, height, image::Rgb(color));
    let mut buf: Vec<u8> = Vec::new();
    img.write_to(&mut std::io::Cursor::new(&mut buf), image::ImageFormat::Png).unwrap();
    buf
}

fn icons_only() -> RenderAssets {
    RenderAssets {
        humidity_icon: png_bytes(2, 2, [120, 120, 120]),
        wind_icon: png_bytes(2, 2, [120, 120, 120]),
        teaser_image: None,
    }
}

fn err_of<T>(r: Result<T, RenderError>) -> RenderError {
    match r {
        Err(e) => e,
        Ok(_) => panic!("expected an error"),
    }
}

fn now() -> LocalTime {
    LocalTime { day: 7, hour: 10, minute: 5 }
}

fn config() -> Config {
    Config {
        webdav_url: "http://server/dav/".to_string(),
        image_name: "dashboard.bin".to_string(),
        time_format: "%H:%M".to_string(),
        weekday_names: WeekdayNames {
            monday: "Mo".to_string(),
            tuesday: "Di".to_string(),
            wednesday: "Mi".to_string(),
            thursday: "Do".to_string(),
            friday: "Fr".to_string(),
            saturday: "Sa".to_string(),
            sunday: "So".to_string(),
        },
        weather_conditions: WeatherConditions {
            dry: "Trocken".to_string(),
            fog: "Nebel".to_string(),
            rain: "Regen".to_string(),
            sleet: "Graupel".to_string(),
            snow: "Schnee".to_string(),
            hail: "Hagel".to_string(),
            thunderstorm: "Gewitter".to_string(),
            null: "-".to_string(),
        },
    }
}

#[test]
fn axis_scales_from_four_point_series() {
    // The padding formulas on the 5/10/15/8 degree and 0/2/0/1 millimeter
    // series: the axis always includes 0 and 20 degrees and 5 millimeters.
    let wd = weather();
    let (min_t, max_t) = wd.week_minmax_temps();
    assert_eq!(min_t, 50);
    assert_eq!(max_t, 150);
    let max_r = wd.week_max_rain();
    assert_eq!(max_r, 20);
    assert_eq!(min_temp_scale(min_t), 0);
    assert_eq!(max_temp_scale(max_t), 20);
    assert_eq!(max_rain_scale(max_r), 5);
}

#[test]
fn plan_fills_header_texts() {
    let data = DisplayData { weather: weather(), kym_article: None };
    let plan = plan_render(&data, &config(), now()).unwrap();
    assert_eq!(plan.temp_text.text, "21.5°");
    assert_eq!(plan.temp_text.scale, 100);
    assert_eq!(plan.condition_text.text, "Trocken");
    assert_eq!(plan.humidity_text.text, "55%");
    assert_eq!(plan.wind_text.text, "12km/h");
    assert_eq!(plan.temp_min_text.text, "0");
    assert_eq!(plan.temp_max_text.text, "20");
    assert_eq!(plan.rain_min_text.text, "0");
    assert_eq!(plan.rain_max_text.text, "5");
    assert_eq!(plan.weekday_texts.len(), 7);
    assert_eq!(plan.weekday_texts[0].text, "Mo");
    assert_eq!(plan.display_time.hour, 10);
    assert!(plan.title_words.is_empty());
    assert!(plan.meme_name_words.is_none());
}

#[test]
fn plan_rejects_short_series() {
    let mut wd = weather();
    wd.weather_forecast.truncate(3);
    let data = DisplayData { weather: wd, kym_article: None };
    assert_eq!(
        err_of(plan_render(&data, &config(), now())),
        RenderError::DegenerateInput
    );
}

#[test]
fn plan_rejects_missing_temperature() {
    let mut wd = weather();
    wd.current_weather.temperature = None;
    let data = DisplayData { weather: wd, kym_article: None };
    assert_eq!(
        err_of(plan_render(&data, &config(), now())),
        RenderError::MissingRequiredField
    );
}

#[test]
fn plan_rejects_missing_sample_value() {
    let mut wd = weather();
    wd.weather_forecast[2].precipitation = None;
    let data = DisplayData { weather: wd, kym_article: None };
    assert_eq!(
        err_of(plan_render(&data, &config(), now())),
        RenderError::MissingRequiredField
    );
}

#[test]
fn render_without_article_leaves_teaser_region_white() {
    let data = DisplayData { weather: weather(), kym_article: None };
    let canvas = render_canvas(&data, now(), &empty_rasters(), &icons_only()).unwrap();
    // The decoded humidity icon landed in the header: with an empty
    // temperature raster its left edge sits at column 25, row 7.
    assert_eq!(canvas.get(25, 7), Px { r: 120, g: 120, b: 120 });
    // Nothing writes below the graph without an article: the whole teaser
    // region keeps the white background.
    for y in 301..480usize {
        for x in 0..800usize {
            assert_eq!(canvas.get(x, y), Px { r: 255, g: 255, b: 255 });
        }
    }
}

#[test]
fn graph_draws_lines_into_canvas() {
    let data = DisplayData { weather: weather(), kym_article: None };
    let canvas = render_canvas(&data, now(), &empty_rasters(), &icons_only()).unwrap();
    // The temperature stroke passes through the third sample: 15 degrees
    // against the 0..20 axis maps to graph row 50, column 466, and the
    // graph sits at offset (50, 100).
    assert_eq!(canvas.get(516, 150), Px { r: 255, g: 0, b: 0 });
    // The rain line touches the second sample: 2 mm against the 0..5 axis
    // maps to graph row 120, column 233.
    assert_eq!(canvas.get(283, 220), Px { r: 0, g: 0, b: 0 });
    // The dotted marker for the current hour stands at the boundary before
    // the 11 o'clock sample, starting at the graph's top row.
    assert_eq!(canvas.get(516, 100), Px { r: 0, g: 0, b: 0 });
}

#[test]
fn alert_color_only_above_threshold() {
    // The header temperature is black at exactly 27.0 degrees and switches
    // to the chromatic alert color only above it. One glyph pixel in the
    // temperature raster makes the color observable at (10, 0).
    let mut rasters = empty_rasters();
    rasters.temp_text = TextRaster { width: 0, height: 0, pixels: vec![(0, 0)] };
    let mut wd = weather();
    wd.current_weather.temperature = Some(270);
    let data = DisplayData { weather: wd, kym_article: None };
    let canvas = render_canvas(&data, now(), &rasters, &icons_only()).unwrap();
    assert_eq!(canvas.get(10, 0), Px { r: 0, g: 0, b: 0 });
    let mut hot = weather();
    hot.current_weather.temperature = Some(271);
    let data = DisplayData { weather: hot, kym_article: None };
    let canvas = render_canvas(&data, now(), &rasters, &icons_only()).unwrap();
    assert_eq!(canvas.get(10, 0), Px { r: 255, g: 0, b: 0 });
}

#[test]
fn render_fails_on_bad_icon() {
    let data = DisplayData { weather: weather(), kym_article: None };
    let assets = RenderAssets {
        humidity_icon: vec![1, 2, 3],
        wind_icon: png_bytes(2, 2, [0, 0, 0]),
        teaser_image: None,
    };
    assert_eq!(
        err_of(render_canvas(&data, now(), &empty_rasters(), &assets)),
        RenderError::AssetLoadFailure
    );
}

fn article() -> Article {
    Article {
        url: "/memes/sample".to_string(),
        title: "Sample".to_string(),
        summary: "A short summary".to_string(),
        image_url: "http://img/sample.png".to_string(),
        meme_name: None,
    }
}

#[test]
fn render_fails_on_bad_teaser_photo() {
    let data = DisplayData { weather: weather(), kym_article: Some(article()) };
    let mut assets = icons_only();
    assets.teaser_image = Some(vec![9, 9, 9]);
    assert_eq!(
        err_of(render_canvas(&data, now(), &teaser_rasters(), &assets)),
        RenderError::ImageFetchFailure
    );
}

#[test]
fn render_composites_dithered_teaser_photo() {
    let data = DisplayData { weather: weather(), kym_article: Some(article()) };
    let mut assets = icons_only();
    // A solid black photo stays solid black through the dither and lands
    // in the teaser image box.
    assets.teaser_image = Some(png_bytes(4, 4, [0, 0, 0]));
    let canvas = render_canvas(&data, now(), &teaser_rasters(), &assets).unwrap();
    assert_eq!(canvas.get(20, 320), Px { r: 0, g: 0, b: 0 });
    assert_eq!(canvas.get(100, 400), Px { r: 0, g: 0, b: 0 });
    // To the right of the photo box the background stays white.
    assert_eq!(canvas.get(790, 400), Px { r: 255, g: 255, b: 255 });
}

#[test]
fn daily_extremes_per_day() {
    // The low only counts afternoon samples, and the still-open last day
    // is not emitted.
    let wd = WeatherData {
        current_weather: weather().current_weather,
        weather_forecast: vec![
            sample(1, 10, 0, 100, 0),
            sample(1, 14, 0, 50, 0),
            sample(2, 10, 1, 300, 0),
            sample(2, 15, 1, 250, 0),
            sample(3, 10, 2, 0, 0),
        ],
    };
    let daily = wd.daily_minmax_temps();
    assert_eq!(daily, vec![(1, (50, 100)), (2, (250, 300))]);
}

#[test]
fn smoothed_forecast_every_third_sample() {
    let wd = WeatherData {
        current_weather: weather().current_weather,
        weather_forecast: vec![
            sample(1, 0, 0, 100, 10),
            sample(1, 1, 0, 200, 20),
            sample(1, 2, 0, 300, 30),
            sample(1, 3, 0, 400, 40),
        ],
    };
    let smooth = wd.smoother_forecast();
    assert_eq!(smooth.len(), 2);
    // Around sample 0 the window is clamped to the first two samples.
    assert_eq!(smooth[0].hour, 0);
    assert_eq!(smooth[0].temperature, 150);
    assert_eq!(smooth[0].precipitation, 15);
    // Around sample 3 it is clamped to the last two.
    assert_eq!(smooth[1].hour, 3);
    assert_eq!(smooth[1].temperature, 350);
    assert_eq!(smooth[1].precipitation, 35);
}

#[test]
fn render_image_has_device_buffer_size() {
    let data = DisplayData { weather: weather(), kym_article: None };
    let buf = render_image(&data, now(), &empty_rasters(), &icons_only()).unwrap();
    assert_eq!(buf.len(), 96000);
    // The teaser region of the black/white plane is all white bits.
    let bpr = 100usize;
    for y in 301..480usize {
        for j in 0..bpr {
            assert_eq!(buf[y * bpr + j], 0xFF);
            assert_eq!(buf[48000 + y * bpr + j], 0x00);
        }
    }
}
