#![verifier::loop_isolation(false)]
//! The weather data model and the statistics the dashboard derives from it.
//!
//! Physical quantities are carried in tenths of their unit (tenths of a
//! degree, tenths of a millimeter), so every derivation is exact integer
//! arithmetic; the local time of a sample is carried as plain day, hour and
//! weekday fields.

use vstd::prelude::*;

verus! {

/// Current weather conditions reported by the data source.
#[derive(Clone, Copy, PartialEq, Eq, Structural, Debug)]
pub enum Condition {
    Dry,
    Fog,
    Rain,
    Sleet,
    Snow,
    Hail,
    Thunderstorm,
    Null,
}

/// Icon alias reported by the data source for the current conditions.
#[derive(Clone, Copy, PartialEq, Eq, Structural, Debug)]
pub enum Icon {
    ClearDay,
    ClearNight,
    PartlyCloudyDay,
    PartlyCloudyNight,
    Cloudy,
    Fog,
    Wind,
    Rain,
    Sleet,
    Snow,
    Hail,
    Thunderstorm,
    Null,
}

/// One hourly forecast sample. Temperature is in tenths of a degree,
/// precipitation in tenths of a millimeter; a missing value is `None`.
#[derive(Clone, Copy, PartialEq, Eq, Structural, Debug)]
pub struct HourlyWeather {
    /// Day of the month of the sample's local time.
    pub day: u8,
    /// Hour of the sample's local time.
    pub hour: u8,
    /// Weekday of the sample's local time, 0 for Monday through 6 for Sunday.
    pub weekday: u8,
    /// Air temperature, tenths of a degree.
    pub temperature: Option<i32>,
    /// Precipitation during the previous hour, tenths of a millimeter.
    pub precipitation: Option<i32>,
}

/// The current-conditions snapshot.
#[derive(Clone, Copy, PartialEq, Eq, Structural, Debug)]
pub struct CurrentWeather {
    /// Air temperature, tenths of a degree.
    pub temperature: Option<i32>,
    /// Current condition, when the source could derive one.
    pub condition: Option<Condition>,
    /// Relative humidity, tenths of a percent.
    pub relative_humidity: Option<i32>,
    /// Mean wind speed over the last half hour, tenths of a km/h.
    pub wind_speed_30: Option<i32>,
}

/// A local wall-clock instant, as plain fields.
#[derive(Clone, Copy, PartialEq, Eq, Structural, Debug)]
pub struct LocalTime {
    /// Day of the month.
    pub day: u8,
    /// Hour of the day.
    pub hour: u8,
    /// Minute of the hour.
    pub minute: u8,
}

/// The weather inputs of one render: the snapshot and the hourly series,
/// in chronological order.
pub struct WeatherData {
    pub current_weather: CurrentWeather,
    pub weather_forecast: Vec<HourlyWeather>,
}

pub open spec fn val_ok(v: Option<i32>) -> bool {
    match v {
        Some(t) => -20000 <= t <= 20000,
        None => true,
    }
}

impl HourlyWeather {
    pub open spec fn wf(self) -> bool {
        &&& val_ok(self.temperature)
        &&& val_ok(self.precipitation)
        &&& self.hour < 24
        &&& self.weekday < 7
    }

    /// The sample's temperature; meaningful only when one is present.
    pub open spec fn temp(self) -> int {
        match self.temperature {
            Some(t) => t as int,
            None => 0,
        }
    }

    /// The sample's precipitation; meaningful only when one is present.
    pub open spec fn rain(self) -> int {
        match self.precipitation {
            Some(r) => r as int,
            None => 0,
        }
    }

    pub open spec fn has_values(self) -> bool {
        self.temperature is Some && self.precipitation is Some
    }
}

impl CurrentWeather {
    pub open spec fn wf(self) -> bool {
        &&& val_ok(self.temperature)
        &&& val_ok(self.relative_humidity)
        &&& val_ok(self.wind_speed_30)
    }

    /// The snapshot's temperature; meaningful only when one is present.
    pub open spec fn temp(self) -> int {
        match self.temperature {
            Some(t) => t as int,
            None => 0,
        }
    }

    /// The humidity shown when one is present, zero otherwise.
    pub open spec fn humidity_or_zero(self) -> int {
        match self.relative_humidity {
            Some(v) => v as int,
            None => 0,
        }
    }

    /// The wind speed shown when one is present, zero otherwise.
    pub open spec fn wind_or_zero(self) -> int {
        match self.wind_speed_30 {
            Some(v) => v as int,
            None => 0,
        }
    }

    /// The condition shown: the reported one, or the null condition.
    pub open spec fn condition_or_null(self) -> Condition {
        match self.condition {
            Some(c) => c,
            None => Condition::Null,
        }
    }
}

/// Bounds alone: every sample's values are in range, nothing said about
/// their presence.
pub open spec fn forecast_bounded(s: Seq<HourlyWeather>) -> bool {
    &&& s.len() <= 0x1000
    &&& forall|i: int| 0 <= i < s.len() ==> (#[trigger] s[i]).wf()
}

pub open spec fn forecast_wf(s: Seq<HourlyWeather>) -> bool {
    &&& s.len() <= 0x1000
    &&& forall|i: int| 0 <= i < s.len() ==> (#[trigger] s[i]).wf() && s[i].has_values()
}

/// The whole-unit key the extremes are compared by: tenths truncated
/// toward zero to whole degrees or millimeters.
pub open spec fn unit_key(v: int) -> int {
    if v >= 0 {
        v / 10
    } else {
        -((-v) / 10)
    }
}

/// Index of the sample with the smallest temperature key among the first
/// `n`; the earliest such sample wins ties.
pub open spec fn min_temp_idx(s: Seq<HourlyWeather>, n: nat) -> int
    decreases n,
{
    if n <= 1 {
        0
    } else {
        let p = min_temp_idx(s, (n - 1) as nat);
        if unit_key(s[n - 1].temp()) < unit_key(s[p].temp()) {
            n - 1
        } else {
            p
        }
    }
}

/// Index of the sample with the largest temperature key among the first
/// `n`; the latest such sample wins ties.
pub open spec fn max_temp_idx(s: Seq<HourlyWeather>, n: nat) -> int
    decreases n,
{
    if n <= 1 {
        0
    } else {
        let p = max_temp_idx(s, (n - 1) as nat);
        if unit_key(s[n - 1].temp()) >= unit_key(s[p].temp()) {
            n - 1
        } else {
            p
        }
    }
}

/// Index of the sample with the largest precipitation key among the first
/// `n`; the latest such sample wins ties.
pub open spec fn max_rain_idx(s: Seq<HourlyWeather>, n: nat) -> int
    decreases n,
{
    if n <= 1 {
        0
    } else {
        let p = max_rain_idx(s, (n - 1) as nat);
        if unit_key(s[n - 1].rain()) >= unit_key(s[p].rain()) {
            n - 1
        } else {
            p
        }
    }
}

pub proof fn lemma_extreme_idx_in_range(s: Seq<HourlyWeather>, n: nat)
    requires
        n >= 1,
    ensures
        0 <= min_temp_idx(s, n) < n,
        0 <= max_temp_idx(s, n) < n,
        0 <= max_rain_idx(s, n) < n,
    decreases n,
{
    if n > 1 {
        lemma_extreme_idx_in_range(s, (n - 1) as nat);
    }
}

/// The picked indices are extremal: no sample among the first `n` has a
/// smaller key than the minimum pick or a larger one than the maximum
/// picks.
pub proof fn lemma_extreme_idx_extremal(s: Seq<HourlyWeather>, n: nat)
    requires
        1 <= n <= s.len(),
    ensures
        forall|i: int|
            0 <= i < n ==> unit_key(s[min_temp_idx(s, n)].temp()) <= unit_key(
                #[trigger] s[i].temp(),
            ),
        forall|i: int|
            0 <= i < n ==> unit_key(s[max_temp_idx(s, n)].temp()) >= unit_key(
                #[trigger] s[i].temp(),
            ),
        forall|i: int|
            0 <= i < n ==> unit_key(s[max_rain_idx(s, n)].rain()) >= unit_key(
                #[trigger] s[i].rain(),
            ),
    decreases n,
{
    if n > 1 {
        lemma_extreme_idx_extremal(s, (n - 1) as nat);
    }
}

/// Truncating division of tenths by ten, as a whole-unit key.
fn unit_key_of(v: i32) -> (r: i32)
    requires
        -20000 <= v <= 20000,
    ensures
        r as int == unit_key(v as int),
{
    if v >= 0 {
        v / 10
    } else {
        -((-v) / 10)
    }
}

impl WeatherData {
    /// The series' lowest and highest temperatures in tenths, compared by
    /// their whole-degree keys: the earliest minimum and the latest maximum.
    pub fn week_minmax_temps(&self) -> (r: (i32, i32))
        requires
            forecast_wf(self.weather_forecast@),
            self.weather_forecast@.len() >= 1,
        ensures
            ({
                let s = self.weather_forecast@;
                &&& r.0 as int == s[min_temp_idx(s, s.len())].temp()
                &&& r.1 as int == s[max_temp_idx(s, s.len())].temp()
            }),
    {
        let ghost s = self.weather_forecast@;
        let n = self.weather_forecast.len();
        let mut min_i: usize = 0;
        let mut max_i: usize = 0;
        let mut i: usize = 1;
        while i < n
            invariant
                1 <= i <= n,
                n == s.len(),
                min_i as int == min_temp_idx(s, i as nat),
                max_i as int == max_temp_idx(s, i as nat),
                min_i < i,
                max_i < i,
            decreases n - i,
        {
            let cur = temp_value(&self.weather_forecast[i]);
            let best_min = temp_value(&self.weather_forecast[min_i]);
            let best_max = temp_value(&self.weather_forecast[max_i]);
            if unit_key_of(cur) < unit_key_of(best_min) {
                min_i = i;
            }
            if unit_key_of(cur) >= unit_key_of(best_max) {
                max_i = i;
            }
            i = i + 1;
        }
        (temp_value(&self.weather_forecast[min_i]), temp_value(&self.weather_forecast[max_i]))
    }

    /// The series' highest precipitation in tenths, by whole-millimeter
    /// key; the latest maximum wins.
    pub fn week_max_rain(&self) -> (r: i32)
        requires
            forecast_wf(self.weather_forecast@),
            self.weather_forecast@.len() >= 1,
        ensures
            ({
                let s = self.weather_forecast@;
                r as int == s[max_rain_idx(s, s.len())].rain()
            }),
    {
        let ghost s = self.weather_forecast@;
        let n = self.weather_forecast.len();
        let mut max_i: usize = 0;
        let mut i: usize = 1;
        while i < n
            invariant
                1 <= i <= n,
                n == s.len(),
                max_i as int == max_rain_idx(s, i as nat),
                max_i < i,
            decreases n - i,
        {
            let cur = rain_value(&self.weather_forecast[i]);
            let best = rain_value(&self.weather_forecast[max_i]);
            if unit_key_of(cur) >= unit_key_of(best) {
                max_i = i;
            }
            i = i + 1;
        }
        rain_value(&self.weather_forecast[max_i])
    }
}

/// The running state of the per-day extremes scan after `n` samples: the
/// finished (day, (min, max)) entries, the open day's min and max so far,
/// and the open day number. The minimum only counts afternoon samples, and
/// the last open day is never emitted.
pub open spec fn daily_state(s: Seq<HourlyWeather>, n: nat) -> (Seq<(int, (int, int))>, int, int, int)
    decreases n,
{
    if n == 0 {
        (Seq::empty(), 2000, -1000, s[0].day as int)
    } else {
        let prev = daily_state(s, (n - 1) as nat);
        let w = s[n - 1];
        let es = if w.day != prev.3 {
            prev.0.push((prev.3, (prev.1, prev.2)))
        } else {
            prev.0
        };
        let mn1 = if w.day != prev.3 {
            2000
        } else {
            prev.1
        };
        let mx1 = if w.day != prev.3 {
            -1000
        } else {
            prev.2
        };
        let cd = if w.day != prev.3 {
            w.day as int
        } else {
            prev.3
        };
        let mn2 = if w.temp() < mn1 && w.hour > 12 {
            w.temp()
        } else {
            mn1
        };
        let mx2 = if w.temp() > mx1 {
            w.temp()
        } else {
            mx1
        };
        (es, mn2, mx2, cd)
    }
}

pub open spec fn daily_entry_view(e: (u32, (i32, i32))) -> (int, (int, int)) {
    (e.0 as int, (e.1.0 as int, e.1.1 as int))
}

impl WeatherData {
    /// The per-day low and high temperatures of the series, keyed by day of
    /// month, in first-appearance order. The low counts only samples after
    /// noon, and the final (still open) day is left out, exactly as the
    /// fold in `daily_state` describes.
    pub fn daily_minmax_temps(&self) -> (r: Vec<(u32, (i32, i32))>)
        requires
            forecast_wf(self.weather_forecast@),
            self.weather_forecast@.len() >= 1,
        ensures
            r@.map_values(|e: (u32, (i32, i32))| daily_entry_view(e)) == daily_state(
                self.weather_forecast@,
                self.weather_forecast@.len(),
            ).0,
    {
        let ghost s = self.weather_forecast@;
        let n = self.weather_forecast.len();
        let mut day_min: i32 = 2000;
        let mut day_max: i32 = -1000;
        let mut current_day: u8 = self.weather_forecast[0].day;
        let mut out: Vec<(u32, (i32, i32))> = Vec::new();
        let mut i: usize = 0;
        while i < n
            invariant
                i <= n,
                n == s.len(),
                out@.map_values(|e: (u32, (i32, i32))| daily_entry_view(e)) == daily_state(
                    s,
                    i as nat,
                ).0,
                day_min as int == daily_state(s, i as nat).1,
                day_max as int == daily_state(s, i as nat).2,
                current_day as int == daily_state(s, i as nat).3,
            decreases n - i,
        {
            let w = self.weather_forecast[i];
            let t = temp_value(&self.weather_forecast[i]);
            if w.day != current_day {
                out.push((current_day as u32, (day_min, day_max)));
                proof {
                    assert(out@.map_values(|e: (u32, (i32, i32))| daily_entry_view(e))
                        =~= daily_state(s, i as nat).0.push(
                        (
                            current_day as int,
                            (day_min as int, day_max as int),
                        ),
                    ));
                }
                day_min = 2000;
                day_max = -1000;
                current_day = w.day;
            }
            if t < day_min && w.hour > 12 {
                day_min = t;
            }
            if t > day_max {
                day_max = t;
            }
            i = i + 1;
        }
        out
    }
}

/// Start of the three-sample smoothing window centered at `i`.
pub open spec fn win_lo(i: int) -> int {
    if i >= 1 {
        i - 1
    } else {
        0
    }
}

/// End of the three-sample smoothing window centered at `i`.
pub open spec fn win_hi(i: int, len: int) -> int {
    if i + 1 < len {
        i + 1
    } else {
        len - 1
    }
}

/// Sum of the temperatures of samples `a` through `b` inclusive.
pub open spec fn sum_temp(s: Seq<HourlyWeather>, a: int, b: int) -> int
    decreases b - a + 1,
{
    if a > b {
        0
    } else {
        s[a].temp() + sum_temp(s, a + 1, b)
    }
}

/// Sum of the precipitation of samples `a` through `b` inclusive.
pub open spec fn sum_rain(s: Seq<HourlyWeather>, a: int, b: int) -> int
    decreases b - a + 1,
{
    if a > b {
        0
    } else {
        s[a].rain() + sum_rain(s, a + 1, b)
    }
}

/// The (temperature, rain) averages of the window centered at `i`, with
/// machine truncating division.
pub open spec fn spec_smoothed(s: Seq<HourlyWeather>, i: int) -> (int, int) {
    let a = win_lo(i);
    let b = win_hi(i, s.len() as int);
    (
        crate::dithering::tdiv(sum_temp(s, a, b), b - a + 1),
        crate::dithering::tdiv(sum_rain(s, a, b), b - a + 1),
    )
}

/// One smoothed forecast point: the sample's local time and the averaged
/// values in tenths.
#[derive(Clone, Copy, PartialEq, Eq, Structural, Debug)]
pub struct SmoothedSample {
    pub day: u8,
    pub hour: u8,
    pub weekday: u8,
    pub temperature: i32,
    pub precipitation: i32,
}

/// Division truncating toward zero for a positive divisor.
pub(crate) fn trunc_div_i64(a: i64, b: i64) -> (r: i64)
    requires
        1 <= b <= 0x100000,
        -0x800000000000 <= a <= 0x800000000000,
    ensures
        r as int == crate::dithering::tdiv(a as int, b as int),
{
    if a >= 0 {
        ((a as u64) / (b as u64)) as i64
    } else {
        -((((-a) as u64) / (b as u64)) as i64)
    }
}

/// The temperature of a sample known to carry one.
fn temp_value(s: &HourlyWeather) -> (r: i32)
    requires
        s.has_values(),
    ensures
        r as int == s.temp(),
{
    match s.temperature {
        Some(t) => t,
        None => 0,
    }
}

/// The precipitation of a sample known to carry one.
fn rain_value(s: &HourlyWeather) -> (r: i32)
    requires
        s.has_values(),
    ensures
        r as int == s.rain(),
{
    match s.precipitation {
        Some(r) => r,
        None => 0,
    }
}

/// Sums the temperatures and rain of samples `a` through `b` inclusive.
fn window_sums(forecast: &Vec<HourlyWeather>, a: usize, b: usize) -> (r: (i64, i64))
    requires
        forecast_wf(forecast@),
        a <= b < forecast@.len(),
        b - a <= 2,
    ensures
        r.0 as int == sum_temp(forecast@, a as int, b as int),
        r.1 as int == sum_rain(forecast@, a as int, b as int),
        -60000 <= r.0 <= 60000,
        -60000 <= r.1 <= 60000,
{
    let ghost s = forecast@;
    let mut st: i64 = 0;
    let mut sr: i64 = 0;
    let mut j: usize = b + 1;
    while j > a
        invariant
            a <= j <= b + 1,
            b < s.len(),
            st as int == sum_temp(s, j as int, b as int),
            sr as int == sum_rain(s, j as int, b as int),
            -20000 * (b + 1 - j) <= st <= 20000 * (b + 1 - j),
            -20000 * (b + 1 - j) <= sr <= 20000 * (b + 1 - j),
        decreases j,
    {
        j = j - 1;
        let t = temp_value(&forecast[j]);
        let rn = rain_value(&forecast[j]);
        st = st + t as i64;
        sr = sr + rn as i64;
    }
    (st, sr)
}

impl WeatherData {
    /// A smoothed, thinned copy of the forecast: every third sample,
    /// averaged with its immediate neighbors (clamped at the ends), with
    /// the sample's own local time carried over.
    pub fn smoother_forecast(&self) -> (r: Vec<SmoothedSample>)
        requires
            forecast_wf(self.weather_forecast@),
        ensures
            r@.len() == (self.weather_forecast@.len() + 2) / 3,
            forall|k: int|
                0 <= k < r@.len() ==> {
                    let s = self.weather_forecast@;
                    #[trigger] r@[k] == (SmoothedSample {
                        day: s[3 * k].day,
                        hour: s[3 * k].hour,
                        weekday: s[3 * k].weekday,
                        temperature: spec_smoothed(s, 3 * k).0 as i32,
                        precipitation: spec_smoothed(s, 3 * k).1 as i32,
                    })
                },
    {
        let ghost s = self.weather_forecast@;
        let n = self.weather_forecast.len();
        let mut out: Vec<SmoothedSample> = Vec::new();
        let mut i: usize = 0;
        while i < n
            invariant
                i <= n,
                n == s.len(),
                out@.len() == (i + 2) / 3,
                forall|k: int|
                    0 <= k < out@.len() ==> #[trigger] out@[k] == (SmoothedSample {
                        day: s[3 * k].day,
                        hour: s[3 * k].hour,
                        weekday: s[3 * k].weekday,
                        temperature: spec_smoothed(s, 3 * k).0 as i32,
                        precipitation: spec_smoothed(s, 3 * k).1 as i32,
                    }),
            decreases n - i,
        {
            if i % 3 == 0 {
                let a: usize = if i >= 1 {
                    i - 1
                } else {
                    0
                };
                let b: usize = if i + 1 < n {
                    i + 1
                } else {
                    n - 1
                };
                let sums = window_sums(&self.weather_forecast, a, b);
                let count: i64 = (b - a + 1) as i64;
                let avg_t = trunc_div_i64(sums.0, count) as i32;
                let avg_r = trunc_div_i64(sums.1, count) as i32;
                let w = self.weather_forecast[i];
                out.push(
                    SmoothedSample {
                        day: w.day,
                        hour: w.hour,
                        weekday: w.weekday,
                        temperature: avg_t,
                        precipitation: avg_r,
                    },
                );
            }
            i = i + 1;
        }
        out
    }
}

pub open spec fn imin(a: int, b: int) -> int {
    if a < b {
        a
    } else {
        b
    }
}

pub open spec fn imax(a: int, b: int) -> int {
    if a > b {
        a
    } else {
        b
    }
}

/// Floor of `a / b` for positive `b`.
pub open spec fn floor_div(a: int, b: int) -> int {
    a / b
}

/// Ceiling of `a / b` for positive `b`.
pub open spec fn ceil_div(a: int, b: int) -> int {
    (a + b - 1) / b
}

/// The lower bound of the temperature axis: `floor(0.8 * t)` in whole
/// degrees (from tenths), never above zero, so the axis always shows 0.
pub open spec fn spec_min_temp_scale(min_temp_tenths: int) -> int {
    imin(floor_div(2 * min_temp_tenths, 25), 0)
}

/// The upper bound of the temperature axis: `ceil(1.2 * t)` in whole
/// degrees (from tenths), at least 20.
pub open spec fn spec_max_temp_scale(max_temp_tenths: int) -> int {
    imax(ceil_div(3 * max_temp_tenths, 25), 20)
}

/// The upper bound of the rain axis: `ceil(1.2 * r)` in whole millimeters
/// (from tenths), at least 5.
pub open spec fn spec_max_rain_scale(max_rain_tenths: int) -> int {
    imax(ceil_div(3 * max_rain_tenths, 25), 5)
}

/// Floor division of a possibly negative numerator by a positive divisor.
fn floor_div_i64(a: i64, b: i64) -> (r: i64)
    requires
        1 <= b <= 0x10000,
        -0x100000 <= a <= 0x100000,
    ensures
        r as int == floor_div(a as int, b as int),
{
    if a >= 0 {
        ((a as u64) / (b as u64)) as i64
    } else {
        let m = (-a) as u64;
        let q = (m / (b as u64)) as i64;
        let rem = m % (b as u64);
        proof {
            let ai = a as int;
            let bi = b as int;
            let mi = m as int;
            vstd::arithmetic::div_mod::lemma_fundamental_div_mod(mi, bi);
            let qi = q as int;
            let ri = rem as int;
            assert(mi == bi * qi + ri);
            if rem == 0 {
                assert(ai == (-qi) * bi + 0) by (nonlinear_arith)
                    requires
                        mi == bi * qi,
                        ai == -mi,
                ;
                vstd::arithmetic::div_mod::lemma_fundamental_div_mod_converse(ai, bi, -qi, 0);
            } else {
                assert(ai == (-qi - 1) * bi + (bi - ri)) by (nonlinear_arith)
                    requires
                        mi == bi * qi + ri,
                        ai == -mi,
                ;
                vstd::arithmetic::div_mod::lemma_fundamental_div_mod_converse(
                    ai,
                    bi,
                    -qi - 1,
                    bi - ri,
                );
            }
        }
        if rem == 0 {
            -q
        } else {
            -q - 1
        }
    }
}

/// The temperature axis lower bound, from the week minimum in tenths.
pub fn min_temp_scale(min_temp_tenths: i32) -> (r: i32)
    requires
        -20000 <= min_temp_tenths <= 20000,
    ensures
        r as int == spec_min_temp_scale(min_temp_tenths as int),
        -1600 <= r <= 0,
{
    proof {
        vstd::arithmetic::div_mod::lemma_div_is_ordered(
            -40000,
            2 * (min_temp_tenths as int),
            25,
        );
    }
    let f = floor_div_i64(2 * (min_temp_tenths as i64), 25) as i32;
    if f < 0 {
        f
    } else {
        0
    }
}

/// The temperature axis upper bound, from the week maximum in tenths.
pub fn max_temp_scale(max_temp_tenths: i32) -> (r: i32)
    requires
        -20000 <= max_temp_tenths <= 20000,
    ensures
        r as int == spec_max_temp_scale(max_temp_tenths as int),
        20 <= r <= 2400,
{
    proof {
        vstd::arithmetic::div_mod::lemma_div_is_ordered(
            3 * (max_temp_tenths as int) + 24,
            60024,
            25,
        );
    }
    let c = floor_div_i64(3 * (max_temp_tenths as i64) + 24, 25) as i32;
    if c > 20 {
        c
    } else {
        20
    }
}

/// The rain axis upper bound, from the week maximum in tenths.
pub fn max_rain_scale(max_rain_tenths: i32) -> (r: i32)
    requires
        -20000 <= max_rain_tenths <= 20000,
    ensures
        r as int == spec_max_rain_scale(max_rain_tenths as int),
        5 <= r <= 2401,
{
    proof {
        vstd::arithmetic::div_mod::lemma_div_is_ordered(
            3 * (max_rain_tenths as int) + 24,
            60024,
            25,
        );
    }
    let c = floor_div_i64(3 * (max_rain_tenths as i64) + 24, 25) as i32;
    if c > 5 {
        c
    } else {
        5
    }
}

} // verus!
