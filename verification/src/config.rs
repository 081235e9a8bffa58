#![verifier::loop_isolation(false)]
//! The render configuration: the label strings the compositor substitutes,
//! passed in explicitly so renders are deterministic.

use vstd::prelude::*;

verus! {

/// The localized weekday labels drawn on the graph's day boundaries.
pub struct WeekdayNames {
    pub monday: String,
    pub tuesday: String,
    pub wednesday: String,
    pub thursday: String,
    pub friday: String,
    pub saturday: String,
    pub sunday: String,
}

impl WeekdayNames {
    /// The label of weekday `d`, 0 for Monday through 6 for Sunday.
    pub open spec fn spec_label(&self, d: int) -> Seq<char> {
        if d == 0 {
            self.monday@
        } else if d == 1 {
            self.tuesday@
        } else if d == 2 {
            self.wednesday@
        } else if d == 3 {
            self.thursday@
        } else if d == 4 {
            self.friday@
        } else if d == 5 {
            self.saturday@
        } else {
            self.sunday@
        }
    }

    /// Picks the label of weekday `d`, 0 for Monday through 6 for Sunday.
    pub fn label(&self, d: u8) -> (r: &String)
        requires
            d < 7,
        ensures
            r@ == self.spec_label(d as int),
    {
        if d == 0 {
            &self.monday
        } else if d == 1 {
            &self.tuesday
        } else if d == 2 {
            &self.wednesday
        } else if d == 3 {
            &self.thursday
        } else if d == 4 {
            &self.friday
        } else if d == 5 {
            &self.saturday
        } else {
            &self.sunday
        }
    }
}

/// The localized labels for the current weather condition.
pub struct WeatherConditions {
    pub dry: String,
    pub fog: String,
    pub rain: String,
    pub sleet: String,
    pub snow: String,
    pub hail: String,
    pub thunderstorm: String,
    pub null: String,
}

impl WeatherConditions {
    /// The label for a condition.
    pub open spec fn spec_label(&self, c: crate::weather::Condition) -> Seq<char> {
        match c {
            crate::weather::Condition::Dry => self.dry@,
            crate::weather::Condition::Fog => self.fog@,
            crate::weather::Condition::Rain => self.rain@,
            crate::weather::Condition::Sleet => self.sleet@,
            crate::weather::Condition::Snow => self.snow@,
            crate::weather::Condition::Hail => self.hail@,
            crate::weather::Condition::Thunderstorm => self.thunderstorm@,
            crate::weather::Condition::Null => self.null@,
        }
    }

    /// Picks the label for a condition.
    pub fn label(&self, c: crate::weather::Condition) -> (r: &String)
        ensures
            r@ == self.spec_label(c),
    {
        match c {
            crate::weather::Condition::Dry => &self.dry,
            crate::weather::Condition::Fog => &self.fog,
            crate::weather::Condition::Rain => &self.rain,
            crate::weather::Condition::Sleet => &self.sleet,
            crate::weather::Condition::Snow => &self.snow,
            crate::weather::Condition::Hail => &self.hail,
            crate::weather::Condition::Thunderstorm => &self.thunderstorm,
            crate::weather::Condition::Null => &self.null,
        }
    }
}

/// Wireless credentials for the display device.
pub struct WifiConfig {
    pub ssid: String,
    pub psk: String,
}

/// Everything configurable about one render: where the finished buffer
/// goes, how the clock is formatted, and the label strings.
pub struct Config {
    /// Base address the finished buffer is uploaded to.
    pub webdav_url: String,
    /// File name of the uploaded buffer.
    pub image_name: String,
    /// Clock format handed to the time formatter.
    pub time_format: String,
    pub weekday_names: WeekdayNames,
    pub weather_conditions: WeatherConditions,
}

} // verus!
