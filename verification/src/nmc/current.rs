//! Mapping of the current observation and of the forecast.

use vstd::prelude::*;
use crate::json::{self, Json, Member};
use crate::nmc::value::{self, MappingContext};
use crate::reading::Reading;
use crate::report::{ForecastDay, ForecastReport, ObservedWeather, StationRef, WeatherAlert};
use crate::station;
use crate::text;

verus! {

/// The complaint about a section that is no object.
pub open spec fn malformed() -> Seq<char> {
    ": malformed object; ignored"@
}

/// The members of a section named `name` within another section.
pub open spec fn inner(ms: Seq<Member>, name: Seq<char>) -> Option<Seq<Member>> {
    value::section(json::lookup(ms, name))
}

/// The station that a section describes: its province and its city.
pub open spec fn station_value(v: Option<&Json>) -> Option<(Seq<char>, Seq<char>)> {
    match value::section(v) {
        None => None,
        Some(ms) => match (
            value::fixed_value::<String>(json::lookup(ms, "province"@)),
            value::fixed_value::<String>(json::lookup(ms, "city"@)),
        ) {
            (Some(province), Some(city)) => Some((province, city)),
            _ => None,
        },
    }
}

/// `r` is the station that the section describes.
pub open spec fn station_from<F: Fn(&str) -> String>(
    r: Option<StationRef>,
    v: Option<&Json>,
    uuid_of: F,
) -> bool {
    match r {
        None => station_value(v) is None,
        Some(s) => {
            &&& station_value(v) == Some((s.province@, s.city@))
            &&& s.name@ == station::canonical_name(s.province@, s.city@)
            &&& station::identified(uuid_of, s.name@, s.unified_uuid@)
        },
    }
}

/// The warnings after a station was read.
pub open spec fn station_warned(
    v: Option<&Json>,
    path: Seq<char>,
    w: Seq<Seq<char>>,
) -> Seq<Seq<char>> {
    let w1 = value::section_warned(v, path, malformed(), w);
    match value::section(v) {
        None => w1,
        Some(ms) => {
            let w2 = value::fixed_warned::<String>(
                json::lookup(ms, "province"@),
                path + ".province"@,
                w1,
            );
            let w3 = value::fixed_warned::<String>(json::lookup(ms, "city"@), path + ".city"@, w2);
            if station_value(v) is None && w3.len() == w1.len() {
                w3.push(path + ": incomplete station; ignored"@)
            } else {
                w3
            }
        },
    }
}

/// Reads a station.
pub fn map_station<F: Fn(&str) -> String>(
    raw: Option<&Json>,
    path: &str,
    uuid_of: &F,
    context: &mut MappingContext,
) -> (r: Option<StationRef>)
    requires
        station::total(*uuid_of),
    ensures
        station_from(r, raw, *uuid_of),
        final(context).warned() == station_warned(raw, path@, old(context).warned()),
        final(context).base_url == old(context).base_url,
{
    let ms = match value::decode_section(raw, path, context) {
        Some(ms) => ms,
        None => {
            return None;
        },
    };
    let before = context.warning_count();
    let province = value::fixed::<String>(
        json::get(ms, "province"),
        text::cat(path, ".province").as_str(),
        context,
    );
    let city = value::fixed::<String>(
        json::get(ms, "city"),
        text::cat(path, ".city").as_str(),
        context,
    );
    match (province, city) {
        (Some(province), Some(city)) => {
            let name = station::canonical_station_name(province.as_str(), city.as_str());
            let unified_uuid = uuid_of(name.as_str());
            Some(StationRef { province, city, name, unified_uuid })
        },
        _ => {
            if context.warning_count() == before {
                context.warn(path, ": incomplete station; ignored");
            }
            None
        },
    }
}

/// `a` is the alert of a section that has one.
pub open spec fn alert_from(a: WeatherAlert, ms: Seq<Member>, base: Seq<char>) -> bool {
    &&& a.alert is Some
    &&& value::seen_opt(a.alert) == value::fixed_value::<String>(json::lookup(ms, "alert"@))
    &&& value::seen_opt(a.province) == value::fixed_value::<String>(json::lookup(ms, "province"@))
    &&& value::seen_opt(a.city) == value::fixed_value::<String>(json::lookup(ms, "city"@))
    &&& text::opt_text(a.url) == value::resource_value(json::lookup(ms, "url"@), base)
    &&& value::seen_opt(a.issue_content) == value::fixed_value::<String>(json::lookup(ms, "issuecontent"@))
    &&& value::seen_opt(a.prevention) == value::fixed_value::<String>(json::lookup(ms, "fmeans"@))
    &&& value::seen_opt(a.signal_type) == value::fixed_value::<String>(json::lookup(ms, "signaltype"@))
    &&& value::seen_opt(a.signal_level) == value::fixed_value::<String>(json::lookup(ms, "signallevel"@))
    &&& text::opt_text(a.icon_url) == value::resource_value(json::lookup(ms, "pic"@), base)
    &&& value::seen_opt(a.icon_name) == value::fixed_value::<String>(json::lookup(ms, "pic2"@))
    &&& a.icon_resource_id is None
    &&& !a.inherited
}

/// The section holds the text of an alert.
pub open spec fn has_alert(v: Option<&Json>) -> bool {
    value::section(v) matches Some(ms) && value::fixed_value::<String>(
        json::lookup(ms, "alert"@),
    ) is Some
}

/// The warnings after an alert was read.
pub open spec fn alert_warned(
    v: Option<&Json>,
    base: Seq<char>,
    w: Seq<Seq<char>>,
) -> Seq<Seq<char>> {
    let w = value::section_warned(v, "real.warn"@, malformed(), w);
    match value::section(v) {
        None => w,
        Some(ms) => {
            let w = value::fixed_warned::<String>(
                json::lookup(ms, "alert"@),
                "real.warn.alert"@,
                w,
            );
            if value::fixed_value::<String>(json::lookup(ms, "alert"@)) is None {
                w
            } else {
                let w = value::fixed_warned::<String>(json::lookup(ms, "province"@), "real.warn.province"@, w);
                let w = value::fixed_warned::<String>(json::lookup(ms, "city"@), "real.warn.city"@, w);
                let w = value::resource_warned(json::lookup(ms, "url"@), base, "real.warn.url"@, w);
                let w = value::fixed_warned::<String>(json::lookup(ms, "issuecontent"@), "real.warn.issuecontent"@, w);
                let w = value::fixed_warned::<String>(json::lookup(ms, "fmeans"@), "real.warn.fmeans"@, w);
                let w = value::fixed_warned::<String>(json::lookup(ms, "signaltype"@), "real.warn.signaltype"@, w);
                let w = value::fixed_warned::<String>(json::lookup(ms, "signallevel"@), "real.warn.signallevel"@, w);
                let w = value::resource_warned(json::lookup(ms, "pic"@), base, "real.warn.pic"@, w);
                let w = value::fixed_warned::<String>(json::lookup(ms, "pic2"@), "real.warn.pic2"@, w);
                w
            }
        },
    }
}

/// Reads the alert of an observation.
pub fn map_alert(raw: Option<&Json>, context: &mut MappingContext) -> (r: Option<WeatherAlert>)
    ensures
        r is Some <==> has_alert(raw),
        r matches Some(a) ==> alert_from(a, value::section(raw)->0, old(context).base_url@),
        final(context).warned() == alert_warned(
            raw,
            old(context).base_url@,
            old(context).warned(),
        ),
        final(context).base_url == old(context).base_url,
{
    let ms = match value::decode_section(raw, "real.warn", context) {
        Some(ms) => ms,
        None => {
            return None;
        },
    };
    let alert = match value::fixed::<String>(json::get(ms, "alert"), "real.warn.alert", context) {
        Some(alert) => alert,
        None => {
            return None;
        },
    };
    Some(
        WeatherAlert {
            alert: Some(alert),
            province: value::fixed::<String>(json::get(ms, "province"), "real.warn.province", context),
            city: value::fixed::<String>(json::get(ms, "city"), "real.warn.city", context),
            url: value::resource_url(json::get(ms, "url"), "real.warn.url", context),
            issue_content: value::fixed::<String>(json::get(ms, "issuecontent"), "real.warn.issuecontent", context),
            prevention: value::fixed::<String>(json::get(ms, "fmeans"), "real.warn.fmeans", context),
            signal_type: value::fixed::<String>(json::get(ms, "signaltype"), "real.warn.signaltype", context),
            signal_level: value::fixed::<String>(json::get(ms, "signallevel"), "real.warn.signallevel", context),
            icon_url: value::resource_url(json::get(ms, "pic"), "real.warn.pic", context),
            icon_name: value::fixed::<String>(json::get(ms, "pic2"), "real.warn.pic2", context),
            icon_resource_id: None,
            inherited: false,
        },
    )
}

/// `o` is the observation that the members of the section describe.
pub open spec fn observed_from(o: ObservedWeather, ms: Seq<Member>, base: Seq<char>) -> bool {
    let weather = inner(ms, "weather"@);
    let wind = inner(ms, "wind"@);
    let sun = inner(ms, "sunriseSunset"@);
    &&& value::seen_opt(o.publish_time) == value::fixed_value::<String>(json::lookup(ms, "publish_time"@))
    &&& value::seen_opt(o.info) == value::fixed_value::<String>(value::part(weather, "info"@))
    &&& value::seen_opt(o.temperature) == value::fixed_value::<Reading>(value::part(weather, "temperature"@))
    &&& value::seen_opt(o.feel_temperature) == value::fixed_value::<Reading>(value::part(weather, "feelst"@))
    &&& value::seen_opt(o.humidity) == value::fixed_value::<Reading>(value::part(weather, "humidity"@))
    &&& value::seen_opt(o.rain) == value::fixed_value::<Reading>(value::part(weather, "rain"@))
    &&& value::seen_opt(o.wind_direct) == value::fixed_value::<String>(value::part(wind, "direct"@))
    &&& value::seen_opt(o.wind_power) == value::fixed_value::<String>(value::part(wind, "power"@))
    &&& value::seen_opt(o.wind_speed) == value::fixed_value::<Reading>(value::part(wind, "speed"@))
    &&& value::seen_opt(o.sunrise) == value::fixed_value::<String>(value::part(sun, "sunrise"@))
    &&& value::seen_opt(o.sunset) == value::fixed_value::<String>(value::part(sun, "sunset"@))
    &&& o.alerts@.len() == if has_alert(json::lookup(ms, "warn"@)) {
        1int
    } else {
        0int
    }
    &&& has_alert(json::lookup(ms, "warn"@)) ==> alert_from(
        o.alerts@[0],
        inner(ms, "warn"@)->0,
        base,
    )
    &&& value::seen_opt(o.temperature_diff) == value::fixed_value::<Reading>(value::part(weather, "temperatureDiff"@))
    &&& value::seen_opt(o.air_pressure) == value::fixed_value::<Reading>(value::part(weather, "airpressure"@))
    &&& value::seen_opt(o.comfort_index) == value::fixed_value::<String>(value::part(weather, "icomfort"@))
    &&& value::seen_opt(o.comfort_label) == value::fixed_value::<String>(value::part(weather, "rcomfort"@))
    &&& value::seen_opt(o.weather_icon) == value::fixed_value::<String>(value::part(weather, "img"@))
    &&& value::seen_opt(o.wind_degree) == value::fixed_value::<Reading>(value::part(wind, "degree"@))
}

/// The warnings after the current observation was read.
pub open spec fn real_warned(
    v: Option<&Json>,
    base: Seq<char>,
    w: Seq<Seq<char>>,
) -> Seq<Seq<char>> {
    let w = value::section_warned(v, "real"@, malformed(), w);
    match value::section(v) {
        None => w,
        Some(ms) => {
            let weather = inner(ms, "weather"@);
            let wind = inner(ms, "wind"@);
            let sun = inner(ms, "sunriseSunset"@);
            let w = station_warned(json::lookup(ms, "station"@), "real.station"@, w);
            let w = value::section_warned(json::lookup(ms, "weather"@), "real.weather"@, malformed(), w);
            let w = value::section_warned(json::lookup(ms, "wind"@), "real.wind"@, malformed(), w);
            let w = alert_warned(json::lookup(ms, "warn"@), base, w);
            let w = value::section_warned(
                json::lookup(ms, "sunriseSunset"@),
                "real.sunriseSunset"@,
                malformed(),
                w,
            );
            let w = value::fixed_warned::<String>(json::lookup(ms, "publish_time"@), "real.publish_time"@, w);
            let w = value::fixed_warned::<String>(value::part(weather, "info"@), "real.weather.info"@, w);
            let w = value::fixed_warned::<Reading>(value::part(weather, "temperature"@), "real.weather.temperature"@, w);
            let w = value::fixed_warned::<Reading>(value::part(weather, "feelst"@), "real.weather.feelst"@, w);
            let w = value::fixed_warned::<Reading>(value::part(weather, "humidity"@), "real.weather.humidity"@, w);
            let w = value::fixed_warned::<Reading>(value::part(weather, "rain"@), "real.weather.rain"@, w);
            let w = value::fixed_warned::<String>(value::part(wind, "direct"@), "real.wind.direct"@, w);
            let w = value::fixed_warned::<String>(value::part(wind, "power"@), "real.wind.power"@, w);
            let w = value::fixed_warned::<Reading>(value::part(wind, "speed"@), "real.wind.speed"@, w);
            let w = value::fixed_warned::<String>(value::part(sun, "sunrise"@), "real.sunriseSunset.sunrise"@, w);
            let w = value::fixed_warned::<String>(value::part(sun, "sunset"@), "real.sunriseSunset.sunset"@, w);
            let w = value::fixed_warned::<Reading>(value::part(weather, "temperatureDiff"@), "real.weather.temperatureDiff"@, w);
            let w = value::fixed_warned::<Reading>(value::part(weather, "airpressure"@), "real.weather.airpressure"@, w);
            let w = value::fixed_warned::<String>(value::part(weather, "icomfort"@), "real.weather.icomfort"@, w);
            let w = value::fixed_warned::<String>(value::part(weather, "rcomfort"@), "real.weather.rcomfort"@, w);
            let w = value::fixed_warned::<String>(value::part(weather, "img"@), "real.weather.img"@, w);
            let w = value::fixed_warned::<Reading>(value::part(wind, "degree"@), "real.wind.degree"@, w);
            w
        },
    }
}

/// What a section gives: the station it names, if any, and its value.
pub struct MappedSection<T> {
    pub station: Option<StationRef>,
    pub value: T,
}

/// Reads the current observation.
pub fn map_real<F: Fn(&str) -> String>(
    raw: Option<&Json>,
    uuid_of: &F,
    context: &mut MappingContext,
) -> (r: Option<MappedSection<ObservedWeather>>)
    requires
        station::total(*uuid_of),
    ensures
        match r {
            None => value::section(raw) is None,
            Some(m) => {
                &&& value::section(raw) matches Some(ms)
                &&& station_from(m.station, json::lookup(ms, "station"@), *uuid_of)
                &&& observed_from(m.value, ms, old(context).base_url@)
            },
        },
        final(context).warned() == real_warned(raw, old(context).base_url@, old(context).warned()),
        final(context).base_url == old(context).base_url,
{
    let ms = match value::decode_section(raw, "real", context) {
        Some(ms) => ms,
        None => {
            return None;
        },
    };
    let station = map_station(json::get(ms, "station"), "real.station", uuid_of, context);
    let weather = value::decode_section(json::get(ms, "weather"), "real.weather", context);
    let wind = value::decode_section(json::get(ms, "wind"), "real.wind", context);
    let alert = map_alert(json::get(ms, "warn"), context);
    let sun = value::decode_section(
        json::get(ms, "sunriseSunset"),
        "real.sunriseSunset",
        context,
    );
    let mut alerts: Vec<WeatherAlert> = Vec::new();
    match alert {
        Some(alert) => {
            alerts.push(alert);
        },
        None => {},
    }
    let value = ObservedWeather {
        publish_time: value::fixed::<String>(json::get(ms, "publish_time"), "real.publish_time", context),
        info: value::fixed::<String>(value::get_part(weather, "info"), "real.weather.info", context),
        temperature: value::fixed::<Reading>(value::get_part(weather, "temperature"), "real.weather.temperature", context),
        feel_temperature: value::fixed::<Reading>(value::get_part(weather, "feelst"), "real.weather.feelst", context),
        humidity: value::fixed::<Reading>(value::get_part(weather, "humidity"), "real.weather.humidity", context),
        rain: value::fixed::<Reading>(value::get_part(weather, "rain"), "real.weather.rain", context),
        wind_direct: value::fixed::<String>(value::get_part(wind, "direct"), "real.wind.direct", context),
        wind_power: value::fixed::<String>(value::get_part(wind, "power"), "real.wind.power", context),
        wind_speed: value::fixed::<Reading>(value::get_part(wind, "speed"), "real.wind.speed", context),
        sunrise: value::fixed::<String>(value::get_part(sun, "sunrise"), "real.sunriseSunset.sunrise", context),
        sunset: value::fixed::<String>(value::get_part(sun, "sunset"), "real.sunriseSunset.sunset", context),
        alerts,
        temperature_diff: value::fixed::<Reading>(value::get_part(weather, "temperatureDiff"), "real.weather.temperatureDiff", context),
        air_pressure: value::fixed::<Reading>(value::get_part(weather, "airpressure"), "real.weather.airpressure", context),
        comfort_index: value::fixed::<String>(value::get_part(weather, "icomfort"), "real.weather.icomfort", context),
        comfort_label: value::fixed::<String>(value::get_part(weather, "rcomfort"), "real.weather.rcomfort", context),
        weather_icon: value::fixed::<String>(value::get_part(weather, "img"), "real.weather.img", context),
        wind_degree: value::fixed::<Reading>(value::get_part(wind, "degree"), "real.wind.degree", context),
    };
    Some(MappedSection { station, value })
}

/// The day half or the night half of a forecast day.
pub struct ForecastPart {
    pub info: Option<String>,
    pub temperature: Option<String>,
    pub icon: Option<String>,
    pub wind_direct: Option<String>,
    pub wind_power: Option<String>,
}

/// The member `name` of the section `group` within a forecast half.
pub open spec fn half_field<'a>(
    v: Option<&'a Json>,
    group: Seq<char>,
    name: Seq<char>,
) -> Option<Seq<char>> {
    match value::section(v) {
        None => None,
        Some(ms) => value::fixed_value::<String>(value::part(inner(ms, group), name)),
    }
}

/// `p` is the forecast half that the section describes.
pub open spec fn part_from(p: ForecastPart, v: Option<&Json>) -> bool {
    &&& text::opt_text(p.info) == half_field(v, "weather"@, "info"@)
    &&& text::opt_text(p.temperature) == half_field(v, "weather"@, "temperature"@)
    &&& text::opt_text(p.icon) == half_field(v, "weather"@, "img"@)
    &&& text::opt_text(p.wind_direct) == half_field(v, "wind"@, "direct"@)
    &&& text::opt_text(p.wind_power) == half_field(v, "wind"@, "power"@)
}

/// The warnings after a forecast half was read.
pub open spec fn part_warned(
    v: Option<&Json>,
    path: Seq<char>,
    w: Seq<Seq<char>>,
) -> Seq<Seq<char>> {
    let w = value::section_warned(v, path, malformed(), w);
    match value::section(v) {
        None => w,
        Some(ms) => {
            let weather = inner(ms, "weather"@);
            let wind = inner(ms, "wind"@);
            let w = value::section_warned(
                json::lookup(ms, "weather"@),
                path + ".weather"@,
                malformed(),
                w,
            );
            let w = value::section_warned(
                json::lookup(ms, "wind"@),
                path + ".wind"@,
                malformed(),
                w,
            );
            let w = value::fixed_warned::<String>(
                value::part(weather, "info"@),
                path + ".weather.info"@,
                w,
            );
            let w = value::fixed_warned::<String>(
                value::part(weather, "temperature"@),
                path + ".weather.temperature"@,
                w,
            );
            let w = value::fixed_warned::<String>(
                value::part(weather, "img"@),
                path + ".weather.img"@,
                w,
            );
            let w = value::fixed_warned::<String>(
                value::part(wind, "direct"@),
                path + ".wind.direct"@,
                w,
            );
            let w = value::fixed_warned::<String>(
                value::part(wind, "power"@),
                path + ".wind.power"@,
                w,
            );
            w
        },
    }
}

/// Reads a forecast half.
pub fn map_forecast_part(raw: Option<&Json>, path: &str, context: &mut MappingContext) -> (r:
    ForecastPart)
    ensures
        part_from(r, raw),
        final(context).warned() == part_warned(raw, path@, old(context).warned()),
        final(context).base_url == old(context).base_url,
{
    let ms = match value::decode_section(raw, path, context) {
        Some(ms) => ms,
        None => {
            return ForecastPart {
                info: None,
                temperature: None,
                icon: None,
                wind_direct: None,
                wind_power: None,
            };
        },
    };
    let weather = value::decode_section(
        json::get(ms, "weather"),
        text::cat(path, ".weather").as_str(),
        context,
    );
    let wind = value::decode_section(
        json::get(ms, "wind"),
        text::cat(path, ".wind").as_str(),
        context,
    );
    ForecastPart {
        info: value::fixed::<String>(
            value::get_part(weather, "info"),
            text::cat(path, ".weather.info").as_str(),
            context,
        ),
        temperature: value::fixed::<String>(
            value::get_part(weather, "temperature"),
            text::cat(path, ".weather.temperature").as_str(),
            context,
        ),
        icon: value::fixed::<String>(
            value::get_part(weather, "img"),
            text::cat(path, ".weather.img").as_str(),
            context,
        ),
        wind_direct: value::fixed::<String>(
            value::get_part(wind, "direct"),
            text::cat(path, ".wind.direct").as_str(),
            context,
        ),
        wind_power: value::fixed::<String>(
            value::get_part(wind, "power"),
            text::cat(path, ".wind.power").as_str(),
            context,
        ),
    }
}

/// The path of an entry of the list at `path`.
pub open spec fn entry_path(path: Seq<char>, index: usize) -> Seq<char> {
    path + "["@ + text::numeral(index as nat) + "]"@
}

/// The path of an entry of the list at `path`.
pub fn entry_path_text(path: &str, index: usize) -> (r: String)
    ensures
        r@ == entry_path(path@, index),
{
    path.to_owned().concat("[").concat(text::decimal(index as u64).as_str()).concat("]")
}

/// The entry is a section with a date.
pub open spec fn day_usable(v: &Json) -> bool {
    value::section(Some(v)) matches Some(ms) && value::fixed_value::<String>(
        json::lookup(ms, "date"@),
    ) is Some
}

/// `d` is the forecast day that the entry describes.
pub open spec fn day_from(d: ForecastDay, v: &Json) -> bool {
    &&& value::section(Some(v)) matches Some(ms)
    &&& value::fixed_value::<String>(json::lookup(ms, "date"@)) == Some(d.date@)
    &&& text::opt_text(d.day_info) == half_field(json::lookup(ms, "day"@), "weather"@, "info"@)
    &&& text::opt_text(d.night_info) == half_field(json::lookup(ms, "night"@), "weather"@, "info"@)
    &&& text::opt_text(d.day_temperature) == half_field(
        json::lookup(ms, "day"@),
        "weather"@,
        "temperature"@,
    )
    &&& text::opt_text(d.night_temperature) == half_field(
        json::lookup(ms, "night"@),
        "weather"@,
        "temperature"@,
    )
    &&& text::opt_text(d.day_weather_icon) == half_field(
        json::lookup(ms, "day"@),
        "weather"@,
        "img"@,
    )
    &&& text::opt_text(d.night_weather_icon) == half_field(
        json::lookup(ms, "night"@),
        "weather"@,
        "img"@,
    )
    &&& text::opt_text(d.day_wind_direct) == half_field(
        json::lookup(ms, "day"@),
        "wind"@,
        "direct"@,
    )
    &&& text::opt_text(d.day_wind_power) == half_field(json::lookup(ms, "day"@), "wind"@, "power"@)
    &&& text::opt_text(d.night_wind_direct) == half_field(
        json::lookup(ms, "night"@),
        "wind"@,
        "direct"@,
    )
    &&& text::opt_text(d.night_wind_power) == half_field(
        json::lookup(ms, "night"@),
        "wind"@,
        "power"@,
    )
    &&& d.wind_direct == d.day_wind_direct
    &&& d.wind_power == d.day_wind_power
    &&& d.precipitation == value::fixed_value::<Reading>(json::lookup(ms, "precipitation"@))
    &&& text::opt_text(d.publish_time) == value::fixed_value::<String>(json::lookup(ms, "pt"@))
}

/// The warnings after a forecast day was read.
pub open spec fn day_warned(v: &Json, path: Seq<char>, w: Seq<Seq<char>>) -> Seq<Seq<char>> {
    let w1 = value::section_warned(Some(v), path, malformed(), w);
    match value::section(Some(v)) {
        None => w1,
        Some(ms) => {
            let w2 = value::fixed_warned::<String>(json::lookup(ms, "date"@), path + ".date"@, w1);
            if value::fixed_value::<String>(json::lookup(ms, "date"@)) is None {
                if w2.len() == w1.len() {
                    w2.push(path + ": missing usable date; entry ignored"@)
                } else {
                    w2
                }
            } else {
                let w3 = part_warned(json::lookup(ms, "day"@), path + ".day"@, w2);
                let w4 = part_warned(json::lookup(ms, "night"@), path + ".night"@, w3);
                let w5 = value::fixed_warned::<Reading>(
                    json::lookup(ms, "precipitation"@),
                    path + ".precipitation"@,
                    w4,
                );
                value::fixed_warned::<String>(json::lookup(ms, "pt"@), path + ".pt"@, w5)
            }
        },
    }
}

/// Reads one forecast day.
pub fn map_forecast_day(raw: &Json, index: usize, context: &mut MappingContext) -> (r: Option<
    ForecastDay,
>)
    ensures
        r is Some <==> day_usable(raw),
        r matches Some(d) ==> day_from(d, raw),
        final(context).warned() == day_warned(
            raw,
            entry_path("predict.detail"@, index),
            old(context).warned(),
        ),
        final(context).base_url == old(context).base_url,
{
    let path_text = entry_path_text("predict.detail", index);
    let path = path_text.as_str();
    let ms = match value::decode_section(Some(raw), path, context) {
        Some(ms) => ms,
        None => {
            return None;
        },
    };
    let before = context.warning_count();
    let date = match value::fixed::<String>(
        json::get(ms, "date"),
        text::cat(path, ".date").as_str(),
        context,
    ) {
        Some(date) => date,
        None => {
            if context.warning_count() == before {
                context.warn(path, ": missing usable date; entry ignored");
            }
            return None;
        },
    };
    let day = map_forecast_part(json::get(ms, "day"), text::cat(path, ".day").as_str(), context);
    let night = map_forecast_part(
        json::get(ms, "night"),
        text::cat(path, ".night").as_str(),
        context,
    );
    let precipitation = value::fixed::<Reading>(
        json::get(ms, "precipitation"),
        text::cat(path, ".precipitation").as_str(),
        context,
    );
    let publish_time = value::fixed::<String>(
        json::get(ms, "pt"),
        text::cat(path, ".pt").as_str(),
        context,
    );
    Some(
        ForecastDay {
            date,
            day_info: day.info,
            night_info: night.info,
            day_temperature: day.temperature,
            night_temperature: night.temperature,
            wind_direct: text::copy_optional(&day.wind_direct),
            wind_power: text::copy_optional(&day.wind_power),
            precipitation,
            publish_time,
            day_weather_icon: day.icon,
            night_weather_icon: night.icon,
            day_wind_direct: day.wind_direct,
            day_wind_power: day.wind_power,
            night_wind_direct: night.wind_direct,
            night_wind_power: night.wind_power,
        },
    )
}

/// `days` are the forecast days of the usable entries, in their order.
pub open spec fn days_from(days: Seq<ForecastDay>, es: Seq<(usize, &Json)>) -> bool
    decreases es.len(),
{
    if es.len() == 0 {
        days.len() == 0
    } else if day_usable(es.last().1) {
        &&& days.len() > 0
        &&& day_from(days.last(), es.last().1)
        &&& days_from(days.drop_last(), es.drop_last())
    } else {
        days_from(days, es.drop_last())
    }
}

/// The warnings after the forecast days were read.
pub open spec fn days_warned(es: Seq<(usize, &Json)>, w: Seq<Seq<char>>) -> Seq<Seq<char>>
    decreases es.len(),
{
    if es.len() == 0 {
        w
    } else {
        day_warned(
            es.last().1,
            entry_path("predict.detail"@, es.last().0),
            days_warned(es.drop_last(), w),
        )
    }
}

/// `p` is the forecast that the members of the section describe.
pub open spec fn forecast_from(p: ForecastReport, ms: Seq<Member>) -> bool {
    &&& text::opt_text(p.publish_time) == value::fixed_value::<String>(
        json::lookup(ms, "publish_time"@),
    )
    &&& days_from(p.days@, value::sequence_value(json::lookup(ms, "detail"@)))
}

/// The warnings after the forecast was read.
pub open spec fn predict_warned(v: Option<&Json>, w: Seq<Seq<char>>) -> Seq<Seq<char>> {
    let w = value::section_warned(v, "predict"@, malformed(), w);
    match value::section(v) {
        None => w,
        Some(ms) => {
            let w = station_warned(json::lookup(ms, "station"@), "predict.station"@, w);
            let w = value::fixed_warned::<String>(
                json::lookup(ms, "publish_time"@),
                "predict.publish_time"@,
                w,
            );
            let w = value::sequence_warned(json::lookup(ms, "detail"@), "predict.detail"@, w);
            days_warned(value::sequence_value(json::lookup(ms, "detail"@)), w)
        },
    }
}

/// Reads the forecast.
pub fn map_predict<F: Fn(&str) -> String>(
    raw: Option<&Json>,
    uuid_of: &F,
    context: &mut MappingContext,
) -> (r: Option<MappedSection<ForecastReport>>)
    requires
        station::total(*uuid_of),
    ensures
        match r {
            None => value::section(raw) is None,
            Some(m) => {
                &&& value::section(raw) matches Some(ms)
                &&& station_from(m.station, json::lookup(ms, "station"@), *uuid_of)
                &&& forecast_from(m.value, ms)
            },
        },
        final(context).warned() == predict_warned(raw, old(context).warned()),
        final(context).base_url == old(context).base_url,
{
    let ms = match value::decode_section(raw, "predict", context) {
        Some(ms) => ms,
        None => {
            return None;
        },
    };
    let station = map_station(json::get(ms, "station"), "predict.station", uuid_of, context);
    let publish_time = value::fixed::<String>(
        json::get(ms, "publish_time"),
        "predict.publish_time",
        context,
    );
    let es = value::sequence(json::get(ms, "detail"), "predict.detail", context);
    let ghost w = context.warned();
    let mut days: Vec<ForecastDay> = Vec::new();
    let mut i: usize = 0;
    while i < es.len()
        invariant
            i <= es@.len(),
            days_from(days@, es@.take(i as int)),
            context.warned() == days_warned(es@.take(i as int), w),
            context.base_url == old(context).base_url,
        decreases es@.len() - i,
    {
        assert(es@.take(i + 1).drop_last() =~= es@.take(i as int));
        assert(es@.take(i + 1).last() == es@[i as int]);
        let ghost before = days@;
        match map_forecast_day(es[i].1, es[i].0, context) {
            Some(day) => {
                days.push(day);
                assert(days@.drop_last() =~= before);
            },
            None => {},
        }
        i = i + 1;
    }
    assert(es@.take(es@.len() as int) =~= es@);
    Some(MappedSection { station, value: ForecastReport { publish_time, days } })
}

/// A station is read where both its province and its city can be; it has the canonical name
/// of the two.
pub proof fn stations_have_province_and_city<F: Fn(&str) -> String>(
    r: Option<StationRef>,
    v: Option<&Json>,
    uuid_of: F,
    ms: Seq<Member>,
)
    requires
        station_from(r, v, uuid_of),
    ensures
        value::section(v) is None ==> r is None,
        value::section(v) == Some(ms) ==> (r is Some <==> value::usable::<String>(
            ms,
            "province"@,
        ) is Some && value::usable::<String>(ms, "city"@) is Some),
        value::section(v) == Some(ms) && r is Some ==> {
            let s = r.unwrap();
            &&& value::usable::<String>(ms, "province"@) == Some(s.province@)
            &&& value::usable::<String>(ms, "city"@) == Some(s.city@)
            &&& s.name@ == station::canonical_name(s.province@, s.city@)
            &&& station::identified(uuid_of, s.name@, s.unified_uuid@)
        },
{
}

/// An alert has under each of its names what is read there, its addresses resolved against
/// the base, and is not one that was taken over.
pub proof fn alerts_are_read_by_their_names(a: WeatherAlert, ms: Seq<Member>, base: Seq<char>)
    requires
        alert_from(a, ms, base),
    ensures
        a.alert is Some,
        value::seen_opt(a.alert) == value::usable::<String>(ms, "alert"@),
        value::seen_opt(a.province) == value::usable::<String>(ms, "province"@),
        value::seen_opt(a.city) == value::usable::<String>(ms, "city"@),
        value::seen_opt(a.issue_content) == value::usable::<String>(ms, "issuecontent"@),
        value::seen_opt(a.prevention) == value::usable::<String>(ms, "fmeans"@),
        value::seen_opt(a.signal_type) == value::usable::<String>(ms, "signaltype"@),
        value::seen_opt(a.signal_level) == value::usable::<String>(ms, "signallevel"@),
        value::seen_opt(a.icon_name) == value::usable::<String>(ms, "pic2"@),
        text::opt_text(a.url) == value::resource_value(json::lookup(ms, "url"@), base),
        text::opt_text(a.icon_url) == value::resource_value(json::lookup(ms, "pic"@), base),
        a.icon_resource_id is None,
        !a.inherited,
{
}

/// There is an alert where its text can be read, and nowhere else.
pub proof fn alerts_have_a_text(v: Option<&Json>, ms: Seq<Member>)
    ensures
        value::section(v) is None ==> !has_alert(v),
        value::section(v) == Some(ms) ==> (has_alert(v) <==> value::usable::<String>(ms, "alert"@)
            is Some),
{
}

/// An observation has under each of its names what is read there, in the parts on weather,
/// wind, and sunrise and sunset; what is in a part that is absent is absent too. It has one
/// alert where there is one, and else none.
pub proof fn observations_are_read_by_their_names(
    o: ObservedWeather,
    ms: Seq<Member>,
    base: Seq<char>,
    part: Seq<Member>,
)
    requires
        observed_from(o, ms, base),
    ensures
        value::seen_opt(o.publish_time) == value::usable::<String>(ms, "publish_time"@),
        value::section(json::lookup(ms, "weather"@)) is None ==> o.info is None && o.temperature is None && o.feel_temperature is None && o.humidity is None && o.rain is None && o.temperature_diff is None && o.air_pressure is None && o.comfort_index is None && o.comfort_label is None && o.weather_icon is None,
        value::section(json::lookup(ms, "weather"@)) == Some(part) ==> {
            &&& value::seen_opt(o.info) == value::usable::<String>(part, "info"@)
            &&& value::seen_opt(o.temperature) == value::usable::<Reading>(part, "temperature"@)
            &&& value::seen_opt(o.feel_temperature) == value::usable::<Reading>(part, "feelst"@)
            &&& value::seen_opt(o.humidity) == value::usable::<Reading>(part, "humidity"@)
            &&& value::seen_opt(o.rain) == value::usable::<Reading>(part, "rain"@)
            &&& value::seen_opt(o.temperature_diff) == value::usable::<Reading>(part, "temperatureDiff"@)
            &&& value::seen_opt(o.air_pressure) == value::usable::<Reading>(part, "airpressure"@)
            &&& value::seen_opt(o.comfort_index) == value::usable::<String>(part, "icomfort"@)
            &&& value::seen_opt(o.comfort_label) == value::usable::<String>(part, "rcomfort"@)
            &&& value::seen_opt(o.weather_icon) == value::usable::<String>(part, "img"@)
        },
        value::section(json::lookup(ms, "wind"@)) is None ==> o.wind_direct is None && o.wind_power is None && o.wind_speed is None && o.wind_degree is None,
        value::section(json::lookup(ms, "wind"@)) == Some(part) ==> {
            &&& value::seen_opt(o.wind_direct) == value::usable::<String>(part, "direct"@)
            &&& value::seen_opt(o.wind_power) == value::usable::<String>(part, "power"@)
            &&& value::seen_opt(o.wind_speed) == value::usable::<Reading>(part, "speed"@)
            &&& value::seen_opt(o.wind_degree) == value::usable::<Reading>(part, "degree"@)
        },
        value::section(json::lookup(ms, "sunriseSunset"@)) is None ==> o.sunrise is None && o.sunset is None,
        value::section(json::lookup(ms, "sunriseSunset"@)) == Some(part) ==> {
            &&& value::seen_opt(o.sunrise) == value::usable::<String>(part, "sunrise"@)
            &&& value::seen_opt(o.sunset) == value::usable::<String>(part, "sunset"@)
        },
        o.alerts@.len() <= 1,
        o.alerts@.len() == 1 <==> has_alert(json::lookup(ms, "warn"@)),
        value::section(json::lookup(ms, "warn"@)) == Some(part) && o.alerts@.len() == 1
            ==> alert_from(o.alerts@[0], part, base),
{
}

/// A half of a forecast day has what is read in its parts on weather and wind.
pub proof fn halves_are_read_by_their_names(
    p: ForecastPart,
    v: Option<&Json>,
    ms: Seq<Member>,
    part: Seq<Member>,
)
    requires
        part_from(p, v),
    ensures
        value::section(v) is None ==> p.info is None && p.temperature is None && p.icon is None
            && p.wind_direct is None && p.wind_power is None,
        value::section(v) == Some(ms) && value::section(json::lookup(ms, "weather"@)) == Some(part)
            ==> {
            &&& text::opt_text(p.info) == value::usable::<String>(part, "info"@)
            &&& text::opt_text(p.temperature) == value::usable::<String>(part, "temperature"@)
            &&& text::opt_text(p.icon) == value::usable::<String>(part, "img"@)
        },
        value::section(v) == Some(ms) && value::section(json::lookup(ms, "wind"@)) == Some(part)
            ==> {
            &&& text::opt_text(p.wind_direct) == value::usable::<String>(part, "direct"@)
            &&& text::opt_text(p.wind_power) == value::usable::<String>(part, "power"@)
        },
        value::section(v) == Some(ms) && value::section(json::lookup(ms, "weather"@)) is None
            ==> p.info is None && p.temperature is None && p.icon is None,
        value::section(v) == Some(ms) && value::section(json::lookup(ms, "wind"@)) is None
            ==> p.wind_direct is None && p.wind_power is None,
{
}

/// A forecast day has its date, its two halves, its precipitation and the time of its
/// publication under their names; its wind is that of the day.
pub proof fn forecast_days_are_read_by_their_names(
    d: ForecastDay,
    v: &Json,
    ms: Seq<Member>,
    day: ForecastPart,
    night: ForecastPart,
)
    requires
        day_from(d, v),
        value::section(Some(v)) == Some(ms),
        part_from(day, json::lookup(ms, "day"@)),
        part_from(night, json::lookup(ms, "night"@)),
    ensures
        value::usable::<String>(ms, "date"@) == Some(d.date@),
        text::opt_text(d.day_info) == text::opt_text(day.info),
        text::opt_text(d.day_temperature) == text::opt_text(day.temperature),
        text::opt_text(d.day_weather_icon) == text::opt_text(day.icon),
        text::opt_text(d.day_wind_direct) == text::opt_text(day.wind_direct),
        text::opt_text(d.day_wind_power) == text::opt_text(day.wind_power),
        text::opt_text(d.wind_direct) == text::opt_text(day.wind_direct),
        text::opt_text(d.wind_power) == text::opt_text(day.wind_power),
        text::opt_text(d.night_info) == text::opt_text(night.info),
        text::opt_text(d.night_temperature) == text::opt_text(night.temperature),
        text::opt_text(d.night_weather_icon) == text::opt_text(night.icon),
        text::opt_text(d.night_wind_direct) == text::opt_text(night.wind_direct),
        text::opt_text(d.night_wind_power) == text::opt_text(night.wind_power),
        d.precipitation == value::usable::<Reading>(ms, "precipitation"@),
        text::opt_text(d.publish_time) == value::usable::<String>(ms, "pt"@),
{
}

/// A forecast day is usable where it is an object with a date that can be read.
pub proof fn forecast_days_have_a_date(v: &Json, ms: Seq<Member>)
    ensures
        value::section(Some(v)) is None ==> !day_usable(v),
        value::section(Some(v)) == Some(ms) ==> (day_usable(v) <==> value::usable::<String>(
            ms,
            "date"@,
        ) is Some),
{
}

/// A forecast has the time of its publication, and a day for each usable entry of its
/// details.
pub proof fn forecasts_are_read_by_their_names(p: ForecastReport, ms: Seq<Member>)
    requires
        forecast_from(p, ms),
    ensures
        text::opt_text(p.publish_time) == value::usable::<String>(ms, "publish_time"@),
        days_from(p.days@, value::sequence_value(json::lookup(ms, "detail"@))),
{
}

/// An entry of a list is told by the list and its place.
pub proof fn entries_are_told_by_their_place(path: Seq<char>, index: usize)
    ensures
        entry_path(path, index) == path + "["@ + text::numeral(index as nat) + "]"@,
        malformed() == ": malformed object; ignored"@,
{
}

/// Forecast days stand in the order of the entries that they are read from.
pub proof fn forecast_days_keep_their_order(rs: Seq<ForecastDay>, es: Seq<(usize, &Json)>, k: int, m: int)
    requires
        days_from(rs, es),
        0 <= k < m < es.len(),
        day_usable(es[k].1),
        day_usable(es[m].1),
    ensures
        exists|i: int, j: int|
            0 <= i < j < rs.len() && day_from(#[trigger] rs[i], es[k].1) && day_from(#[trigger] rs[j], es[m].1),
    decreases es.len(),
{
    let rest = es.drop_last();
    assert(rest[k] == es[k]);
    if m < rest.len() {
        assert(rest[m] == es[m]);
        let shorter = if day_usable(es.last().1) { rs.drop_last() } else { rs };
        forecast_days_keep_their_order(shorter, rest, k, m);
        let (i, j) = choose|i: int, j: int|
            0 <= i < j < shorter.len() && day_from(#[trigger] shorter[i], es[k].1) && day_from(#[trigger] shorter[j], es[m].1);
        assert(rs[i] == shorter[i] && rs[j] == shorter[j]);
    } else {
        usable_entries_give_days(rs.drop_last(), rest, k);
        let i = choose|i: int| 0 <= i < rs.drop_last().len() && day_from(#[trigger] rs.drop_last()[i], es[k].1);
        let j = rs.len() - 1;
        assert(rs[i] == rs.drop_last()[i]);
        assert(rs[j] == rs.last());
    }
}

/// Every usable entry gives a forecast day, and every day is that of a usable entry.
pub proof fn usable_entries_give_days(rs: Seq<ForecastDay>, es: Seq<(usize, &Json)>, k: int)
    requires
        days_from(rs, es),
    ensures
        0 <= k < es.len() && day_usable(es[k].1) ==> exists|i: int|
            0 <= i < rs.len() && day_from(#[trigger] rs[i], es[k].1),
        0 <= k < rs.len() ==> exists|i: int|
            0 <= i < es.len() && day_usable((#[trigger] es[i]).1) && day_from(rs[k], es[i].1),
        rs.len() <= es.len(),
    decreases es.len(),
{
    if es.len() > 0 {
        let rest = es.drop_last();
        let used = day_usable(es.last().1);
        let shorter = if used { rs.drop_last() } else { rs };
        usable_entries_give_days(shorter, rest, k);
        if 0 <= k < es.len() && day_usable(es[k].1) {
            if k < rest.len() {
                assert(rest[k] == es[k]);
                let i = choose|i: int| 0 <= i < shorter.len() && day_from(#[trigger] shorter[i], es[k].1);
                assert(rs[i] == shorter[i]);
            } else {
                assert(rs[rs.len() - 1] == rs.last());
            }
        }
        if 0 <= k < rs.len() {
            if k < shorter.len() {
                assert(rs[k] == shorter[k]);
                let i = choose|i: int| 0 <= i < rest.len() && day_usable((#[trigger] rest[i]).1) && day_from(rs[k], rest[i].1);
                assert(es[i] == rest[i]);
            } else {
                assert(es[es.len() - 1] == es.last());
                assert(rs[k] == rs.last());
            }
        }
    }
}

/// A station of which only one of province and city can be read is told, by what is of the
/// wrong kind or as incomplete.
pub proof fn incomplete_stations_are_told(v: Option<&Json>, path: Seq<char>, w: Seq<Seq<char>>, ms: Seq<Member>)
    ensures
        w.is_prefix_of(station_warned(v, path, w)),
        value::section(v) is None ==> station_warned(v, path, w) == value::section_warned(v, path, ": malformed object; ignored"@, w),
        value::section(v) == Some(ms) && station_value(v) is None ==> station_warned(v, path, w).len() > w.len(),
        value::section(v) == Some(ms) && station_value(v) is Some ==> station_warned(v, path, w) == w,
        value::section(v) == Some(ms) && json::lookup(ms, "province"@) is None && json::lookup(ms, "city"@) is None ==> station_warned(v, path, w) == w.push(path + ": incomplete station; ignored"@),
        value::section(v) == Some(ms) && json::lookup(ms, "province"@) is Some && <String as value::Scalar>::read(*json::lookup(ms, "province"@).unwrap()) is Invalid ==> station_warned(v, path, w).contains(path + ".province"@ + (": expected "@ + "string"@ + "; field ignored"@)),
        value::section(v) == Some(ms) && json::lookup(ms, "city"@) is Some && <String as value::Scalar>::read(*json::lookup(ms, "city"@).unwrap()) is Invalid ==> station_warned(v, path, w).contains(path + ".city"@ + (": expected "@ + "string"@ + "; field ignored"@)),
{
    value::lemma_section_told(v, path, malformed(), w);
    if let Some(members) = value::section(v) {
        let w2 = value::fixed_warned::<String>(json::lookup(members, "province"@), path + ".province"@, w);
        value::lemma_fixed_told::<String>(json::lookup(members, "province"@), path + ".province"@, w);
        let w3 = value::fixed_warned::<String>(json::lookup(members, "city"@), path + ".city"@, w2);
        value::lemma_fixed_told::<String>(json::lookup(members, "city"@), path + ".city"@, w2);
        let end = station_warned(v, path, w);
        value::lemma_pushed(w3, path + ": incomplete station; ignored"@);
        value::lemma_pushed(end, end[0]);
        value::lemma_prefix(w3, end, end);
        value::lemma_prefix(w2, w3, end);
        value::lemma_prefix(w, w2, end);
        value::lemma_prefix(w, w2, w3);
        assert(w3.take(w.len() as int).len() == w.len());
    }
}

/// Each field of an alert that is of the wrong kind is told, where the alert has a text; where
/// that is of the wrong kind it alone is told.
pub proof fn alerts_tell_what_is_unusable(v: Option<&Json>, base: Seq<char>, w: Seq<Seq<char>>, ms: Seq<Member>)
    requires
        value::section(v) == Some(ms),
    ensures
        w.is_prefix_of(alert_warned(v, base, w)),
        json::lookup(ms, "alert"@) is Some && <String as value::Scalar>::read(*json::lookup(ms, "alert"@).unwrap()) is Invalid ==> alert_warned(v, base, w).contains("real.warn.alert"@ + (": expected "@ + "string"@ + "; field ignored"@)),
        !has_alert(v) ==> alert_warned(v, base, w) == value::fixed_warned::<String>(json::lookup(ms, "alert"@), "real.warn.alert"@, w),
        has_alert(v) && json::lookup(ms, "province"@) is Some && <String as value::Scalar>::read(*json::lookup(ms, "province"@).unwrap()) is Invalid ==> alert_warned(v, base, w).contains("real.warn.province"@ + (": expected "@ + "string"@ + "; field ignored"@)),
        has_alert(v) && json::lookup(ms, "city"@) is Some && <String as value::Scalar>::read(*json::lookup(ms, "city"@).unwrap()) is Invalid ==> alert_warned(v, base, w).contains("real.warn.city"@ + (": expected "@ + "string"@ + "; field ignored"@)),
        has_alert(v) && json::lookup(ms, "issuecontent"@) is Some && <String as value::Scalar>::read(*json::lookup(ms, "issuecontent"@).unwrap()) is Invalid ==> alert_warned(v, base, w).contains("real.warn.issuecontent"@ + (": expected "@ + "string"@ + "; field ignored"@)),
        has_alert(v) && json::lookup(ms, "fmeans"@) is Some && <String as value::Scalar>::read(*json::lookup(ms, "fmeans"@).unwrap()) is Invalid ==> alert_warned(v, base, w).contains("real.warn.fmeans"@ + (": expected "@ + "string"@ + "; field ignored"@)),
        has_alert(v) && json::lookup(ms, "signaltype"@) is Some && <String as value::Scalar>::read(*json::lookup(ms, "signaltype"@).unwrap()) is Invalid ==> alert_warned(v, base, w).contains("real.warn.signaltype"@ + (": expected "@ + "string"@ + "; field ignored"@)),
        has_alert(v) && json::lookup(ms, "signallevel"@) is Some && <String as value::Scalar>::read(*json::lookup(ms, "signallevel"@).unwrap()) is Invalid ==> alert_warned(v, base, w).contains("real.warn.signallevel"@ + (": expected "@ + "string"@ + "; field ignored"@)),
        has_alert(v) && json::lookup(ms, "pic2"@) is Some && <String as value::Scalar>::read(*json::lookup(ms, "pic2"@).unwrap()) is Invalid ==> alert_warned(v, base, w).contains("real.warn.pic2"@ + (": expected "@ + "string"@ + "; field ignored"@)),
        has_alert(v) && json::lookup(ms, "url"@) is Some && value::reference_of(*json::lookup(ms, "url"@).unwrap()) is Invalid ==> alert_warned(v, base, w).contains("real.warn.url"@ + ": expected resource URL string; field ignored"@),
        has_alert(v) && json::lookup(ms, "url"@) is Some && value::reference_of(*json::lookup(ms, "url"@).unwrap()) is Value && value::resource_value(json::lookup(ms, "url"@), base) is None ==> alert_warned(v, base, w).contains("real.warn.url"@ + ": invalid resource URL; field ignored"@),
        has_alert(v) && json::lookup(ms, "pic"@) is Some && value::reference_of(*json::lookup(ms, "pic"@).unwrap()) is Invalid ==> alert_warned(v, base, w).contains("real.warn.pic"@ + ": expected resource URL string; field ignored"@),
        has_alert(v) && json::lookup(ms, "pic"@) is Some && value::reference_of(*json::lookup(ms, "pic"@).unwrap()) is Value && value::resource_value(json::lookup(ms, "pic"@), base) is None ==> alert_warned(v, base, w).contains("real.warn.pic"@ + ": invalid resource URL; field ignored"@),
{
    value::lemma_fixed_told::<String>(json::lookup(ms, "alert"@), "real.warn.alert"@, w);
    if has_alert(v) {
        let w0 = w;
        let w1 = value::fixed_warned::<String>(json::lookup(ms, "alert"@), "real.warn.alert"@, w0);
        value::lemma_fixed_told::<String>(json::lookup(ms, "alert"@), "real.warn.alert"@, w0);
        let w2 = value::fixed_warned::<String>(json::lookup(ms, "province"@), "real.warn.province"@, w1);
        value::lemma_fixed_told::<String>(json::lookup(ms, "province"@), "real.warn.province"@, w1);
        let w3 = value::fixed_warned::<String>(json::lookup(ms, "city"@), "real.warn.city"@, w2);
        value::lemma_fixed_told::<String>(json::lookup(ms, "city"@), "real.warn.city"@, w2);
        let w4 = value::resource_warned(json::lookup(ms, "url"@), base, "real.warn.url"@, w3);
        value::lemma_resource_told(json::lookup(ms, "url"@), base, "real.warn.url"@, w3);
        let w5 = value::fixed_warned::<String>(json::lookup(ms, "issuecontent"@), "real.warn.issuecontent"@, w4);
        value::lemma_fixed_told::<String>(json::lookup(ms, "issuecontent"@), "real.warn.issuecontent"@, w4);
        let w6 = value::fixed_warned::<String>(json::lookup(ms, "fmeans"@), "real.warn.fmeans"@, w5);
        value::lemma_fixed_told::<String>(json::lookup(ms, "fmeans"@), "real.warn.fmeans"@, w5);
        let w7 = value::fixed_warned::<String>(json::lookup(ms, "signaltype"@), "real.warn.signaltype"@, w6);
        value::lemma_fixed_told::<String>(json::lookup(ms, "signaltype"@), "real.warn.signaltype"@, w6);
        let w8 = value::fixed_warned::<String>(json::lookup(ms, "signallevel"@), "real.warn.signallevel"@, w7);
        value::lemma_fixed_told::<String>(json::lookup(ms, "signallevel"@), "real.warn.signallevel"@, w7);
        let w9 = value::resource_warned(json::lookup(ms, "pic"@), base, "real.warn.pic"@, w8);
        value::lemma_resource_told(json::lookup(ms, "pic"@), base, "real.warn.pic"@, w8);
        let w10 = value::fixed_warned::<String>(json::lookup(ms, "pic2"@), "real.warn.pic2"@, w9);
        value::lemma_fixed_told::<String>(json::lookup(ms, "pic2"@), "real.warn.pic2"@, w9);
        let end = alert_warned(v, base, w);
        value::lemma_pushed(end, end[0]);
        assert(w10 == end);
        value::lemma_prefix(w10, end, end);
        value::lemma_prefix(w9, w10, end);
        value::lemma_prefix(w8, w9, end);
        value::lemma_prefix(w7, w8, end);
        value::lemma_prefix(w6, w7, end);
        value::lemma_prefix(w5, w6, end);
        value::lemma_prefix(w4, w5, end);
        value::lemma_prefix(w3, w4, end);
        value::lemma_prefix(w2, w3, end);
        value::lemma_prefix(w1, w2, end);
        value::lemma_prefix(w0, w1, end);
    }
}

/// A section of an alert, an observation, a half or a forecast that holds something and is no
/// object is told, and one that is absent is not.
pub proof fn sections_that_are_no_objects_are_told(v: Json, base: Seq<char>, path: Seq<char>, w: Seq<Seq<char>>)
    ensures
        alert_warned(None, base, w) == w,
        real_warned(None, base, w) == w,
        part_warned(None, path, w) == w,
        predict_warned(None, w) == w,
        station_warned(None, path, w) == w,
        json::missing(v) ==> alert_warned(Some(&v), base, w) == w && real_warned(Some(&v), base, w) == w
            && part_warned(Some(&v), path, w) == w && predict_warned(Some(&v), w) == w && day_warned(&v, path, w) == w,
        !json::missing(v) && !(v is Object) ==> {
            &&& alert_warned(Some(&v), base, w) == w.push("real.warn"@ + ": malformed object; ignored"@)
            &&& real_warned(Some(&v), base, w) == w.push("real"@ + ": malformed object; ignored"@)
            &&& part_warned(Some(&v), path, w) == w.push(path + ": malformed object; ignored"@)
            &&& predict_warned(Some(&v), w) == w.push("predict"@ + ": malformed object; ignored"@)
            &&& day_warned(&v, path, w) == w.push(path + ": malformed object; ignored"@)
        },
{
}

proof fn lemma_alert_told(v: Option<&Json>, base: Seq<char>, w: Seq<Seq<char>>)
    ensures
        w.is_prefix_of(alert_warned(v, base, w)),
{
    value::lemma_section_told(v, "real.warn"@, malformed(), w);
    if let Some(ms) = value::section(v) {
        alerts_tell_what_is_unusable(v, base, w, ms);
    }
}

proof fn lemma_part_told(v: Option<&Json>, path: Seq<char>, w: Seq<Seq<char>>)
    ensures
        w.is_prefix_of(part_warned(v, path, w)),
{
    value::lemma_section_told(v, path, malformed(), w);
    if let Some(ms) = value::section(v) {
        halves_tell_what_is_unusable(v, path, w, ms);
    }
}

proof fn lemma_day_told(v: &Json, path: Seq<char>, w: Seq<Seq<char>>)
    ensures
        w.is_prefix_of(day_warned(v, path, w)),
{
    value::lemma_section_told(Some(v), path, malformed(), w);
    if let Some(ms) = value::section(Some(v)) {
        forecast_days_tell_what_is_unusable(v, path, w, ms);
    }
}

/// Each part of an observation that is no object, and each field that is of the wrong kind,
/// is told.
pub proof fn observations_tell_what_is_unusable(v: Option<&Json>, base: Seq<char>, w: Seq<Seq<char>>, ms: Seq<Member>)
    requires
        value::section(v) == Some(ms),
    ensures
        w.is_prefix_of(real_warned(v, base, w)),
        json::lookup(ms, "weather"@) is Some && !json::missing(*json::lookup(ms, "weather"@).unwrap()) && !(*json::lookup(ms, "weather"@).unwrap() is Object) ==> real_warned(v, base, w).contains("real.weather"@ + ": malformed object; ignored"@),
        json::lookup(ms, "wind"@) is Some && !json::missing(*json::lookup(ms, "wind"@).unwrap()) && !(*json::lookup(ms, "wind"@).unwrap() is Object) ==> real_warned(v, base, w).contains("real.wind"@ + ": malformed object; ignored"@),
        json::lookup(ms, "sunriseSunset"@) is Some && !json::missing(*json::lookup(ms, "sunriseSunset"@).unwrap()) && !(*json::lookup(ms, "sunriseSunset"@).unwrap() is Object) ==> real_warned(v, base, w).contains("real.sunriseSunset"@ + ": malformed object; ignored"@),
        json::lookup(ms, "publish_time"@) is Some && <String as value::Scalar>::read(*json::lookup(ms, "publish_time"@).unwrap()) is Invalid ==> real_warned(v, base, w).contains("real.publish_time"@ + (": expected "@ + "string"@ + "; field ignored"@)),
        value::part(inner(ms, "weather"@), "info"@) is Some && <String as value::Scalar>::read(*value::part(inner(ms, "weather"@), "info"@).unwrap()) is Invalid ==> real_warned(v, base, w).contains("real.weather.info"@ + (": expected "@ + "string"@ + "; field ignored"@)),
        value::part(inner(ms, "weather"@), "temperature"@) is Some && <Reading as value::Scalar>::read(*value::part(inner(ms, "weather"@), "temperature"@).unwrap()) is Invalid ==> real_warned(v, base, w).contains("real.weather.temperature"@ + (": expected "@ + "number"@ + "; field ignored"@)),
        value::part(inner(ms, "weather"@), "feelst"@) is Some && <Reading as value::Scalar>::read(*value::part(inner(ms, "weather"@), "feelst"@).unwrap()) is Invalid ==> real_warned(v, base, w).contains("real.weather.feelst"@ + (": expected "@ + "number"@ + "; field ignored"@)),
        value::part(inner(ms, "weather"@), "humidity"@) is Some && <Reading as value::Scalar>::read(*value::part(inner(ms, "weather"@), "humidity"@).unwrap()) is Invalid ==> real_warned(v, base, w).contains("real.weather.humidity"@ + (": expected "@ + "number"@ + "; field ignored"@)),
        value::part(inner(ms, "weather"@), "rain"@) is Some && <Reading as value::Scalar>::read(*value::part(inner(ms, "weather"@), "rain"@).unwrap()) is Invalid ==> real_warned(v, base, w).contains("real.weather.rain"@ + (": expected "@ + "number"@ + "; field ignored"@)),
        value::part(inner(ms, "wind"@), "direct"@) is Some && <String as value::Scalar>::read(*value::part(inner(ms, "wind"@), "direct"@).unwrap()) is Invalid ==> real_warned(v, base, w).contains("real.wind.direct"@ + (": expected "@ + "string"@ + "; field ignored"@)),
        value::part(inner(ms, "wind"@), "power"@) is Some && <String as value::Scalar>::read(*value::part(inner(ms, "wind"@), "power"@).unwrap()) is Invalid ==> real_warned(v, base, w).contains("real.wind.power"@ + (": expected "@ + "string"@ + "; field ignored"@)),
        value::part(inner(ms, "wind"@), "speed"@) is Some && <Reading as value::Scalar>::read(*value::part(inner(ms, "wind"@), "speed"@).unwrap()) is Invalid ==> real_warned(v, base, w).contains("real.wind.speed"@ + (": expected "@ + "number"@ + "; field ignored"@)),
        value::part(inner(ms, "sunriseSunset"@), "sunrise"@) is Some && <String as value::Scalar>::read(*value::part(inner(ms, "sunriseSunset"@), "sunrise"@).unwrap()) is Invalid ==> real_warned(v, base, w).contains("real.sunriseSunset.sunrise"@ + (": expected "@ + "string"@ + "; field ignored"@)),
        value::part(inner(ms, "sunriseSunset"@), "sunset"@) is Some && <String as value::Scalar>::read(*value::part(inner(ms, "sunriseSunset"@), "sunset"@).unwrap()) is Invalid ==> real_warned(v, base, w).contains("real.sunriseSunset.sunset"@ + (": expected "@ + "string"@ + "; field ignored"@)),
        value::part(inner(ms, "weather"@), "temperatureDiff"@) is Some && <Reading as value::Scalar>::read(*value::part(inner(ms, "weather"@), "temperatureDiff"@).unwrap()) is Invalid ==> real_warned(v, base, w).contains("real.weather.temperatureDiff"@ + (": expected "@ + "number"@ + "; field ignored"@)),
        value::part(inner(ms, "weather"@), "airpressure"@) is Some && <Reading as value::Scalar>::read(*value::part(inner(ms, "weather"@), "airpressure"@).unwrap()) is Invalid ==> real_warned(v, base, w).contains("real.weather.airpressure"@ + (": expected "@ + "number"@ + "; field ignored"@)),
        value::part(inner(ms, "weather"@), "icomfort"@) is Some && <String as value::Scalar>::read(*value::part(inner(ms, "weather"@), "icomfort"@).unwrap()) is Invalid ==> real_warned(v, base, w).contains("real.weather.icomfort"@ + (": expected "@ + "string"@ + "; field ignored"@)),
        value::part(inner(ms, "weather"@), "rcomfort"@) is Some && <String as value::Scalar>::read(*value::part(inner(ms, "weather"@), "rcomfort"@).unwrap()) is Invalid ==> real_warned(v, base, w).contains("real.weather.rcomfort"@ + (": expected "@ + "string"@ + "; field ignored"@)),
        value::part(inner(ms, "weather"@), "img"@) is Some && <String as value::Scalar>::read(*value::part(inner(ms, "weather"@), "img"@).unwrap()) is Invalid ==> real_warned(v, base, w).contains("real.weather.img"@ + (": expected "@ + "string"@ + "; field ignored"@)),
        value::part(inner(ms, "wind"@), "degree"@) is Some && <Reading as value::Scalar>::read(*value::part(inner(ms, "wind"@), "degree"@).unwrap()) is Invalid ==> real_warned(v, base, w).contains("real.wind.degree"@ + (": expected "@ + "number"@ + "; field ignored"@)),
{
    let w0 = w;
    let w1 = station_warned(json::lookup(ms, "station"@), "real.station"@, w0);
    incomplete_stations_are_told(json::lookup(ms, "station"@), "real.station"@, w0, ms);
    let w2 = value::section_warned(json::lookup(ms, "weather"@), "real.weather"@, malformed(), w1);
    value::lemma_section_told(json::lookup(ms, "weather"@), "real.weather"@, malformed(), w1);
    let w3 = value::section_warned(json::lookup(ms, "wind"@), "real.wind"@, malformed(), w2);
    value::lemma_section_told(json::lookup(ms, "wind"@), "real.wind"@, malformed(), w2);
    let w4 = alert_warned(json::lookup(ms, "warn"@), base, w3);
    lemma_alert_told(json::lookup(ms, "warn"@), base, w3);
    let w5 = value::section_warned(json::lookup(ms, "sunriseSunset"@), "real.sunriseSunset"@, malformed(), w4);
    value::lemma_section_told(json::lookup(ms, "sunriseSunset"@), "real.sunriseSunset"@, malformed(), w4);
    let w6 = value::fixed_warned::<String>(json::lookup(ms, "publish_time"@), "real.publish_time"@, w5);
    value::lemma_fixed_told::<String>(json::lookup(ms, "publish_time"@), "real.publish_time"@, w5);
    let w7 = value::fixed_warned::<String>(value::part(inner(ms, "weather"@), "info"@), "real.weather.info"@, w6);
    value::lemma_fixed_told::<String>(value::part(inner(ms, "weather"@), "info"@), "real.weather.info"@, w6);
    let w8 = value::fixed_warned::<Reading>(value::part(inner(ms, "weather"@), "temperature"@), "real.weather.temperature"@, w7);
    value::lemma_fixed_told::<Reading>(value::part(inner(ms, "weather"@), "temperature"@), "real.weather.temperature"@, w7);
    let w9 = value::fixed_warned::<Reading>(value::part(inner(ms, "weather"@), "feelst"@), "real.weather.feelst"@, w8);
    value::lemma_fixed_told::<Reading>(value::part(inner(ms, "weather"@), "feelst"@), "real.weather.feelst"@, w8);
    let w10 = value::fixed_warned::<Reading>(value::part(inner(ms, "weather"@), "humidity"@), "real.weather.humidity"@, w9);
    value::lemma_fixed_told::<Reading>(value::part(inner(ms, "weather"@), "humidity"@), "real.weather.humidity"@, w9);
    let w11 = value::fixed_warned::<Reading>(value::part(inner(ms, "weather"@), "rain"@), "real.weather.rain"@, w10);
    value::lemma_fixed_told::<Reading>(value::part(inner(ms, "weather"@), "rain"@), "real.weather.rain"@, w10);
    let w12 = value::fixed_warned::<String>(value::part(inner(ms, "wind"@), "direct"@), "real.wind.direct"@, w11);
    value::lemma_fixed_told::<String>(value::part(inner(ms, "wind"@), "direct"@), "real.wind.direct"@, w11);
    let w13 = value::fixed_warned::<String>(value::part(inner(ms, "wind"@), "power"@), "real.wind.power"@, w12);
    value::lemma_fixed_told::<String>(value::part(inner(ms, "wind"@), "power"@), "real.wind.power"@, w12);
    let w14 = value::fixed_warned::<Reading>(value::part(inner(ms, "wind"@), "speed"@), "real.wind.speed"@, w13);
    value::lemma_fixed_told::<Reading>(value::part(inner(ms, "wind"@), "speed"@), "real.wind.speed"@, w13);
    let w15 = value::fixed_warned::<String>(value::part(inner(ms, "sunriseSunset"@), "sunrise"@), "real.sunriseSunset.sunrise"@, w14);
    value::lemma_fixed_told::<String>(value::part(inner(ms, "sunriseSunset"@), "sunrise"@), "real.sunriseSunset.sunrise"@, w14);
    let w16 = value::fixed_warned::<String>(value::part(inner(ms, "sunriseSunset"@), "sunset"@), "real.sunriseSunset.sunset"@, w15);
    value::lemma_fixed_told::<String>(value::part(inner(ms, "sunriseSunset"@), "sunset"@), "real.sunriseSunset.sunset"@, w15);
    let w17 = value::fixed_warned::<Reading>(value::part(inner(ms, "weather"@), "temperatureDiff"@), "real.weather.temperatureDiff"@, w16);
    value::lemma_fixed_told::<Reading>(value::part(inner(ms, "weather"@), "temperatureDiff"@), "real.weather.temperatureDiff"@, w16);
    let w18 = value::fixed_warned::<Reading>(value::part(inner(ms, "weather"@), "airpressure"@), "real.weather.airpressure"@, w17);
    value::lemma_fixed_told::<Reading>(value::part(inner(ms, "weather"@), "airpressure"@), "real.weather.airpressure"@, w17);
    let w19 = value::fixed_warned::<String>(value::part(inner(ms, "weather"@), "icomfort"@), "real.weather.icomfort"@, w18);
    value::lemma_fixed_told::<String>(value::part(inner(ms, "weather"@), "icomfort"@), "real.weather.icomfort"@, w18);
    let w20 = value::fixed_warned::<String>(value::part(inner(ms, "weather"@), "rcomfort"@), "real.weather.rcomfort"@, w19);
    value::lemma_fixed_told::<String>(value::part(inner(ms, "weather"@), "rcomfort"@), "real.weather.rcomfort"@, w19);
    let w21 = value::fixed_warned::<String>(value::part(inner(ms, "weather"@), "img"@), "real.weather.img"@, w20);
    value::lemma_fixed_told::<String>(value::part(inner(ms, "weather"@), "img"@), "real.weather.img"@, w20);
    let w22 = value::fixed_warned::<Reading>(value::part(inner(ms, "wind"@), "degree"@), "real.wind.degree"@, w21);
    value::lemma_fixed_told::<Reading>(value::part(inner(ms, "wind"@), "degree"@), "real.wind.degree"@, w21);
    let end = real_warned(v, base, w);
    value::lemma_pushed(end, end[0]);
    assert(w22 == end);
    value::lemma_prefix(w22, end, end);
    value::lemma_prefix(w21, w22, end);
    value::lemma_prefix(w20, w21, end);
    value::lemma_prefix(w19, w20, end);
    value::lemma_prefix(w18, w19, end);
    value::lemma_prefix(w17, w18, end);
    value::lemma_prefix(w16, w17, end);
    value::lemma_prefix(w15, w16, end);
    value::lemma_prefix(w14, w15, end);
    value::lemma_prefix(w13, w14, end);
    value::lemma_prefix(w12, w13, end);
    value::lemma_prefix(w11, w12, end);
    value::lemma_prefix(w10, w11, end);
    value::lemma_prefix(w9, w10, end);
    value::lemma_prefix(w8, w9, end);
    value::lemma_prefix(w7, w8, end);
    value::lemma_prefix(w6, w7, end);
    value::lemma_prefix(w5, w6, end);
    value::lemma_prefix(w4, w5, end);
    value::lemma_prefix(w3, w4, end);
    value::lemma_prefix(w2, w3, end);
    value::lemma_prefix(w1, w2, end);
    value::lemma_prefix(w0, w1, end);
}

/// Each part of a half that is no object, and each field that is of the wrong kind, is told.
pub proof fn halves_tell_what_is_unusable(v: Option<&Json>, path: Seq<char>, w: Seq<Seq<char>>, ms: Seq<Member>)
    requires
        value::section(v) == Some(ms),
    ensures
        w.is_prefix_of(part_warned(v, path, w)),
        json::lookup(ms, "weather"@) is Some && !json::missing(*json::lookup(ms, "weather"@).unwrap()) && !(*json::lookup(ms, "weather"@).unwrap() is Object) ==> part_warned(v, path, w).contains(path + ".weather"@ + ": malformed object; ignored"@),
        json::lookup(ms, "wind"@) is Some && !json::missing(*json::lookup(ms, "wind"@).unwrap()) && !(*json::lookup(ms, "wind"@).unwrap() is Object) ==> part_warned(v, path, w).contains(path + ".wind"@ + ": malformed object; ignored"@),
        value::part(inner(ms, "weather"@), "info"@) is Some && <String as value::Scalar>::read(*value::part(inner(ms, "weather"@), "info"@).unwrap()) is Invalid ==> part_warned(v, path, w).contains(path + ".weather.info"@ + (": expected "@ + "string"@ + "; field ignored"@)),
        value::part(inner(ms, "weather"@), "temperature"@) is Some && <String as value::Scalar>::read(*value::part(inner(ms, "weather"@), "temperature"@).unwrap()) is Invalid ==> part_warned(v, path, w).contains(path + ".weather.temperature"@ + (": expected "@ + "string"@ + "; field ignored"@)),
        value::part(inner(ms, "weather"@), "img"@) is Some && <String as value::Scalar>::read(*value::part(inner(ms, "weather"@), "img"@).unwrap()) is Invalid ==> part_warned(v, path, w).contains(path + ".weather.img"@ + (": expected "@ + "string"@ + "; field ignored"@)),
        value::part(inner(ms, "wind"@), "direct"@) is Some && <String as value::Scalar>::read(*value::part(inner(ms, "wind"@), "direct"@).unwrap()) is Invalid ==> part_warned(v, path, w).contains(path + ".wind.direct"@ + (": expected "@ + "string"@ + "; field ignored"@)),
        value::part(inner(ms, "wind"@), "power"@) is Some && <String as value::Scalar>::read(*value::part(inner(ms, "wind"@), "power"@).unwrap()) is Invalid ==> part_warned(v, path, w).contains(path + ".wind.power"@ + (": expected "@ + "string"@ + "; field ignored"@)),
{
    let w0 = w;
    let w1 = value::section_warned(json::lookup(ms, "weather"@), path + ".weather"@, malformed(), w0);
    value::lemma_section_told(json::lookup(ms, "weather"@), path + ".weather"@, malformed(), w0);
    let w2 = value::section_warned(json::lookup(ms, "wind"@), path + ".wind"@, malformed(), w1);
    value::lemma_section_told(json::lookup(ms, "wind"@), path + ".wind"@, malformed(), w1);
    let w3 = value::fixed_warned::<String>(value::part(inner(ms, "weather"@), "info"@), path + ".weather.info"@, w2);
    value::lemma_fixed_told::<String>(value::part(inner(ms, "weather"@), "info"@), path + ".weather.info"@, w2);
    let w4 = value::fixed_warned::<String>(value::part(inner(ms, "weather"@), "temperature"@), path + ".weather.temperature"@, w3);
    value::lemma_fixed_told::<String>(value::part(inner(ms, "weather"@), "temperature"@), path + ".weather.temperature"@, w3);
    let w5 = value::fixed_warned::<String>(value::part(inner(ms, "weather"@), "img"@), path + ".weather.img"@, w4);
    value::lemma_fixed_told::<String>(value::part(inner(ms, "weather"@), "img"@), path + ".weather.img"@, w4);
    let w6 = value::fixed_warned::<String>(value::part(inner(ms, "wind"@), "direct"@), path + ".wind.direct"@, w5);
    value::lemma_fixed_told::<String>(value::part(inner(ms, "wind"@), "direct"@), path + ".wind.direct"@, w5);
    let w7 = value::fixed_warned::<String>(value::part(inner(ms, "wind"@), "power"@), path + ".wind.power"@, w6);
    value::lemma_fixed_told::<String>(value::part(inner(ms, "wind"@), "power"@), path + ".wind.power"@, w6);
    let end = part_warned(v, path, w);
    value::lemma_pushed(end, end[0]);
    assert(w7 == end);
    value::lemma_prefix(w7, end, end);
    value::lemma_prefix(w6, w7, end);
    value::lemma_prefix(w5, w6, end);
    value::lemma_prefix(w4, w5, end);
    value::lemma_prefix(w3, w4, end);
    value::lemma_prefix(w2, w3, end);
    value::lemma_prefix(w1, w2, end);
    value::lemma_prefix(w0, w1, end);
}

/// A forecast day without a date that can be read is told, and so is each field of one with a
/// date that is of the wrong kind.
pub proof fn forecast_days_tell_what_is_unusable(v: &Json, path: Seq<char>, w: Seq<Seq<char>>, ms: Seq<Member>)
    requires
        value::section(Some(v)) == Some(ms),
    ensures
        w.is_prefix_of(day_warned(v, path, w)),
        json::lookup(ms, "date"@) is Some && <String as value::Scalar>::read(*json::lookup(ms, "date"@).unwrap()) is Invalid ==> day_warned(v, path, w).contains(path + ".date"@ + (": expected "@ + "string"@ + "; field ignored"@)),
        !day_usable(v) && !(json::lookup(ms, "date"@) is Some && <String as value::Scalar>::read(*json::lookup(ms, "date"@).unwrap()) is Invalid) ==> day_warned(v, path, w) == w.push(path + ": missing usable date; entry ignored"@),
        day_usable(v) && json::lookup(ms, "precipitation"@) is Some && <Reading as value::Scalar>::read(*json::lookup(ms, "precipitation"@).unwrap()) is Invalid ==> day_warned(v, path, w).contains(path + ".precipitation"@ + (": expected "@ + "number"@ + "; field ignored"@)),
        day_usable(v) && json::lookup(ms, "pt"@) is Some && <String as value::Scalar>::read(*json::lookup(ms, "pt"@).unwrap()) is Invalid ==> day_warned(v, path, w).contains(path + ".pt"@ + (": expected "@ + "string"@ + "; field ignored"@)),
        day_usable(v) && json::lookup(ms, "day"@) is Some && !json::missing(*json::lookup(ms, "day"@).unwrap()) && !(*json::lookup(ms, "day"@).unwrap() is Object) ==> day_warned(v, path, w).contains(path + ".day"@ + ": malformed object; ignored"@),
        day_usable(v) && json::lookup(ms, "night"@) is Some && !json::missing(*json::lookup(ms, "night"@).unwrap()) && !(*json::lookup(ms, "night"@).unwrap() is Object) ==> day_warned(v, path, w).contains(path + ".night"@ + ": malformed object; ignored"@),
{
    value::lemma_fixed_told::<String>(json::lookup(ms, "date"@), path + ".date"@, w);
    value::lemma_pushed(w, path + ": missing usable date; entry ignored"@);
    if day_usable(v) {
        let d = value::fixed_warned::<String>(json::lookup(ms, "date"@), path + ".date"@, w);
        let e = part_warned(json::lookup(ms, "day"@), path + ".day"@, d);
        value::lemma_section_told(json::lookup(ms, "day"@), path + ".day"@, malformed(), d);
        value::lemma_section_told(json::lookup(ms, "night"@), path + ".night"@, malformed(), e);
        let w0 = w;
        let w1 = value::fixed_warned::<String>(json::lookup(ms, "date"@), path + ".date"@, w0);
        value::lemma_fixed_told::<String>(json::lookup(ms, "date"@), path + ".date"@, w0);
        let w2 = part_warned(json::lookup(ms, "day"@), path + ".day"@, w1);
        lemma_part_told(json::lookup(ms, "day"@), path + ".day"@, w1);
        let w3 = part_warned(json::lookup(ms, "night"@), path + ".night"@, w2);
        lemma_part_told(json::lookup(ms, "night"@), path + ".night"@, w2);
        let w4 = value::fixed_warned::<Reading>(json::lookup(ms, "precipitation"@), path + ".precipitation"@, w3);
        value::lemma_fixed_told::<Reading>(json::lookup(ms, "precipitation"@), path + ".precipitation"@, w3);
        let w5 = value::fixed_warned::<String>(json::lookup(ms, "pt"@), path + ".pt"@, w4);
        value::lemma_fixed_told::<String>(json::lookup(ms, "pt"@), path + ".pt"@, w4);
        let end = day_warned(v, path, w);
        value::lemma_pushed(end, end[0]);
        assert(w5 == end);
        value::lemma_prefix(w5, end, end);
        value::lemma_prefix(w4, w5, end);
        value::lemma_prefix(w3, w4, end);
        value::lemma_prefix(w2, w3, end);
        value::lemma_prefix(w1, w2, end);
        value::lemma_prefix(w0, w1, end);
    }
}

/// The warnings of forecast days stand in the order of the entries, and none is lost.
pub proof fn day_warnings_add_up(es: Seq<(usize, &Json)>, e: (usize, &Json), w: Seq<Seq<char>>)
    ensures
        days_warned(Seq::empty(), w) == w,
        days_warned(es.push(e), w) == day_warned(
            e.1,
            "predict.detail"@ + "["@ + text::numeral(e.0 as nat) + "]"@,
            days_warned(es, w),
        ),
        w.is_prefix_of(days_warned(es, w)),
    decreases es.len(),
{
    assert(es.push(e).drop_last() =~= es);
    value::lemma_pushed(w, w[0]);
    if es.len() > 0 {
        let before = days_warned(es.drop_last(), w);
        day_warnings_add_up(es.drop_last(), es.last(), w);
        lemma_day_told(es.last().1, entry_path("predict.detail"@, es.last().0), before);
        value::lemma_prefix(w, before, days_warned(es, w));
    }
}

/// Of a forecast, a time of publication of the wrong kind, details that are no list, and
/// whatever is unusable in a day is told.
pub proof fn forecasts_tell_what_is_unusable(v: Option<&Json>, w: Seq<Seq<char>>, ms: Seq<Member>)
    requires
        value::section(v) == Some(ms),
    ensures
        w.is_prefix_of(predict_warned(v, w)),
        json::lookup(ms, "publish_time"@) is Some && <String as value::Scalar>::read(*json::lookup(ms, "publish_time"@).unwrap()) is Invalid ==> predict_warned(v, w).contains("predict.publish_time"@ + (": expected "@ + "string"@ + "; field ignored"@)),
        json::lookup(ms, "detail"@) is Some && !value::listable(*json::lookup(ms, "detail"@).unwrap()) ==> predict_warned(v, w).contains("predict.detail"@ + ": expected array or object; ignored"@),
{
    let w0 = w;
    let w1 = station_warned(json::lookup(ms, "station"@), "predict.station"@, w0);
    incomplete_stations_are_told(json::lookup(ms, "station"@), "predict.station"@, w0, ms);
    let w2 = value::fixed_warned::<String>(json::lookup(ms, "publish_time"@), "predict.publish_time"@, w1);
    value::lemma_fixed_told::<String>(json::lookup(ms, "publish_time"@), "predict.publish_time"@, w1);
    let w3 = value::sequence_warned(json::lookup(ms, "detail"@), "predict.detail"@, w2);
    value::lemma_sequence_told(json::lookup(ms, "detail"@), "predict.detail"@, w2);
    let w4 = days_warned(value::sequence_value(json::lookup(ms, "detail"@)), w3);
    day_warnings_add_up(value::sequence_value(json::lookup(ms, "detail"@)), (0, &Json::Null), w3);
    let end = predict_warned(v, w);
    value::lemma_pushed(end, end[0]);
    assert(w4 == end);
    value::lemma_prefix(w4, end, end);
    value::lemma_prefix(w3, w4, end);
    value::lemma_prefix(w2, w3, end);
    value::lemma_prefix(w1, w2, end);
    value::lemma_prefix(w0, w1, end);
    value::lemma_pushed(w2, "predict.detail"@ + ": expected array or object; ignored"@);
}

} // verus!
