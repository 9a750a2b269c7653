//! Mapping of the temperature chart and of past observations.

use vstd::prelude::*;
use crate::json::{self, Json, Member};
use crate::nmc::current;
use crate::nmc::optional::warn_if_unusable;
use crate::nmc::value::{self, MappingContext};
use crate::reading::Reading;
use crate::report::{PassedWeatherChart, TemperatureChart};
use crate::text;

verus! {

/// `c` holds what the members say, read by alias.
pub open spec fn chart_from(c: TemperatureChart, ms: Seq<Member>) -> bool {
    &&& value::seen_opt(c.date) == value::alias_value::<String>(ms, value::names("date|time"@))
    &&& value::seen_opt(c.max_temperature) == value::alias_value::<Reading>(ms, value::names("max_temperature|maxTemperature|max_temp|max"@))
    &&& value::seen_opt(c.min_temperature) == value::alias_value::<Reading>(ms, value::names("min_temperature|minTemperature|min_temp|min"@))
    &&& value::seen_opt(c.day_info) == value::alias_value::<String>(ms, value::names("day_info|dayInfo|day_weather|dayWeather"@))
    &&& value::seen_opt(c.day_icon) == value::alias_value::<String>(ms, value::names("day_icon|dayIcon|day_img|dayImg"@))
    &&& value::seen_opt(c.night_info) == value::alias_value::<String>(ms, value::names("night_info|nightInfo|night_weather|nightWeather"@))
    &&& value::seen_opt(c.night_icon) == value::alias_value::<String>(ms, value::names("night_icon|nightIcon|night_img|nightImg"@))
}

/// Some field of the temperature chart entry can be read.
pub open spec fn chart_usable(ms: Seq<Member>) -> bool {
    ||| value::alias_value::<String>(ms, value::names("date|time"@)) is Some
    ||| value::alias_value::<Reading>(ms, value::names("max_temperature|maxTemperature|max_temp|max"@)) is Some
    ||| value::alias_value::<Reading>(ms, value::names("min_temperature|minTemperature|min_temp|min"@)) is Some
    ||| value::alias_value::<String>(ms, value::names("day_info|dayInfo|day_weather|dayWeather"@)) is Some
    ||| value::alias_value::<String>(ms, value::names("day_icon|dayIcon|day_img|dayImg"@)) is Some
    ||| value::alias_value::<String>(ms, value::names("night_info|nightInfo|night_weather|nightWeather"@)) is Some
    ||| value::alias_value::<String>(ms, value::names("night_icon|nightIcon|night_img|nightImg"@)) is Some
}

/// The warnings after the temperature chart entry was read.
pub open spec fn chart_warned(v: &Json, path: Seq<char>, w: Seq<Seq<char>>) -> Seq<Seq<char>> {
    let w0 = value::section_warned(Some(v), path, crate::nmc::optional::expected_object(), w);
    match value::section(Some(v)) {
        None => w0,
        Some(ms) => {
            let w = w0;
            let w = value::alias_warned::<String>(ms, "date|time"@, path + ".date"@, w);
            let w = value::alias_warned::<Reading>(ms, "max_temperature|maxTemperature|max_temp|max"@, path + ".max_temperature"@, w);
            let w = value::alias_warned::<Reading>(ms, "min_temperature|minTemperature|min_temp|min"@, path + ".min_temperature"@, w);
            let w = value::alias_warned::<String>(ms, "day_info|dayInfo|day_weather|dayWeather"@, path + ".day_info"@, w);
            let w = value::alias_warned::<String>(ms, "day_icon|dayIcon|day_img|dayImg"@, path + ".day_icon"@, w);
            let w = value::alias_warned::<String>(ms, "night_info|nightInfo|night_weather|nightWeather"@, path + ".night_info"@, w);
            let w = value::alias_warned::<String>(ms, "night_icon|nightIcon|night_img|nightImg"@, path + ".night_icon"@, w);
            if chart_usable(ms) {
                w
            } else {
                crate::nmc::optional::unusable_warned(path, ms, w0.len(), w)
            }
        },
    }
}

fn has_chart_fields(c: &TemperatureChart) -> (r: bool)
    ensures
        r == (c.date is Some || c.max_temperature is Some || c.min_temperature is Some || c.day_info is Some || c.day_icon is Some || c.night_info is Some || c.night_icon is Some),
{
    c.date.is_some() || c.max_temperature.is_some() || c.min_temperature.is_some() || c.day_info.is_some() || c.day_icon.is_some() || c.night_info.is_some() || c.night_icon.is_some()
}

/// Reads one temperature chart entry.
pub fn map_temperature_chart(raw: &Json, index: usize, context: &mut MappingContext) -> (r: Option<TemperatureChart>)
    ensures
        r is Some <==> (value::section(Some(raw)) matches Some(ms) && chart_usable(ms)),
        r matches Some(c) ==> chart_from(c, value::section(Some(raw))->0),
        final(context).warned() == chart_warned(
            raw,
            current::entry_path("tempchart"@, index),
            old(context).warned(),
        ),
        final(context).base_url == old(context).base_url,
{
    let path_text = current::entry_path_text("tempchart", index);
    let path = path_text.as_str();
    let ms = match value::section_object(Some(raw), path, context) {
        Some(ms) => ms,
        None => {
            return None;
        },
    };
    let before = context.warning_count();
    let chart = TemperatureChart {
        date: value::alias::<String>(ms, "date|time", text::cat(path, ".date").as_str(), context),
        max_temperature: value::alias::<Reading>(ms, "max_temperature|maxTemperature|max_temp|max", text::cat(path, ".max_temperature").as_str(), context),
        min_temperature: value::alias::<Reading>(ms, "min_temperature|minTemperature|min_temp|min", text::cat(path, ".min_temperature").as_str(), context),
        day_info: value::alias::<String>(ms, "day_info|dayInfo|day_weather|dayWeather", text::cat(path, ".day_info").as_str(), context),
        day_icon: value::alias::<String>(ms, "day_icon|dayIcon|day_img|dayImg", text::cat(path, ".day_icon").as_str(), context),
        night_info: value::alias::<String>(ms, "night_info|nightInfo|night_weather|nightWeather", text::cat(path, ".night_info").as_str(), context),
        night_icon: value::alias::<String>(ms, "night_icon|nightIcon|night_img|nightImg", text::cat(path, ".night_icon").as_str(), context),
    };
    if has_chart_fields(&chart) {
        Some(chart)
    } else {
        warn_if_unusable(path, ms, before, context);
        None
    }
}

/// `rs` are the temperature chart entries of the usable entries, in their order.
pub open spec fn chart_list_from(rs: Seq<TemperatureChart>, es: Seq<(usize, &Json)>) -> bool
    decreases es.len(),
{
    if es.len() == 0 {
        rs.len() == 0
    } else if value::section(Some(es.last().1)) matches Some(ms) && chart_usable(ms) {
        &&& rs.len() > 0
        &&& chart_from(rs.last(), value::section(Some(es.last().1))->0)
        &&& chart_list_from(rs.drop_last(), es.drop_last())
    } else {
        chart_list_from(rs, es.drop_last())
    }
}

/// The warnings after the temperature chart entries were read.
pub open spec fn chart_list_warned(es: Seq<(usize, &Json)>, w: Seq<Seq<char>>) -> Seq<Seq<char>>
    decreases es.len(),
{
    if es.len() == 0 {
        w
    } else {
        chart_warned(
            es.last().1,
            current::entry_path("tempchart"@, es.last().0),
            chart_list_warned(es.drop_last(), w),
        )
    }
}

fn chart_entries(es: &Vec<(usize, &Json)>, context: &mut MappingContext) -> (rs: Vec<TemperatureChart>)
    ensures
        chart_list_from(rs@, es@),
        final(context).warned() == chart_list_warned(es@, old(context).warned()),
        final(context).base_url == old(context).base_url,
{
    let mut rs: Vec<TemperatureChart> = Vec::new();
    let mut i: usize = 0;
    while i < es.len()
        invariant
            i <= es@.len(),
            chart_list_from(rs@, es@.take(i as int)),
            context.warned() == chart_list_warned(es@.take(i as int), old(context).warned()),
            context.base_url == old(context).base_url,
        decreases es@.len() - i,
    {
        assert(es@.take(i + 1).drop_last() =~= es@.take(i as int));
        assert(es@.take(i + 1).last() == es@[i as int]);
        let ghost before = rs@;
        match map_temperature_chart(es[i].1, es[i].0, context) {
            Some(entry) => {
                rs.push(entry);
                assert(rs@.drop_last() =~= before);
            },
            None => {},
        }
        i = i + 1;
    }
    assert(es@.take(es@.len() as int) =~= es@);
    rs
}

/// Reads the temperature chart entries.
pub fn map_temperature_charts(raw: Option<&Json>, context: &mut MappingContext) -> (rs: Vec<TemperatureChart>)
    ensures
        chart_list_from(rs@, value::sequence_value(raw)),
        final(context).warned() == chart_list_warned(
            value::sequence_value(raw),
            value::sequence_warned(raw, "tempchart"@, old(context).warned()),
        ),
        final(context).base_url == old(context).base_url,
{
    let es = value::sequence(raw, "tempchart", context);
    chart_entries(&es, context)
}

/// `p` holds what the members say, read by alias.
pub open spec fn passed_from(p: PassedWeatherChart, ms: Seq<Member>) -> bool {
    &&& value::seen_opt(p.time) == value::alias_value::<String>(ms, value::names("time|publish_time|publishTime"@))
    &&& value::seen_opt(p.rain_1h) == value::alias_value::<Reading>(ms, value::names("rain_1h|rain1h|rain1H"@))
    &&& value::seen_opt(p.rain_6h) == value::alias_value::<Reading>(ms, value::names("rain_6h|rain6h|rain6H"@))
    &&& value::seen_opt(p.rain_12h) == value::alias_value::<Reading>(ms, value::names("rain_12h|rain12h|rain12H"@))
    &&& value::seen_opt(p.rain_24h) == value::alias_value::<Reading>(ms, value::names("rain_24h|rain24h|rain24H"@))
    &&& value::seen_opt(p.temperature) == value::alias_value::<Reading>(ms, value::names("temperature|temp"@))
    &&& value::seen_opt(p.temperature_diff) == value::alias_value::<Reading>(ms, value::names("temperature_diff|temperatureDiff|tempDiff"@))
    &&& value::seen_opt(p.humidity) == value::alias_value::<Reading>(ms, value::names("humidity"@))
    &&& value::seen_opt(p.pressure) == value::alias_value::<Reading>(ms, value::names("pressure|airpressure|air_pressure"@))
    &&& value::seen_opt(p.wind_direction_degree) == value::alias_value::<Reading>(ms, value::names("wind_direction_degree|windDirectionDegree|winddegree"@))
    &&& value::seen_opt(p.wind_speed) == value::alias_value::<Reading>(ms, value::names("wind_speed|windSpeed|windspeed"@))
}

/// Some field of the past observation can be read.
pub open spec fn passed_usable(ms: Seq<Member>) -> bool {
    ||| value::alias_value::<String>(ms, value::names("time|publish_time|publishTime"@)) is Some
    ||| value::alias_value::<Reading>(ms, value::names("rain_1h|rain1h|rain1H"@)) is Some
    ||| value::alias_value::<Reading>(ms, value::names("rain_6h|rain6h|rain6H"@)) is Some
    ||| value::alias_value::<Reading>(ms, value::names("rain_12h|rain12h|rain12H"@)) is Some
    ||| value::alias_value::<Reading>(ms, value::names("rain_24h|rain24h|rain24H"@)) is Some
    ||| value::alias_value::<Reading>(ms, value::names("temperature|temp"@)) is Some
    ||| value::alias_value::<Reading>(ms, value::names("temperature_diff|temperatureDiff|tempDiff"@)) is Some
    ||| value::alias_value::<Reading>(ms, value::names("humidity"@)) is Some
    ||| value::alias_value::<Reading>(ms, value::names("pressure|airpressure|air_pressure"@)) is Some
    ||| value::alias_value::<Reading>(ms, value::names("wind_direction_degree|windDirectionDegree|winddegree"@)) is Some
    ||| value::alias_value::<Reading>(ms, value::names("wind_speed|windSpeed|windspeed"@)) is Some
}

/// The warnings after the past observation was read.
pub open spec fn passed_warned(v: &Json, path: Seq<char>, w: Seq<Seq<char>>) -> Seq<Seq<char>> {
    let w0 = value::section_warned(Some(v), path, crate::nmc::optional::expected_object(), w);
    match value::section(Some(v)) {
        None => w0,
        Some(ms) => {
            let w = w0;
            let w = value::alias_warned::<String>(ms, "time|publish_time|publishTime"@, path + ".time"@, w);
            let w = value::alias_warned::<Reading>(ms, "rain_1h|rain1h|rain1H"@, path + ".rain_1h"@, w);
            let w = value::alias_warned::<Reading>(ms, "rain_6h|rain6h|rain6H"@, path + ".rain_6h"@, w);
            let w = value::alias_warned::<Reading>(ms, "rain_12h|rain12h|rain12H"@, path + ".rain_12h"@, w);
            let w = value::alias_warned::<Reading>(ms, "rain_24h|rain24h|rain24H"@, path + ".rain_24h"@, w);
            let w = value::alias_warned::<Reading>(ms, "temperature|temp"@, path + ".temperature"@, w);
            let w = value::alias_warned::<Reading>(ms, "temperature_diff|temperatureDiff|tempDiff"@, path + ".temperature_diff"@, w);
            let w = value::alias_warned::<Reading>(ms, "humidity"@, path + ".humidity"@, w);
            let w = value::alias_warned::<Reading>(ms, "pressure|airpressure|air_pressure"@, path + ".pressure"@, w);
            let w = value::alias_warned::<Reading>(ms, "wind_direction_degree|windDirectionDegree|winddegree"@, path + ".wind_direction_degree"@, w);
            let w = value::alias_warned::<Reading>(ms, "wind_speed|windSpeed|windspeed"@, path + ".wind_speed"@, w);
            if passed_usable(ms) {
                w
            } else {
                crate::nmc::optional::unusable_warned(path, ms, w0.len(), w)
            }
        },
    }
}

fn has_passed_fields(p: &PassedWeatherChart) -> (r: bool)
    ensures
        r == (p.time is Some || p.rain_1h is Some || p.rain_6h is Some || p.rain_12h is Some || p.rain_24h is Some || p.temperature is Some || p.temperature_diff is Some || p.humidity is Some || p.pressure is Some || p.wind_direction_degree is Some || p.wind_speed is Some),
{
    p.time.is_some() || p.rain_1h.is_some() || p.rain_6h.is_some() || p.rain_12h.is_some() || p.rain_24h.is_some() || p.temperature.is_some() || p.temperature_diff.is_some() || p.humidity.is_some() || p.pressure.is_some() || p.wind_direction_degree.is_some() || p.wind_speed.is_some()
}

/// Reads one past observation.
pub fn map_passed_chart(raw: &Json, index: usize, context: &mut MappingContext) -> (r: Option<PassedWeatherChart>)
    ensures
        r is Some <==> (value::section(Some(raw)) matches Some(ms) && passed_usable(ms)),
        r matches Some(p) ==> passed_from(p, value::section(Some(raw))->0),
        final(context).warned() == passed_warned(
            raw,
            current::entry_path("passedchart"@, index),
            old(context).warned(),
        ),
        final(context).base_url == old(context).base_url,
{
    let path_text = current::entry_path_text("passedchart", index);
    let path = path_text.as_str();
    let ms = match value::section_object(Some(raw), path, context) {
        Some(ms) => ms,
        None => {
            return None;
        },
    };
    let before = context.warning_count();
    let passed = PassedWeatherChart {
        time: value::alias::<String>(ms, "time|publish_time|publishTime", text::cat(path, ".time").as_str(), context),
        rain_1h: value::alias::<Reading>(ms, "rain_1h|rain1h|rain1H", text::cat(path, ".rain_1h").as_str(), context),
        rain_6h: value::alias::<Reading>(ms, "rain_6h|rain6h|rain6H", text::cat(path, ".rain_6h").as_str(), context),
        rain_12h: value::alias::<Reading>(ms, "rain_12h|rain12h|rain12H", text::cat(path, ".rain_12h").as_str(), context),
        rain_24h: value::alias::<Reading>(ms, "rain_24h|rain24h|rain24H", text::cat(path, ".rain_24h").as_str(), context),
        temperature: value::alias::<Reading>(ms, "temperature|temp", text::cat(path, ".temperature").as_str(), context),
        temperature_diff: value::alias::<Reading>(ms, "temperature_diff|temperatureDiff|tempDiff", text::cat(path, ".temperature_diff").as_str(), context),
        humidity: value::alias::<Reading>(ms, "humidity", text::cat(path, ".humidity").as_str(), context),
        pressure: value::alias::<Reading>(ms, "pressure|airpressure|air_pressure", text::cat(path, ".pressure").as_str(), context),
        wind_direction_degree: value::alias::<Reading>(ms, "wind_direction_degree|windDirectionDegree|winddegree", text::cat(path, ".wind_direction_degree").as_str(), context),
        wind_speed: value::alias::<Reading>(ms, "wind_speed|windSpeed|windspeed", text::cat(path, ".wind_speed").as_str(), context),
    };
    if has_passed_fields(&passed) {
        Some(passed)
    } else {
        warn_if_unusable(path, ms, before, context);
        None
    }
}

/// `rs` are the past observations of the usable entries, in their order.
pub open spec fn passed_list_from(rs: Seq<PassedWeatherChart>, es: Seq<(usize, &Json)>) -> bool
    decreases es.len(),
{
    if es.len() == 0 {
        rs.len() == 0
    } else if value::section(Some(es.last().1)) matches Some(ms) && passed_usable(ms) {
        &&& rs.len() > 0
        &&& passed_from(rs.last(), value::section(Some(es.last().1))->0)
        &&& passed_list_from(rs.drop_last(), es.drop_last())
    } else {
        passed_list_from(rs, es.drop_last())
    }
}

/// The warnings after the past observations were read.
pub open spec fn passed_list_warned(es: Seq<(usize, &Json)>, w: Seq<Seq<char>>) -> Seq<Seq<char>>
    decreases es.len(),
{
    if es.len() == 0 {
        w
    } else {
        passed_warned(
            es.last().1,
            current::entry_path("passedchart"@, es.last().0),
            passed_list_warned(es.drop_last(), w),
        )
    }
}

fn passed_entries(es: &Vec<(usize, &Json)>, context: &mut MappingContext) -> (rs: Vec<PassedWeatherChart>)
    ensures
        passed_list_from(rs@, es@),
        final(context).warned() == passed_list_warned(es@, old(context).warned()),
        final(context).base_url == old(context).base_url,
{
    let mut rs: Vec<PassedWeatherChart> = Vec::new();
    let mut i: usize = 0;
    while i < es.len()
        invariant
            i <= es@.len(),
            passed_list_from(rs@, es@.take(i as int)),
            context.warned() == passed_list_warned(es@.take(i as int), old(context).warned()),
            context.base_url == old(context).base_url,
        decreases es@.len() - i,
    {
        assert(es@.take(i + 1).drop_last() =~= es@.take(i as int));
        assert(es@.take(i + 1).last() == es@[i as int]);
        let ghost before = rs@;
        match map_passed_chart(es[i].1, es[i].0, context) {
            Some(entry) => {
                rs.push(entry);
                assert(rs@.drop_last() =~= before);
            },
            None => {},
        }
        i = i + 1;
    }
    assert(es@.take(es@.len() as int) =~= es@);
    rs
}

/// Reads the past observations.
pub fn map_passed_charts(raw: Option<&Json>, context: &mut MappingContext) -> (rs: Vec<PassedWeatherChart>)
    ensures
        passed_list_from(rs@, value::sequence_value(raw)),
        final(context).warned() == passed_list_warned(
            value::sequence_value(raw),
            value::sequence_warned(raw, "passedchart"@, old(context).warned()),
        ),
        final(context).base_url == old(context).base_url,
{
    let es = value::sequence(raw, "passedchart", context);
    passed_entries(&es, context)
}

proof fn lemma_first_usable_1<T: value::Scalar>(ms: Seq<Member>, n0: Seq<char>)
    ensures
        value::alias_value::<T>(ms, seq![n0]) == value::usable::<T>(ms, n0),
{
    value::lemma_alias_unfold::<T>(ms, seq![n0]);
    assert(seq![n0].drop_first() =~= Seq::<Seq<char>>::empty());
    value::lemma_alias_unfold::<T>(ms, Seq::<Seq<char>>::empty());
}

proof fn lemma_first_usable_2<T: value::Scalar>(ms: Seq<Member>, n0: Seq<char>, n1: Seq<char>)
    ensures
        value::alias_value::<T>(ms, seq![n0, n1]) == (if value::usable::<T>(ms, n0) is Some {
            value::usable::<T>(ms, n0)
        } else {
            value::usable::<T>(ms, n1)
        }),
{
    value::lemma_alias_unfold::<T>(ms, seq![n0, n1]);
    assert(seq![n0, n1].drop_first() =~= seq![n1]);
    value::lemma_alias_unfold::<T>(ms, seq![n1]);
    assert(seq![n1].drop_first() =~= Seq::<Seq<char>>::empty());
    value::lemma_alias_unfold::<T>(ms, Seq::<Seq<char>>::empty());
}

proof fn lemma_first_usable_3<T: value::Scalar>(ms: Seq<Member>, n0: Seq<char>, n1: Seq<char>, n2: Seq<char>)
    ensures
        value::alias_value::<T>(ms, seq![n0, n1, n2]) == (if value::usable::<T>(ms, n0) is Some {
            value::usable::<T>(ms, n0)
        } else {
            (if value::usable::<T>(ms, n1) is Some {
                value::usable::<T>(ms, n1)
            } else {
                value::usable::<T>(ms, n2)
            })
        }),
{
    value::lemma_alias_unfold::<T>(ms, seq![n0, n1, n2]);
    assert(seq![n0, n1, n2].drop_first() =~= seq![n1, n2]);
    value::lemma_alias_unfold::<T>(ms, seq![n1, n2]);
    assert(seq![n1, n2].drop_first() =~= seq![n2]);
    value::lemma_alias_unfold::<T>(ms, seq![n2]);
    assert(seq![n2].drop_first() =~= Seq::<Seq<char>>::empty());
    value::lemma_alias_unfold::<T>(ms, Seq::<Seq<char>>::empty());
}

proof fn lemma_first_usable_4<T: value::Scalar>(ms: Seq<Member>, n0: Seq<char>, n1: Seq<char>, n2: Seq<char>, n3: Seq<char>)
    ensures
        value::alias_value::<T>(ms, seq![n0, n1, n2, n3]) == (if value::usable::<T>(ms, n0) is Some {
            value::usable::<T>(ms, n0)
        } else {
            (if value::usable::<T>(ms, n1) is Some {
                value::usable::<T>(ms, n1)
            } else {
                (if value::usable::<T>(ms, n2) is Some {
                    value::usable::<T>(ms, n2)
                } else {
                    value::usable::<T>(ms, n3)
                })
            })
        }),
{
    value::lemma_alias_unfold::<T>(ms, seq![n0, n1, n2, n3]);
    assert(seq![n0, n1, n2, n3].drop_first() =~= seq![n1, n2, n3]);
    value::lemma_alias_unfold::<T>(ms, seq![n1, n2, n3]);
    assert(seq![n1, n2, n3].drop_first() =~= seq![n2, n3]);
    value::lemma_alias_unfold::<T>(ms, seq![n2, n3]);
    assert(seq![n2, n3].drop_first() =~= seq![n3]);
    value::lemma_alias_unfold::<T>(ms, seq![n3]);
    assert(seq![n3].drop_first() =~= Seq::<Seq<char>>::empty());
    value::lemma_alias_unfold::<T>(ms, Seq::<Seq<char>>::empty());
}

proof fn lemma_content(v: Option<&Json>, ms: Seq<Member>)
    requires
        value::section(v) == Some(ms),
    ensures
        json::has_content(ms),
{
    if let Some(j) = v {
        if let Json::Object(members) = *j {
            json::values_that_stand_for_nothing(
                true,
                arbitrary(),
                arbitrary(),
                arbitrary(),
                members,
            );
        }
    }
}

proof fn lemma_names_of_date_9()
    ensures
        value::names("date|time"@) == seq!["date"@, "time"@],
{
    reveal_strlit("date|time");
    reveal_strlit("time");
    reveal_strlit("date");
    value::lemma_one_name("time"@);
    value::lemma_names("date"@, "time"@);
    assert("date|time"@ =~= "date"@ + seq!['|'] + "time"@);
    assert(value::names("date|time"@) =~= seq!["date"@, "time"@]);
}

proof fn lemma_names_of_max_temperature_43()
    ensures
        value::names("max_temperature|maxTemperature|max_temp|max"@) == seq!["max_temperature"@, "maxTemperature"@, "max_temp"@, "max"@],
{
    reveal_strlit("max_temperature|maxTemperature|max_temp|max");
    reveal_strlit("maxTemperature|max_temp|max");
    reveal_strlit("max_temp|max");
    reveal_strlit("max");
    reveal_strlit("max_temperature");
    reveal_strlit("maxTemperature");
    reveal_strlit("max_temp");
    value::lemma_one_name("max"@);
    value::lemma_names("max_temp"@, "max"@);
    assert("max_temp|max"@ =~= "max_temp"@ + seq!['|'] + "max"@);
    value::lemma_names("maxTemperature"@, "max_temp|max"@);
    assert("maxTemperature|max_temp|max"@ =~= "maxTemperature"@ + seq!['|'] + "max_temp|max"@);
    value::lemma_names("max_temperature"@, "maxTemperature|max_temp|max"@);
    assert("max_temperature|maxTemperature|max_temp|max"@ =~= "max_temperature"@ + seq!['|'] + "maxTemperature|max_temp|max"@);
    assert(value::names("max_temperature|maxTemperature|max_temp|max"@) =~= seq!["max_temperature"@, "maxTemperature"@, "max_temp"@, "max"@]);
}

proof fn lemma_names_of_min_temperature_43()
    ensures
        value::names("min_temperature|minTemperature|min_temp|min"@) == seq!["min_temperature"@, "minTemperature"@, "min_temp"@, "min"@],
{
    reveal_strlit("min_temperature|minTemperature|min_temp|min");
    reveal_strlit("minTemperature|min_temp|min");
    reveal_strlit("min_temp|min");
    reveal_strlit("min");
    reveal_strlit("min_temperature");
    reveal_strlit("minTemperature");
    reveal_strlit("min_temp");
    value::lemma_one_name("min"@);
    value::lemma_names("min_temp"@, "min"@);
    assert("min_temp|min"@ =~= "min_temp"@ + seq!['|'] + "min"@);
    value::lemma_names("minTemperature"@, "min_temp|min"@);
    assert("minTemperature|min_temp|min"@ =~= "minTemperature"@ + seq!['|'] + "min_temp|min"@);
    value::lemma_names("min_temperature"@, "minTemperature|min_temp|min"@);
    assert("min_temperature|minTemperature|min_temp|min"@ =~= "min_temperature"@ + seq!['|'] + "minTemperature|min_temp|min"@);
    assert(value::names("min_temperature|minTemperature|min_temp|min"@) =~= seq!["min_temperature"@, "minTemperature"@, "min_temp"@, "min"@]);
}

proof fn lemma_names_of_day_info_39()
    ensures
        value::names("day_info|dayInfo|day_weather|dayWeather"@) == seq!["day_info"@, "dayInfo"@, "day_weather"@, "dayWeather"@],
{
    reveal_strlit("day_info|dayInfo|day_weather|dayWeather");
    reveal_strlit("dayInfo|day_weather|dayWeather");
    reveal_strlit("day_weather|dayWeather");
    reveal_strlit("dayWeather");
    reveal_strlit("day_info");
    reveal_strlit("dayInfo");
    reveal_strlit("day_weather");
    value::lemma_one_name("dayWeather"@);
    value::lemma_names("day_weather"@, "dayWeather"@);
    assert("day_weather|dayWeather"@ =~= "day_weather"@ + seq!['|'] + "dayWeather"@);
    value::lemma_names("dayInfo"@, "day_weather|dayWeather"@);
    assert("dayInfo|day_weather|dayWeather"@ =~= "dayInfo"@ + seq!['|'] + "day_weather|dayWeather"@);
    value::lemma_names("day_info"@, "dayInfo|day_weather|dayWeather"@);
    assert("day_info|dayInfo|day_weather|dayWeather"@ =~= "day_info"@ + seq!['|'] + "dayInfo|day_weather|dayWeather"@);
    assert(value::names("day_info|dayInfo|day_weather|dayWeather"@) =~= seq!["day_info"@, "dayInfo"@, "day_weather"@, "dayWeather"@]);
}

proof fn lemma_names_of_day_icon_31()
    ensures
        value::names("day_icon|dayIcon|day_img|dayImg"@) == seq!["day_icon"@, "dayIcon"@, "day_img"@, "dayImg"@],
{
    reveal_strlit("day_icon|dayIcon|day_img|dayImg");
    reveal_strlit("dayIcon|day_img|dayImg");
    reveal_strlit("day_img|dayImg");
    reveal_strlit("dayImg");
    reveal_strlit("day_icon");
    reveal_strlit("dayIcon");
    reveal_strlit("day_img");
    value::lemma_one_name("dayImg"@);
    value::lemma_names("day_img"@, "dayImg"@);
    assert("day_img|dayImg"@ =~= "day_img"@ + seq!['|'] + "dayImg"@);
    value::lemma_names("dayIcon"@, "day_img|dayImg"@);
    assert("dayIcon|day_img|dayImg"@ =~= "dayIcon"@ + seq!['|'] + "day_img|dayImg"@);
    value::lemma_names("day_icon"@, "dayIcon|day_img|dayImg"@);
    assert("day_icon|dayIcon|day_img|dayImg"@ =~= "day_icon"@ + seq!['|'] + "dayIcon|day_img|dayImg"@);
    assert(value::names("day_icon|dayIcon|day_img|dayImg"@) =~= seq!["day_icon"@, "dayIcon"@, "day_img"@, "dayImg"@]);
}

proof fn lemma_names_of_night_info_47()
    ensures
        value::names("night_info|nightInfo|night_weather|nightWeather"@) == seq!["night_info"@, "nightInfo"@, "night_weather"@, "nightWeather"@],
{
    reveal_strlit("night_info|nightInfo|night_weather|nightWeather");
    reveal_strlit("nightInfo|night_weather|nightWeather");
    reveal_strlit("night_weather|nightWeather");
    reveal_strlit("nightWeather");
    reveal_strlit("night_info");
    reveal_strlit("nightInfo");
    reveal_strlit("night_weather");
    value::lemma_one_name("nightWeather"@);
    value::lemma_names("night_weather"@, "nightWeather"@);
    assert("night_weather|nightWeather"@ =~= "night_weather"@ + seq!['|'] + "nightWeather"@);
    value::lemma_names("nightInfo"@, "night_weather|nightWeather"@);
    assert("nightInfo|night_weather|nightWeather"@ =~= "nightInfo"@ + seq!['|'] + "night_weather|nightWeather"@);
    value::lemma_names("night_info"@, "nightInfo|night_weather|nightWeather"@);
    assert("night_info|nightInfo|night_weather|nightWeather"@ =~= "night_info"@ + seq!['|'] + "nightInfo|night_weather|nightWeather"@);
    assert(value::names("night_info|nightInfo|night_weather|nightWeather"@) =~= seq!["night_info"@, "nightInfo"@, "night_weather"@, "nightWeather"@]);
}

proof fn lemma_names_of_night_icon_39()
    ensures
        value::names("night_icon|nightIcon|night_img|nightImg"@) == seq!["night_icon"@, "nightIcon"@, "night_img"@, "nightImg"@],
{
    reveal_strlit("night_icon|nightIcon|night_img|nightImg");
    reveal_strlit("nightIcon|night_img|nightImg");
    reveal_strlit("night_img|nightImg");
    reveal_strlit("nightImg");
    reveal_strlit("night_icon");
    reveal_strlit("nightIcon");
    reveal_strlit("night_img");
    value::lemma_one_name("nightImg"@);
    value::lemma_names("night_img"@, "nightImg"@);
    assert("night_img|nightImg"@ =~= "night_img"@ + seq!['|'] + "nightImg"@);
    value::lemma_names("nightIcon"@, "night_img|nightImg"@);
    assert("nightIcon|night_img|nightImg"@ =~= "nightIcon"@ + seq!['|'] + "night_img|nightImg"@);
    value::lemma_names("night_icon"@, "nightIcon|night_img|nightImg"@);
    assert("night_icon|nightIcon|night_img|nightImg"@ =~= "night_icon"@ + seq!['|'] + "nightIcon|night_img|nightImg"@);
    assert(value::names("night_icon|nightIcon|night_img|nightImg"@) =~= seq!["night_icon"@, "nightIcon"@, "night_img"@, "nightImg"@]);
}

/// A chart has under each of its names what is read there; of several names the first counts
/// that has something usable. It is there where one of its fields is.
pub proof fn charts_are_read_by_their_names(c: TemperatureChart, ms: Seq<Member>)
    requires
        chart_from(c, ms),
    ensures
        value::seen_opt(c.date) == (if value::usable::<String>(ms, "date"@) is Some {
            value::usable::<String>(ms, "date"@)
        } else {
            value::usable::<String>(ms, "time"@)
        }),
        value::seen_opt(c.max_temperature) == (if value::usable::<Reading>(ms, "max_temperature"@) is Some {
            value::usable::<Reading>(ms, "max_temperature"@)
        } else {
            (if value::usable::<Reading>(ms, "maxTemperature"@) is Some {
                value::usable::<Reading>(ms, "maxTemperature"@)
            } else {
                (if value::usable::<Reading>(ms, "max_temp"@) is Some {
                    value::usable::<Reading>(ms, "max_temp"@)
                } else {
                    value::usable::<Reading>(ms, "max"@)
                })
            })
        }),
        value::seen_opt(c.min_temperature) == (if value::usable::<Reading>(ms, "min_temperature"@) is Some {
            value::usable::<Reading>(ms, "min_temperature"@)
        } else {
            (if value::usable::<Reading>(ms, "minTemperature"@) is Some {
                value::usable::<Reading>(ms, "minTemperature"@)
            } else {
                (if value::usable::<Reading>(ms, "min_temp"@) is Some {
                    value::usable::<Reading>(ms, "min_temp"@)
                } else {
                    value::usable::<Reading>(ms, "min"@)
                })
            })
        }),
        value::seen_opt(c.day_info) == (if value::usable::<String>(ms, "day_info"@) is Some {
            value::usable::<String>(ms, "day_info"@)
        } else {
            (if value::usable::<String>(ms, "dayInfo"@) is Some {
                value::usable::<String>(ms, "dayInfo"@)
            } else {
                (if value::usable::<String>(ms, "day_weather"@) is Some {
                    value::usable::<String>(ms, "day_weather"@)
                } else {
                    value::usable::<String>(ms, "dayWeather"@)
                })
            })
        }),
        value::seen_opt(c.day_icon) == (if value::usable::<String>(ms, "day_icon"@) is Some {
            value::usable::<String>(ms, "day_icon"@)
        } else {
            (if value::usable::<String>(ms, "dayIcon"@) is Some {
                value::usable::<String>(ms, "dayIcon"@)
            } else {
                (if value::usable::<String>(ms, "day_img"@) is Some {
                    value::usable::<String>(ms, "day_img"@)
                } else {
                    value::usable::<String>(ms, "dayImg"@)
                })
            })
        }),
        value::seen_opt(c.night_info) == (if value::usable::<String>(ms, "night_info"@) is Some {
            value::usable::<String>(ms, "night_info"@)
        } else {
            (if value::usable::<String>(ms, "nightInfo"@) is Some {
                value::usable::<String>(ms, "nightInfo"@)
            } else {
                (if value::usable::<String>(ms, "night_weather"@) is Some {
                    value::usable::<String>(ms, "night_weather"@)
                } else {
                    value::usable::<String>(ms, "nightWeather"@)
                })
            })
        }),
        value::seen_opt(c.night_icon) == (if value::usable::<String>(ms, "night_icon"@) is Some {
            value::usable::<String>(ms, "night_icon"@)
        } else {
            (if value::usable::<String>(ms, "nightIcon"@) is Some {
                value::usable::<String>(ms, "nightIcon"@)
            } else {
                (if value::usable::<String>(ms, "night_img"@) is Some {
                    value::usable::<String>(ms, "night_img"@)
                } else {
                    value::usable::<String>(ms, "nightImg"@)
                })
            })
        }),
        chart_usable(ms) <==> c.date is Some || c.max_temperature is Some || c.min_temperature is Some || c.day_info is Some || c.day_icon is Some || c.night_info is Some || c.night_icon is Some,
{
    lemma_names_of_date_9();
    lemma_first_usable_2::<String>(ms, "date"@, "time"@);
    lemma_names_of_max_temperature_43();
    lemma_first_usable_4::<Reading>(ms, "max_temperature"@, "maxTemperature"@, "max_temp"@, "max"@);
    lemma_names_of_min_temperature_43();
    lemma_first_usable_4::<Reading>(ms, "min_temperature"@, "minTemperature"@, "min_temp"@, "min"@);
    lemma_names_of_day_info_39();
    lemma_first_usable_4::<String>(ms, "day_info"@, "dayInfo"@, "day_weather"@, "dayWeather"@);
    lemma_names_of_day_icon_31();
    lemma_first_usable_4::<String>(ms, "day_icon"@, "dayIcon"@, "day_img"@, "dayImg"@);
    lemma_names_of_night_info_47();
    lemma_first_usable_4::<String>(ms, "night_info"@, "nightInfo"@, "night_weather"@, "nightWeather"@);
    lemma_names_of_night_icon_39();
    lemma_first_usable_4::<String>(ms, "night_icon"@, "nightIcon"@, "night_img"@, "nightImg"@);
}

proof fn lemma_names_of_time_29()
    ensures
        value::names("time|publish_time|publishTime"@) == seq!["time"@, "publish_time"@, "publishTime"@],
{
    reveal_strlit("time|publish_time|publishTime");
    reveal_strlit("publish_time|publishTime");
    reveal_strlit("publishTime");
    reveal_strlit("time");
    reveal_strlit("publish_time");
    value::lemma_one_name("publishTime"@);
    value::lemma_names("publish_time"@, "publishTime"@);
    assert("publish_time|publishTime"@ =~= "publish_time"@ + seq!['|'] + "publishTime"@);
    value::lemma_names("time"@, "publish_time|publishTime"@);
    assert("time|publish_time|publishTime"@ =~= "time"@ + seq!['|'] + "publish_time|publishTime"@);
    assert(value::names("time|publish_time|publishTime"@) =~= seq!["time"@, "publish_time"@, "publishTime"@]);
}

proof fn lemma_names_of_rain_1h_21()
    ensures
        value::names("rain_1h|rain1h|rain1H"@) == seq!["rain_1h"@, "rain1h"@, "rain1H"@],
{
    reveal_strlit("rain_1h|rain1h|rain1H");
    reveal_strlit("rain1h|rain1H");
    reveal_strlit("rain1H");
    reveal_strlit("rain_1h");
    reveal_strlit("rain1h");
    value::lemma_one_name("rain1H"@);
    value::lemma_names("rain1h"@, "rain1H"@);
    assert("rain1h|rain1H"@ =~= "rain1h"@ + seq!['|'] + "rain1H"@);
    value::lemma_names("rain_1h"@, "rain1h|rain1H"@);
    assert("rain_1h|rain1h|rain1H"@ =~= "rain_1h"@ + seq!['|'] + "rain1h|rain1H"@);
    assert(value::names("rain_1h|rain1h|rain1H"@) =~= seq!["rain_1h"@, "rain1h"@, "rain1H"@]);
}

proof fn lemma_names_of_rain_6h_21()
    ensures
        value::names("rain_6h|rain6h|rain6H"@) == seq!["rain_6h"@, "rain6h"@, "rain6H"@],
{
    reveal_strlit("rain_6h|rain6h|rain6H");
    reveal_strlit("rain6h|rain6H");
    reveal_strlit("rain6H");
    reveal_strlit("rain_6h");
    reveal_strlit("rain6h");
    value::lemma_one_name("rain6H"@);
    value::lemma_names("rain6h"@, "rain6H"@);
    assert("rain6h|rain6H"@ =~= "rain6h"@ + seq!['|'] + "rain6H"@);
    value::lemma_names("rain_6h"@, "rain6h|rain6H"@);
    assert("rain_6h|rain6h|rain6H"@ =~= "rain_6h"@ + seq!['|'] + "rain6h|rain6H"@);
    assert(value::names("rain_6h|rain6h|rain6H"@) =~= seq!["rain_6h"@, "rain6h"@, "rain6H"@]);
}

proof fn lemma_names_of_rain_12h_24()
    ensures
        value::names("rain_12h|rain12h|rain12H"@) == seq!["rain_12h"@, "rain12h"@, "rain12H"@],
{
    reveal_strlit("rain_12h|rain12h|rain12H");
    reveal_strlit("rain12h|rain12H");
    reveal_strlit("rain12H");
    reveal_strlit("rain_12h");
    reveal_strlit("rain12h");
    value::lemma_one_name("rain12H"@);
    value::lemma_names("rain12h"@, "rain12H"@);
    assert("rain12h|rain12H"@ =~= "rain12h"@ + seq!['|'] + "rain12H"@);
    value::lemma_names("rain_12h"@, "rain12h|rain12H"@);
    assert("rain_12h|rain12h|rain12H"@ =~= "rain_12h"@ + seq!['|'] + "rain12h|rain12H"@);
    assert(value::names("rain_12h|rain12h|rain12H"@) =~= seq!["rain_12h"@, "rain12h"@, "rain12H"@]);
}

proof fn lemma_names_of_rain_24h_24()
    ensures
        value::names("rain_24h|rain24h|rain24H"@) == seq!["rain_24h"@, "rain24h"@, "rain24H"@],
{
    reveal_strlit("rain_24h|rain24h|rain24H");
    reveal_strlit("rain24h|rain24H");
    reveal_strlit("rain24H");
    reveal_strlit("rain_24h");
    reveal_strlit("rain24h");
    value::lemma_one_name("rain24H"@);
    value::lemma_names("rain24h"@, "rain24H"@);
    assert("rain24h|rain24H"@ =~= "rain24h"@ + seq!['|'] + "rain24H"@);
    value::lemma_names("rain_24h"@, "rain24h|rain24H"@);
    assert("rain_24h|rain24h|rain24H"@ =~= "rain_24h"@ + seq!['|'] + "rain24h|rain24H"@);
    assert(value::names("rain_24h|rain24h|rain24H"@) =~= seq!["rain_24h"@, "rain24h"@, "rain24H"@]);
}

proof fn lemma_names_of_temperature_16()
    ensures
        value::names("temperature|temp"@) == seq!["temperature"@, "temp"@],
{
    reveal_strlit("temperature|temp");
    reveal_strlit("temp");
    reveal_strlit("temperature");
    value::lemma_one_name("temp"@);
    value::lemma_names("temperature"@, "temp"@);
    assert("temperature|temp"@ =~= "temperature"@ + seq!['|'] + "temp"@);
    assert(value::names("temperature|temp"@) =~= seq!["temperature"@, "temp"@]);
}

proof fn lemma_names_of_temperature_diff_41()
    ensures
        value::names("temperature_diff|temperatureDiff|tempDiff"@) == seq!["temperature_diff"@, "temperatureDiff"@, "tempDiff"@],
{
    reveal_strlit("temperature_diff|temperatureDiff|tempDiff");
    reveal_strlit("temperatureDiff|tempDiff");
    reveal_strlit("tempDiff");
    reveal_strlit("temperature_diff");
    reveal_strlit("temperatureDiff");
    value::lemma_one_name("tempDiff"@);
    value::lemma_names("temperatureDiff"@, "tempDiff"@);
    assert("temperatureDiff|tempDiff"@ =~= "temperatureDiff"@ + seq!['|'] + "tempDiff"@);
    value::lemma_names("temperature_diff"@, "temperatureDiff|tempDiff"@);
    assert("temperature_diff|temperatureDiff|tempDiff"@ =~= "temperature_diff"@ + seq!['|'] + "temperatureDiff|tempDiff"@);
    assert(value::names("temperature_diff|temperatureDiff|tempDiff"@) =~= seq!["temperature_diff"@, "temperatureDiff"@, "tempDiff"@]);
}

proof fn lemma_names_of_humidity_8()
    ensures
        value::names("humidity"@) == seq!["humidity"@],
{
    reveal_strlit("humidity");
    value::lemma_one_name("humidity"@);
    assert(value::names("humidity"@) =~= seq!["humidity"@]);
}

proof fn lemma_names_of_pressure_33()
    ensures
        value::names("pressure|airpressure|air_pressure"@) == seq!["pressure"@, "airpressure"@, "air_pressure"@],
{
    reveal_strlit("pressure|airpressure|air_pressure");
    reveal_strlit("airpressure|air_pressure");
    reveal_strlit("air_pressure");
    reveal_strlit("pressure");
    reveal_strlit("airpressure");
    value::lemma_one_name("air_pressure"@);
    value::lemma_names("airpressure"@, "air_pressure"@);
    assert("airpressure|air_pressure"@ =~= "airpressure"@ + seq!['|'] + "air_pressure"@);
    value::lemma_names("pressure"@, "airpressure|air_pressure"@);
    assert("pressure|airpressure|air_pressure"@ =~= "pressure"@ + seq!['|'] + "airpressure|air_pressure"@);
    assert(value::names("pressure|airpressure|air_pressure"@) =~= seq!["pressure"@, "airpressure"@, "air_pressure"@]);
}

proof fn lemma_names_of_wind_direction_degree_52()
    ensures
        value::names("wind_direction_degree|windDirectionDegree|winddegree"@) == seq!["wind_direction_degree"@, "windDirectionDegree"@, "winddegree"@],
{
    reveal_strlit("wind_direction_degree|windDirectionDegree|winddegree");
    reveal_strlit("windDirectionDegree|winddegree");
    reveal_strlit("winddegree");
    reveal_strlit("wind_direction_degree");
    reveal_strlit("windDirectionDegree");
    value::lemma_one_name("winddegree"@);
    value::lemma_names("windDirectionDegree"@, "winddegree"@);
    assert("windDirectionDegree|winddegree"@ =~= "windDirectionDegree"@ + seq!['|'] + "winddegree"@);
    value::lemma_names("wind_direction_degree"@, "windDirectionDegree|winddegree"@);
    assert("wind_direction_degree|windDirectionDegree|winddegree"@ =~= "wind_direction_degree"@ + seq!['|'] + "windDirectionDegree|winddegree"@);
    assert(value::names("wind_direction_degree|windDirectionDegree|winddegree"@) =~= seq!["wind_direction_degree"@, "windDirectionDegree"@, "winddegree"@]);
}

proof fn lemma_names_of_wind_speed_30()
    ensures
        value::names("wind_speed|windSpeed|windspeed"@) == seq!["wind_speed"@, "windSpeed"@, "windspeed"@],
{
    reveal_strlit("wind_speed|windSpeed|windspeed");
    reveal_strlit("windSpeed|windspeed");
    reveal_strlit("windspeed");
    reveal_strlit("wind_speed");
    reveal_strlit("windSpeed");
    value::lemma_one_name("windspeed"@);
    value::lemma_names("windSpeed"@, "windspeed"@);
    assert("windSpeed|windspeed"@ =~= "windSpeed"@ + seq!['|'] + "windspeed"@);
    value::lemma_names("wind_speed"@, "windSpeed|windspeed"@);
    assert("wind_speed|windSpeed|windspeed"@ =~= "wind_speed"@ + seq!['|'] + "windSpeed|windspeed"@);
    assert(value::names("wind_speed|windSpeed|windspeed"@) =~= seq!["wind_speed"@, "windSpeed"@, "windspeed"@]);
}

/// A row of past observations has under each of its names what is read there; of several
/// names the first counts that has something usable. It is there where one of its fields is.
pub proof fn past_rows_are_read_by_their_names(p: PassedWeatherChart, ms: Seq<Member>)
    requires
        passed_from(p, ms),
    ensures
        value::seen_opt(p.time) == (if value::usable::<String>(ms, "time"@) is Some {
            value::usable::<String>(ms, "time"@)
        } else {
            (if value::usable::<String>(ms, "publish_time"@) is Some {
                value::usable::<String>(ms, "publish_time"@)
            } else {
                value::usable::<String>(ms, "publishTime"@)
            })
        }),
        value::seen_opt(p.rain_1h) == (if value::usable::<Reading>(ms, "rain_1h"@) is Some {
            value::usable::<Reading>(ms, "rain_1h"@)
        } else {
            (if value::usable::<Reading>(ms, "rain1h"@) is Some {
                value::usable::<Reading>(ms, "rain1h"@)
            } else {
                value::usable::<Reading>(ms, "rain1H"@)
            })
        }),
        value::seen_opt(p.rain_6h) == (if value::usable::<Reading>(ms, "rain_6h"@) is Some {
            value::usable::<Reading>(ms, "rain_6h"@)
        } else {
            (if value::usable::<Reading>(ms, "rain6h"@) is Some {
                value::usable::<Reading>(ms, "rain6h"@)
            } else {
                value::usable::<Reading>(ms, "rain6H"@)
            })
        }),
        value::seen_opt(p.rain_12h) == (if value::usable::<Reading>(ms, "rain_12h"@) is Some {
            value::usable::<Reading>(ms, "rain_12h"@)
        } else {
            (if value::usable::<Reading>(ms, "rain12h"@) is Some {
                value::usable::<Reading>(ms, "rain12h"@)
            } else {
                value::usable::<Reading>(ms, "rain12H"@)
            })
        }),
        value::seen_opt(p.rain_24h) == (if value::usable::<Reading>(ms, "rain_24h"@) is Some {
            value::usable::<Reading>(ms, "rain_24h"@)
        } else {
            (if value::usable::<Reading>(ms, "rain24h"@) is Some {
                value::usable::<Reading>(ms, "rain24h"@)
            } else {
                value::usable::<Reading>(ms, "rain24H"@)
            })
        }),
        value::seen_opt(p.temperature) == (if value::usable::<Reading>(ms, "temperature"@) is Some {
            value::usable::<Reading>(ms, "temperature"@)
        } else {
            value::usable::<Reading>(ms, "temp"@)
        }),
        value::seen_opt(p.temperature_diff) == (if value::usable::<Reading>(ms, "temperature_diff"@) is Some {
            value::usable::<Reading>(ms, "temperature_diff"@)
        } else {
            (if value::usable::<Reading>(ms, "temperatureDiff"@) is Some {
                value::usable::<Reading>(ms, "temperatureDiff"@)
            } else {
                value::usable::<Reading>(ms, "tempDiff"@)
            })
        }),
        value::seen_opt(p.humidity) == value::usable::<Reading>(ms, "humidity"@),
        value::seen_opt(p.pressure) == (if value::usable::<Reading>(ms, "pressure"@) is Some {
            value::usable::<Reading>(ms, "pressure"@)
        } else {
            (if value::usable::<Reading>(ms, "airpressure"@) is Some {
                value::usable::<Reading>(ms, "airpressure"@)
            } else {
                value::usable::<Reading>(ms, "air_pressure"@)
            })
        }),
        value::seen_opt(p.wind_direction_degree) == (if value::usable::<Reading>(ms, "wind_direction_degree"@) is Some {
            value::usable::<Reading>(ms, "wind_direction_degree"@)
        } else {
            (if value::usable::<Reading>(ms, "windDirectionDegree"@) is Some {
                value::usable::<Reading>(ms, "windDirectionDegree"@)
            } else {
                value::usable::<Reading>(ms, "winddegree"@)
            })
        }),
        value::seen_opt(p.wind_speed) == (if value::usable::<Reading>(ms, "wind_speed"@) is Some {
            value::usable::<Reading>(ms, "wind_speed"@)
        } else {
            (if value::usable::<Reading>(ms, "windSpeed"@) is Some {
                value::usable::<Reading>(ms, "windSpeed"@)
            } else {
                value::usable::<Reading>(ms, "windspeed"@)
            })
        }),
        passed_usable(ms) <==> p.time is Some || p.rain_1h is Some || p.rain_6h is Some || p.rain_12h is Some || p.rain_24h is Some || p.temperature is Some || p.temperature_diff is Some || p.humidity is Some || p.pressure is Some || p.wind_direction_degree is Some || p.wind_speed is Some,
{
    lemma_names_of_time_29();
    lemma_first_usable_3::<String>(ms, "time"@, "publish_time"@, "publishTime"@);
    lemma_names_of_rain_1h_21();
    lemma_first_usable_3::<Reading>(ms, "rain_1h"@, "rain1h"@, "rain1H"@);
    lemma_names_of_rain_6h_21();
    lemma_first_usable_3::<Reading>(ms, "rain_6h"@, "rain6h"@, "rain6H"@);
    lemma_names_of_rain_12h_24();
    lemma_first_usable_3::<Reading>(ms, "rain_12h"@, "rain12h"@, "rain12H"@);
    lemma_names_of_rain_24h_24();
    lemma_first_usable_3::<Reading>(ms, "rain_24h"@, "rain24h"@, "rain24H"@);
    lemma_names_of_temperature_16();
    lemma_first_usable_2::<Reading>(ms, "temperature"@, "temp"@);
    lemma_names_of_temperature_diff_41();
    lemma_first_usable_3::<Reading>(ms, "temperature_diff"@, "temperatureDiff"@, "tempDiff"@);
    lemma_names_of_humidity_8();
    lemma_first_usable_1::<Reading>(ms, "humidity"@);
    lemma_names_of_pressure_33();
    lemma_first_usable_3::<Reading>(ms, "pressure"@, "airpressure"@, "air_pressure"@);
    lemma_names_of_wind_direction_degree_52();
    lemma_first_usable_3::<Reading>(ms, "wind_direction_degree"@, "windDirectionDegree"@, "winddegree"@);
    lemma_names_of_wind_speed_30();
    lemma_first_usable_3::<Reading>(ms, "wind_speed"@, "windSpeed"@, "windspeed"@);
}

/// Each field of a chart that has no usable value and one of the wrong kind is told, and
/// nothing where there is none; a chart without anything known is told as such.
pub proof fn charts_tell_what_is_unusable(v: &Json, path: Seq<char>, w: Seq<Seq<char>>, ms: Seq<Member>)
    requires
        value::section(Some(v)) == Some(ms),
    ensures
        w.is_prefix_of(chart_warned(v, path, w)),
        value::alias_value::<String>(ms, value::names("date|time"@)) is None && value::alias_invalid::<String>(ms, value::names("date|time"@)) ==> chart_warned(v, path, w).contains(path + ".date"@ + (": no alias contained a usable "@ + "string"@ + "; field ignored"@)),
        value::alias_value::<Reading>(ms, value::names("max_temperature|maxTemperature|max_temp|max"@)) is None && value::alias_invalid::<Reading>(ms, value::names("max_temperature|maxTemperature|max_temp|max"@)) ==> chart_warned(v, path, w).contains(path + ".max_temperature"@ + (": no alias contained a usable "@ + "number"@ + "; field ignored"@)),
        value::alias_value::<Reading>(ms, value::names("min_temperature|minTemperature|min_temp|min"@)) is None && value::alias_invalid::<Reading>(ms, value::names("min_temperature|minTemperature|min_temp|min"@)) ==> chart_warned(v, path, w).contains(path + ".min_temperature"@ + (": no alias contained a usable "@ + "number"@ + "; field ignored"@)),
        value::alias_value::<String>(ms, value::names("day_info|dayInfo|day_weather|dayWeather"@)) is None && value::alias_invalid::<String>(ms, value::names("day_info|dayInfo|day_weather|dayWeather"@)) ==> chart_warned(v, path, w).contains(path + ".day_info"@ + (": no alias contained a usable "@ + "string"@ + "; field ignored"@)),
        value::alias_value::<String>(ms, value::names("day_icon|dayIcon|day_img|dayImg"@)) is None && value::alias_invalid::<String>(ms, value::names("day_icon|dayIcon|day_img|dayImg"@)) ==> chart_warned(v, path, w).contains(path + ".day_icon"@ + (": no alias contained a usable "@ + "string"@ + "; field ignored"@)),
        value::alias_value::<String>(ms, value::names("night_info|nightInfo|night_weather|nightWeather"@)) is None && value::alias_invalid::<String>(ms, value::names("night_info|nightInfo|night_weather|nightWeather"@)) ==> chart_warned(v, path, w).contains(path + ".night_info"@ + (": no alias contained a usable "@ + "string"@ + "; field ignored"@)),
        value::alias_value::<String>(ms, value::names("night_icon|nightIcon|night_img|nightImg"@)) is None && value::alias_invalid::<String>(ms, value::names("night_icon|nightIcon|night_img|nightImg"@)) ==> chart_warned(v, path, w).contains(path + ".night_icon"@ + (": no alias contained a usable "@ + "string"@ + "; field ignored"@)),
        (!value::alias_invalid::<String>(ms, value::names("date|time"@)) && !value::alias_invalid::<Reading>(ms, value::names("max_temperature|maxTemperature|max_temp|max"@)) && !value::alias_invalid::<Reading>(ms, value::names("min_temperature|minTemperature|min_temp|min"@)) && !value::alias_invalid::<String>(ms, value::names("day_info|dayInfo|day_weather|dayWeather"@)) && !value::alias_invalid::<String>(ms, value::names("day_icon|dayIcon|day_img|dayImg"@)) && !value::alias_invalid::<String>(ms, value::names("night_info|nightInfo|night_weather|nightWeather"@)) && !value::alias_invalid::<String>(ms, value::names("night_icon|nightIcon|night_img|nightImg"@))) && chart_usable(ms) ==> chart_warned(v, path, w) == w,
        (!value::alias_invalid::<String>(ms, value::names("date|time"@)) && !value::alias_invalid::<Reading>(ms, value::names("max_temperature|maxTemperature|max_temp|max"@)) && !value::alias_invalid::<Reading>(ms, value::names("min_temperature|minTemperature|min_temp|min"@)) && !value::alias_invalid::<String>(ms, value::names("day_info|dayInfo|day_weather|dayWeather"@)) && !value::alias_invalid::<String>(ms, value::names("day_icon|dayIcon|day_img|dayImg"@)) && !value::alias_invalid::<String>(ms, value::names("night_info|nightInfo|night_weather|nightWeather"@)) && !value::alias_invalid::<String>(ms, value::names("night_icon|nightIcon|night_img|nightImg"@))) && !chart_usable(ms) ==> chart_warned(v, path, w) == w.push(path + ": no usable known fields; ignored"@),
{
    lemma_content(Some(v), ms);
    let w0 = w;
    let w1 = value::alias_warned::<String>(ms, "date|time"@, path + ".date"@, w0);
    value::lemma_alias_told::<String>(ms, "date|time"@, path + ".date"@, w0);
    let w2 = value::alias_warned::<Reading>(ms, "max_temperature|maxTemperature|max_temp|max"@, path + ".max_temperature"@, w1);
    value::lemma_alias_told::<Reading>(ms, "max_temperature|maxTemperature|max_temp|max"@, path + ".max_temperature"@, w1);
    let w3 = value::alias_warned::<Reading>(ms, "min_temperature|minTemperature|min_temp|min"@, path + ".min_temperature"@, w2);
    value::lemma_alias_told::<Reading>(ms, "min_temperature|minTemperature|min_temp|min"@, path + ".min_temperature"@, w2);
    let w4 = value::alias_warned::<String>(ms, "day_info|dayInfo|day_weather|dayWeather"@, path + ".day_info"@, w3);
    value::lemma_alias_told::<String>(ms, "day_info|dayInfo|day_weather|dayWeather"@, path + ".day_info"@, w3);
    let w5 = value::alias_warned::<String>(ms, "day_icon|dayIcon|day_img|dayImg"@, path + ".day_icon"@, w4);
    value::lemma_alias_told::<String>(ms, "day_icon|dayIcon|day_img|dayImg"@, path + ".day_icon"@, w4);
    let w6 = value::alias_warned::<String>(ms, "night_info|nightInfo|night_weather|nightWeather"@, path + ".night_info"@, w5);
    value::lemma_alias_told::<String>(ms, "night_info|nightInfo|night_weather|nightWeather"@, path + ".night_info"@, w5);
    let w7 = value::alias_warned::<String>(ms, "night_icon|nightIcon|night_img|nightImg"@, path + ".night_icon"@, w6);
    value::lemma_alias_told::<String>(ms, "night_icon|nightIcon|night_img|nightImg"@, path + ".night_icon"@, w6);
    let end = chart_warned(v, path, w);
    value::lemma_pushed(w7, path + ": no usable known fields; ignored"@);
    assert(w7.is_prefix_of(end));
    value::lemma_pushed(end, end[0]);
    value::lemma_prefix(w7, end, end);
    value::lemma_prefix(w6, w7, end);
    value::lemma_prefix(w5, w6, end);
    value::lemma_prefix(w4, w5, end);
    value::lemma_prefix(w3, w4, end);
    value::lemma_prefix(w2, w3, end);
    value::lemma_prefix(w1, w2, end);
    value::lemma_prefix(w0, w1, end);
}

/// Each field of a row that has no usable value and one of the wrong kind is told, and
/// nothing where there is none; a row without anything known is told as such.
pub proof fn past_rows_tell_what_is_unusable(v: &Json, path: Seq<char>, w: Seq<Seq<char>>, ms: Seq<Member>)
    requires
        value::section(Some(v)) == Some(ms),
    ensures
        w.is_prefix_of(passed_warned(v, path, w)),
        value::alias_value::<String>(ms, value::names("time|publish_time|publishTime"@)) is None && value::alias_invalid::<String>(ms, value::names("time|publish_time|publishTime"@)) ==> passed_warned(v, path, w).contains(path + ".time"@ + (": no alias contained a usable "@ + "string"@ + "; field ignored"@)),
        value::alias_value::<Reading>(ms, value::names("rain_1h|rain1h|rain1H"@)) is None && value::alias_invalid::<Reading>(ms, value::names("rain_1h|rain1h|rain1H"@)) ==> passed_warned(v, path, w).contains(path + ".rain_1h"@ + (": no alias contained a usable "@ + "number"@ + "; field ignored"@)),
        value::alias_value::<Reading>(ms, value::names("rain_6h|rain6h|rain6H"@)) is None && value::alias_invalid::<Reading>(ms, value::names("rain_6h|rain6h|rain6H"@)) ==> passed_warned(v, path, w).contains(path + ".rain_6h"@ + (": no alias contained a usable "@ + "number"@ + "; field ignored"@)),
        value::alias_value::<Reading>(ms, value::names("rain_12h|rain12h|rain12H"@)) is None && value::alias_invalid::<Reading>(ms, value::names("rain_12h|rain12h|rain12H"@)) ==> passed_warned(v, path, w).contains(path + ".rain_12h"@ + (": no alias contained a usable "@ + "number"@ + "; field ignored"@)),
        value::alias_value::<Reading>(ms, value::names("rain_24h|rain24h|rain24H"@)) is None && value::alias_invalid::<Reading>(ms, value::names("rain_24h|rain24h|rain24H"@)) ==> passed_warned(v, path, w).contains(path + ".rain_24h"@ + (": no alias contained a usable "@ + "number"@ + "; field ignored"@)),
        value::alias_value::<Reading>(ms, value::names("temperature|temp"@)) is None && value::alias_invalid::<Reading>(ms, value::names("temperature|temp"@)) ==> passed_warned(v, path, w).contains(path + ".temperature"@ + (": no alias contained a usable "@ + "number"@ + "; field ignored"@)),
        value::alias_value::<Reading>(ms, value::names("temperature_diff|temperatureDiff|tempDiff"@)) is None && value::alias_invalid::<Reading>(ms, value::names("temperature_diff|temperatureDiff|tempDiff"@)) ==> passed_warned(v, path, w).contains(path + ".temperature_diff"@ + (": no alias contained a usable "@ + "number"@ + "; field ignored"@)),
        value::alias_value::<Reading>(ms, value::names("humidity"@)) is None && value::alias_invalid::<Reading>(ms, value::names("humidity"@)) ==> passed_warned(v, path, w).contains(path + ".humidity"@ + (": no alias contained a usable "@ + "number"@ + "; field ignored"@)),
        value::alias_value::<Reading>(ms, value::names("pressure|airpressure|air_pressure"@)) is None && value::alias_invalid::<Reading>(ms, value::names("pressure|airpressure|air_pressure"@)) ==> passed_warned(v, path, w).contains(path + ".pressure"@ + (": no alias contained a usable "@ + "number"@ + "; field ignored"@)),
        value::alias_value::<Reading>(ms, value::names("wind_direction_degree|windDirectionDegree|winddegree"@)) is None && value::alias_invalid::<Reading>(ms, value::names("wind_direction_degree|windDirectionDegree|winddegree"@)) ==> passed_warned(v, path, w).contains(path + ".wind_direction_degree"@ + (": no alias contained a usable "@ + "number"@ + "; field ignored"@)),
        value::alias_value::<Reading>(ms, value::names("wind_speed|windSpeed|windspeed"@)) is None && value::alias_invalid::<Reading>(ms, value::names("wind_speed|windSpeed|windspeed"@)) ==> passed_warned(v, path, w).contains(path + ".wind_speed"@ + (": no alias contained a usable "@ + "number"@ + "; field ignored"@)),
        (!value::alias_invalid::<String>(ms, value::names("time|publish_time|publishTime"@)) && !value::alias_invalid::<Reading>(ms, value::names("rain_1h|rain1h|rain1H"@)) && !value::alias_invalid::<Reading>(ms, value::names("rain_6h|rain6h|rain6H"@)) && !value::alias_invalid::<Reading>(ms, value::names("rain_12h|rain12h|rain12H"@)) && !value::alias_invalid::<Reading>(ms, value::names("rain_24h|rain24h|rain24H"@)) && !value::alias_invalid::<Reading>(ms, value::names("temperature|temp"@)) && !value::alias_invalid::<Reading>(ms, value::names("temperature_diff|temperatureDiff|tempDiff"@)) && !value::alias_invalid::<Reading>(ms, value::names("humidity"@)) && !value::alias_invalid::<Reading>(ms, value::names("pressure|airpressure|air_pressure"@)) && !value::alias_invalid::<Reading>(ms, value::names("wind_direction_degree|windDirectionDegree|winddegree"@)) && !value::alias_invalid::<Reading>(ms, value::names("wind_speed|windSpeed|windspeed"@))) && passed_usable(ms) ==> passed_warned(v, path, w) == w,
        (!value::alias_invalid::<String>(ms, value::names("time|publish_time|publishTime"@)) && !value::alias_invalid::<Reading>(ms, value::names("rain_1h|rain1h|rain1H"@)) && !value::alias_invalid::<Reading>(ms, value::names("rain_6h|rain6h|rain6H"@)) && !value::alias_invalid::<Reading>(ms, value::names("rain_12h|rain12h|rain12H"@)) && !value::alias_invalid::<Reading>(ms, value::names("rain_24h|rain24h|rain24H"@)) && !value::alias_invalid::<Reading>(ms, value::names("temperature|temp"@)) && !value::alias_invalid::<Reading>(ms, value::names("temperature_diff|temperatureDiff|tempDiff"@)) && !value::alias_invalid::<Reading>(ms, value::names("humidity"@)) && !value::alias_invalid::<Reading>(ms, value::names("pressure|airpressure|air_pressure"@)) && !value::alias_invalid::<Reading>(ms, value::names("wind_direction_degree|windDirectionDegree|winddegree"@)) && !value::alias_invalid::<Reading>(ms, value::names("wind_speed|windSpeed|windspeed"@))) && !passed_usable(ms) ==> passed_warned(v, path, w) == w.push(path + ": no usable known fields; ignored"@),
{
    lemma_content(Some(v), ms);
    let w0 = w;
    let w1 = value::alias_warned::<String>(ms, "time|publish_time|publishTime"@, path + ".time"@, w0);
    value::lemma_alias_told::<String>(ms, "time|publish_time|publishTime"@, path + ".time"@, w0);
    let w2 = value::alias_warned::<Reading>(ms, "rain_1h|rain1h|rain1H"@, path + ".rain_1h"@, w1);
    value::lemma_alias_told::<Reading>(ms, "rain_1h|rain1h|rain1H"@, path + ".rain_1h"@, w1);
    let w3 = value::alias_warned::<Reading>(ms, "rain_6h|rain6h|rain6H"@, path + ".rain_6h"@, w2);
    value::lemma_alias_told::<Reading>(ms, "rain_6h|rain6h|rain6H"@, path + ".rain_6h"@, w2);
    let w4 = value::alias_warned::<Reading>(ms, "rain_12h|rain12h|rain12H"@, path + ".rain_12h"@, w3);
    value::lemma_alias_told::<Reading>(ms, "rain_12h|rain12h|rain12H"@, path + ".rain_12h"@, w3);
    let w5 = value::alias_warned::<Reading>(ms, "rain_24h|rain24h|rain24H"@, path + ".rain_24h"@, w4);
    value::lemma_alias_told::<Reading>(ms, "rain_24h|rain24h|rain24H"@, path + ".rain_24h"@, w4);
    let w6 = value::alias_warned::<Reading>(ms, "temperature|temp"@, path + ".temperature"@, w5);
    value::lemma_alias_told::<Reading>(ms, "temperature|temp"@, path + ".temperature"@, w5);
    let w7 = value::alias_warned::<Reading>(ms, "temperature_diff|temperatureDiff|tempDiff"@, path + ".temperature_diff"@, w6);
    value::lemma_alias_told::<Reading>(ms, "temperature_diff|temperatureDiff|tempDiff"@, path + ".temperature_diff"@, w6);
    let w8 = value::alias_warned::<Reading>(ms, "humidity"@, path + ".humidity"@, w7);
    value::lemma_alias_told::<Reading>(ms, "humidity"@, path + ".humidity"@, w7);
    let w9 = value::alias_warned::<Reading>(ms, "pressure|airpressure|air_pressure"@, path + ".pressure"@, w8);
    value::lemma_alias_told::<Reading>(ms, "pressure|airpressure|air_pressure"@, path + ".pressure"@, w8);
    let w10 = value::alias_warned::<Reading>(ms, "wind_direction_degree|windDirectionDegree|winddegree"@, path + ".wind_direction_degree"@, w9);
    value::lemma_alias_told::<Reading>(ms, "wind_direction_degree|windDirectionDegree|winddegree"@, path + ".wind_direction_degree"@, w9);
    let w11 = value::alias_warned::<Reading>(ms, "wind_speed|windSpeed|windspeed"@, path + ".wind_speed"@, w10);
    value::lemma_alias_told::<Reading>(ms, "wind_speed|windSpeed|windspeed"@, path + ".wind_speed"@, w10);
    let end = passed_warned(v, path, w);
    value::lemma_pushed(w11, path + ": no usable known fields; ignored"@);
    assert(w11.is_prefix_of(end));
    value::lemma_pushed(end, end[0]);
    value::lemma_prefix(w11, end, end);
    value::lemma_prefix(w10, w11, end);
    value::lemma_prefix(w9, w10, end);
    value::lemma_prefix(w8, w9, end);
    value::lemma_prefix(w7, w8, end);
    value::lemma_prefix(w6, w7, end);
    value::lemma_prefix(w5, w6, end);
    value::lemma_prefix(w4, w5, end);
    value::lemma_prefix(w3, w4, end);
    value::lemma_prefix(w2, w3, end);
    value::lemma_prefix(w1, w2, end);
    value::lemma_prefix(w0, w1, end);
}

/// Charts stand in the order of the entries that they are read from.
pub proof fn charts_keep_their_order(rs: Seq<TemperatureChart>, es: Seq<(usize, &Json)>, k: int, m: int)
    requires
        chart_list_from(rs, es),
        0 <= k < m < es.len(),
        (value::section(Some(es[k].1)) is Some && chart_usable(value::section(Some(es[k].1)).unwrap())),
        (value::section(Some(es[m].1)) is Some && chart_usable(value::section(Some(es[m].1)).unwrap())),
    ensures
        exists|i: int, j: int|
            0 <= i < j < rs.len() && chart_from(#[trigger] rs[i], value::section(Some(es[k].1)).unwrap()) && chart_from(#[trigger] rs[j], value::section(Some(es[m].1)).unwrap()),
    decreases es.len(),
{
    let rest = es.drop_last();
    assert(rest[k] == es[k]);
    if m < rest.len() {
        assert(rest[m] == es[m]);
        let shorter = if (value::section(Some(es.last().1)) is Some && chart_usable(value::section(Some(es.last().1)).unwrap())) { rs.drop_last() } else { rs };
        charts_keep_their_order(shorter, rest, k, m);
        let (i, j) = choose|i: int, j: int|
            0 <= i < j < shorter.len() && chart_from(#[trigger] shorter[i], value::section(Some(es[k].1)).unwrap()) && chart_from(#[trigger] shorter[j], value::section(Some(es[m].1)).unwrap());
        assert(rs[i] == shorter[i] && rs[j] == shorter[j]);
    } else {
        usable_entries_give_charts(rs.drop_last(), rest, k);
        let i = choose|i: int| 0 <= i < rs.drop_last().len() && chart_from(#[trigger] rs.drop_last()[i], value::section(Some(es[k].1)).unwrap());
        let j = rs.len() - 1;
        assert(rs[i] == rs.drop_last()[i]);
        assert(rs[j] == rs.last());
    }
}

/// Every usable entry gives a chart, and every chart is that of a usable entry.
pub proof fn usable_entries_give_charts(rs: Seq<TemperatureChart>, es: Seq<(usize, &Json)>, k: int)
    requires
        chart_list_from(rs, es),
    ensures
        0 <= k < es.len() && (value::section(Some(es[k].1)) is Some && chart_usable(value::section(Some(es[k].1)).unwrap())) ==> exists|i: int|
            0 <= i < rs.len() && chart_from(#[trigger] rs[i], value::section(Some(es[k].1)).unwrap()),
        0 <= k < rs.len() ==> exists|i: int|
            0 <= i < es.len() && (value::section(Some((#[trigger] es[i]).1)) is Some && chart_usable(value::section(Some((es[i]).1)).unwrap())) && chart_from(rs[k], value::section(Some(es[i].1)).unwrap()),
        rs.len() <= es.len(),
    decreases es.len(),
{
    if es.len() > 0 {
        let rest = es.drop_last();
        let used = (value::section(Some(es.last().1)) is Some && chart_usable(value::section(Some(es.last().1)).unwrap()));
        let shorter = if used { rs.drop_last() } else { rs };
        usable_entries_give_charts(shorter, rest, k);
        if 0 <= k < es.len() && (value::section(Some(es[k].1)) is Some && chart_usable(value::section(Some(es[k].1)).unwrap())) {
            if k < rest.len() {
                assert(rest[k] == es[k]);
                let i = choose|i: int| 0 <= i < shorter.len() && chart_from(#[trigger] shorter[i], value::section(Some(es[k].1)).unwrap());
                assert(rs[i] == shorter[i]);
            } else {
                assert(rs[rs.len() - 1] == rs.last());
            }
        }
        if 0 <= k < rs.len() {
            if k < shorter.len() {
                assert(rs[k] == shorter[k]);
                let i = choose|i: int| 0 <= i < rest.len() && (value::section(Some((#[trigger] rest[i]).1)) is Some && chart_usable(value::section(Some((rest[i]).1)).unwrap())) && chart_from(rs[k], value::section(Some(rest[i].1)).unwrap());
                assert(es[i] == rest[i]);
            } else {
                assert(es[es.len() - 1] == es.last());
                assert(rs[k] == rs.last());
            }
        }
    }
}

/// Rows stand in the order of the entries that they are read from.
pub proof fn past_rows_keep_their_order(rs: Seq<PassedWeatherChart>, es: Seq<(usize, &Json)>, k: int, m: int)
    requires
        passed_list_from(rs, es),
        0 <= k < m < es.len(),
        (value::section(Some(es[k].1)) is Some && passed_usable(value::section(Some(es[k].1)).unwrap())),
        (value::section(Some(es[m].1)) is Some && passed_usable(value::section(Some(es[m].1)).unwrap())),
    ensures
        exists|i: int, j: int|
            0 <= i < j < rs.len() && passed_from(#[trigger] rs[i], value::section(Some(es[k].1)).unwrap()) && passed_from(#[trigger] rs[j], value::section(Some(es[m].1)).unwrap()),
    decreases es.len(),
{
    let rest = es.drop_last();
    assert(rest[k] == es[k]);
    if m < rest.len() {
        assert(rest[m] == es[m]);
        let shorter = if (value::section(Some(es.last().1)) is Some && passed_usable(value::section(Some(es.last().1)).unwrap())) { rs.drop_last() } else { rs };
        past_rows_keep_their_order(shorter, rest, k, m);
        let (i, j) = choose|i: int, j: int|
            0 <= i < j < shorter.len() && passed_from(#[trigger] shorter[i], value::section(Some(es[k].1)).unwrap()) && passed_from(#[trigger] shorter[j], value::section(Some(es[m].1)).unwrap());
        assert(rs[i] == shorter[i] && rs[j] == shorter[j]);
    } else {
        usable_entries_give_rows(rs.drop_last(), rest, k);
        let i = choose|i: int| 0 <= i < rs.drop_last().len() && passed_from(#[trigger] rs.drop_last()[i], value::section(Some(es[k].1)).unwrap());
        let j = rs.len() - 1;
        assert(rs[i] == rs.drop_last()[i]);
        assert(rs[j] == rs.last());
    }
}

/// Every usable entry gives a row, and every row is that of a usable entry.
pub proof fn usable_entries_give_rows(rs: Seq<PassedWeatherChart>, es: Seq<(usize, &Json)>, k: int)
    requires
        passed_list_from(rs, es),
    ensures
        0 <= k < es.len() && (value::section(Some(es[k].1)) is Some && passed_usable(value::section(Some(es[k].1)).unwrap())) ==> exists|i: int|
            0 <= i < rs.len() && passed_from(#[trigger] rs[i], value::section(Some(es[k].1)).unwrap()),
        0 <= k < rs.len() ==> exists|i: int|
            0 <= i < es.len() && (value::section(Some((#[trigger] es[i]).1)) is Some && passed_usable(value::section(Some((es[i]).1)).unwrap())) && passed_from(rs[k], value::section(Some(es[i].1)).unwrap()),
        rs.len() <= es.len(),
    decreases es.len(),
{
    if es.len() > 0 {
        let rest = es.drop_last();
        let used = (value::section(Some(es.last().1)) is Some && passed_usable(value::section(Some(es.last().1)).unwrap()));
        let shorter = if used { rs.drop_last() } else { rs };
        usable_entries_give_rows(shorter, rest, k);
        if 0 <= k < es.len() && (value::section(Some(es[k].1)) is Some && passed_usable(value::section(Some(es[k].1)).unwrap())) {
            if k < rest.len() {
                assert(rest[k] == es[k]);
                let i = choose|i: int| 0 <= i < shorter.len() && passed_from(#[trigger] shorter[i], value::section(Some(es[k].1)).unwrap());
                assert(rs[i] == shorter[i]);
            } else {
                assert(rs[rs.len() - 1] == rs.last());
            }
        }
        if 0 <= k < rs.len() {
            if k < shorter.len() {
                assert(rs[k] == shorter[k]);
                let i = choose|i: int| 0 <= i < rest.len() && (value::section(Some((#[trigger] rest[i]).1)) is Some && passed_usable(value::section(Some((rest[i]).1)).unwrap())) && passed_from(rs[k], value::section(Some(rest[i].1)).unwrap());
                assert(es[i] == rest[i]);
            } else {
                assert(es[es.len() - 1] == es.last());
                assert(rs[k] == rs.last());
            }
        }
    }
}

proof fn lemma_chart_told(v: &Json, path: Seq<char>, w: Seq<Seq<char>>)
    ensures
        w.is_prefix_of(chart_warned(v, path, w)),
{
    value::lemma_section_told(Some(v), path, crate::nmc::optional::expected_object(), w);
    if let Some(ms) = value::section(Some(v)) {
        charts_tell_what_is_unusable(v, path, w, ms);
    }
}

/// The warnings of charts stand in the order of the entries, and none is lost.
pub proof fn chart_warnings_add_up(
    es: Seq<(usize, &Json)>,
    e: (usize, &Json),
    w: Seq<Seq<char>>,
)
    ensures
        chart_list_warned(Seq::empty(), w) == w,
        chart_list_warned(es.push(e), w) == chart_warned(
            e.1,
            "tempchart"@ + "["@ + text::numeral(e.0 as nat) + "]"@,
            chart_list_warned(es, w),
        ),
        w.is_prefix_of(chart_list_warned(es, w)),
    decreases es.len(),
{
    assert(es.push(e).drop_last() =~= es);
    value::lemma_pushed(w, w[0]);
    if es.len() > 0 {
        let before = chart_list_warned(es.drop_last(), w);
        let path = current::entry_path("tempchart"@, es.last().0);
        chart_warnings_add_up(es.drop_last(), es.last(), w);
        lemma_chart_told(es.last().1, path, before);
        value::lemma_prefix(w, before, chart_list_warned(es, w));
    }
}

/// An entry that stands for nothing is passed over; one that holds something and is no object is told.
pub proof fn chart_entries_have_to_be_objects(v: Json, path: Seq<char>, w: Seq<Seq<char>>)
    ensures
        json::missing(v) ==> chart_warned(&v, path, w) == w,
        !json::missing(v) && !(v is Object) ==> chart_warned(&v, path, w) == w.push(
            path + ": expected object; ignored"@,
        ),
{
}

proof fn lemma_row_told(v: &Json, path: Seq<char>, w: Seq<Seq<char>>)
    ensures
        w.is_prefix_of(passed_warned(v, path, w)),
{
    value::lemma_section_told(Some(v), path, crate::nmc::optional::expected_object(), w);
    if let Some(ms) = value::section(Some(v)) {
        past_rows_tell_what_is_unusable(v, path, w, ms);
    }
}

/// The warnings of past rows stand in the order of the entries, and none is lost.
pub proof fn row_warnings_add_up(
    es: Seq<(usize, &Json)>,
    e: (usize, &Json),
    w: Seq<Seq<char>>,
)
    ensures
        passed_list_warned(Seq::empty(), w) == w,
        passed_list_warned(es.push(e), w) == passed_warned(
            e.1,
            "passedchart"@ + "["@ + text::numeral(e.0 as nat) + "]"@,
            passed_list_warned(es, w),
        ),
        w.is_prefix_of(passed_list_warned(es, w)),
    decreases es.len(),
{
    assert(es.push(e).drop_last() =~= es);
    value::lemma_pushed(w, w[0]);
    if es.len() > 0 {
        let before = passed_list_warned(es.drop_last(), w);
        let path = current::entry_path("passedchart"@, es.last().0);
        row_warnings_add_up(es.drop_last(), es.last(), w);
        lemma_row_told(es.last().1, path, before);
        value::lemma_prefix(w, before, passed_list_warned(es, w));
    }
}

/// An entry that stands for nothing is passed over; one that holds something and is no object is told.
pub proof fn row_entries_have_to_be_objects(v: Json, path: Seq<char>, w: Seq<Seq<char>>)
    ensures
        json::missing(v) ==> passed_warned(&v, path, w) == w,
        !json::missing(v) && !(v is Object) ==> passed_warned(&v, path, w) == w.push(
            path + ": expected object; ignored"@,
        ),
{
}

} // verus!
