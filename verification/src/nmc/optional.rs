//! Mapping of air quality, climate and radar.

use vstd::prelude::*;
use crate::json::{self, Json, Member};
use crate::nmc::current;
use crate::nmc::value::{self, MappingContext};
use crate::reading::Reading;
use crate::report::{AirQuality, ClimateMonth, ClimateSummary, RadarInfo};
use crate::text;

verus! {

/// The complaint about a section that is no object.
pub open spec fn expected_object() -> Seq<char> {
    ": expected object; ignored"@
}

/// The warnings after nothing was found in a section that holds something.
pub open spec fn unusable_warned(
    path: Seq<char>,
    ms: Seq<Member>,
    before: nat,
    w: Seq<Seq<char>>,
) -> Seq<Seq<char>> {
    if w.len() == before && json::has_content(ms) {
        w.push(path + ": no usable known fields; ignored"@)
    } else {
        w
    }
}

/// Warns of a section that holds something but nothing known, unless there was a
/// warning about one of its fields.
pub fn warn_if_unusable(
    path: &str,
    ms: &Vec<Member>,
    warning_count_before: usize,
    context: &mut MappingContext,
)
    ensures
        final(context).warned() == unusable_warned(
            path@,
            ms@,
            warning_count_before as nat,
            old(context).warned(),
        ),
        final(context).base_url == old(context).base_url,
{
    if context.warning_count() == warning_count_before && json::has_non_missing_values(ms) {
        context.warn(path, ": no usable known fields; ignored");
    }
}

/// `a` holds what the members say, read by alias.
pub open spec fn air_from(a: AirQuality, ms: Seq<Member>) -> bool {
    &&& value::seen_opt(a.publish_time) == value::alias_value::<String>(ms, value::names("publish_time|publishTime|pubtime|pub_time"@))
    &&& value::seen_opt(a.aqi) == value::alias_value::<Reading>(ms, value::names("aqi|AQI"@))
    &&& value::seen_opt(a.level) == value::alias_value::<String>(ms, value::names("level|aqi_level|aqiLevel"@))
    &&& value::seen_opt(a.category) == value::alias_value::<String>(ms, value::names("category|quality|text"@))
    &&& value::seen_opt(a.primary_pollutant) == value::alias_value::<String>(ms, value::names("primary_pollutant|primaryPollutant|primary|main_pollutant"@))
    &&& value::seen_opt(a.pm2_5) == value::alias_value::<Reading>(ms, value::names("pm2_5|pm25|pm2.5|PM2_5|PM25"@))
    &&& value::seen_opt(a.pm10) == value::alias_value::<Reading>(ms, value::names("pm10|PM10"@))
    &&& value::seen_opt(a.no2) == value::alias_value::<Reading>(ms, value::names("no2|NO2"@))
    &&& value::seen_opt(a.so2) == value::alias_value::<Reading>(ms, value::names("so2|SO2"@))
    &&& value::seen_opt(a.co) == value::alias_value::<Reading>(ms, value::names("co|CO"@))
    &&& value::seen_opt(a.o3) == value::alias_value::<Reading>(ms, value::names("o3|O3"@))
}

/// Some field of the air quality can be read.
pub open spec fn air_usable(ms: Seq<Member>) -> bool {
    ||| value::alias_value::<String>(ms, value::names("publish_time|publishTime|pubtime|pub_time"@)) is Some
    ||| value::alias_value::<Reading>(ms, value::names("aqi|AQI"@)) is Some
    ||| value::alias_value::<String>(ms, value::names("level|aqi_level|aqiLevel"@)) is Some
    ||| value::alias_value::<String>(ms, value::names("category|quality|text"@)) is Some
    ||| value::alias_value::<String>(ms, value::names("primary_pollutant|primaryPollutant|primary|main_pollutant"@)) is Some
    ||| value::alias_value::<Reading>(ms, value::names("pm2_5|pm25|pm2.5|PM2_5|PM25"@)) is Some
    ||| value::alias_value::<Reading>(ms, value::names("pm10|PM10"@)) is Some
    ||| value::alias_value::<Reading>(ms, value::names("no2|NO2"@)) is Some
    ||| value::alias_value::<Reading>(ms, value::names("so2|SO2"@)) is Some
    ||| value::alias_value::<Reading>(ms, value::names("co|CO"@)) is Some
    ||| value::alias_value::<Reading>(ms, value::names("o3|O3"@)) is Some
}

/// The warnings after the air quality was read.
pub open spec fn air_warned(v: Option<&Json>, w: Seq<Seq<char>>) -> Seq<Seq<char>> {
    let w0 = value::section_warned(v, "air"@, expected_object(), w);
    match value::section(v) {
        None => w0,
        Some(ms) => {
            let w = w0;
            let w = value::alias_warned::<String>(ms, "publish_time|publishTime|pubtime|pub_time"@, "air.publish_time"@, w);
            let w = value::alias_warned::<Reading>(ms, "aqi|AQI"@, "air.aqi"@, w);
            let w = value::alias_warned::<String>(ms, "level|aqi_level|aqiLevel"@, "air.level"@, w);
            let w = value::alias_warned::<String>(ms, "category|quality|text"@, "air.category"@, w);
            let w = value::alias_warned::<String>(ms, "primary_pollutant|primaryPollutant|primary|main_pollutant"@, "air.primary_pollutant"@, w);
            let w = value::alias_warned::<Reading>(ms, "pm2_5|pm25|pm2.5|PM2_5|PM25"@, "air.pm2_5"@, w);
            let w = value::alias_warned::<Reading>(ms, "pm10|PM10"@, "air.pm10"@, w);
            let w = value::alias_warned::<Reading>(ms, "no2|NO2"@, "air.no2"@, w);
            let w = value::alias_warned::<Reading>(ms, "so2|SO2"@, "air.so2"@, w);
            let w = value::alias_warned::<Reading>(ms, "co|CO"@, "air.co"@, w);
            let w = value::alias_warned::<Reading>(ms, "o3|O3"@, "air.o3"@, w);
            if air_usable(ms) {
                w
            } else {
                unusable_warned("air"@, ms, w0.len(), w)
            }
        },
    }
}

fn has_air_fields(a: &AirQuality) -> (r: bool)
    ensures
        r == (a.publish_time is Some || a.aqi is Some || a.level is Some || a.category is Some || a.primary_pollutant is Some || a.pm2_5 is Some || a.pm10 is Some || a.no2 is Some || a.so2 is Some || a.co is Some || a.o3 is Some),
{
    a.publish_time.is_some() || a.aqi.is_some() || a.level.is_some() || a.category.is_some() || a.primary_pollutant.is_some() || a.pm2_5.is_some() || a.pm10.is_some() || a.no2.is_some() || a.so2.is_some() || a.co.is_some() || a.o3.is_some()
}

/// Reads the air quality.
pub fn map_air_quality(raw: Option<&Json>, context: &mut MappingContext) -> (r: Option<AirQuality>)
    ensures
        r is Some <==> (value::section(raw) matches Some(ms) && air_usable(ms)),
        r matches Some(a) ==> air_from(a, value::section(raw)->0),
        final(context).warned() == air_warned(raw, old(context).warned()),
        final(context).base_url == old(context).base_url,
{
    let path = "air";
    let ms = match value::section_object(raw, path, context) {
        Some(ms) => ms,
        None => {
            return None;
        },
    };
    let before = context.warning_count();
    let air = AirQuality {
        publish_time: value::alias::<String>(ms, "publish_time|publishTime|pubtime|pub_time", "air.publish_time", context),
        aqi: value::alias::<Reading>(ms, "aqi|AQI", "air.aqi", context),
        level: value::alias::<String>(ms, "level|aqi_level|aqiLevel", "air.level", context),
        category: value::alias::<String>(ms, "category|quality|text", "air.category", context),
        primary_pollutant: value::alias::<String>(ms, "primary_pollutant|primaryPollutant|primary|main_pollutant", "air.primary_pollutant", context),
        pm2_5: value::alias::<Reading>(ms, "pm2_5|pm25|pm2.5|PM2_5|PM25", "air.pm2_5", context),
        pm10: value::alias::<Reading>(ms, "pm10|PM10", "air.pm10", context),
        no2: value::alias::<Reading>(ms, "no2|NO2", "air.no2", context),
        so2: value::alias::<Reading>(ms, "so2|SO2", "air.so2", context),
        co: value::alias::<Reading>(ms, "co|CO", "air.co", context),
        o3: value::alias::<Reading>(ms, "o3|O3", "air.o3", context),
    };
    if has_air_fields(&air) {
        Some(air)
    } else {
        warn_if_unusable(path, ms, before, context);
        None
    }
}

/// `m` holds what the members say, read by alias.
pub open spec fn month_from(m: ClimateMonth, ms: Seq<Member>) -> bool {
    &&& value::seen_opt(m.month) == value::alias_value::<u32>(ms, value::names("month|mon"@))
    &&& value::seen_opt(m.average_max_temperature) == value::alias_value::<Reading>(ms, value::names("average_max_temperature|avg_max_temperature|max_temperature|maxTemp"@))
    &&& value::seen_opt(m.average_min_temperature) == value::alias_value::<Reading>(ms, value::names("average_min_temperature|avg_min_temperature|min_temperature|minTemp"@))
    &&& value::seen_opt(m.precipitation) == value::alias_value::<Reading>(ms, value::names("precipitation|rain|pre"@))
}

/// Some field of the climate month can be read.
pub open spec fn month_usable(ms: Seq<Member>) -> bool {
    ||| value::alias_value::<u32>(ms, value::names("month|mon"@)) is Some
    ||| value::alias_value::<Reading>(ms, value::names("average_max_temperature|avg_max_temperature|max_temperature|maxTemp"@)) is Some
    ||| value::alias_value::<Reading>(ms, value::names("average_min_temperature|avg_min_temperature|min_temperature|minTemp"@)) is Some
    ||| value::alias_value::<Reading>(ms, value::names("precipitation|rain|pre"@)) is Some
}

/// The warnings after the climate month was read.
pub open spec fn month_warned(v: &Json, path: Seq<char>, w: Seq<Seq<char>>) -> Seq<Seq<char>> {
    let w0 = value::section_warned(Some(v), path, expected_object(), w);
    match value::section(Some(v)) {
        None => w0,
        Some(ms) => {
            let w = w0;
            let w = value::alias_warned::<u32>(ms, "month|mon"@, path + ".month"@, w);
            let w = value::alias_warned::<Reading>(ms, "average_max_temperature|avg_max_temperature|max_temperature|maxTemp"@, path + ".average_max_temperature"@, w);
            let w = value::alias_warned::<Reading>(ms, "average_min_temperature|avg_min_temperature|min_temperature|minTemp"@, path + ".average_min_temperature"@, w);
            let w = value::alias_warned::<Reading>(ms, "precipitation|rain|pre"@, path + ".precipitation"@, w);
            if month_usable(ms) {
                w
            } else {
                unusable_warned(path, ms, w0.len(), w)
            }
        },
    }
}

fn has_month_fields(m: &ClimateMonth) -> (r: bool)
    ensures
        r == (m.month is Some || m.average_max_temperature is Some || m.average_min_temperature is Some || m.precipitation is Some),
{
    m.month.is_some() || m.average_max_temperature.is_some() || m.average_min_temperature.is_some() || m.precipitation.is_some()
}

/// Reads one climate month.
pub fn map_climate_month(raw: &Json, index: usize, context: &mut MappingContext) -> (r: Option<ClimateMonth>)
    ensures
        r is Some <==> (value::section(Some(raw)) matches Some(ms) && month_usable(ms)),
        r matches Some(m) ==> month_from(m, value::section(Some(raw))->0),
        final(context).warned() == month_warned(
            raw,
            current::entry_path("climate.month"@, index),
            old(context).warned(),
        ),
        final(context).base_url == old(context).base_url,
{
    let path_text = current::entry_path_text("climate.month", index);
    let path = path_text.as_str();
    let ms = match value::section_object(Some(raw), path, context) {
        Some(ms) => ms,
        None => {
            return None;
        },
    };
    let before = context.warning_count();
    let month = ClimateMonth {
        month: value::alias::<u32>(ms, "month|mon", text::cat(path, ".month").as_str(), context),
        average_max_temperature: value::alias::<Reading>(ms, "average_max_temperature|avg_max_temperature|max_temperature|maxTemp", text::cat(path, ".average_max_temperature").as_str(), context),
        average_min_temperature: value::alias::<Reading>(ms, "average_min_temperature|avg_min_temperature|min_temperature|minTemp", text::cat(path, ".average_min_temperature").as_str(), context),
        precipitation: value::alias::<Reading>(ms, "precipitation|rain|pre", text::cat(path, ".precipitation").as_str(), context),
    };
    if has_month_fields(&month) {
        Some(month)
    } else {
        warn_if_unusable(path, ms, before, context);
        None
    }
}

/// `rs` are the climate months of the usable entries, in their order.
pub open spec fn month_list_from(rs: Seq<ClimateMonth>, es: Seq<(usize, &Json)>) -> bool
    decreases es.len(),
{
    if es.len() == 0 {
        rs.len() == 0
    } else if value::section(Some(es.last().1)) matches Some(ms) && month_usable(ms) {
        &&& rs.len() > 0
        &&& month_from(rs.last(), value::section(Some(es.last().1))->0)
        &&& month_list_from(rs.drop_last(), es.drop_last())
    } else {
        month_list_from(rs, es.drop_last())
    }
}

/// The warnings after the climate months were read.
pub open spec fn month_list_warned(es: Seq<(usize, &Json)>, w: Seq<Seq<char>>) -> Seq<Seq<char>>
    decreases es.len(),
{
    if es.len() == 0 {
        w
    } else {
        month_warned(
            es.last().1,
            current::entry_path("climate.month"@, es.last().0),
            month_list_warned(es.drop_last(), w),
        )
    }
}

fn month_entries(es: &Vec<(usize, &Json)>, context: &mut MappingContext) -> (rs: Vec<ClimateMonth>)
    ensures
        month_list_from(rs@, es@),
        final(context).warned() == month_list_warned(es@, old(context).warned()),
        final(context).base_url == old(context).base_url,
{
    let mut rs: Vec<ClimateMonth> = Vec::new();
    let mut i: usize = 0;
    while i < es.len()
        invariant
            i <= es@.len(),
            month_list_from(rs@, es@.take(i as int)),
            context.warned() == month_list_warned(es@.take(i as int), old(context).warned()),
            context.base_url == old(context).base_url,
        decreases es@.len() - i,
    {
        assert(es@.take(i + 1).drop_last() =~= es@.take(i as int));
        assert(es@.take(i + 1).last() == es@[i as int]);
        let ghost before = rs@;
        match map_climate_month(es[i].1, es[i].0, context) {
            Some(entry) => {
                rs.push(entry);
                assert(rs@.drop_last() =~= before);
            },
            None => {},
        }
        i = i + 1;
    }
    assert(es@.take(es@.len() as int) =~= es@);
    rs
}

/// `c` is the climate that the members describe.
pub open spec fn climate_from(c: ClimateSummary, ms: Seq<Member>) -> bool {
    &&& text::opt_text(c.period) == value::alias_value::<String>(ms, value::names("period|range"@))
    &&& month_list_from(c.month@, value::alias_entries(ms, "month|months"@))
}

/// Some entry of the list is a usable climate month.
pub open spec fn some_month(es: Seq<(usize, &Json)>) -> bool
    decreases es.len(),
{
    es.len() > 0 && ((value::section(Some(es.last().1)) matches Some(ms) && month_usable(ms))
        || some_month(es.drop_last()))
}

proof fn lemma_some_month(rs: Seq<ClimateMonth>, es: Seq<(usize, &Json)>)
    requires
        month_list_from(rs, es),
    ensures
        rs.len() > 0 <==> some_month(es),
    decreases es.len(),
{
    if es.len() > 0 {
        if value::section(Some(es.last().1)) matches Some(ms) && month_usable(ms) {
        } else {
            lemma_some_month(rs, es.drop_last());
        }
    }
}

/// The climate has a period or a month.
pub open spec fn climate_usable(ms: Seq<Member>) -> bool {
    ||| value::alias_value::<String>(ms, value::names("period|range"@)) is Some
    ||| some_month(value::alias_entries(ms, "month|months"@))
}

/// The warnings after the climate was read.
pub open spec fn climate_warned(v: Option<&Json>, w: Seq<Seq<char>>) -> Seq<Seq<char>> {
    let w0 = value::section_warned(v, "climate"@, expected_object(), w);
    match value::section(v) {
        None => w0,
        Some(ms) => {
            let w = value::alias_warned::<String>(ms, "period|range"@, "climate.period"@, w0);
            let w = value::alias_sequence_warned(ms, "month|months"@, "climate.month"@, w);
            let w = month_list_warned(value::alias_entries(ms, "month|months"@), w);
            if climate_usable(ms) {
                w
            } else {
                unusable_warned("climate"@, ms, w0.len(), w)
            }
        },
    }
}

/// Reads the climate summary.
pub fn map_climate(raw: Option<&Json>, context: &mut MappingContext) -> (r: Option<ClimateSummary>)
    ensures
        r is Some <==> (value::section(raw) matches Some(ms) && climate_usable(ms)),
        r matches Some(c) ==> climate_from(c, value::section(raw)->0),
        final(context).warned() == climate_warned(raw, old(context).warned()),
        final(context).base_url == old(context).base_url,
{
    let ms = match value::section_object(raw, "climate", context) {
        Some(ms) => ms,
        None => {
            return None;
        },
    };
    let before = context.warning_count();
    let period = value::alias::<String>(ms, "period|range", "climate.period", context);
    let es = value::alias_sequence(ms, "month|months", "climate.month", context);
    let month = month_entries(&es, context);
    proof {
        lemma_some_month(month@, es@);
    }
    if period.is_some() || month.len() > 0 {
        Some(ClimateSummary { period, month })
    } else {
        warn_if_unusable("climate", ms, before, context);
        None
    }
}

/// `r` is the radar picture that the members describe.
pub open spec fn radar_from(r: RadarInfo, ms: Seq<Member>, base: Seq<char>) -> bool {
    &&& text::opt_text(r.title) == value::alias_value::<String>(ms, value::names("title|name"@))
    &&& text::opt_text(r.image_url) == value::alias_resource_value(
        ms,
        value::names("image|image_url|img"@),
        base,
    )
    &&& text::opt_text(r.page_url) == value::alias_resource_value(
        ms,
        value::names("url|page_url|page"@),
        base,
    )
    &&& r.image_resource_id is None
}

/// The radar picture has a title or an address.
pub open spec fn radar_usable(ms: Seq<Member>, base: Seq<char>) -> bool {
    ||| value::alias_value::<String>(ms, value::names("title|name"@)) is Some
    ||| value::alias_resource_value(ms, value::names("image|image_url|img"@), base) is Some
    ||| value::alias_resource_value(ms, value::names("url|page_url|page"@), base) is Some
}

/// The warnings after the radar picture was read.
pub open spec fn radar_warned(
    v: Option<&Json>,
    base: Seq<char>,
    w: Seq<Seq<char>>,
) -> Seq<Seq<char>> {
    let w0 = value::section_warned(v, "radar"@, expected_object(), w);
    match value::section(v) {
        None => w0,
        Some(ms) => {
            let w = value::alias_warned::<String>(ms, "title|name"@, "radar.title"@, w0);
            let w = value::alias_resource_warned(
                ms,
                "image|image_url|img"@,
                base,
                "radar.image_url"@,
                w,
            );
            let w = value::alias_resource_warned(
                ms,
                "url|page_url|page"@,
                base,
                "radar.page_url"@,
                w,
            );
            if radar_usable(ms, base) {
                w
            } else {
                unusable_warned("radar"@, ms, w0.len(), w)
            }
        },
    }
}

/// Reads the radar picture.
pub fn map_radar(raw: Option<&Json>, context: &mut MappingContext) -> (r: Option<RadarInfo>)
    ensures
        r is Some <==> (value::section(raw) matches Some(ms) && radar_usable(
            ms,
            old(context).base_url@,
        )),
        r matches Some(radar) ==> radar_from(
            radar,
            value::section(raw)->0,
            old(context).base_url@,
        ),
        final(context).warned() == radar_warned(
            raw,
            old(context).base_url@,
            old(context).warned(),
        ),
        final(context).base_url == old(context).base_url,
{
    let ms = match value::section_object(raw, "radar", context) {
        Some(ms) => ms,
        None => {
            return None;
        },
    };
    let before = context.warning_count();
    let radar = RadarInfo {
        title: value::alias::<String>(ms, "title|name", "radar.title", context),
        image_url: value::alias_resource_url(
            ms,
            "image|image_url|img",
            "radar.image_url",
            context,
        ),
        page_url: value::alias_resource_url(ms, "url|page_url|page", "radar.page_url", context),
        image_resource_id: None,
    };
    if radar.title.is_some() || radar.image_url.is_some() || radar.page_url.is_some() {
        Some(radar)
    } else {
        warn_if_unusable("radar", ms, before, context);
        None
    }
}

proof fn lemma_first_usable_2<T: value::Scalar>(ms: Seq<Member>, n0: Seq<char>, n1: Seq<char>)
    ensures
        value::alias_value::<T>(ms, seq![n0, n1]) == (if value::usable::<T>(ms, n0) is Some {
            value::usable::<T>(ms, n0)
        } else {
            value::usable::<T>(ms, n1)
        }),
{
    value::lemma_alias_unfold::<T>(ms, seq![n0, n1]);
    assert(seq![n0, n1].drop_first() =~= seq![n1]);
    value::lemma_alias_unfold::<T>(ms, seq![n1]);
    assert(seq![n1].drop_first() =~= Seq::<Seq<char>>::empty());
    value::lemma_alias_unfold::<T>(ms, Seq::<Seq<char>>::empty());
}

proof fn lemma_first_usable_3<T: value::Scalar>(ms: Seq<Member>, n0: Seq<char>, n1: Seq<char>, n2: Seq<char>)
    ensures
        value::alias_value::<T>(ms, seq![n0, n1, n2]) == (if value::usable::<T>(ms, n0) is Some {
            value::usable::<T>(ms, n0)
        } else {
            (if value::usable::<T>(ms, n1) is Some {
                value::usable::<T>(ms, n1)
            } else {
                value::usable::<T>(ms, n2)
            })
        }),
{
    value::lemma_alias_unfold::<T>(ms, seq![n0, n1, n2]);
    assert(seq![n0, n1, n2].drop_first() =~= seq![n1, n2]);
    value::lemma_alias_unfold::<T>(ms, seq![n1, n2]);
    assert(seq![n1, n2].drop_first() =~= seq![n2]);
    value::lemma_alias_unfold::<T>(ms, seq![n2]);
    assert(seq![n2].drop_first() =~= Seq::<Seq<char>>::empty());
    value::lemma_alias_unfold::<T>(ms, Seq::<Seq<char>>::empty());
}

proof fn lemma_first_usable_4<T: value::Scalar>(ms: Seq<Member>, n0: Seq<char>, n1: Seq<char>, n2: Seq<char>, n3: Seq<char>)
    ensures
        value::alias_value::<T>(ms, seq![n0, n1, n2, n3]) == (if value::usable::<T>(ms, n0) is Some {
            value::usable::<T>(ms, n0)
        } else {
            (if value::usable::<T>(ms, n1) is Some {
                value::usable::<T>(ms, n1)
            } else {
                (if value::usable::<T>(ms, n2) is Some {
                    value::usable::<T>(ms, n2)
                } else {
                    value::usable::<T>(ms, n3)
                })
            })
        }),
{
    value::lemma_alias_unfold::<T>(ms, seq![n0, n1, n2, n3]);
    assert(seq![n0, n1, n2, n3].drop_first() =~= seq![n1, n2, n3]);
    value::lemma_alias_unfold::<T>(ms, seq![n1, n2, n3]);
    assert(seq![n1, n2, n3].drop_first() =~= seq![n2, n3]);
    value::lemma_alias_unfold::<T>(ms, seq![n2, n3]);
    assert(seq![n2, n3].drop_first() =~= seq![n3]);
    value::lemma_alias_unfold::<T>(ms, seq![n3]);
    assert(seq![n3].drop_first() =~= Seq::<Seq<char>>::empty());
    value::lemma_alias_unfold::<T>(ms, Seq::<Seq<char>>::empty());
}

proof fn lemma_first_usable_5<T: value::Scalar>(ms: Seq<Member>, n0: Seq<char>, n1: Seq<char>, n2: Seq<char>, n3: Seq<char>, n4: Seq<char>)
    ensures
        value::alias_value::<T>(ms, seq![n0, n1, n2, n3, n4]) == (if value::usable::<T>(ms, n0) is Some {
            value::usable::<T>(ms, n0)
        } else {
            (if value::usable::<T>(ms, n1) is Some {
                value::usable::<T>(ms, n1)
            } else {
                (if value::usable::<T>(ms, n2) is Some {
                    value::usable::<T>(ms, n2)
                } else {
                    (if value::usable::<T>(ms, n3) is Some {
                        value::usable::<T>(ms, n3)
                    } else {
                        value::usable::<T>(ms, n4)
                    })
                })
            })
        }),
{
    value::lemma_alias_unfold::<T>(ms, seq![n0, n1, n2, n3, n4]);
    assert(seq![n0, n1, n2, n3, n4].drop_first() =~= seq![n1, n2, n3, n4]);
    value::lemma_alias_unfold::<T>(ms, seq![n1, n2, n3, n4]);
    assert(seq![n1, n2, n3, n4].drop_first() =~= seq![n2, n3, n4]);
    value::lemma_alias_unfold::<T>(ms, seq![n2, n3, n4]);
    assert(seq![n2, n3, n4].drop_first() =~= seq![n3, n4]);
    value::lemma_alias_unfold::<T>(ms, seq![n3, n4]);
    assert(seq![n3, n4].drop_first() =~= seq![n4]);
    value::lemma_alias_unfold::<T>(ms, seq![n4]);
    assert(seq![n4].drop_first() =~= Seq::<Seq<char>>::empty());
    value::lemma_alias_unfold::<T>(ms, Seq::<Seq<char>>::empty());
}

proof fn lemma_content(v: Option<&Json>, ms: Seq<Member>)
    requires
        value::section(v) == Some(ms),
    ensures
        json::has_content(ms),
{
    if let Some(j) = v {
        if let Json::Object(members) = *j {
            json::values_that_stand_for_nothing(
                true,
                arbitrary(),
                arbitrary(),
                arbitrary(),
                members,
            );
        }
    }
}

proof fn lemma_names_of_publish_time_41()
    ensures
        value::names("publish_time|publishTime|pubtime|pub_time"@) == seq!["publish_time"@, "publishTime"@, "pubtime"@, "pub_time"@],
{
    reveal_strlit("publish_time|publishTime|pubtime|pub_time");
    reveal_strlit("publishTime|pubtime|pub_time");
    reveal_strlit("pubtime|pub_time");
    reveal_strlit("pub_time");
    reveal_strlit("publish_time");
    reveal_strlit("publishTime");
    reveal_strlit("pubtime");
    value::lemma_one_name("pub_time"@);
    value::lemma_names("pubtime"@, "pub_time"@);
    assert("pubtime|pub_time"@ =~= "pubtime"@ + seq!['|'] + "pub_time"@);
    value::lemma_names("publishTime"@, "pubtime|pub_time"@);
    assert("publishTime|pubtime|pub_time"@ =~= "publishTime"@ + seq!['|'] + "pubtime|pub_time"@);
    value::lemma_names("publish_time"@, "publishTime|pubtime|pub_time"@);
    assert("publish_time|publishTime|pubtime|pub_time"@ =~= "publish_time"@ + seq!['|'] + "publishTime|pubtime|pub_time"@);
    assert(value::names("publish_time|publishTime|pubtime|pub_time"@) =~= seq!["publish_time"@, "publishTime"@, "pubtime"@, "pub_time"@]);
}

proof fn lemma_names_of_aqi_7()
    ensures
        value::names("aqi|AQI"@) == seq!["aqi"@, "AQI"@],
{
    reveal_strlit("aqi|AQI");
    reveal_strlit("AQI");
    reveal_strlit("aqi");
    value::lemma_one_name("AQI"@);
    value::lemma_names("aqi"@, "AQI"@);
    assert("aqi|AQI"@ =~= "aqi"@ + seq!['|'] + "AQI"@);
    assert(value::names("aqi|AQI"@) =~= seq!["aqi"@, "AQI"@]);
}

proof fn lemma_names_of_level_24()
    ensures
        value::names("level|aqi_level|aqiLevel"@) == seq!["level"@, "aqi_level"@, "aqiLevel"@],
{
    reveal_strlit("level|aqi_level|aqiLevel");
    reveal_strlit("aqi_level|aqiLevel");
    reveal_strlit("aqiLevel");
    reveal_strlit("level");
    reveal_strlit("aqi_level");
    value::lemma_one_name("aqiLevel"@);
    value::lemma_names("aqi_level"@, "aqiLevel"@);
    assert("aqi_level|aqiLevel"@ =~= "aqi_level"@ + seq!['|'] + "aqiLevel"@);
    value::lemma_names("level"@, "aqi_level|aqiLevel"@);
    assert("level|aqi_level|aqiLevel"@ =~= "level"@ + seq!['|'] + "aqi_level|aqiLevel"@);
    assert(value::names("level|aqi_level|aqiLevel"@) =~= seq!["level"@, "aqi_level"@, "aqiLevel"@]);
}

proof fn lemma_names_of_category_21()
    ensures
        value::names("category|quality|text"@) == seq!["category"@, "quality"@, "text"@],
{
    reveal_strlit("category|quality|text");
    reveal_strlit("quality|text");
    reveal_strlit("text");
    reveal_strlit("category");
    reveal_strlit("quality");
    value::lemma_one_name("text"@);
    value::lemma_names("quality"@, "text"@);
    assert("quality|text"@ =~= "quality"@ + seq!['|'] + "text"@);
    value::lemma_names("category"@, "quality|text"@);
    assert("category|quality|text"@ =~= "category"@ + seq!['|'] + "quality|text"@);
    assert(value::names("category|quality|text"@) =~= seq!["category"@, "quality"@, "text"@]);
}

proof fn lemma_names_of_primary_pollutant_57()
    ensures
        value::names("primary_pollutant|primaryPollutant|primary|main_pollutant"@) == seq!["primary_pollutant"@, "primaryPollutant"@, "primary"@, "main_pollutant"@],
{
    reveal_strlit("primary_pollutant|primaryPollutant|primary|main_pollutant");
    reveal_strlit("primaryPollutant|primary|main_pollutant");
    reveal_strlit("primary|main_pollutant");
    reveal_strlit("main_pollutant");
    reveal_strlit("primary_pollutant");
    reveal_strlit("primaryPollutant");
    reveal_strlit("primary");
    value::lemma_one_name("main_pollutant"@);
    value::lemma_names("primary"@, "main_pollutant"@);
    assert("primary|main_pollutant"@ =~= "primary"@ + seq!['|'] + "main_pollutant"@);
    value::lemma_names("primaryPollutant"@, "primary|main_pollutant"@);
    assert("primaryPollutant|primary|main_pollutant"@ =~= "primaryPollutant"@ + seq!['|'] + "primary|main_pollutant"@);
    value::lemma_names("primary_pollutant"@, "primaryPollutant|primary|main_pollutant"@);
    assert("primary_pollutant|primaryPollutant|primary|main_pollutant"@ =~= "primary_pollutant"@ + seq!['|'] + "primaryPollutant|primary|main_pollutant"@);
    assert(value::names("primary_pollutant|primaryPollutant|primary|main_pollutant"@) =~= seq!["primary_pollutant"@, "primaryPollutant"@, "primary"@, "main_pollutant"@]);
}

proof fn lemma_names_of_pm2_5_27()
    ensures
        value::names("pm2_5|pm25|pm2.5|PM2_5|PM25"@) == seq!["pm2_5"@, "pm25"@, "pm2.5"@, "PM2_5"@, "PM25"@],
{
    reveal_strlit("pm2_5|pm25|pm2.5|PM2_5|PM25");
    reveal_strlit("pm25|pm2.5|PM2_5|PM25");
    reveal_strlit("pm2.5|PM2_5|PM25");
    reveal_strlit("PM2_5|PM25");
    reveal_strlit("PM25");
    reveal_strlit("pm2_5");
    reveal_strlit("pm25");
    reveal_strlit("pm2.5");
    reveal_strlit("PM2_5");
    value::lemma_one_name("PM25"@);
    value::lemma_names("PM2_5"@, "PM25"@);
    assert("PM2_5|PM25"@ =~= "PM2_5"@ + seq!['|'] + "PM25"@);
    value::lemma_names("pm2.5"@, "PM2_5|PM25"@);
    assert("pm2.5|PM2_5|PM25"@ =~= "pm2.5"@ + seq!['|'] + "PM2_5|PM25"@);
    value::lemma_names("pm25"@, "pm2.5|PM2_5|PM25"@);
    assert("pm25|pm2.5|PM2_5|PM25"@ =~= "pm25"@ + seq!['|'] + "pm2.5|PM2_5|PM25"@);
    value::lemma_names("pm2_5"@, "pm25|pm2.5|PM2_5|PM25"@);
    assert("pm2_5|pm25|pm2.5|PM2_5|PM25"@ =~= "pm2_5"@ + seq!['|'] + "pm25|pm2.5|PM2_5|PM25"@);
    assert(value::names("pm2_5|pm25|pm2.5|PM2_5|PM25"@) =~= seq!["pm2_5"@, "pm25"@, "pm2.5"@, "PM2_5"@, "PM25"@]);
}

proof fn lemma_names_of_pm10_9()
    ensures
        value::names("pm10|PM10"@) == seq!["pm10"@, "PM10"@],
{
    reveal_strlit("pm10|PM10");
    reveal_strlit("PM10");
    reveal_strlit("pm10");
    value::lemma_one_name("PM10"@);
    value::lemma_names("pm10"@, "PM10"@);
    assert("pm10|PM10"@ =~= "pm10"@ + seq!['|'] + "PM10"@);
    assert(value::names("pm10|PM10"@) =~= seq!["pm10"@, "PM10"@]);
}

proof fn lemma_names_of_no2_7()
    ensures
        value::names("no2|NO2"@) == seq!["no2"@, "NO2"@],
{
    reveal_strlit("no2|NO2");
    reveal_strlit("NO2");
    reveal_strlit("no2");
    value::lemma_one_name("NO2"@);
    value::lemma_names("no2"@, "NO2"@);
    assert("no2|NO2"@ =~= "no2"@ + seq!['|'] + "NO2"@);
    assert(value::names("no2|NO2"@) =~= seq!["no2"@, "NO2"@]);
}

proof fn lemma_names_of_so2_7()
    ensures
        value::names("so2|SO2"@) == seq!["so2"@, "SO2"@],
{
    reveal_strlit("so2|SO2");
    reveal_strlit("SO2");
    reveal_strlit("so2");
    value::lemma_one_name("SO2"@);
    value::lemma_names("so2"@, "SO2"@);
    assert("so2|SO2"@ =~= "so2"@ + seq!['|'] + "SO2"@);
    assert(value::names("so2|SO2"@) =~= seq!["so2"@, "SO2"@]);
}

proof fn lemma_names_of_co_5()
    ensures
        value::names("co|CO"@) == seq!["co"@, "CO"@],
{
    reveal_strlit("co|CO");
    reveal_strlit("CO");
    reveal_strlit("co");
    value::lemma_one_name("CO"@);
    value::lemma_names("co"@, "CO"@);
    assert("co|CO"@ =~= "co"@ + seq!['|'] + "CO"@);
    assert(value::names("co|CO"@) =~= seq!["co"@, "CO"@]);
}

proof fn lemma_names_of_o3_5()
    ensures
        value::names("o3|O3"@) == seq!["o3"@, "O3"@],
{
    reveal_strlit("o3|O3");
    reveal_strlit("O3");
    reveal_strlit("o3");
    value::lemma_one_name("O3"@);
    value::lemma_names("o3"@, "O3"@);
    assert("o3|O3"@ =~= "o3"@ + seq!['|'] + "O3"@);
    assert(value::names("o3|O3"@) =~= seq!["o3"@, "O3"@]);
}

/// Air quality has under each of its names what is read there; of several names the first
/// counts that has something usable. It is there where one of its fields is.
pub proof fn air_is_read_by_its_names(a: AirQuality, ms: Seq<Member>)
    requires
        air_from(a, ms),
    ensures
        value::seen_opt(a.publish_time) == (if value::usable::<String>(ms, "publish_time"@) is Some {
            value::usable::<String>(ms, "publish_time"@)
        } else {
            (if value::usable::<String>(ms, "publishTime"@) is Some {
                value::usable::<String>(ms, "publishTime"@)
            } else {
                (if value::usable::<String>(ms, "pubtime"@) is Some {
                    value::usable::<String>(ms, "pubtime"@)
                } else {
                    value::usable::<String>(ms, "pub_time"@)
                })
            })
        }),
        value::seen_opt(a.aqi) == (if value::usable::<Reading>(ms, "aqi"@) is Some {
            value::usable::<Reading>(ms, "aqi"@)
        } else {
            value::usable::<Reading>(ms, "AQI"@)
        }),
        value::seen_opt(a.level) == (if value::usable::<String>(ms, "level"@) is Some {
            value::usable::<String>(ms, "level"@)
        } else {
            (if value::usable::<String>(ms, "aqi_level"@) is Some {
                value::usable::<String>(ms, "aqi_level"@)
            } else {
                value::usable::<String>(ms, "aqiLevel"@)
            })
        }),
        value::seen_opt(a.category) == (if value::usable::<String>(ms, "category"@) is Some {
            value::usable::<String>(ms, "category"@)
        } else {
            (if value::usable::<String>(ms, "quality"@) is Some {
                value::usable::<String>(ms, "quality"@)
            } else {
                value::usable::<String>(ms, "text"@)
            })
        }),
        value::seen_opt(a.primary_pollutant) == (if value::usable::<String>(ms, "primary_pollutant"@) is Some {
            value::usable::<String>(ms, "primary_pollutant"@)
        } else {
            (if value::usable::<String>(ms, "primaryPollutant"@) is Some {
                value::usable::<String>(ms, "primaryPollutant"@)
            } else {
                (if value::usable::<String>(ms, "primary"@) is Some {
                    value::usable::<String>(ms, "primary"@)
                } else {
                    value::usable::<String>(ms, "main_pollutant"@)
                })
            })
        }),
        value::seen_opt(a.pm2_5) == (if value::usable::<Reading>(ms, "pm2_5"@) is Some {
            value::usable::<Reading>(ms, "pm2_5"@)
        } else {
            (if value::usable::<Reading>(ms, "pm25"@) is Some {
                value::usable::<Reading>(ms, "pm25"@)
            } else {
                (if value::usable::<Reading>(ms, "pm2.5"@) is Some {
                    value::usable::<Reading>(ms, "pm2.5"@)
                } else {
                    (if value::usable::<Reading>(ms, "PM2_5"@) is Some {
                        value::usable::<Reading>(ms, "PM2_5"@)
                    } else {
                        value::usable::<Reading>(ms, "PM25"@)
                    })
                })
            })
        }),
        value::seen_opt(a.pm10) == (if value::usable::<Reading>(ms, "pm10"@) is Some {
            value::usable::<Reading>(ms, "pm10"@)
        } else {
            value::usable::<Reading>(ms, "PM10"@)
        }),
        value::seen_opt(a.no2) == (if value::usable::<Reading>(ms, "no2"@) is Some {
            value::usable::<Reading>(ms, "no2"@)
        } else {
            value::usable::<Reading>(ms, "NO2"@)
        }),
        value::seen_opt(a.so2) == (if value::usable::<Reading>(ms, "so2"@) is Some {
            value::usable::<Reading>(ms, "so2"@)
        } else {
            value::usable::<Reading>(ms, "SO2"@)
        }),
        value::seen_opt(a.co) == (if value::usable::<Reading>(ms, "co"@) is Some {
            value::usable::<Reading>(ms, "co"@)
        } else {
            value::usable::<Reading>(ms, "CO"@)
        }),
        value::seen_opt(a.o3) == (if value::usable::<Reading>(ms, "o3"@) is Some {
            value::usable::<Reading>(ms, "o3"@)
        } else {
            value::usable::<Reading>(ms, "O3"@)
        }),
        air_usable(ms) <==> a.publish_time is Some || a.aqi is Some || a.level is Some || a.category is Some || a.primary_pollutant is Some || a.pm2_5 is Some || a.pm10 is Some || a.no2 is Some || a.so2 is Some || a.co is Some || a.o3 is Some,
{
    lemma_names_of_publish_time_41();
    lemma_first_usable_4::<String>(ms, "publish_time"@, "publishTime"@, "pubtime"@, "pub_time"@);
    lemma_names_of_aqi_7();
    lemma_first_usable_2::<Reading>(ms, "aqi"@, "AQI"@);
    lemma_names_of_level_24();
    lemma_first_usable_3::<String>(ms, "level"@, "aqi_level"@, "aqiLevel"@);
    lemma_names_of_category_21();
    lemma_first_usable_3::<String>(ms, "category"@, "quality"@, "text"@);
    lemma_names_of_primary_pollutant_57();
    lemma_first_usable_4::<String>(ms, "primary_pollutant"@, "primaryPollutant"@, "primary"@, "main_pollutant"@);
    lemma_names_of_pm2_5_27();
    lemma_first_usable_5::<Reading>(ms, "pm2_5"@, "pm25"@, "pm2.5"@, "PM2_5"@, "PM25"@);
    lemma_names_of_pm10_9();
    lemma_first_usable_2::<Reading>(ms, "pm10"@, "PM10"@);
    lemma_names_of_no2_7();
    lemma_first_usable_2::<Reading>(ms, "no2"@, "NO2"@);
    lemma_names_of_so2_7();
    lemma_first_usable_2::<Reading>(ms, "so2"@, "SO2"@);
    lemma_names_of_co_5();
    lemma_first_usable_2::<Reading>(ms, "co"@, "CO"@);
    lemma_names_of_o3_5();
    lemma_first_usable_2::<Reading>(ms, "o3"@, "O3"@);
}

proof fn lemma_names_of_month_9()
    ensures
        value::names("month|mon"@) == seq!["month"@, "mon"@],
{
    reveal_strlit("month|mon");
    reveal_strlit("mon");
    reveal_strlit("month");
    value::lemma_one_name("mon"@);
    value::lemma_names("month"@, "mon"@);
    assert("month|mon"@ =~= "month"@ + seq!['|'] + "mon"@);
    assert(value::names("month|mon"@) =~= seq!["month"@, "mon"@]);
}

proof fn lemma_names_of_average_max_temperature_67()
    ensures
        value::names("average_max_temperature|avg_max_temperature|max_temperature|maxTemp"@) == seq!["average_max_temperature"@, "avg_max_temperature"@, "max_temperature"@, "maxTemp"@],
{
    reveal_strlit("average_max_temperature|avg_max_temperature|max_temperature|maxTemp");
    reveal_strlit("avg_max_temperature|max_temperature|maxTemp");
    reveal_strlit("max_temperature|maxTemp");
    reveal_strlit("maxTemp");
    reveal_strlit("average_max_temperature");
    reveal_strlit("avg_max_temperature");
    reveal_strlit("max_temperature");
    value::lemma_one_name("maxTemp"@);
    value::lemma_names("max_temperature"@, "maxTemp"@);
    assert("max_temperature|maxTemp"@ =~= "max_temperature"@ + seq!['|'] + "maxTemp"@);
    value::lemma_names("avg_max_temperature"@, "max_temperature|maxTemp"@);
    assert("avg_max_temperature|max_temperature|maxTemp"@ =~= "avg_max_temperature"@ + seq!['|'] + "max_temperature|maxTemp"@);
    value::lemma_names("average_max_temperature"@, "avg_max_temperature|max_temperature|maxTemp"@);
    assert("average_max_temperature|avg_max_temperature|max_temperature|maxTemp"@ =~= "average_max_temperature"@ + seq!['|'] + "avg_max_temperature|max_temperature|maxTemp"@);
    assert(value::names("average_max_temperature|avg_max_temperature|max_temperature|maxTemp"@) =~= seq!["average_max_temperature"@, "avg_max_temperature"@, "max_temperature"@, "maxTemp"@]);
}

proof fn lemma_names_of_average_min_temperature_67()
    ensures
        value::names("average_min_temperature|avg_min_temperature|min_temperature|minTemp"@) == seq!["average_min_temperature"@, "avg_min_temperature"@, "min_temperature"@, "minTemp"@],
{
    reveal_strlit("average_min_temperature|avg_min_temperature|min_temperature|minTemp");
    reveal_strlit("avg_min_temperature|min_temperature|minTemp");
    reveal_strlit("min_temperature|minTemp");
    reveal_strlit("minTemp");
    reveal_strlit("average_min_temperature");
    reveal_strlit("avg_min_temperature");
    reveal_strlit("min_temperature");
    value::lemma_one_name("minTemp"@);
    value::lemma_names("min_temperature"@, "minTemp"@);
    assert("min_temperature|minTemp"@ =~= "min_temperature"@ + seq!['|'] + "minTemp"@);
    value::lemma_names("avg_min_temperature"@, "min_temperature|minTemp"@);
    assert("avg_min_temperature|min_temperature|minTemp"@ =~= "avg_min_temperature"@ + seq!['|'] + "min_temperature|minTemp"@);
    value::lemma_names("average_min_temperature"@, "avg_min_temperature|min_temperature|minTemp"@);
    assert("average_min_temperature|avg_min_temperature|min_temperature|minTemp"@ =~= "average_min_temperature"@ + seq!['|'] + "avg_min_temperature|min_temperature|minTemp"@);
    assert(value::names("average_min_temperature|avg_min_temperature|min_temperature|minTemp"@) =~= seq!["average_min_temperature"@, "avg_min_temperature"@, "min_temperature"@, "minTemp"@]);
}

proof fn lemma_names_of_precipitation_22()
    ensures
        value::names("precipitation|rain|pre"@) == seq!["precipitation"@, "rain"@, "pre"@],
{
    reveal_strlit("precipitation|rain|pre");
    reveal_strlit("rain|pre");
    reveal_strlit("pre");
    reveal_strlit("precipitation");
    reveal_strlit("rain");
    value::lemma_one_name("pre"@);
    value::lemma_names("rain"@, "pre"@);
    assert("rain|pre"@ =~= "rain"@ + seq!['|'] + "pre"@);
    value::lemma_names("precipitation"@, "rain|pre"@);
    assert("precipitation|rain|pre"@ =~= "precipitation"@ + seq!['|'] + "rain|pre"@);
    assert(value::names("precipitation|rain|pre"@) =~= seq!["precipitation"@, "rain"@, "pre"@]);
}

/// A month has under each of its names what is read there; of several names the first counts
/// that has something usable. It is there where one of its fields is.
pub proof fn months_are_read_by_their_names(m: ClimateMonth, ms: Seq<Member>)
    requires
        month_from(m, ms),
    ensures
        value::seen_opt(m.month) == (if value::usable::<u32>(ms, "month"@) is Some {
            value::usable::<u32>(ms, "month"@)
        } else {
            value::usable::<u32>(ms, "mon"@)
        }),
        value::seen_opt(m.average_max_temperature) == (if value::usable::<Reading>(ms, "average_max_temperature"@) is Some {
            value::usable::<Reading>(ms, "average_max_temperature"@)
        } else {
            (if value::usable::<Reading>(ms, "avg_max_temperature"@) is Some {
                value::usable::<Reading>(ms, "avg_max_temperature"@)
            } else {
                (if value::usable::<Reading>(ms, "max_temperature"@) is Some {
                    value::usable::<Reading>(ms, "max_temperature"@)
                } else {
                    value::usable::<Reading>(ms, "maxTemp"@)
                })
            })
        }),
        value::seen_opt(m.average_min_temperature) == (if value::usable::<Reading>(ms, "average_min_temperature"@) is Some {
            value::usable::<Reading>(ms, "average_min_temperature"@)
        } else {
            (if value::usable::<Reading>(ms, "avg_min_temperature"@) is Some {
                value::usable::<Reading>(ms, "avg_min_temperature"@)
            } else {
                (if value::usable::<Reading>(ms, "min_temperature"@) is Some {
                    value::usable::<Reading>(ms, "min_temperature"@)
                } else {
                    value::usable::<Reading>(ms, "minTemp"@)
                })
            })
        }),
        value::seen_opt(m.precipitation) == (if value::usable::<Reading>(ms, "precipitation"@) is Some {
            value::usable::<Reading>(ms, "precipitation"@)
        } else {
            (if value::usable::<Reading>(ms, "rain"@) is Some {
                value::usable::<Reading>(ms, "rain"@)
            } else {
                value::usable::<Reading>(ms, "pre"@)
            })
        }),
        month_usable(ms) <==> m.month is Some || m.average_max_temperature is Some || m.average_min_temperature is Some || m.precipitation is Some,
{
    lemma_names_of_month_9();
    lemma_first_usable_2::<u32>(ms, "month"@, "mon"@);
    lemma_names_of_average_max_temperature_67();
    lemma_first_usable_4::<Reading>(ms, "average_max_temperature"@, "avg_max_temperature"@, "max_temperature"@, "maxTemp"@);
    lemma_names_of_average_min_temperature_67();
    lemma_first_usable_4::<Reading>(ms, "average_min_temperature"@, "avg_min_temperature"@, "min_temperature"@, "minTemp"@);
    lemma_names_of_precipitation_22();
    lemma_first_usable_3::<Reading>(ms, "precipitation"@, "rain"@, "pre"@);
}

/// Each field of air quality that has no usable value and one of the wrong kind is told, and
/// nothing where there is none; a section without anything known is told as such.
pub proof fn air_tells_what_is_unusable(v: Option<&Json>, w: Seq<Seq<char>>, ms: Seq<Member>)
    requires
        value::section(v) == Some(ms),
    ensures
        w.is_prefix_of(air_warned(v, w)),
        value::alias_value::<String>(ms, value::names("publish_time|publishTime|pubtime|pub_time"@)) is None && value::alias_invalid::<String>(ms, value::names("publish_time|publishTime|pubtime|pub_time"@)) ==> air_warned(v, w).contains("air.publish_time"@ + (": no alias contained a usable "@ + "string"@ + "; field ignored"@)),
        value::alias_value::<Reading>(ms, value::names("aqi|AQI"@)) is None && value::alias_invalid::<Reading>(ms, value::names("aqi|AQI"@)) ==> air_warned(v, w).contains("air.aqi"@ + (": no alias contained a usable "@ + "number"@ + "; field ignored"@)),
        value::alias_value::<String>(ms, value::names("level|aqi_level|aqiLevel"@)) is None && value::alias_invalid::<String>(ms, value::names("level|aqi_level|aqiLevel"@)) ==> air_warned(v, w).contains("air.level"@ + (": no alias contained a usable "@ + "string"@ + "; field ignored"@)),
        value::alias_value::<String>(ms, value::names("category|quality|text"@)) is None && value::alias_invalid::<String>(ms, value::names("category|quality|text"@)) ==> air_warned(v, w).contains("air.category"@ + (": no alias contained a usable "@ + "string"@ + "; field ignored"@)),
        value::alias_value::<String>(ms, value::names("primary_pollutant|primaryPollutant|primary|main_pollutant"@)) is None && value::alias_invalid::<String>(ms, value::names("primary_pollutant|primaryPollutant|primary|main_pollutant"@)) ==> air_warned(v, w).contains("air.primary_pollutant"@ + (": no alias contained a usable "@ + "string"@ + "; field ignored"@)),
        value::alias_value::<Reading>(ms, value::names("pm2_5|pm25|pm2.5|PM2_5|PM25"@)) is None && value::alias_invalid::<Reading>(ms, value::names("pm2_5|pm25|pm2.5|PM2_5|PM25"@)) ==> air_warned(v, w).contains("air.pm2_5"@ + (": no alias contained a usable "@ + "number"@ + "; field ignored"@)),
        value::alias_value::<Reading>(ms, value::names("pm10|PM10"@)) is None && value::alias_invalid::<Reading>(ms, value::names("pm10|PM10"@)) ==> air_warned(v, w).contains("air.pm10"@ + (": no alias contained a usable "@ + "number"@ + "; field ignored"@)),
        value::alias_value::<Reading>(ms, value::names("no2|NO2"@)) is None && value::alias_invalid::<Reading>(ms, value::names("no2|NO2"@)) ==> air_warned(v, w).contains("air.no2"@ + (": no alias contained a usable "@ + "number"@ + "; field ignored"@)),
        value::alias_value::<Reading>(ms, value::names("so2|SO2"@)) is None && value::alias_invalid::<Reading>(ms, value::names("so2|SO2"@)) ==> air_warned(v, w).contains("air.so2"@ + (": no alias contained a usable "@ + "number"@ + "; field ignored"@)),
        value::alias_value::<Reading>(ms, value::names("co|CO"@)) is None && value::alias_invalid::<Reading>(ms, value::names("co|CO"@)) ==> air_warned(v, w).contains("air.co"@ + (": no alias contained a usable "@ + "number"@ + "; field ignored"@)),
        value::alias_value::<Reading>(ms, value::names("o3|O3"@)) is None && value::alias_invalid::<Reading>(ms, value::names("o3|O3"@)) ==> air_warned(v, w).contains("air.o3"@ + (": no alias contained a usable "@ + "number"@ + "; field ignored"@)),
        (!value::alias_invalid::<String>(ms, value::names("publish_time|publishTime|pubtime|pub_time"@)) && !value::alias_invalid::<Reading>(ms, value::names("aqi|AQI"@)) && !value::alias_invalid::<String>(ms, value::names("level|aqi_level|aqiLevel"@)) && !value::alias_invalid::<String>(ms, value::names("category|quality|text"@)) && !value::alias_invalid::<String>(ms, value::names("primary_pollutant|primaryPollutant|primary|main_pollutant"@)) && !value::alias_invalid::<Reading>(ms, value::names("pm2_5|pm25|pm2.5|PM2_5|PM25"@)) && !value::alias_invalid::<Reading>(ms, value::names("pm10|PM10"@)) && !value::alias_invalid::<Reading>(ms, value::names("no2|NO2"@)) && !value::alias_invalid::<Reading>(ms, value::names("so2|SO2"@)) && !value::alias_invalid::<Reading>(ms, value::names("co|CO"@)) && !value::alias_invalid::<Reading>(ms, value::names("o3|O3"@))) && air_usable(ms) ==> air_warned(v, w) == w,
        (!value::alias_invalid::<String>(ms, value::names("publish_time|publishTime|pubtime|pub_time"@)) && !value::alias_invalid::<Reading>(ms, value::names("aqi|AQI"@)) && !value::alias_invalid::<String>(ms, value::names("level|aqi_level|aqiLevel"@)) && !value::alias_invalid::<String>(ms, value::names("category|quality|text"@)) && !value::alias_invalid::<String>(ms, value::names("primary_pollutant|primaryPollutant|primary|main_pollutant"@)) && !value::alias_invalid::<Reading>(ms, value::names("pm2_5|pm25|pm2.5|PM2_5|PM25"@)) && !value::alias_invalid::<Reading>(ms, value::names("pm10|PM10"@)) && !value::alias_invalid::<Reading>(ms, value::names("no2|NO2"@)) && !value::alias_invalid::<Reading>(ms, value::names("so2|SO2"@)) && !value::alias_invalid::<Reading>(ms, value::names("co|CO"@)) && !value::alias_invalid::<Reading>(ms, value::names("o3|O3"@))) && !air_usable(ms) ==> air_warned(v, w) == w.push("air"@ + ": no usable known fields; ignored"@),
{
    lemma_content(v, ms);
    let w0 = w;
    let w1 = value::alias_warned::<String>(ms, "publish_time|publishTime|pubtime|pub_time"@, "air.publish_time"@, w0);
    value::lemma_alias_told::<String>(ms, "publish_time|publishTime|pubtime|pub_time"@, "air.publish_time"@, w0);
    let w2 = value::alias_warned::<Reading>(ms, "aqi|AQI"@, "air.aqi"@, w1);
    value::lemma_alias_told::<Reading>(ms, "aqi|AQI"@, "air.aqi"@, w1);
    let w3 = value::alias_warned::<String>(ms, "level|aqi_level|aqiLevel"@, "air.level"@, w2);
    value::lemma_alias_told::<String>(ms, "level|aqi_level|aqiLevel"@, "air.level"@, w2);
    let w4 = value::alias_warned::<String>(ms, "category|quality|text"@, "air.category"@, w3);
    value::lemma_alias_told::<String>(ms, "category|quality|text"@, "air.category"@, w3);
    let w5 = value::alias_warned::<String>(ms, "primary_pollutant|primaryPollutant|primary|main_pollutant"@, "air.primary_pollutant"@, w4);
    value::lemma_alias_told::<String>(ms, "primary_pollutant|primaryPollutant|primary|main_pollutant"@, "air.primary_pollutant"@, w4);
    let w6 = value::alias_warned::<Reading>(ms, "pm2_5|pm25|pm2.5|PM2_5|PM25"@, "air.pm2_5"@, w5);
    value::lemma_alias_told::<Reading>(ms, "pm2_5|pm25|pm2.5|PM2_5|PM25"@, "air.pm2_5"@, w5);
    let w7 = value::alias_warned::<Reading>(ms, "pm10|PM10"@, "air.pm10"@, w6);
    value::lemma_alias_told::<Reading>(ms, "pm10|PM10"@, "air.pm10"@, w6);
    let w8 = value::alias_warned::<Reading>(ms, "no2|NO2"@, "air.no2"@, w7);
    value::lemma_alias_told::<Reading>(ms, "no2|NO2"@, "air.no2"@, w7);
    let w9 = value::alias_warned::<Reading>(ms, "so2|SO2"@, "air.so2"@, w8);
    value::lemma_alias_told::<Reading>(ms, "so2|SO2"@, "air.so2"@, w8);
    let w10 = value::alias_warned::<Reading>(ms, "co|CO"@, "air.co"@, w9);
    value::lemma_alias_told::<Reading>(ms, "co|CO"@, "air.co"@, w9);
    let w11 = value::alias_warned::<Reading>(ms, "o3|O3"@, "air.o3"@, w10);
    value::lemma_alias_told::<Reading>(ms, "o3|O3"@, "air.o3"@, w10);
    let end = air_warned(v, w);
    value::lemma_pushed(w11, "air"@ + ": no usable known fields; ignored"@);
    assert(w11.is_prefix_of(end));
    value::lemma_pushed(end, end[0]);
    value::lemma_prefix(w11, end, end);
    value::lemma_prefix(w10, w11, end);
    value::lemma_prefix(w9, w10, end);
    value::lemma_prefix(w8, w9, end);
    value::lemma_prefix(w7, w8, end);
    value::lemma_prefix(w6, w7, end);
    value::lemma_prefix(w5, w6, end);
    value::lemma_prefix(w4, w5, end);
    value::lemma_prefix(w3, w4, end);
    value::lemma_prefix(w2, w3, end);
    value::lemma_prefix(w1, w2, end);
    value::lemma_prefix(w0, w1, end);
}

/// Each field of a month that has no usable value and one of the wrong kind is told, and
/// nothing where there is none; a month without anything known is told as such.
pub proof fn months_tell_what_is_unusable(v: &Json, path: Seq<char>, w: Seq<Seq<char>>, ms: Seq<Member>)
    requires
        value::section(Some(v)) == Some(ms),
    ensures
        w.is_prefix_of(month_warned(v, path, w)),
        value::alias_value::<u32>(ms, value::names("month|mon"@)) is None && value::alias_invalid::<u32>(ms, value::names("month|mon"@)) ==> month_warned(v, path, w).contains(path + ".month"@ + (": no alias contained a usable "@ + "non-negative integer"@ + "; field ignored"@)),
        value::alias_value::<Reading>(ms, value::names("average_max_temperature|avg_max_temperature|max_temperature|maxTemp"@)) is None && value::alias_invalid::<Reading>(ms, value::names("average_max_temperature|avg_max_temperature|max_temperature|maxTemp"@)) ==> month_warned(v, path, w).contains(path + ".average_max_temperature"@ + (": no alias contained a usable "@ + "number"@ + "; field ignored"@)),
        value::alias_value::<Reading>(ms, value::names("average_min_temperature|avg_min_temperature|min_temperature|minTemp"@)) is None && value::alias_invalid::<Reading>(ms, value::names("average_min_temperature|avg_min_temperature|min_temperature|minTemp"@)) ==> month_warned(v, path, w).contains(path + ".average_min_temperature"@ + (": no alias contained a usable "@ + "number"@ + "; field ignored"@)),
        value::alias_value::<Reading>(ms, value::names("precipitation|rain|pre"@)) is None && value::alias_invalid::<Reading>(ms, value::names("precipitation|rain|pre"@)) ==> month_warned(v, path, w).contains(path + ".precipitation"@ + (": no alias contained a usable "@ + "number"@ + "; field ignored"@)),
        (!value::alias_invalid::<u32>(ms, value::names("month|mon"@)) && !value::alias_invalid::<Reading>(ms, value::names("average_max_temperature|avg_max_temperature|max_temperature|maxTemp"@)) && !value::alias_invalid::<Reading>(ms, value::names("average_min_temperature|avg_min_temperature|min_temperature|minTemp"@)) && !value::alias_invalid::<Reading>(ms, value::names("precipitation|rain|pre"@))) && month_usable(ms) ==> month_warned(v, path, w) == w,
        (!value::alias_invalid::<u32>(ms, value::names("month|mon"@)) && !value::alias_invalid::<Reading>(ms, value::names("average_max_temperature|avg_max_temperature|max_temperature|maxTemp"@)) && !value::alias_invalid::<Reading>(ms, value::names("average_min_temperature|avg_min_temperature|min_temperature|minTemp"@)) && !value::alias_invalid::<Reading>(ms, value::names("precipitation|rain|pre"@))) && !month_usable(ms) ==> month_warned(v, path, w) == w.push(path + ": no usable known fields; ignored"@),
{
    lemma_content(Some(v), ms);
    let w0 = w;
    let w1 = value::alias_warned::<u32>(ms, "month|mon"@, path + ".month"@, w0);
    value::lemma_alias_told::<u32>(ms, "month|mon"@, path + ".month"@, w0);
    let w2 = value::alias_warned::<Reading>(ms, "average_max_temperature|avg_max_temperature|max_temperature|maxTemp"@, path + ".average_max_temperature"@, w1);
    value::lemma_alias_told::<Reading>(ms, "average_max_temperature|avg_max_temperature|max_temperature|maxTemp"@, path + ".average_max_temperature"@, w1);
    let w3 = value::alias_warned::<Reading>(ms, "average_min_temperature|avg_min_temperature|min_temperature|minTemp"@, path + ".average_min_temperature"@, w2);
    value::lemma_alias_told::<Reading>(ms, "average_min_temperature|avg_min_temperature|min_temperature|minTemp"@, path + ".average_min_temperature"@, w2);
    let w4 = value::alias_warned::<Reading>(ms, "precipitation|rain|pre"@, path + ".precipitation"@, w3);
    value::lemma_alias_told::<Reading>(ms, "precipitation|rain|pre"@, path + ".precipitation"@, w3);
    let end = month_warned(v, path, w);
    value::lemma_pushed(w4, path + ": no usable known fields; ignored"@);
    assert(w4.is_prefix_of(end));
    value::lemma_pushed(end, end[0]);
    value::lemma_prefix(w4, end, end);
    value::lemma_prefix(w3, w4, end);
    value::lemma_prefix(w2, w3, end);
    value::lemma_prefix(w1, w2, end);
    value::lemma_prefix(w0, w1, end);
}

/// Months stand in the order of the entries that they are read from.
pub proof fn months_keep_their_order(rs: Seq<ClimateMonth>, es: Seq<(usize, &Json)>, k: int, m: int)
    requires
        month_list_from(rs, es),
        0 <= k < m < es.len(),
        (value::section(Some(es[k].1)) is Some && month_usable(value::section(Some(es[k].1)).unwrap())),
        (value::section(Some(es[m].1)) is Some && month_usable(value::section(Some(es[m].1)).unwrap())),
    ensures
        exists|i: int, j: int|
            0 <= i < j < rs.len() && month_from(#[trigger] rs[i], value::section(Some(es[k].1)).unwrap()) && month_from(#[trigger] rs[j], value::section(Some(es[m].1)).unwrap()),
    decreases es.len(),
{
    let rest = es.drop_last();
    assert(rest[k] == es[k]);
    if m < rest.len() {
        assert(rest[m] == es[m]);
        let shorter = if (value::section(Some(es.last().1)) is Some && month_usable(value::section(Some(es.last().1)).unwrap())) { rs.drop_last() } else { rs };
        months_keep_their_order(shorter, rest, k, m);
        let (i, j) = choose|i: int, j: int|
            0 <= i < j < shorter.len() && month_from(#[trigger] shorter[i], value::section(Some(es[k].1)).unwrap()) && month_from(#[trigger] shorter[j], value::section(Some(es[m].1)).unwrap());
        assert(rs[i] == shorter[i] && rs[j] == shorter[j]);
    } else {
        usable_entries_give_months(rs.drop_last(), rest, k);
        let i = choose|i: int| 0 <= i < rs.drop_last().len() && month_from(#[trigger] rs.drop_last()[i], value::section(Some(es[k].1)).unwrap());
        let j = rs.len() - 1;
        assert(rs[i] == rs.drop_last()[i]);
        assert(rs[j] == rs.last());
    }
}

/// Every usable entry gives a month, and every month is that of a usable entry.
pub proof fn usable_entries_give_months(rs: Seq<ClimateMonth>, es: Seq<(usize, &Json)>, k: int)
    requires
        month_list_from(rs, es),
    ensures
        0 <= k < es.len() && (value::section(Some(es[k].1)) is Some && month_usable(value::section(Some(es[k].1)).unwrap())) ==> exists|i: int|
            0 <= i < rs.len() && month_from(#[trigger] rs[i], value::section(Some(es[k].1)).unwrap()),
        0 <= k < rs.len() ==> exists|i: int|
            0 <= i < es.len() && (value::section(Some((#[trigger] es[i]).1)) is Some && month_usable(value::section(Some((es[i]).1)).unwrap())) && month_from(rs[k], value::section(Some(es[i].1)).unwrap()),
        rs.len() <= es.len(),
    decreases es.len(),
{
    if es.len() > 0 {
        let rest = es.drop_last();
        let used = (value::section(Some(es.last().1)) is Some && month_usable(value::section(Some(es.last().1)).unwrap()));
        let shorter = if used { rs.drop_last() } else { rs };
        usable_entries_give_months(shorter, rest, k);
        if 0 <= k < es.len() && (value::section(Some(es[k].1)) is Some && month_usable(value::section(Some(es[k].1)).unwrap())) {
            if k < rest.len() {
                assert(rest[k] == es[k]);
                let i = choose|i: int| 0 <= i < shorter.len() && month_from(#[trigger] shorter[i], value::section(Some(es[k].1)).unwrap());
                assert(rs[i] == shorter[i]);
            } else {
                assert(rs[rs.len() - 1] == rs.last());
            }
        }
        if 0 <= k < rs.len() {
            if k < shorter.len() {
                assert(rs[k] == shorter[k]);
                let i = choose|i: int| 0 <= i < rest.len() && (value::section(Some((#[trigger] rest[i]).1)) is Some && month_usable(value::section(Some((rest[i]).1)).unwrap())) && month_from(rs[k], value::section(Some(rest[i].1)).unwrap());
                assert(es[i] == rest[i]);
            } else {
                assert(es[es.len() - 1] == es.last());
                assert(rs[k] == rs.last());
            }
        }
    }
}

proof fn lemma_names_of_title_10()
    ensures
        value::names("title|name"@) == seq!["title"@, "name"@],
{
    reveal_strlit("title|name");
    reveal_strlit("name");
    reveal_strlit("title");
    value::lemma_one_name("name"@);
    value::lemma_names("title"@, "name"@);
    assert("title|name"@ =~= "title"@ + seq!['|'] + "name"@);
    assert(value::names("title|name"@) =~= seq!["title"@, "name"@]);
}

proof fn lemma_names_of_image_19()
    ensures
        value::names("image|image_url|img"@) == seq!["image"@, "image_url"@, "img"@],
{
    reveal_strlit("image|image_url|img");
    reveal_strlit("image_url|img");
    reveal_strlit("img");
    reveal_strlit("image");
    reveal_strlit("image_url");
    value::lemma_one_name("img"@);
    value::lemma_names("image_url"@, "img"@);
    assert("image_url|img"@ =~= "image_url"@ + seq!['|'] + "img"@);
    value::lemma_names("image"@, "image_url|img"@);
    assert("image|image_url|img"@ =~= "image"@ + seq!['|'] + "image_url|img"@);
    assert(value::names("image|image_url|img"@) =~= seq!["image"@, "image_url"@, "img"@]);
}

proof fn lemma_names_of_url_17()
    ensures
        value::names("url|page_url|page"@) == seq!["url"@, "page_url"@, "page"@],
{
    reveal_strlit("url|page_url|page");
    reveal_strlit("page_url|page");
    reveal_strlit("page");
    reveal_strlit("url");
    reveal_strlit("page_url");
    value::lemma_one_name("page"@);
    value::lemma_names("page_url"@, "page"@);
    assert("page_url|page"@ =~= "page_url"@ + seq!['|'] + "page"@);
    value::lemma_names("url"@, "page_url|page"@);
    assert("url|page_url|page"@ =~= "url"@ + seq!['|'] + "page_url|page"@);
    assert(value::names("url|page_url|page"@) =~= seq!["url"@, "page_url"@, "page"@]);
}

proof fn lemma_names_of_period_12()
    ensures
        value::names("period|range"@) == seq!["period"@, "range"@],
{
    reveal_strlit("period|range");
    reveal_strlit("range");
    reveal_strlit("period");
    value::lemma_one_name("range"@);
    value::lemma_names("period"@, "range"@);
    assert("period|range"@ =~= "period"@ + seq!['|'] + "range"@);
    assert(value::names("period|range"@) =~= seq!["period"@, "range"@]);
}

proof fn lemma_names_of_month_12()
    ensures
        value::names("month|months"@) == seq!["month"@, "months"@],
{
    reveal_strlit("month|months");
    reveal_strlit("months");
    reveal_strlit("month");
    value::lemma_one_name("months"@);
    value::lemma_names("month"@, "months"@);
    assert("month|months"@ =~= "month"@ + seq!['|'] + "months"@);
    assert(value::names("month|months"@) =~= seq!["month"@, "months"@]);
}


/// A complaint about a section that is no object says so.
pub proof fn sections_have_to_be_objects()
    ensures
        expected_object() == ": expected object; ignored"@,
{
}

/// A section that holds something, but nothing known, is told unless one of its fields was.
pub proof fn unknown_sections_are_told(
    path: Seq<char>,
    ms: Seq<Member>,
    before: nat,
    w: Seq<Seq<char>>,
)
    ensures
        w.len() > before ==> unusable_warned(path, ms, before, w) == w,
        !json::has_content(ms) ==> unusable_warned(path, ms, before, w) == w,
        w.len() == before && json::has_content(ms) ==> unusable_warned(path, ms, before, w)
            == w.push(path + ": no usable known fields; ignored"@),
{
}

/// A section that is absent or holds nothing is not told; one that holds something and is no
/// object is told and not read.
pub proof fn sections_that_are_no_objects_are_told(v: Json, base: Seq<char>, w: Seq<Seq<char>>)
    ensures
        air_warned(None, w) == w,
        climate_warned(None, w) == w,
        radar_warned(None, base, w) == w,
        json::missing(v) ==> air_warned(Some(&v), w) == w && climate_warned(Some(&v), w) == w
            && radar_warned(Some(&v), base, w) == w,
        !json::missing(v) && !(v is Object) ==> {
            &&& air_warned(Some(&v), w) == w.push("air"@ + ": expected object; ignored"@)
            &&& climate_warned(Some(&v), w) == w.push("climate"@ + ": expected object; ignored"@)
            &&& radar_warned(Some(&v), base, w) == w.push(
                "radar"@ + ": expected object; ignored"@,
            )
        },
{
}

/// A radar picture has its title and its addresses under their names; of several names the
/// first counts that has something usable. It is there where one of the three is.
pub proof fn radar_is_read_by_its_names(r: RadarInfo, ms: Seq<Member>, base: Seq<char>)
    requires
        radar_from(r, ms, base),
    ensures
        text::opt_text(r.title) == if value::usable::<String>(ms, "title"@) is Some {
            value::usable::<String>(ms, "title"@)
        } else {
            value::usable::<String>(ms, "name"@)
        },
        text::opt_text(r.image_url) == if value::resource_value(json::lookup(ms, "image"@), base)
            is Some {
            value::resource_value(json::lookup(ms, "image"@), base)
        } else if value::resource_value(json::lookup(ms, "image_url"@), base) is Some {
            value::resource_value(json::lookup(ms, "image_url"@), base)
        } else {
            value::resource_value(json::lookup(ms, "img"@), base)
        },
        text::opt_text(r.page_url) == if value::resource_value(json::lookup(ms, "url"@), base)
            is Some {
            value::resource_value(json::lookup(ms, "url"@), base)
        } else if value::resource_value(json::lookup(ms, "page_url"@), base) is Some {
            value::resource_value(json::lookup(ms, "page_url"@), base)
        } else {
            value::resource_value(json::lookup(ms, "page"@), base)
        },
        r.image_resource_id is None,
        radar_usable(ms, base) <==> r.title is Some || r.image_url is Some || r.page_url is Some,
{
    lemma_names_of_title_10();
    lemma_names_of_image_19();
    lemma_names_of_url_17();
    lemma_first_usable_2::<String>(ms, "title"@, "name"@);
    lemma_first_leading(ms, "image"@, "image_url"@, "img"@, base);
    lemma_first_leading(ms, "url"@, "page_url"@, "page"@, base);
}

proof fn lemma_first_leading(
    ms: Seq<Member>,
    a: Seq<char>,
    b: Seq<char>,
    c: Seq<char>,
    base: Seq<char>,
)
    ensures
        value::alias_resource_value(ms, seq![a, b, c], base) == if value::resource_value(
            json::lookup(ms, a),
            base,
        ) is Some {
            value::resource_value(json::lookup(ms, a), base)
        } else if value::resource_value(json::lookup(ms, b), base) is Some {
            value::resource_value(json::lookup(ms, b), base)
        } else {
            value::resource_value(json::lookup(ms, c), base)
        },
{
    let all = seq![a, b, c];
    assert(all[0] == a && all[1] == b && all[2] == c);
    value::the_first_leading_alias_counts(ms, all, base, 0);
    value::the_first_leading_alias_counts(ms, all, base, 1);
    value::the_first_leading_alias_counts(ms, all, base, 2);
}

/// A climate summary has its period and its months under their names. It is there where it
/// has a period or a month.
pub proof fn climate_is_read_by_its_names(c: ClimateSummary, ms: Seq<Member>)
    requires
        climate_from(c, ms),
    ensures
        text::opt_text(c.period) == if value::usable::<String>(ms, "period"@) is Some {
            value::usable::<String>(ms, "period"@)
        } else {
            value::usable::<String>(ms, "range"@)
        },
        month_list_from(c.month@, value::alias_entries(ms, "month|months"@)),
        value::names("month|months"@) == seq!["month"@, "months"@],
        climate_usable(ms) <==> c.period is Some || c.month@.len() > 0,
{
    lemma_names_of_period_12();
    lemma_names_of_month_12();
    lemma_first_usable_2::<String>(ms, "period"@, "range"@);
    lemma_some_month(c.month@, value::alias_entries(ms, "month|months"@));
}

/// A list has a month where one of its entries is usable.
pub proof fn usable_entries_make_a_climate(es: Seq<(usize, &Json)>)
    ensures
        some_month(es) <==> exists|k: int|
            0 <= k < es.len() && value::section(Some((#[trigger] es[k]).1)) is Some && month_usable(
                value::section(Some(es[k].1)).unwrap(),
            ),
    decreases es.len(),
{
    if es.len() > 0 {
        let rest = es.drop_last();
        usable_entries_make_a_climate(rest);
        if some_month(rest) {
            let k = choose|k: int|
                0 <= k < rest.len() && value::section(Some((#[trigger] rest[k]).1)) is Some
                    && month_usable(value::section(Some(rest[k].1)).unwrap());
            assert(es[k] == rest[k]);
        }
        assert(es[es.len() - 1] == es.last());
        if exists|k: int|
            0 <= k < es.len() && value::section(Some((#[trigger] es[k]).1)) is Some && month_usable(
                value::section(Some(es[k].1)).unwrap(),
            ) {
            let k = choose|k: int|
                0 <= k < es.len() && value::section(Some((#[trigger] es[k]).1)) is Some
                    && month_usable(value::section(Some(es[k].1)).unwrap());
            if k < rest.len() {
                assert(rest[k] == es[k]);
            }
        }
    }
}

proof fn lemma_month_told(v: &Json, path: Seq<char>, w: Seq<Seq<char>>)
    ensures
        w.is_prefix_of(month_warned(v, path, w)),
{
    value::lemma_section_told(Some(v), path, expected_object(), w);
    if let Some(ms) = value::section(Some(v)) {
        months_tell_what_is_unusable(v, path, w, ms);
    }
}

proof fn lemma_months_told(es: Seq<(usize, &Json)>, w: Seq<Seq<char>>)
    ensures
        w.is_prefix_of(month_list_warned(es, w)),
    decreases es.len(),
{
    value::lemma_pushed(w, w[0]);
    if es.len() > 0 {
        let before = month_list_warned(es.drop_last(), w);
        let path = current::entry_path("climate.month"@, es.last().0);
        lemma_months_told(es.drop_last(), w);
        lemma_month_told(es.last().1, path, before);
        value::lemma_prefix(w, before, month_list_warned(es, w));
    }
}

/// The warnings of the months stand in the order of the entries, and none is lost: those of
/// an entry come behind those of the entries before it.
pub proof fn month_warnings_add_up(
    es: Seq<(usize, &Json)>,
    e: (usize, &Json),
    w: Seq<Seq<char>>,
)
    ensures
        month_list_warned(Seq::empty(), w) == w,
        month_list_warned(es.push(e), w) == month_warned(
            e.1,
            "climate.month"@ + "["@ + text::numeral(e.0 as nat) + "]"@,
            month_list_warned(es, w),
        ),
        w.is_prefix_of(month_list_warned(es, w)),
{
    assert(es.push(e).drop_last() =~= es);
    lemma_months_told(es, w);
}

/// A period of the wrong kind, and whatever is unusable in the months, is told; a section
/// without anything known is.
pub proof fn climate_tells_what_is_unusable(
    v: Option<&Json>,
    w: Seq<Seq<char>>,
    ms: Seq<Member>,
)
    requires
        value::section(v) == Some(ms),
    ensures
        w.is_prefix_of(climate_warned(v, w)),
        value::alias_value::<String>(ms, value::names("period|range"@)) is None
            && value::alias_invalid::<String>(ms, value::names("period|range"@)) ==> climate_warned(
            v,
            w,
        ).contains(
            "climate.period"@ + (": no alias contained a usable "@ + "string"@ + "; field ignored"@),
        ),
        month_list_warned(
            value::alias_entries(ms, "month|months"@),
            value::alias_sequence_warned(
                ms,
                "month|months"@,
                "climate.month"@,
                value::alias_warned::<String>(ms, "period|range"@, "climate.period"@, w),
            ),
        ).is_prefix_of(climate_warned(v, w)),
        !climate_usable(ms) ==> climate_warned(v, w).len() > w.len(),
{
    lemma_content(v, ms);
    let w1 = value::alias_warned::<String>(ms, "period|range"@, "climate.period"@, w);
    value::lemma_alias_told::<String>(ms, "period|range"@, "climate.period"@, w);
    let w2 = value::alias_sequence_warned(ms, "month|months"@, "climate.month"@, w1);
    value::lemma_alias_sequence_told(ms, "month|months"@, "climate.month"@, w1);
    let es = value::alias_entries(ms, "month|months"@);
    let w3 = month_list_warned(es, w2);
    lemma_months_told(es, w2);
    let end = climate_warned(v, w);
    value::lemma_pushed(w3, "climate"@ + ": no usable known fields; ignored"@);
    value::lemma_pushed(end, end[0]);
    value::lemma_prefix(w3, end, end);
    value::lemma_prefix(w2, w3, end);
    value::lemma_prefix(w1, w2, end);
    value::lemma_prefix(w, w1, end);
    value::lemma_prefix(w1, w2, w3);
    value::lemma_prefix(w, w1, w3);
    assert(w3.take(w.len() as int).len() == w.len());
}

/// Of a radar picture, a title of the wrong kind and addresses that lead nowhere are told; a
/// section without anything known is.
pub proof fn radar_tells_what_is_unusable(
    v: Option<&Json>,
    base: Seq<char>,
    w: Seq<Seq<char>>,
    ms: Seq<Member>,
)
    requires
        value::section(v) == Some(ms),
    ensures
        w.is_prefix_of(radar_warned(v, base, w)),
        value::alias_value::<String>(ms, value::names("title|name"@)) is None
            && value::alias_invalid::<String>(ms, value::names("title|name"@)) ==> radar_warned(
            v,
            base,
            w,
        ).contains(
            "radar.title"@ + (": no alias contained a usable "@ + "string"@ + "; field ignored"@),
        ),
        value::alias_resource_value(ms, value::names("image|image_url|img"@), base) is None && (
        exists|i: int|
            0 <= i < value::names("image|image_url|img"@).len() && value::unusable_reference(
                json::lookup(ms, #[trigger] value::names("image|image_url|img"@)[i]),
                base,
            )) ==> radar_warned(v, base, w).contains(
            "radar.image_url"@ + ": no alias contained a usable resource URL; field ignored"@,
        ),
        value::alias_resource_value(ms, value::names("url|page_url|page"@), base) is None && (
        exists|i: int|
            0 <= i < value::names("url|page_url|page"@).len() && value::unusable_reference(
                json::lookup(ms, #[trigger] value::names("url|page_url|page"@)[i]),
                base,
            )) ==> radar_warned(v, base, w).contains(
            "radar.page_url"@ + ": no alias contained a usable resource URL; field ignored"@,
        ),
        !radar_usable(ms, base) ==> radar_warned(v, base, w).len() > w.len(),
{
    lemma_content(v, ms);
    let w1 = value::alias_warned::<String>(ms, "title|name"@, "radar.title"@, w);
    value::lemma_alias_told::<String>(ms, "title|name"@, "radar.title"@, w);
    let w2 = value::alias_resource_warned(ms, "image|image_url|img"@, base, "radar.image_url"@, w1);
    value::lemma_alias_resource_told(ms, "image|image_url|img"@, base, "radar.image_url"@, w1);
    value::lemma_pushed(
        w1,
        "radar.image_url"@ + ": no alias contained a usable resource URL; field ignored"@,
    );
    let w3 = value::alias_resource_warned(ms, "url|page_url|page"@, base, "radar.page_url"@, w2);
    value::lemma_alias_resource_told(ms, "url|page_url|page"@, base, "radar.page_url"@, w2);
    value::lemma_pushed(
        w2,
        "radar.page_url"@ + ": no alias contained a usable resource URL; field ignored"@,
    );
    let end = radar_warned(v, base, w);
    value::lemma_pushed(w3, "radar"@ + ": no usable known fields; ignored"@);
    value::lemma_pushed(end, end[0]);
    value::lemma_prefix(w3, end, end);
    value::lemma_prefix(w2, w3, end);
    value::lemma_prefix(w1, w2, end);
    value::lemma_prefix(w, w1, end);
    value::lemma_prefix(w1, w2, w3);
    value::lemma_prefix(w, w1, w3);
    assert(w3.take(w.len() as int).len() == w.len());
}

} // verus!
