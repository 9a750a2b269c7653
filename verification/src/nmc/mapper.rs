//! Mapping of whole documents: a weather response and the catalog lists.

use vstd::prelude::*;
use crate::json::{self, Json, Member, TextValue};
use crate::nmc::charts;
use crate::nmc::current;
use crate::nmc::envelope;
use crate::nmc::optional;
use crate::nmc::value::{self, MappingContext};
use crate::provider::{ProviderCity, ProviderProvince};
use crate::report::{DebugPayload, WeatherSnapshot};
use crate::station;
use crate::text;
use crate::url;

verus! {

/// A snapshot and the warnings that came up on the way to it.
#[derive(Debug)]
pub struct MapOutcome {
    pub value: WeatherSnapshot,
    pub warnings: Vec<String>,
}

/// `s` is the snapshot that the members of the data describe, apart from its debug
/// payload.
#[verifier::opaque]
pub open spec fn snapshot_from<F: Fn(&str) -> String>(
    s: WeatherSnapshot,
    data: Seq<Member>,
    base: Seq<char>,
    uuid_of: F,
) -> bool {
    let observed = value::section(json::lookup(data, "real"@));
    let predict = value::section(json::lookup(data, "predict"@));
    let air = value::section(json::lookup(data, "air"@));
    let climate = value::section(json::lookup(data, "climate"@));
    let radar = value::section(json::lookup(data, "radar"@));
    &&& if current::station_value(value::part(observed, "station"@)) is Some {
        current::station_from(s.station, value::part(observed, "station"@), uuid_of)
    } else {
        current::station_from(s.station, value::part(predict, "station"@), uuid_of)
    }
    &&& s.real is Some <==> observed is Some
    &&& s.real matches Some(o) ==> current::observed_from(o, observed->0, base)
    &&& s.predict is Some <==> predict is Some
    &&& s.predict matches Some(p) ==> current::forecast_from(p, predict->0)
    &&& s.air is Some <==> (air matches Some(ms) && optional::air_usable(ms))
    &&& s.air matches Some(a) ==> optional::air_from(a, air->0)
    &&& charts::chart_list_from(
        s.tempchart@,
        value::sequence_value(json::lookup(data, "tempchart"@)),
    )
    &&& charts::passed_list_from(
        s.passedchart@,
        value::sequence_value(json::lookup(data, "passedchart"@)),
    )
    &&& s.climate is Some <==> (climate matches Some(ms) && optional::climate_usable(ms))
    &&& s.climate matches Some(c) ==> optional::climate_from(c, climate->0)
    &&& s.radar is Some <==> (radar matches Some(ms) && optional::radar_usable(ms, base))
    &&& s.radar matches Some(r) ==> optional::radar_from(r, radar->0, base)
    &&& !s.stale
}

/// The warnings that the data gives rise to, section by section.
#[verifier::opaque]
pub open spec fn weather_warned(data: Seq<Member>, base: Seq<char>) -> Seq<Seq<char>> {
    let w = Seq::<Seq<char>>::empty();
    let w = current::real_warned(json::lookup(data, "real"@), base, w);
    let w = current::predict_warned(json::lookup(data, "predict"@), w);
    let w = optional::air_warned(json::lookup(data, "air"@), w);
    let w = charts::chart_list_warned(
        value::sequence_value(json::lookup(data, "tempchart"@)),
        value::sequence_warned(json::lookup(data, "tempchart"@), "tempchart"@, w),
    );
    let w = charts::passed_list_warned(
        value::sequence_value(json::lookup(data, "passedchart"@)),
        value::sequence_warned(json::lookup(data, "passedchart"@), "passedchart"@, w),
    );
    let w = optional::climate_warned(json::lookup(data, "climate"@), w);
    optional::radar_warned(json::lookup(data, "radar"@), base, w)
}

/// Maps the data of a weather response. A section that cannot be used is left out
/// with a warning; the others are not touched by it.
pub fn map_weather<F: Fn(&str) -> String>(
    data: &Vec<Member>,
    base_url: &str,
    uuid_of: &F,
) -> (r: MapOutcome)
    requires
        station::total(*uuid_of),
    ensures
        snapshot_from(r.value, data@, base_url@, *uuid_of),
        r.value.debug is None,
        text::texts(r.warnings@) == weather_warned(data@, base_url@),
{
    let mut context = MappingContext::new(base_url);
    let observed = current::map_real(json::get(data, "real"), uuid_of, &mut context);
    let predict = current::map_predict(json::get(data, "predict"), uuid_of, &mut context);
    let air = optional::map_air_quality(json::get(data, "air"), &mut context);
    let tempchart = charts::map_temperature_charts(json::get(data, "tempchart"), &mut context);
    let passedchart = charts::map_passed_charts(json::get(data, "passedchart"), &mut context);
    let climate = optional::map_climate(json::get(data, "climate"), &mut context);
    let radar = optional::map_radar(json::get(data, "radar"), &mut context);
    let (observed_station, observed) = match observed {
        Some(m) => (m.station, Some(m.value)),
        None => (None, None),
    };
    let (predict_station, predict) = match predict {
        Some(m) => (m.station, Some(m.value)),
        None => (None, None),
    };
    let station = match observed_station {
        Some(s) => Some(s),
        None => predict_station,
    };
    proof {
        reveal(snapshot_from);
        reveal(weather_warned);
    }
    MapOutcome {
        value: WeatherSnapshot {
            station,
            real: observed,
            predict,
            air,
            tempchart,
            passedchart,
            climate,
            radar,
            stale: false,
            debug: None,
        },
        warnings: context.warnings,
    }
}

/// Each section comes from its own member alone: where two documents agree on that
/// member, whatever else they hold, the section of either snapshot serves the other. The
/// station comes from the observed weather and the forecast.
pub proof fn sections_stand_alone<F: Fn(&str) -> String>(
    s: WeatherSnapshot,
    data: Seq<Member>,
    t: WeatherSnapshot,
    other: Seq<Member>,
    base: Seq<char>,
    uuid_of: F,
)
    requires
        snapshot_from(s, data, base, uuid_of),
        snapshot_from(t, other, base, uuid_of),
    ensures
        json::lookup(data, "real"@) == json::lookup(other, "real"@)
            && json::lookup(data, "predict"@) == json::lookup(other, "predict"@)
            ==> snapshot_from((WeatherSnapshot { station: s.station, ..t }), other, base, uuid_of),
        json::lookup(data, "real"@) == json::lookup(other, "real"@)
            ==> snapshot_from((WeatherSnapshot { real: s.real, ..t }), other, base, uuid_of),
        json::lookup(data, "predict"@) == json::lookup(other, "predict"@)
            ==> snapshot_from((WeatherSnapshot { predict: s.predict, ..t }), other, base, uuid_of),
        json::lookup(data, "air"@) == json::lookup(other, "air"@)
            ==> snapshot_from((WeatherSnapshot { air: s.air, ..t }), other, base, uuid_of),
        json::lookup(data, "tempchart"@) == json::lookup(other, "tempchart"@)
            ==> snapshot_from((WeatherSnapshot { tempchart: s.tempchart, ..t }), other, base, uuid_of),
        json::lookup(data, "passedchart"@) == json::lookup(other, "passedchart"@)
            ==> snapshot_from((WeatherSnapshot { passedchart: s.passedchart, ..t }), other, base, uuid_of),
        json::lookup(data, "climate"@) == json::lookup(other, "climate"@)
            ==> snapshot_from((WeatherSnapshot { climate: s.climate, ..t }), other, base, uuid_of),
        json::lookup(data, "radar"@) == json::lookup(other, "radar"@)
            ==> snapshot_from((WeatherSnapshot { radar: s.radar, ..t }), other, base, uuid_of),
{
    reveal(snapshot_from);
}

/// A document with the observed weather alone gives that section and no other, and no
/// warnings but those of that section.
pub proof fn absent_sections_are_silent<F: Fn(&str) -> String>(
    s: WeatherSnapshot,
    data: Seq<Member>,
    base: Seq<char>,
    uuid_of: F,
)
    requires
        snapshot_from(s, data, base, uuid_of),
        json::lookup(data, "predict"@) is None,
        json::lookup(data, "air"@) is None,
        json::lookup(data, "tempchart"@) is None,
        json::lookup(data, "passedchart"@) is None,
        json::lookup(data, "climate"@) is None,
        json::lookup(data, "radar"@) is None,
    ensures
        weather_warned(data, base) == current::real_warned(
            json::lookup(data, "real"@),
            base,
            Seq::<Seq<char>>::empty(),
        ),
        s.predict is None,
        s.air is None,
        s.tempchart@.len() == 0,
        s.passedchart@.len() == 0,
        s.climate is None,
        s.radar is None,
{
    reveal(snapshot_from);
    reveal(weather_warned);
}

/// A province as the provider sends it.
#[derive(Debug)]
pub struct ProvinceRow {
    pub code: String,
    pub name: String,
    pub url: TextValue,
}

/// A city as the provider sends it.
#[derive(Debug)]
pub struct CityRow {
    pub code: String,
    pub province: String,
    pub city: String,
    pub url: TextValue,
}

/// The text is no catalog field: it is blank or the missing-number sentinel.
pub open spec fn unusable_field(s: Seq<char>) -> bool {
    text::blank(s) || text::trimmed(s) == "9999"@
}

/// What is said of an unusable catalog field.
pub open spec fn field_complaint(kind: Seq<char>, index: usize, field: Seq<char>) -> Seq<char> {
    "NMC "@ + kind + "["@ + text::numeral(index as nat) + "]."@ + field
        + " is empty or sentinel"@
}

/// Checks a catalog field.
pub fn validate_catalog_field(text_value: &str, kind: &str, index: usize, field: &str) -> (r:
    Result<(), String>)
    ensures
        match r {
            Ok(_) => !unusable_field(text_value@),
            Err(m) => unusable_field(text_value@) && m@ == field_complaint(kind@, index, field@),
        },
{
    let trimmed = text::trim(text_value);
    if trimmed.is_empty() || text::same(trimmed, "9999") {
        let mut m = "NMC ".to_owned();
        m.append(kind);
        m.append("[");
        m.append(text::decimal(index as u64).as_str());
        m.append("].");
        m.append(field);
        m.append(" is empty or sentinel");
        Err(m)
    } else {
        Ok(())
    }
}

/// The address that a catalog row must have, or why it has none.
pub open spec fn required_address(base: Seq<char>, reference: TextValue) -> Result<
    Seq<char>,
    Seq<char>,
> {
    let trimmed = text::trimmed(reference.text@);
    if trimmed.len() == 0 || (reference.reading matches Some(r) && r.sentinel()) {
        Err("resource URL is empty or sentinel"@)
    } else {
        match url::resolved(base, trimmed) {
            Ok(address) => Ok(address),
            Err(error) => Err(
                text::in_context("failed to join resource URL `"@ + trimmed + "`"@, error),
            ),
        }
    }
}

/// Resolves the address of a catalog row.
pub fn required_resource_url(base_url: &str, reference: &TextValue) -> (r: Result<String, String>)
    ensures
        text::outcome(r) == required_address(base_url@, *reference),
{
    let trimmed = text::trim(reference.text.as_str());
    let sentinel = match reference.reading {
        Some(r) => r.is_sentinel(),
        None => false,
    };
    if trimmed.is_empty() || sentinel {
        Err("resource URL is empty or sentinel".to_owned())
    } else {
        match url::resolve(base_url, trimmed) {
            Ok(address) => Ok(address),
            Err(error) => {
                let context = text::cat("failed to join resource URL `", trimmed).concat("`");
                Err(text::with_context(context.as_str(), error.as_str()))
            },
        }
    }
}

/// What is said of a catalog row without an address.
pub open spec fn url_complaint(kind: Seq<char>, index: usize, error: Seq<char>) -> Seq<char> {
    text::in_context(
        "invalid NMC "@ + kind + "["@ + text::numeral(index as nat) + "].url"@,
        error,
    )
}

fn url_complaint_text(kind: &str, index: usize, error: &str) -> (m: String)
    ensures
        m@ == url_complaint(kind@, index, error@),
{
    let mut m = "invalid NMC ".to_owned();
    m.append(kind);
    m.append("[");
    m.append(text::decimal(index as u64).as_str());
    m.append("].url");
    text::with_context(m.as_str(), error)
}

/// Why a province row is refused, if it is.
pub open spec fn province_fault(row: ProvinceRow, index: usize, base: Seq<char>) -> Option<
    Seq<char>,
> {
    if unusable_field(row.code@) {
        Some(field_complaint("province"@, index, "code"@))
    } else if unusable_field(row.name@) {
        Some(field_complaint("province"@, index, "name"@))
    } else {
        match required_address(base, row.url) {
            Ok(_) => None,
            Err(error) => Some(url_complaint("province"@, index, error)),
        }
    }
}

/// `p` is the province of a row.
pub open spec fn province_from(p: ProviderProvince, row: ProvinceRow, base: Seq<char>) -> bool {
    &&& p.provider_code == row.code
    &&& p.name == row.name
    &&& required_address(base, row.url) == Ok::<_, Seq<char>>(p.url@)
}

/// Maps a list of provinces; the first row that cannot be used refuses the list.
pub fn map_provinces(rows: &Vec<ProvinceRow>, base_url: &str) -> (r: Result<
    Vec<ProviderProvince>,
    String,
>)
    ensures
        match r {
            Ok(ps) => {
                &&& ps@.len() == rows@.len()
                &&& forall|i: int|
                    0 <= i < rows@.len() ==> {
                        &&& province_fault(#[trigger] rows@[i], i as usize, base_url@) is None
                        &&& province_from(ps@[i], rows@[i], base_url@)
                    }
            },
            Err(m) => exists|k: int|
                {
                    &&& 0 <= k < rows@.len()
                    &&& province_fault(#[trigger] rows@[k], k as usize, base_url@) == Some(m@)
                    &&& forall|j: int|
                        0 <= j < k ==> province_fault(
                            #[trigger] rows@[j],
                            j as usize,
                            base_url@,
                        ) is None
                },
        },
{
    let mut ps: Vec<ProviderProvince> = Vec::new();
    let mut i: usize = 0;
    while i < rows.len()
        invariant
            i <= rows@.len(),
            ps@.len() == i,
            forall|k: int|
                0 <= k < i ==> {
                    &&& province_fault(#[trigger] rows@[k], k as usize, base_url@) is None
                    &&& province_from(ps@[k], rows@[k], base_url@)
                },
        decreases rows@.len() - i,
    {
        let row = &rows[i];
        match validate_catalog_field(row.code.as_str(), "province", i, "code") {
            Ok(_) => {},
            Err(m) => {
                assert(province_fault(rows@[i as int], i, base_url@) == Some(m@));
                return Err(m);
            },
        }
        match validate_catalog_field(row.name.as_str(), "province", i, "name") {
            Ok(_) => {},
            Err(m) => {
                assert(province_fault(rows@[i as int], i, base_url@) == Some(m@));
                return Err(m);
            },
        }
        match required_resource_url(base_url, &row.url) {
            Ok(url) => {
                ps.push(
                    ProviderProvince {
                        provider_code: row.code.clone(),
                        name: row.name.clone(),
                        url,
                    },
                );
            },
            Err(error) => {
                let m = url_complaint_text("province", i, error.as_str());
                assert(province_fault(rows@[i as int], i, base_url@) == Some(m@));
                return Err(m);
            },
        }
        i = i + 1;
    }
    Ok(ps)
}

/// Why a city row is refused, if it is.
pub open spec fn city_fault(row: CityRow, index: usize, base: Seq<char>) -> Option<Seq<char>> {
    if unusable_field(row.code@) {
        Some(field_complaint("city"@, index, "code"@))
    } else if unusable_field(row.province@) {
        Some(field_complaint("city"@, index, "province"@))
    } else if unusable_field(row.city@) {
        Some(field_complaint("city"@, index, "city"@))
    } else {
        match required_address(base, row.url) {
            Ok(_) => None,
            Err(error) => Some(url_complaint("city"@, index, error)),
        }
    }
}

/// `c` is the city of a row in the given province.
pub open spec fn city_from(
    c: ProviderCity,
    row: CityRow,
    province_code: Seq<char>,
    base: Seq<char>,
) -> bool {
    &&& c.provider_code == row.code
    &&& c.provider_province_code@ == province_code
    &&& c.province == row.province
    &&& c.city == row.city
    &&& required_address(base, row.url) == Ok::<_, Seq<char>>(c.url@)
}

/// Maps a list of cities; the first row that cannot be used refuses the list.
pub fn map_cities(rows: &Vec<CityRow>, provider_province_code: &str, base_url: &str) -> (r: Result<
    Vec<ProviderCity>,
    String,
>)
    ensures
        match r {
            Ok(cs) => {
                &&& cs@.len() == rows@.len()
                &&& forall|i: int|
                    0 <= i < rows@.len() ==> {
                        &&& city_fault(#[trigger] rows@[i], i as usize, base_url@) is None
                        &&& city_from(cs@[i], rows@[i], provider_province_code@, base_url@)
                    }
            },
            Err(m) => exists|k: int|
                {
                    &&& 0 <= k < rows@.len()
                    &&& city_fault(#[trigger] rows@[k], k as usize, base_url@) == Some(m@)
                    &&& forall|j: int|
                        0 <= j < k ==> city_fault(
                            #[trigger] rows@[j],
                            j as usize,
                            base_url@,
                        ) is None
                },
        },
{
    let mut cs: Vec<ProviderCity> = Vec::new();
    let mut i: usize = 0;
    while i < rows.len()
        invariant
            i <= rows@.len(),
            cs@.len() == i,
            forall|k: int|
                0 <= k < i ==> {
                    &&& city_fault(#[trigger] rows@[k], k as usize, base_url@) is None
                    &&& city_from(cs@[k], rows@[k], provider_province_code@, base_url@)
                },
        decreases rows@.len() - i,
    {
        let row = &rows[i];
        match validate_catalog_field(row.code.as_str(), "city", i, "code") {
            Ok(_) => {},
            Err(m) => {
                assert(city_fault(rows@[i as int], i, base_url@) == Some(m@));
                return Err(m);
            },
        }
        match validate_catalog_field(row.province.as_str(), "city", i, "province") {
            Ok(_) => {},
            Err(m) => {
                assert(city_fault(rows@[i as int], i, base_url@) == Some(m@));
                return Err(m);
            },
        }
        match validate_catalog_field(row.city.as_str(), "city", i, "city") {
            Ok(_) => {},
            Err(m) => {
                assert(city_fault(rows@[i as int], i, base_url@) == Some(m@));
                return Err(m);
            },
        }
        match required_resource_url(base_url, &row.url) {
            Ok(url) => {
                cs.push(
                    ProviderCity {
                        provider_code: row.code.clone(),
                        provider_province_code: provider_province_code.to_owned(),
                        province: row.province.clone(),
                        city: row.city.clone(),
                        url,
                    },
                );
            },
            Err(error) => {
                let m = url_complaint_text("city", i, error.as_str());
                assert(city_fault(rows@[i as int], i, base_url@) == Some(m@));
                return Err(m);
            },
        }
        i = i + 1;
    }
    Ok(cs)
}

/// A fetched snapshot and the warnings about it.
#[derive(Debug)]
pub struct WeatherFetch {
    pub snapshot: WeatherSnapshot,
    pub warnings: Vec<String>,
}

/// Where a weather response came from and what came.
pub struct Document<'a> {
    pub provider: &'a str,
    pub endpoint: &'a str,
    pub body: &'a Json,
    /// What the JSON library says of the body.
    pub words: envelope::EnvelopeText<'a>,
    /// The body as text, where it is to be kept.
    pub raw_json: Option<String>,
}

/// `d` is the debug payload of a document that gave rise to the warnings.
pub open spec fn debug_of(
    d: Option<DebugPayload>,
    provider: Seq<char>,
    endpoint: Seq<char>,
    raw_json: Option<Seq<char>>,
    warnings: Seq<Seq<char>>,
) -> bool {
    match raw_json {
        None => d is None,
        Some(raw) => {
            &&& d matches Some(p)
            &&& p.provider@ == provider
            &&& p.operation@ == "weather"@
            &&& p.endpoint@ == endpoint
            &&& p.raw_json@ == raw
            &&& text::texts(p.warnings@) == warnings
        },
    }
}

proof fn lemma_debug_aside<F: Fn(&str) -> String>(
    s: WeatherSnapshot,
    t: WeatherSnapshot,
    data: Seq<Member>,
    base: Seq<char>,
    uuid_of: F,
)
    requires
        snapshot_from(s, data, base, uuid_of),
        t == (WeatherSnapshot { debug: t.debug, ..s }),
    ensures
        snapshot_from(t, data, base, uuid_of),
{
    reveal(snapshot_from);
}

/// Decodes and maps a weather response. The debug payload is there exactly where
/// the body was kept; the warnings are handed on either way.
pub fn fetch_from_document<F: Fn(&str) -> String>(
    document: Document<'_>,
    base_url: &str,
    uuid_of: &F,
) -> (r: Result<WeatherFetch, String>)
    requires
        station::total(*uuid_of),
    ensures
        r is Ok <==> envelope::envelope_fault(*document.body, document.words) is None,
        match r {
            Err(m) => envelope::envelope_fault(*document.body, document.words) matches Some(fault) && m@
                == text::in_context(
                "failed to decode NMC weather response from "@ + document.endpoint@,
                fault,
            ),
            Ok(f) => {
                &&& envelope::data_of(*document.body) matches Some(data)
                &&& snapshot_from(f.snapshot, data, base_url@, *uuid_of)
                &&& text::texts(f.warnings@) == weather_warned(data, base_url@)
                &&& debug_of(
                    f.snapshot.debug,
                    document.provider@,
                    document.endpoint@,
                    text::opt_text(document.raw_json),
                    text::texts(f.warnings@),
                )
            },
        },
{
    let data = match envelope::decode_weather_response(document.body, document.words) {
        Ok(data) => data,
        Err(fault) => {
            let context = text::cat(
                "failed to decode NMC weather response from ",
                document.endpoint,
            );
            return Err(text::with_context(context.as_str(), fault.as_str()));
        },
    };
    let mapped = map_weather(data, base_url, uuid_of);
    let ghost s = mapped.value;
    let mut snapshot = mapped.value;
    let warnings = mapped.warnings;
    match document.raw_json {
        Some(raw_json) => {
            snapshot.debug = Some(
                DebugPayload {
                    provider: document.provider.to_owned(),
                    operation: "weather".to_owned(),
                    endpoint: document.endpoint.to_owned(),
                    raw_json,
                    warnings: text::copy_all(&warnings),
                },
            );
        },
        None => {},
    }
    proof {
        lemma_debug_aside(s, snapshot, data@, base_url@, *uuid_of);
    }
    Ok(WeatherFetch { snapshot, warnings })
}

/// A snapshot has each of its sections from the member of that name: the observed weather
/// and the forecast where they are objects, and air quality, climate and radar where
/// something of them is usable. Charts and past rows are read from their lists. It is not
/// stale.
pub proof fn sections_come_from_their_members<F: Fn(&str) -> String>(
    s: WeatherSnapshot,
    data: Seq<Member>,
    base: Seq<char>,
    uuid_of: F,
    ms: Seq<Member>,
)
    requires
        snapshot_from(s, data, base, uuid_of),
    ensures
        !s.stale,
        s.real is Some <==> value::section(json::lookup(data, "real"@)) is Some,
        s.real is Some && value::section(json::lookup(data, "real"@)) == Some(ms)
            ==> current::observed_from(s.real.unwrap(), ms, base),
        s.predict is Some <==> value::section(json::lookup(data, "predict"@)) is Some,
        s.predict is Some && value::section(json::lookup(data, "predict"@)) == Some(ms)
            ==> current::forecast_from(s.predict.unwrap(), ms),
        value::section(json::lookup(data, "air"@)) is None ==> s.air is None,
        value::section(json::lookup(data, "air"@)) == Some(ms) ==> (s.air is Some
            <==> optional::air_usable(ms)),
        value::section(json::lookup(data, "air"@)) == Some(ms) && s.air is Some
            ==> optional::air_from(s.air.unwrap(), ms),
        charts::chart_list_from(
            s.tempchart@,
            value::sequence_value(json::lookup(data, "tempchart"@)),
        ),
        charts::passed_list_from(
            s.passedchart@,
            value::sequence_value(json::lookup(data, "passedchart"@)),
        ),
        value::section(json::lookup(data, "climate"@)) is None ==> s.climate is None,
        value::section(json::lookup(data, "climate"@)) == Some(ms) ==> (s.climate is Some
            <==> optional::climate_usable(ms)),
        value::section(json::lookup(data, "climate"@)) == Some(ms) && s.climate is Some
            ==> optional::climate_from(s.climate.unwrap(), ms),
        value::section(json::lookup(data, "radar"@)) is None ==> s.radar is None,
        value::section(json::lookup(data, "radar"@)) == Some(ms) ==> (s.radar is Some
            <==> optional::radar_usable(ms, base)),
        value::section(json::lookup(data, "radar"@)) == Some(ms) && s.radar is Some
            ==> optional::radar_from(s.radar.unwrap(), ms, base),
{
    reveal(snapshot_from);
}

/// The station of a snapshot is that of the observed weather where it is complete there, and
/// else that of the forecast.
pub proof fn the_observed_station_counts_first<F: Fn(&str) -> String>(
    s: WeatherSnapshot,
    data: Seq<Member>,
    base: Seq<char>,
    uuid_of: F,
    observed: Seq<Member>,
    predict: Seq<Member>,
)
    requires
        snapshot_from(s, data, base, uuid_of),
        value::section(json::lookup(data, "real"@)) == Some(observed),
        value::section(json::lookup(data, "predict"@)) == Some(predict),
    ensures
        current::station_value(json::lookup(observed, "station"@)) is Some
            ==> current::station_from(s.station, json::lookup(observed, "station"@), uuid_of),
        current::station_value(json::lookup(observed, "station"@)) is None
            ==> current::station_from(s.station, json::lookup(predict, "station"@), uuid_of),
{
    reveal(snapshot_from);
}

/// The warnings of a document are those of its sections, one section after the other: the
/// observed weather, the forecast, air quality, charts, past rows, climate and radar.
pub proof fn warnings_stand_by_section(data: Seq<Member>, base: Seq<char>)
    ensures
        ({
            let w1 = current::real_warned(json::lookup(data, "real"@), base, Seq::empty());
            let w2 = current::predict_warned(json::lookup(data, "predict"@), w1);
            let w3 = optional::air_warned(json::lookup(data, "air"@), w2);
            let w4 = value::sequence_warned(json::lookup(data, "tempchart"@), "tempchart"@, w3);
            let w5 = charts::chart_list_warned(
                value::sequence_value(json::lookup(data, "tempchart"@)),
                w4,
            );
            let w6 = value::sequence_warned(json::lookup(data, "passedchart"@), "passedchart"@, w5);
            let w7 = charts::passed_list_warned(
                value::sequence_value(json::lookup(data, "passedchart"@)),
                w6,
            );
            let w8 = optional::climate_warned(json::lookup(data, "climate"@), w7);
            weather_warned(data, base) == optional::radar_warned(
                json::lookup(data, "radar"@),
                base,
                w8,
            )
        }),
{
    reveal(weather_warned);
}

/// A field of the catalog is usable where it holds something other than the number that marks
/// what is missing.
pub proof fn catalog_fields_hold_something(s: Seq<char>)
    ensures
        text::blank(s) ==> unusable_field(s),
        text::trimmed(s) == "9999"@ ==> unusable_field(s),
        !text::blank(s) && text::trimmed(s) != "9999"@ ==> !unusable_field(s),
{
}

/// The address of a row is resolved against the base without the white space around it; a
/// blank one and the number that marks what is missing are refused.
pub proof fn rows_need_an_address(base: Seq<char>, reference: TextValue)
    ensures
        text::blank(reference.text@) ==> required_address(base, reference) is Err,
        reference.reading is Some && reference.reading.unwrap().bits == 0x40C3_8780_0000_0000
            ==> required_address(base, reference) is Err,
        !text::blank(reference.text@) && (reference.reading is None
            || reference.reading.unwrap().bits != 0x40C3_8780_0000_0000) ==> (required_address(
            base,
            reference,
        ) is Ok <==> url::resolved(base, text::trimmed(reference.text@)) is Ok),
        required_address(base, reference) is Ok ==> required_address(base, reference)
            == url::resolved(base, text::trimmed(reference.text@)),
{
}

/// A province is taken exactly where its code, its name and its address are usable; the
/// first that is not is what is complained of.
pub proof fn provinces_need_code_name_and_address(row: ProvinceRow, index: usize, base: Seq<char>)
    ensures
        province_fault(row, index, base) is None <==> !unusable_field(row.code@)
            && !unusable_field(row.name@) && required_address(base, row.url) is Ok,
        unusable_field(row.code@) ==> province_fault(row, index, base) == Some(
            "NMC "@ + "province"@ + "["@ + text::numeral(index as nat) + "]."@ + "code"@
                + " is empty or sentinel"@,
        ),
        !unusable_field(row.code@) && unusable_field(row.name@) ==> province_fault(row, index, base)
            == Some(
            "NMC "@ + "province"@ + "["@ + text::numeral(index as nat) + "]."@ + "name"@
                + " is empty or sentinel"@,
        ),
        !unusable_field(row.code@) && !unusable_field(row.name@) ==> (required_address(
            base,
            row.url,
        ) matches Err(error) ==> province_fault(row, index, base) == Some(
            "invalid NMC "@ + "province"@ + "["@ + text::numeral(index as nat) + "].url"@ + ": "@
                + error,
        )),
{
}

/// A city is taken exactly where its code, its province, its name and its address are
/// usable; the first that is not is what is complained of.
pub proof fn cities_need_code_names_and_address(row: CityRow, index: usize, base: Seq<char>)
    ensures
        city_fault(row, index, base) is None <==> !unusable_field(row.code@) && !unusable_field(
            row.province@,
        ) && !unusable_field(row.city@) && required_address(base, row.url) is Ok,
        unusable_field(row.code@) ==> city_fault(row, index, base) == Some(
            "NMC "@ + "city"@ + "["@ + text::numeral(index as nat) + "]."@ + "code"@
                + " is empty or sentinel"@,
        ),
        !unusable_field(row.code@) && unusable_field(row.province@) ==> city_fault(row, index, base)
            == Some(
            "NMC "@ + "city"@ + "["@ + text::numeral(index as nat) + "]."@ + "province"@
                + " is empty or sentinel"@,
        ),
        !unusable_field(row.code@) && !unusable_field(row.province@) && unusable_field(row.city@)
            ==> city_fault(row, index, base) == Some(
            "NMC "@ + "city"@ + "["@ + text::numeral(index as nat) + "]."@ + "city"@
                + " is empty or sentinel"@,
        ),
{
}

/// Rows become provinces and cities with their codes and names as they are sent, and the
/// address that their reference leads to.
pub proof fn rows_keep_codes_and_names(
    p: ProviderProvince,
    province: ProvinceRow,
    c: ProviderCity,
    city: CityRow,
    code: Seq<char>,
    base: Seq<char>,
)
    requires
        province_from(p, province, base),
        city_from(c, city, code, base),
    ensures
        p.provider_code@ == province.code@,
        p.name@ == province.name@,
        url::resolved(base, text::trimmed(province.url.text@)) == Ok::<_, Seq<char>>(p.url@),
        c.provider_code@ == city.code@,
        c.provider_province_code@ == code,
        c.province@ == city.province@,
        c.city@ == city.city@,
        url::resolved(base, text::trimmed(city.url.text@)) == Ok::<_, Seq<char>>(c.url@),
{
}

/// A debug payload is there exactly where the body was kept, and holds it with where it came
/// from and what was warned of.
pub proof fn debug_payloads_hold_the_body(
    d: Option<DebugPayload>,
    provider: Seq<char>,
    endpoint: Seq<char>,
    raw_json: Option<Seq<char>>,
    warnings: Seq<Seq<char>>,
)
    requires
        debug_of(d, provider, endpoint, raw_json, warnings),
    ensures
        d is Some <==> raw_json is Some,
        d is Some ==> {
            &&& d.unwrap().provider@ == provider
            &&& d.unwrap().operation@ == "weather"@
            &&& d.unwrap().endpoint@ == endpoint
            &&& d.unwrap().raw_json@ == raw_json.unwrap()
            &&& text::texts(d.unwrap().warnings@) == warnings
        },
{
}

/// An address that a row lacks is told why.
pub proof fn missing_addresses_are_told(
    base: Seq<char>,
    reference: TextValue,
    row: CityRow,
    index: usize,
)
    ensures
        text::blank(reference.text@) ==> required_address(base, reference) == Err::<Seq<char>, _>(
            "resource URL is empty or sentinel"@,
        ),
        !text::blank(reference.text@) && reference.reading is None ==> (url::resolved(
            base,
            text::trimmed(reference.text@),
        ) matches Err(error) ==> required_address(base, reference) == Err::<Seq<char>, _>(
            "failed to join resource URL `"@ + text::trimmed(reference.text@) + "`"@ + ": "@ + error,
        )),
        !unusable_field(row.code@) && !unusable_field(row.province@) && !unusable_field(row.city@)
            ==> (required_address(base, row.url) matches Err(error) ==> city_fault(row, index, base)
            == Some(
            "invalid NMC "@ + "city"@ + "["@ + text::numeral(index as nat) + "].url"@ + ": "@
                + error,
        )),
{
}

} // verus!
