use serde_json::Value;
use weather_core::json::{Json, Member, NumberValue, TextValue};
use weather_core::nmc::envelope::{decode_weather_response, EnvelopeText};
use weather_core::nmc::mapper::{
    fetch_from_document, map_cities, map_provinces, map_weather, CityRow, Document, MapOutcome,
    ProvinceRow,
};
use weather_core::reading::Reading;

const FULL: &str = r#"{
    "code": 0,
    "msg": "ok",
    "data": {
        "real": {
            "station": { "province": "北京市", "city": "朝阳" },
            "publish_time": "2026-06-29 10:00",
            "weather": {
                "info": "晴",
                "temperature": 30.0,
                "temperatureDiff": 1.2,
                "humidity": 45.0,
                "rain": 0.0,
                "feelst": 32.0,
                "airpressure": 1001.0,
                "rcomfort": "较舒适",
                "icomfort": "3",
                "img": "0"
            },
            "wind": {
                "direct": "东北风",
                "power": "3级",
                "speed": 5.1,
                "degree": 45.0
            },
            "warn": {
                "alert": "高温黄色预警",
                "province": "北京市",
                "city": "朝阳",
                "url": "/publish/alarm/ABJ.html",
                "pic": "/site4/images/alarm/yellow.png",
                "pic2": "gaowen",
                "issuecontent": "注意防暑",
                "fmeans": "减少户外活动",
                "signaltype": "高温",
                "signallevel": "黄色"
            },
            "sunriseSunset": { "sunrise": "04:50", "sunset": "19:47" }
        },
        "predict": {
            "station": { "province": "北京市", "city": "朝阳" },
            "publish_time": "2026-06-29 08:00",
            "detail": [{
                "date": "2026-06-29",
                "pt": "2026-06-29 08:00",
                "day": {
                    "weather": { "info": "晴", "temperature": "34", "img": "0" },
                    "wind": { "direct": "东北风", "power": "3级" }
                },
                "night": {
                    "weather": { "info": "多云", "temperature": "24", "img": "1" },
                    "wind": { "direct": "北风", "power": "2级" }
                },
                "precipitation": 7.5
            }]
        },
        "air": {
            "publish_time": "2026-06-29 09:00",
            "aqi": 66,
            "level": "二级",
            "category": "良",
            "primary_pollutant": "O3",
            "pm2_5": 22.0,
            "pm10": 55.0,
            "no2": 18.0,
            "so2": 5.0,
            "co": 0.7,
            "o3": 140.0
        },
        "tempchart": [{
            "date": "2026-06-29",
            "max_temperature": 34.0,
            "min_temperature": 24.0,
            "day_info": "晴",
            "day_icon": "0",
            "night_info": "多云",
            "night_icon": "1"
        }],
        "passedchart": [{
            "time": "10:00",
            "rain1h": 0.1,
            "rain6h": 0.2,
            "rain12h": 0.3,
            "rain24h": 0.4,
            "temperature": 30.0,
            "temperatureDiff": 1.2,
            "humidity": 45.0,
            "pressure": 1001.0,
            "windDirectionDegree": 45.0,
            "windSpeed": 5.1
        }],
        "climate": {
            "period": "1991-2020",
            "month": [{
                "month": 6,
                "max_temperature": 30.1,
                "min_temperature": 20.2,
                "precipitation": 78.9
            }]
        },
        "radar": {
            "title": "华北雷达",
            "image": "/product/SEVP_AOC_RDCP_SLDAS_EBREF_ACHN_L88_PI_20260629100000000.PNG",
            "url": "/publish/radar.html"
        }
    }
}"#;

const NONZERO_NULL: &str = r#"{ "code": 503, "msg": "upstream busy", "data": null }"#;

const SUCCESS_NULL: &str = r#"{ "code": 0, "msg": "ok", "data": null }"#;

const MINIMAL_REAL: &str = r#"{
    "code": 0,
    "msg": "ok",
    "data": {
        "real": {
            "station": { "province": "北京市", "city": "朝阳" },
            "weather": { "temperature": 30.0 }
        }
    }
}"#;

const MALFORMED_OPTIONAL: &str = r#"{
    "code": 0,
    "msg": "ok",
    "data": {
        "real": {
            "station": { "province": "北京市", "city": "朝阳" },
            "weather": { "temperature": 30.0 },
            "wind": { "speed": 2.5 },
            "warn": "storm",
            "sunriseSunset": 7
        },
        "predict": {
            "station": { "province": "北京市", "city": "朝阳" },
            "detail": [
                { "date": "2026-06-29", "day": { "weather": { "info": "晴" } }, "night": 7 },
                7,
                { "date": "9999", "pt": "2026-06-29 08:00" }
            ]
        },
        "air": 7,
        "tempchart": [7, { "date": "2026-06-29", "max": 34 }],
        "passedchart": 7,
        "climate": { "month": [7, { "month": 6 }] },
        "radar": 7
    }
}"#;

const ALIAS_FALLBACK: &str = r#"{
    "code": 0,
    "msg": "ok",
    "data": {
        "real": {
            "station": { "province": "北京市", "city": "朝阳" },
            "weather": {
                "info": "晴",
                "temperature": 9999,
                "humidity": "9999",
                "rain": "9999.0",
                "icomfort": 1,
                "rcomfort": 71
            }
        },
        "air": {
            "publish_time": "",
            "publishTime": "2026-06-29 09:00",
            "aqi": {},
            "AQI": "66",
            "level": "9999",
            "aqi_level": null,
            "aqiLevel": "二级",
            "pm2_5": "-",
            "pm25": 22.0
        },
        "tempchart": { "date": "2026-06-29", "min_temperature": "—", "min": "24" },
        "passedchart": [{ "time": "10:00", "pressure": "high", "airpressure": 1001 }],
        "climate": { "month": [], "months": [{ "month": null, "mon": "6" }] },
        "radar": {
            "title": "雷达",
            "image": "",
            "image_url": "/radar.png",
            "url": null,
            "page_url": "//cdn.example/radar"
        }
    }
}"#;

fn reading(value: f64) -> Reading {
    Reading { bits: value.to_bits() }
}

fn text_value(text: &str) -> TextValue {
    TextValue {
        text: text.to_string(),
        reading: text.trim().parse::<f64>().ok().map(reading),
    }
}

fn to_json(value: &Value) -> Json {
    match value {
        Value::Null => Json::Null,
        Value::Bool(b) => Json::Bool(*b),
        Value::Number(n) => Json::Number(NumberValue {
            text: n.to_string(),
            reading: reading(n.as_f64().unwrap()),
            whole: n.as_u64(),
            integer: n.as_i64(),
        }),
        Value::String(s) => Json::Text(text_value(s)),
        Value::Array(values) => Json::List(values.iter().map(to_json).collect()),
        Value::Object(map) => Json::Object(
            map.iter()
                .map(|(name, value)| Member {
                    name: name.clone(),
                    value: to_json(value),
                })
                .collect(),
        ),
    }
}

fn parse(text: &str) -> Json {
    to_json(&serde_json::from_str::<Value>(text).expect("valid JSON"))
}

fn uuid_of(name: &str) -> String {
    format!("uuid:{name}")
}

const WORDS: EnvelopeText<'static> = EnvelopeText {
    decode_error: "",
    message: "",
};

fn map_text(text: &str, base_url: &str) -> MapOutcome {
    let body = parse(text);
    let data = decode_weather_response(&body, WORDS).expect("successful envelope");
    map_weather(data, base_url, &uuid_of)
}

#[test]
fn full_response_preserves_the_existing_structured_mapping_baseline() {
    let mapped = map_text(FULL, "https://configured.example/nmc/");
    assert!(mapped.warnings.is_empty(), "{:?}", mapped.warnings);
    let snapshot = mapped.value;

    let station = snapshot.station.as_ref().expect("station");
    assert_eq!(station.name, "北京-北京市-朝阳");
    let real = snapshot.real.as_ref().expect("real weather");
    assert_eq!(real.info.as_deref(), Some("晴"));
    assert_eq!(real.temperature, Some(reading(30.0)));
    assert_eq!(real.temperature_diff, Some(reading(1.2)));
    assert_eq!(real.air_pressure, Some(reading(1001.0)));
    assert_eq!(real.comfort_label.as_deref(), Some("较舒适"));
    assert_eq!(real.comfort_index.as_deref(), Some("3"));
    assert_eq!(real.weather_icon.as_deref(), Some("0"));
    assert_eq!(real.wind_degree, Some(reading(45.0)));
    assert_eq!(real.sunrise.as_deref(), Some("04:50"));
    assert_eq!(real.sunset.as_deref(), Some("19:47"));
    let alert = real.alerts.first().expect("weather alert");
    assert!(!alert.inherited);
    assert_eq!(
        alert.url.as_deref(),
        Some("https://configured.example/publish/alarm/ABJ.html")
    );
    assert_eq!(
        alert.icon_url.as_deref(),
        Some("https://configured.example/site4/images/alarm/yellow.png")
    );

    let forecast = snapshot.predict.as_ref().expect("forecast");
    assert_eq!(forecast.publish_time.as_deref(), Some("2026-06-29 08:00"));
    let day = &forecast.days[0];
    assert_eq!(day.publish_time.as_deref(), Some("2026-06-29 08:00"));
    assert_eq!(day.day_weather_icon.as_deref(), Some("0"));
    assert_eq!(day.night_weather_icon.as_deref(), Some("1"));
    assert_eq!(day.day_wind_direct.as_deref(), Some("东北风"));
    assert_eq!(day.night_wind_power.as_deref(), Some("2级"));

    let air = snapshot.air.as_ref().expect("air quality");
    assert_eq!(air.aqi, Some(reading(66.0)));
    assert_eq!(air.primary_pollutant.as_deref(), Some("O3"));
    assert_eq!(snapshot.tempchart[0].max_temperature, Some(reading(34.0)));
    assert_eq!(snapshot.passedchart[0].rain_24h, Some(reading(0.4)));
    assert_eq!(
        snapshot.passedchart[0].wind_direction_degree,
        Some(reading(45.0))
    );
    assert_eq!(
        snapshot.climate.as_ref().unwrap().month[0].precipitation,
        Some(reading(78.9))
    );
    assert_eq!(
        snapshot.radar.as_ref().unwrap().image_url.as_deref(),
        Some(
            "https://configured.example/product/SEVP_AOC_RDCP_SLDAS_EBREF_ACHN_L88_PI_20260629100000000.PNG"
        )
    );
    assert!(snapshot.debug.is_none());
}

#[test]
fn nonzero_code_is_reported_before_null_data_is_considered() {
    let body = parse(NONZERO_NULL);
    let error = decode_weather_response(&body, WORDS).unwrap_err();
    assert!(
        error.contains("returned code 503: upstream busy"),
        "{error}"
    );
    assert!(!error.contains("success with null data"), "{error}");
}

#[test]
fn successful_envelope_requires_non_null_object_data() {
    let body = parse(SUCCESS_NULL);
    assert!(decode_weather_response(&body, WORDS)
        .unwrap_err()
        .contains("success with null data"));
    let scalar = parse(r#"{ "code": 0, "msg": "ok", "data": 7 }"#);
    assert!(decode_weather_response(&scalar, WORDS)
        .unwrap_err()
        .contains("weather data object"));
    let positional_data = parse(
        r#"{ "code": 0, "msg": "ok", "data": [null, null, null, null, null, null, null] }"#,
    );
    assert!(decode_weather_response(&positional_data, WORDS)
        .unwrap_err()
        .contains("weather data object"));

    let positional_envelope = parse(r#"[0, "ok", {}]"#);
    assert!(decode_weather_response(&positional_envelope, WORDS)
        .unwrap_err()
        .contains("envelope must be an object"));
}

#[test]
fn absent_optional_sections_preserve_current_weather_without_warnings() {
    let mapped = map_text(MINIMAL_REAL, "https://configured.example/");
    assert!(mapped.warnings.is_empty(), "{:?}", mapped.warnings);
    assert_eq!(mapped.value.real.unwrap().temperature, Some(reading(30.0)));
    assert!(mapped.value.predict.is_none());
    assert!(mapped.value.air.is_none());
    assert!(mapped.value.tempchart.is_empty());
}

#[test]
fn a_section_does_not_depend_on_the_others() {
    let full = map_text(FULL, "https://configured.example/nmc/").value;
    let broken = FULL.replacen("\"air\"", "\"no_air\"", 1);
    let partial = map_text(&broken, "https://configured.example/nmc/").value;
    assert!(full.air.is_some());
    assert!(partial.air.is_none());
    assert_eq!(partial.station, full.station);
    assert_eq!(partial.real, full.real);
    assert_eq!(partial.predict, full.predict);
    assert_eq!(partial.tempchart, full.tempchart);
    assert_eq!(partial.passedchart, full.passedchart);
    assert_eq!(partial.climate, full.climate);
    assert_eq!(partial.radar, full.radar);
}

#[test]
fn malformed_sections_and_entries_are_isolated_with_stable_warnings() {
    let mapped = map_text(MALFORMED_OPTIONAL, "https://configured.example/");
    let snapshot = mapped.value;
    let real = snapshot.real.expect("valid current weather must survive");
    assert_eq!(real.temperature, Some(reading(30.0)));
    assert_eq!(real.wind_speed, Some(reading(2.5)));
    assert!(real.alerts.is_empty());
    assert_eq!(snapshot.predict.unwrap().days.len(), 1);
    assert_eq!(snapshot.tempchart.len(), 1);
    assert_eq!(snapshot.climate.unwrap().month.len(), 1);
    assert!(snapshot.air.is_none());
    assert!(snapshot.passedchart.is_empty());
    assert!(snapshot.radar.is_none());
    assert_eq!(
        mapped.warnings,
        [
            "real.warn: malformed object; ignored",
            "real.sunriseSunset: malformed object; ignored",
            "predict.detail[0].night: malformed object; ignored",
            "predict.detail[1]: malformed object; ignored",
            "predict.detail[2]: missing usable date; entry ignored",
            "air: expected object; ignored",
            "tempchart[0]: expected object; ignored",
            "passedchart: expected array or object; ignored",
            "climate.month[0]: expected object; ignored",
            "radar: expected object; ignored",
        ]
    );
}

#[test]
fn aliases_try_each_complete_conversion_and_filter_every_sentinel_shape() {
    let mapped = map_text(ALIAS_FALLBACK, "http://proxy.test/nmc/");
    assert!(mapped.warnings.is_empty(), "{:?}", mapped.warnings);
    let snapshot = mapped.value;
    let real = snapshot.real.unwrap();
    assert_eq!(real.temperature, None);
    assert_eq!(real.humidity, None);
    assert_eq!(real.rain, None);
    assert_eq!(real.comfort_index.as_deref(), Some("1"));
    assert_eq!(real.comfort_label.as_deref(), Some("71"));
    let air = snapshot.air.unwrap();
    assert_eq!(air.publish_time.as_deref(), Some("2026-06-29 09:00"));
    assert_eq!(air.aqi, Some(reading(66.0)));
    assert_eq!(air.level.as_deref(), Some("二级"));
    assert_eq!(air.pm2_5, Some(reading(22.0)));
    assert_eq!(snapshot.tempchart[0].min_temperature, Some(reading(24.0)));
    assert_eq!(snapshot.passedchart[0].pressure, Some(reading(1001.0)));
    assert_eq!(snapshot.climate.unwrap().month[0].month, Some(6));
    let radar = snapshot.radar.unwrap();
    assert_eq!(
        radar.image_url.as_deref(),
        Some("http://proxy.test/radar.png")
    );
    assert_eq!(radar.page_url.as_deref(), Some("http://cdn.example/radar"));
}

#[test]
fn textual_dash_placeholders_are_mapped_as_missing_values() {
    let mut fixture: Value = serde_json::from_str(FULL).unwrap();
    fixture["data"]["real"]["weather"]["info"] = Value::String("-".to_string());
    fixture["data"]["real"]["weather"]["img"] = Value::String("—".to_string());
    let body = to_json(&fixture);
    let data = decode_weather_response(&body, WORDS).unwrap();

    let mapped = map_weather(data, "https://configured.example/nmc/", &uuid_of);

    assert!(mapped.warnings.is_empty(), "{:?}", mapped.warnings);
    let real = mapped.value.real.unwrap();
    assert!(real.info.is_none());
    assert!(real.weather_icon.is_none());
}

#[test]
fn aliases_warn_once_only_after_all_present_candidates_fail() {
    let mapped = map_text(
        r#"{ "code": 0, "data": { "air": { "aqi": {}, "AQI": "not-a-number" } } }"#,
        "https://configured.example/",
    );
    assert_eq!(
        mapped.warnings,
        ["air.aqi: no alias contained a usable number; field ignored"]
    );
}

fn province_row(code: &str, name: &str, url: &str) -> ProvinceRow {
    ProvinceRow {
        code: code.to_string(),
        name: name.to_string(),
        url: text_value(url),
    }
}

fn city_row(code: &str, province: &str, city: &str, url: &str) -> CityRow {
    CityRow {
        code: code.to_string(),
        province: province.to_string(),
        city: city.to_string(),
        url: text_value(url),
    }
}

#[test]
fn every_catalog_url_form_uses_standard_configured_base_joining() {
    let base = "http://proxy.test/nmc/";
    let rows = vec![
        province_row("A", "a", "https://origin.example/a"),
        province_row("B", "b", "/root"),
        province_row("C", "c", "path/item"),
        province_row("D", "d", "//cdn.example/item"),
    ];
    let provinces = map_provinces(&rows, base).unwrap();
    assert_eq!(provinces[0].url, "https://origin.example/a");
    assert_eq!(provinces[1].url, "http://proxy.test/root");
    assert_eq!(provinces[2].url, "http://proxy.test/nmc/path/item");
    assert_eq!(provinces[3].url, "http://cdn.example/item");
    let cities = map_cities(&vec![city_row("S", "a", "c", "city/item")], "R", base).unwrap();
    assert_eq!(cities[0].url, "http://proxy.test/nmc/city/item");
    assert_eq!(cities[0].provider_province_code, "R");
}

#[test]
fn unusable_catalog_rows_refuse_the_list() {
    let base = "http://proxy.test/nmc/";
    assert_eq!(
        map_provinces(
            &vec![province_row("A", "a", "/a"), province_row(" ", "b", "/b")],
            base
        )
        .unwrap_err(),
        "NMC province[1].code is empty or sentinel"
    );
    assert_eq!(
        map_provinces(&vec![province_row("A", "9999", "/a")], base).unwrap_err(),
        "NMC province[0].name is empty or sentinel"
    );
    assert_eq!(
        map_provinces(&vec![province_row("A", "a", "http://[")], base).unwrap_err(),
        "invalid NMC province[0].url: failed to join resource URL `http://[`: invalid IPv6 address"
    );
    assert_eq!(
        map_cities(&vec![city_row("S", "", "c", "/c")], "R", base).unwrap_err(),
        "NMC city[0].province is empty or sentinel"
    );
    assert_eq!(
        map_cities(&vec![city_row("S", "p", "", "/c")], "R", base).unwrap_err(),
        "NMC city[0].city is empty or sentinel"
    );
    assert_eq!(
        map_cities(&vec![city_row("S", "p", "c", "9999")], "R", base).unwrap_err(),
        "invalid NMC city[0].url: resource URL is empty or sentinel"
    );
}

#[test]
fn weather_fixture_maps_structured_sections() {
    let snapshot = map_text(FULL, "https://www.nmc.cn/").value;

    let real = snapshot.real.as_ref().expect("real weather");
    assert_eq!(real.temperature_diff, Some(reading(1.2)));
    assert_eq!(real.air_pressure, Some(reading(1001.0)));
    assert_eq!(real.comfort_label.as_deref(), Some("较舒适"));
    assert_eq!(real.comfort_index.as_deref(), Some("3"));
    assert_eq!(real.weather_icon.as_deref(), Some("0"));
    assert_eq!(real.wind_degree, Some(reading(45.0)));
    let alert = real.alerts.first().expect("alert");
    assert_eq!(
        alert.url.as_deref(),
        Some("https://www.nmc.cn/publish/alarm/ABJ.html")
    );
    assert_eq!(
        alert.icon_url.as_deref(),
        Some("https://www.nmc.cn/site4/images/alarm/yellow.png")
    );
    assert_eq!(alert.icon_name.as_deref(), Some("gaowen"));

    let day = &snapshot.predict.as_ref().expect("forecast").days[0];
    assert_eq!(day.publish_time.as_deref(), Some("2026-06-29 08:00"));
    assert_eq!(day.day_weather_icon.as_deref(), Some("0"));
    assert_eq!(day.night_weather_icon.as_deref(), Some("1"));
    assert_eq!(day.day_wind_direct.as_deref(), Some("东北风"));
    assert_eq!(day.day_wind_power.as_deref(), Some("3级"));
    assert_eq!(day.night_wind_direct.as_deref(), Some("北风"));
    assert_eq!(day.night_wind_power.as_deref(), Some("2级"));

    let air = snapshot.air.as_ref().expect("air quality");
    assert_eq!(air.aqi, Some(reading(66.0)));
    assert_eq!(air.category.as_deref(), Some("良"));
    assert_eq!(air.primary_pollutant.as_deref(), Some("O3"));
    assert_eq!(air.pm2_5, Some(reading(22.0)));

    assert_eq!(snapshot.tempchart[0].date.as_deref(), Some("2026-06-29"));
    assert_eq!(snapshot.tempchart[0].max_temperature, Some(reading(34.0)));
    assert_eq!(snapshot.passedchart[0].rain_24h, Some(reading(0.4)));
    assert_eq!(
        snapshot.passedchart[0].wind_direction_degree,
        Some(reading(45.0))
    );
    assert_eq!(
        snapshot.climate.as_ref().unwrap().month[0].precipitation,
        Some(reading(78.9))
    );
    assert_eq!(
        snapshot.radar.as_ref().unwrap().image_url.as_deref(),
        Some(
            "https://www.nmc.cn/product/SEVP_AOC_RDCP_SLDAS_EBREF_ACHN_L88_PI_20260629100000000.PNG"
        )
    );
    assert!(snapshot.debug.is_none());
}

#[test]
fn empty_and_sentinel_values_are_cleaned() {
    let snapshot = map_text(
        r#"{ "code": 0, "data": {
            "real": {
                "station": { "province": "北京市", "city": "朝阳" },
                "weather": {
                    "info": "9999",
                    "temperature": 9999.0,
                    "temperatureDiff": 9999.0,
                    "airpressure": 9999.0,
                    "rcomfort": "",
                    "icomfort": "9999",
                    "img": ""
                },
                "wind": { "direct": "", "power": "9999", "speed": 9999.0, "degree": 9999.0 },
                "warn": { "alert": "9999" }
            },
            "air": "",
            "tempchart": [""],
            "passedchart": [{}],
            "climate": "",
            "radar": {}
        } }"#,
        "https://www.nmc.cn/",
    )
    .value;

    let real = snapshot.real.as_ref().expect("real weather");
    assert_eq!(real.info, None);
    assert_eq!(real.temperature, None);
    assert_eq!(real.temperature_diff, None);
    assert_eq!(real.air_pressure, None);
    assert_eq!(real.comfort_label, None);
    assert_eq!(real.comfort_index, None);
    assert_eq!(real.weather_icon, None);
    assert_eq!(real.wind_direct, None);
    assert_eq!(real.wind_power, None);
    assert_eq!(real.wind_speed, None);
    assert_eq!(real.wind_degree, None);
    assert!(real.alerts.is_empty());
    assert!(snapshot.air.is_none());
    assert!(snapshot.tempchart.is_empty());
    assert!(snapshot.passedchart.is_empty());
    assert!(snapshot.climate.is_none());
    assert!(snapshot.radar.is_none());
}

#[test]
fn numeric_comfort_fields_decode_current_nmc_shape() {
    let snapshot = map_text(
        r#"{ "code": 0, "data": {
            "real": {
                "station": { "province": "北京市", "city": "昌平" },
                "weather": {
                    "info": "多云",
                    "rcomfort": 71,
                    "icomfort": 1
                }
            }
        } }"#,
        "https://www.nmc.cn/",
    )
    .value;

    let real = snapshot.real.expect("real weather");
    assert_eq!(real.comfort_label.as_deref(), Some("71"));
    assert_eq!(real.comfort_index.as_deref(), Some("1"));
}

#[test]
fn debug_flag_controls_payload_but_warnings_always_reach_the_engine_boundary() {
    let value: Value = serde_json::from_str(MALFORMED_OPTIONAL).unwrap();
    let body = to_json(&value);
    let endpoint = "http://127.0.0.1:80/nmc/rest/weather?stationid=MjXfi";
    let without_debug = fetch_from_document(
        Document {
            provider: "nmc",
            endpoint,
            body: &body,
            words: WORDS,
            raw_json: None,
        },
        "http://127.0.0.1:80/nmc/",
        &uuid_of,
    )
    .unwrap();
    assert!(!without_debug.warnings.is_empty());
    assert!(without_debug.snapshot.debug.is_none());

    let with_debug = fetch_from_document(
        Document {
            provider: "nmc",
            endpoint,
            body: &body,
            words: WORDS,
            raw_json: Some(value.to_string()),
        },
        "http://127.0.0.1:80/nmc/",
        &uuid_of,
    )
    .unwrap();
    let debug = with_debug.snapshot.debug.expect("debug payload");
    assert_eq!(debug.warnings, with_debug.warnings);
    assert_eq!(debug.provider, "nmc");
    assert_eq!(debug.operation, "weather");
    assert!(debug.endpoint.contains("nmc/rest/weather"));
    assert!(debug.endpoint.contains("stationid=MjXfi"));
    assert!(debug.raw_json.contains("\"code\":0"));
}

#[test]
fn documents_with_a_failure_code_are_refused_with_their_endpoint() {
    let body = parse(NONZERO_NULL);
    let error = fetch_from_document(
        Document {
            provider: "nmc",
            endpoint: "http://nmc.test/rest/weather",
            body: &body,
            words: WORDS,
            raw_json: None,
        },
        "http://nmc.test/",
        &uuid_of,
    )
    .unwrap_err();
    assert_eq!(
        error,
        "failed to decode NMC weather response from http://nmc.test/rest/weather: \
         NMC weather API returned code 503: upstream busy"
    );
}

#[test]
fn envelopes_without_a_code_are_refused_with_the_cause() {
    let words = EnvelopeText {
        decode_error: "missing field `code`",
        message: "null",
    };
    assert_eq!(
        decode_weather_response(&parse(r#"{ "data": {} }"#), words).unwrap_err(),
        "failed to decode NMC response envelope: missing field `code`"
    );
    let float = parse(r#"{ "code": 0.5, "data": {} }"#);
    assert!(decode_weather_response(&float, words).is_err());
    let large = parse(r#"{ "code": 2147483648, "data": {} }"#);
    assert!(decode_weather_response(&large, words).is_err());
}

#[test]
fn failure_messages_that_are_no_text_are_written_as_json() {
    for (message, told) in [
        (r#"{"why":["busy\n"]}"#, r#"{"why":["busy\n"]}"#),
        ("\"  \"", "\"  \""),
        ("7", "7"),
        ("null", "unknown provider error"),
        ("\" busy \"", "busy"),
    ] {
        let value: Value =
            serde_json::from_str(&format!("{{ \"code\": 1, \"msg\": {message} }}")).unwrap();
        let written = value["msg"].to_string();
        let words = EnvelopeText {
            decode_error: "",
            message: &written,
        };
        assert_eq!(
            decode_weather_response(&to_json(&value), words).unwrap_err(),
            format!("NMC weather API returned code 1: {told}")
        );
    }
}
