use weather_core::dates::{parse_full_date, parse_relative_date, CivilDate};
use weather_core::history::{
    build_temperature_history, forecast_numerals, history_page, plan_history_request,
    temperature_numeral, StoredTemperatures, Temperatures,
};
use weather_core::nmc::mapper::WeatherFetch;
use weather_core::reading::{max_reading, min_reading, Reading};
use weather_core::report::{
    AirQuality, DebugPayload, ForecastDay, ForecastReport, ObservedWeather, PassedWeatherChart,
    TemperatureChart, WeatherAlert, WeatherSnapshot,
};
use weather_core::rpc::{Reply, RpcErrorCode};
use weather_core::station::ProviderStation;
use weather_core::weather::{
    after_cache, after_station, complete_fetched, failure_message, fill_daily_high, finish_fetched,
    lent_air, lent_alerts, merge_parent_alerts, municipality_air_parent_name, plan_daily_high,
    plan_fits, prepare_fetched, refresh_terminal, serve_cached, stale_fallback, warning_summary,
    FreshnessPolicy, RefreshCompletion, RefreshTerminal, StoredSnapshot, WeatherRequest,
    WeatherStep,
};
use weather_core::weather_requests::{refresh_request, weather_reply, weather_request};

fn reading(value: f64) -> Reading {
    Reading { bits: value.to_bits() }
}

fn snapshot() -> WeatherSnapshot {
    WeatherSnapshot {
        station: None,
        real: None,
        predict: None,
        air: None,
        tempchart: Vec::new(),
        passedchart: Vec::new(),
        climate: None,
        radar: None,
        stale: false,
        debug: None,
    }
}

fn chart(date: &str, max: Option<f64>, min: Option<f64>) -> TemperatureChart {
    TemperatureChart {
        date: Some(date.to_string()),
        max_temperature: max.map(reading),
        min_temperature: min.map(reading),
        day_info: None,
        day_icon: None,
        night_info: None,
        night_icon: None,
    }
}

fn passed(time: &str, temperature: f64) -> PassedWeatherChart {
    PassedWeatherChart {
        time: Some(time.to_string()),
        rain_1h: None,
        rain_6h: None,
        rain_12h: None,
        rain_24h: None,
        temperature: Some(reading(temperature)),
        temperature_diff: None,
        humidity: None,
        pressure: None,
        wind_direction_degree: None,
        wind_speed: None,
    }
}

fn day(date: &str, high: Option<&str>, low: Option<&str>) -> ForecastDay {
    ForecastDay {
        date: date.to_string(),
        day_info: None,
        night_info: None,
        day_temperature: high.map(str::to_string),
        night_temperature: low.map(str::to_string),
        wind_direct: None,
        wind_power: None,
        precipitation: None,
        publish_time: None,
        day_weather_icon: None,
        night_weather_icon: None,
        day_wind_direct: None,
        day_wind_power: None,
        night_wind_direct: None,
        night_wind_power: None,
    }
}

fn forecast(days: Vec<ForecastDay>) -> Option<ForecastReport> {
    Some(ForecastReport {
        publish_time: None,
        days,
    })
}

fn temperatures(snapshot: &WeatherSnapshot) -> Temperatures {
    let parse = |numeral: Option<String>| numeral.and_then(|n| n.parse::<f64>().ok()).map(reading);
    let readings = forecast_numerals(snapshot)
        .into_iter()
        .map(|(high, low)| (parse(high), parse(low)))
        .collect();
    Temperatures::of(snapshot, &readings)
}

fn stored(date: &str, snapshot: WeatherSnapshot) -> StoredTemperatures {
    StoredTemperatures {
        date: date.to_string(),
        temperatures: temperatures(&snapshot),
    }
}

#[test]
fn combines_all_historical_dates_with_latest_forecast() {
    let older = WeatherSnapshot {
        tempchart: vec![chart("07-15", Some(31.0), Some(22.0))],
        ..snapshot()
    };
    let latest = WeatherSnapshot {
        passedchart: vec![passed("09:00", 24.0), passed("15:00", 30.0)],
        predict: forecast(vec![
            day("07-16", Some("32℃"), Some("23°")),
            day("07-17", Some("34"), Some("25")),
        ]),
        ..snapshot()
    };

    let points = build_temperature_history(
        &vec![stored("2026-07-15", older), stored("2026-07-16", latest)],
        true,
    );

    assert_eq!(points.len(), 3);
    assert_eq!(points[0].date, "2026-07-15");
    assert_eq!(points[0].max_temperature, Some(reading(31.0)));
    assert!(!points[0].forecast);
    assert_eq!(points[1].date, "2026-07-16");
    assert_eq!(points[1].max_temperature, Some(reading(32.0)));
    assert_eq!(points[1].min_temperature, Some(reading(23.0)));
    assert!(points[1].forecast);
    assert_eq!(points[2].date, "2026-07-17");
    assert!(points[2].forecast);
}

#[test]
fn historical_rows_fall_back_to_observed_temperature_range() {
    let snapshot = WeatherSnapshot {
        passedchart: vec![
            passed("2026-07-14 03:00", 19.5),
            passed("2026-07-14 14:00", 28.5),
        ],
        ..snapshot()
    };

    let points = build_temperature_history(&vec![stored("2026-07-14", snapshot)], false);

    assert_eq!(points[0].max_temperature, Some(reading(28.5)));
    assert_eq!(points[0].min_temperature, Some(reading(19.5)));
}

#[test]
fn older_history_pages_do_not_append_stale_forecasts() {
    let snapshot = WeatherSnapshot {
        predict: forecast(vec![day("07-15", Some("30"), Some("21"))]),
        ..snapshot()
    };

    let points = build_temperature_history(&vec![stored("2026-07-15", snapshot)], false);

    assert_eq!(points.len(), 1);
    assert_eq!(points[0].date, "2026-07-15");
    assert!(!points[0].forecast);
}

#[test]
fn month_day_dates_choose_the_year_nearest_to_the_latest_snapshot() {
    let base = CivilDate {
        year: 2026,
        month: 12,
        day: 31,
    };
    assert_eq!(
        parse_relative_date("01-01", base),
        Some(CivilDate {
            year: 2027,
            month: 1,
            day: 1
        })
    );
    assert_eq!(
        parse_relative_date("02-29", base),
        None
    );
    assert_eq!(
        parse_relative_date("2024/02/29 08:00", base),
        Some(CivilDate {
            year: 2024,
            month: 2,
            day: 29
        })
    );
    assert_eq!(
        parse_full_date("2026.07.14"),
        Some(CivilDate {
            year: 2026,
            month: 7,
            day: 14
        })
    );
    assert_eq!(parse_full_date("07-14"), None);
}

#[test]
fn numerals_lose_their_degree_signs() {
    assert_eq!(temperature_numeral(" 32 ℃ "), "32");
    assert_eq!(temperature_numeral("23°"), "23");
    assert_eq!(temperature_numeral("-1.5°℃"), "-1.5");
}

#[test]
fn readings_are_compared_as_numbers() {
    assert_eq!(max_reading(reading(-2.0), reading(-1.0)), reading(-1.0));
    assert_eq!(min_reading(reading(-2.0), reading(1.0)), reading(-2.0));
    assert_eq!(max_reading(reading(f64::NAN), reading(1.0)), reading(1.0));
    assert!(reading(9999.0).is_sentinel());
    assert!(!reading(f64::INFINITY).is_finite());
    assert!(reading(1.5).is_below(reading(2.5)));
    assert!(!reading(0.0).is_below(reading(-0.0)));
}

#[test]
fn history_pages_go_back_in_time() {
    let query = plan_history_request("uuid", 0, None).unwrap();
    assert_eq!(query.page_size, 7);
    assert_eq!(query.before_date, None);
    assert!(plan_history_request(" ", 7, None).is_err());
    assert!(plan_history_request("uuid", 32, None).is_err());
    assert!(plan_history_request("uuid", 7, Some("yesterday")).is_err());
    assert_eq!(
        plan_history_request("uuid", 31, Some("2026-07-16"))
            .unwrap()
            .before_date
            .as_deref(),
        Some("2026-07-16")
    );
    let rows = vec![
        stored("2026-07-15", snapshot()),
        stored("2026-07-16", snapshot()),
    ];
    let page = history_page(&rows, true, &query);
    assert_eq!(page.next_before_date.as_deref(), Some("2026-07-15"));
    assert!(page.has_more_history);
    let last = history_page(&rows, false, &query);
    assert!(!last.has_more_history);
}

#[test]
fn municipality_air_parent_only_applies_to_district_stations() {
    assert_eq!(
        municipality_air_parent_name("北京市", "朝阳").as_deref(),
        Some("北京-北京市")
    );
    assert_eq!(municipality_air_parent_name("北京市", "北京"), None);
    assert_eq!(municipality_air_parent_name("浙江省", "杭州"), None);
}

fn merge_cached_daily_high(
    snapshot: WeatherSnapshot,
    stored: &StoredSnapshot,
    today: &str,
    high_text: &str,
) -> (WeatherSnapshot, bool) {
    let plan = plan_daily_high(
        &temperatures(&snapshot),
        &stored.date,
        &temperatures(&stored.snapshot),
        today,
    );
    match plan {
        Some(plan) if plan_fits(&plan, &snapshot) => {
            let changed = plan.forecast_day.is_some() || plan.chart.is_some();
            (fill_daily_high(snapshot, plan, high_text), changed)
        }
        _ => (snapshot, false),
    }
}

#[test]
fn cached_daily_high_fills_only_missing_fields_for_today() {
    let today = "2026-06-24";
    let stored = StoredSnapshot {
        date: today.to_string(),
        snapshot: WeatherSnapshot {
            tempchart: vec![chart("06-24", Some(34.5), None)],
            ..snapshot()
        },
        fetched_at_unix_ms: 1,
    };
    let current = WeatherSnapshot {
        predict: forecast(vec![day("06-24", None, None), day("06-25", None, None)]),
        tempchart: vec![chart("2026-06-24", None, None), chart("2026-06-25", None, None)],
        ..snapshot()
    };

    let (snapshot, changed) = merge_cached_daily_high(current, &stored, today, "34.5");
    assert!(changed);
    let forecast = snapshot.predict.unwrap();
    assert_eq!(forecast.days[0].day_temperature.as_deref(), Some("34.5"));
    assert_eq!(forecast.days[1].day_temperature, None);
    assert_eq!(snapshot.tempchart[0].max_temperature, Some(reading(34.5)));
    assert_eq!(snapshot.tempchart[1].max_temperature, None);
}

#[test]
fn cached_daily_high_does_not_override_source_or_cross_dates() {
    let previous_day = StoredSnapshot {
        date: "2026-06-23".to_string(),
        snapshot: WeatherSnapshot {
            predict: forecast(vec![day("06-23", Some("33"), None)]),
            ..snapshot()
        },
        fetched_at_unix_ms: 1,
    };
    let current = WeatherSnapshot {
        predict: forecast(vec![day("06-24", Some("36"), None)]),
        ..snapshot()
    };

    let (current, changed) = merge_cached_daily_high(current, &previous_day, "2026-06-24", "33");
    assert!(!changed);
    assert_eq!(
        current.predict.as_ref().unwrap().days[0]
            .day_temperature
            .as_deref(),
        Some("36")
    );

    let same_day = StoredSnapshot {
        date: "2026-06-24".to_string(),
        snapshot: WeatherSnapshot {
            predict: forecast(vec![day("06-24", Some("34"), None)]),
            ..snapshot()
        },
        fetched_at_unix_ms: 2,
    };
    let (current, changed) = merge_cached_daily_high(current, &same_day, "2026-06-24", "34");
    assert!(!changed);
    assert_eq!(
        current.predict.unwrap().days[0].day_temperature.as_deref(),
        Some("36")
    );
}

fn alert(text: &str, province: Option<&str>, city: &str, level: &str) -> WeatherAlert {
    WeatherAlert {
        alert: Some(text.to_string()),
        province: province.map(str::to_string),
        city: Some(city.to_string()),
        url: None,
        issue_content: None,
        prevention: None,
        signal_type: None,
        signal_level: Some(level.to_string()),
        icon_url: None,
        icon_name: None,
        icon_resource_id: None,
        inherited: false,
    }
}

fn observed(alerts: Vec<WeatherAlert>) -> Option<ObservedWeather> {
    Some(ObservedWeather {
        publish_time: None,
        info: None,
        temperature: None,
        feel_temperature: None,
        humidity: None,
        rain: None,
        wind_direct: None,
        wind_power: None,
        wind_speed: None,
        sunrise: None,
        sunset: None,
        alerts,
        temperature_diff: None,
        air_pressure: None,
        comfort_index: None,
        comfort_label: None,
        weather_icon: None,
        wind_degree: None,
    })
}

#[test]
fn parent_alerts_follow_current_alerts_and_are_deduplicated() {
    let current = || alert("朝阳区雷电预警", None, "朝阳", "黄色");
    let duplicate = || alert("北京市高温预警", Some("北京市"), "北京", "橙色");
    let parent_only = || alert("北京市暴雨预警", Some("北京市"), "北京", "蓝色");
    let snapshot = WeatherSnapshot {
        real: observed(vec![current(), duplicate()]),
        ..snapshot()
    };

    let (snapshot, changed) = merge_parent_alerts(snapshot, vec![duplicate(), parent_only()]);
    assert!(changed);

    let alerts = snapshot.real.unwrap().alerts;
    assert_eq!(alerts.len(), 3);
    assert_eq!(alerts[0], current());
    assert!(!alerts[0].inherited);
    assert!(!alerts[1].inherited);
    assert_eq!(alerts[2].alert, parent_only().alert);
    assert!(alerts[2].inherited);
}

#[test]
fn no_parent_alerts_change_nothing() {
    let (snapshot, changed) = merge_parent_alerts(snapshot(), Vec::new());
    assert!(!changed);
    assert!(snapshot.real.is_none());
}

#[test]
fn parent_alerts_are_taken_over_without_an_observation() {
    let parent_only = alert("北京市暴雨预警", Some("北京市"), "北京", "蓝色");
    let (snapshot, changed) = merge_parent_alerts(snapshot(), vec![parent_only]);
    assert!(changed);
    let real = snapshot.real.unwrap();
    assert_eq!(real.temperature, None);
    assert_eq!(real.publish_time, None);
    assert_eq!(real.alerts.len(), 1);
    assert_eq!(real.alerts[0].alert.as_deref(), Some("北京市暴雨预警"));
    assert!(real.alerts[0].inherited);
}

fn policy(now_unix_ms: i64) -> FreshnessPolicy {
    FreshnessPolicy {
        now_unix_ms,
        weather_ttl_seconds: 60,
        timezone: "UTC".to_string(),
    }
}

fn air() -> Option<AirQuality> {
    Some(AirQuality {
        publish_time: None,
        aqi: Some(reading(66.0)),
        level: None,
        category: None,
        primary_pollutant: None,
        pm2_5: None,
        pm10: None,
        no2: None,
        so2: None,
        co: None,
        o3: None,
    })
}

#[test]
fn district_snapshot_uses_only_fresh_municipality_air_cache() {
    let parent = |fetched_at_unix_ms: i64| {
        Some(StoredSnapshot {
            date: "1970-01-01".to_string(),
            snapshot: WeatherSnapshot {
                air: air(),
                real: observed(vec![alert("a", None, "b", "c")]),
                ..snapshot()
            },
            fetched_at_unix_ms,
        })
    };
    assert_eq!(lent_air(parent(1_000), &policy(2_000)).unwrap(), air());
    assert_eq!(lent_air(parent(1_000), &policy(61_000)).unwrap(), None);
    assert_eq!(lent_air(None, &policy(0)).unwrap(), None);
    assert_eq!(lent_alerts(parent(1_000), &policy(2_000)).unwrap().len(), 1);
    assert!(lent_alerts(parent(1_000), &policy(61_000)).unwrap().is_empty());
    let nowhere = FreshnessPolicy {
        timezone: "Nowhere".to_string(),
        ..policy(2_000)
    };
    assert!(lent_air(parent(1_000), &nowhere).is_err());
}

fn requested() -> ProviderStation {
    ProviderStation {
        provider_name: "nmc".to_string(),
        display_name: "朝阳".to_string(),
        provider_station_id: "X".to_string(),
        provider_province_code: "ABJ".to_string(),
        province: "北京市".to_string(),
        city: "朝阳".to_string(),
        url: String::new(),
        name: "北京-北京市-朝阳".to_string(),
        unified_uuid: "uuid".to_string(),
    }
}

#[test]
fn provider_and_cache_warnings_reach_database_debug_and_events() {
    let fetch = WeatherFetch {
        snapshot: WeatherSnapshot {
            debug: Some(DebugPayload {
                provider: "nmc".to_string(),
                operation: "weather".to_string(),
                endpoint: "e".to_string(),
                raw_json: "{}".to_string(),
                warnings: Vec::new(),
            }),
            ..snapshot()
        },
        warnings: vec!["air: expected object; ignored".to_string()],
    };
    let fetched = prepare_fetched(fetch, &requested(), Err("no history".to_string()));
    assert_eq!(fetched.snapshot.station.as_ref().unwrap().unified_uuid, "uuid");
    assert!(fetched.snapshot.debug.is_none());
    let completed = complete_fetched(
        fetched,
        Err("disk full".to_string()),
        Ok(air()),
        vec![alert("a", None, "b", "c")],
    );
    assert_eq!(
        completed.warnings,
        [
            "air: expected object; ignored",
            "daily high fallback failed: no history",
            "cache write failed: disk full",
        ]
    );
    let (served, message) = finish_fetched(completed, Err("log gone".to_string()));
    assert_eq!(served.air, air());
    let debug = served.debug.unwrap();
    assert_eq!(debug.warnings.len(), 4);
    assert_eq!(debug.warnings[3], "fetch log write failed: log gone");
    assert_eq!(message, warning_summary(&debug.warnings));
    assert_eq!(warning_summary(&Vec::new()), None);
}

#[test]
fn failures_serve_what_was_kept() {
    let kept = Ok(Some(StoredSnapshot {
        date: "1970-01-01".to_string(),
        snapshot: snapshot(),
        fetched_at_unix_ms: 0,
    }));
    let served = stale_fallback("down", kept, &requested(), air(), Vec::new()).unwrap();
    assert!(served.stale);
    assert_eq!(served.air, air());
    assert_eq!(refresh_terminal(&Ok(served)), RefreshTerminal::Stale);
    assert_eq!(
        stale_fallback("down", Ok(None), &requested(), None, Vec::new()).unwrap_err(),
        "down"
    );
    assert_eq!(
        stale_fallback("down", Err("locked".to_string()), &requested(), None, Vec::new())
            .unwrap_err(),
        "stale cache lookup failed: locked: down"
    );
    assert_eq!(failure_message("down", Ok(())), "down");
    assert_eq!(
        failure_message("down", Err("log gone".to_string())),
        "down; fetch log write failed: log gone"
    );
    assert_eq!(refresh_terminal(&Ok(snapshot())), RefreshTerminal::Success);
    assert_eq!(
        refresh_terminal(&Err("down".to_string())),
        RefreshTerminal::Failure("down".to_string())
    );
}

#[test]
fn aborted_refresh_emits_one_failure() {
    let mut completion = RefreshCompletion::start("uuid");
    assert_eq!(completion.unified_uuid(), Some("uuid"));
    assert!(matches!(completion.abandon(), Some(RefreshTerminal::Failure(_))));
    assert_eq!(completion.abandon(), None);

    let mut completion = RefreshCompletion::start(" ");
    assert_eq!(completion.unified_uuid(), None);
    completion.set_unified_uuid("later");
    assert_eq!(completion.unified_uuid(), Some("later"));
    assert_eq!(
        completion.complete(RefreshTerminal::Success),
        Some(RefreshTerminal::Success)
    );
    assert_eq!(completion.abandon(), None);
}

fn asked(refresh: bool, include_debug: bool) -> WeatherRequest {
    WeatherRequest {
        unified_uuid: "uuid".to_string(),
        refresh,
        include_debug,
    }
}

#[test]
fn cached_snapshots_are_served_while_they_are_fresh() {
    assert!(matches!(after_station(&asked(false, false)), WeatherStep::LookUpCache));
    assert!(!matches!(after_station(&asked(true, false)), WeatherStep::LookUpCache));
    let cached = || {
        Ok(Some(StoredSnapshot {
            date: "1970-01-01".to_string(),
            snapshot: snapshot(),
            fetched_at_unix_ms: 1_000,
        }))
    };
    match after_cache(cached(), &requested(), &policy(2_000)) {
        WeatherStep::ServeCached(found) => {
            assert_eq!(found.station.as_ref().unwrap().unified_uuid, "uuid");
            let served = serve_cached(found, air(), Vec::new());
            assert_eq!(served.air, air());
        }
        other => panic!("unexpected step {other:?}"),
    }
    assert!(!matches!(
        after_cache(cached(), &requested(), &policy(61_000)),
        WeatherStep::ServeCached(_)
    ));
    assert!(!matches!(
        after_cache(Err("locked".to_string()), &requested(), &policy(2_000)),
        WeatherStep::ServeCached(_)
    ));
}

#[test]
fn weather_requests_are_answered() {
    let request = weather_request(Ok(asked(false, true)), true).unwrap();
    assert!(request.refresh);
    assert!(request.include_debug);
    let refused = weather_request(Err("truncated".to_string()), false).unwrap_err();
    assert_eq!(refused.code, RpcErrorCode::BadRequest);
    let scheduled = refresh_request("A", &|name: &str| format!("uuid:{name}"));
    assert_eq!(scheduled.unified_uuid, "uuid:A");
    assert!(matches!(weather_reply(Ok(snapshot())), Reply::Done(_)));
    match weather_reply(Err("down".to_string())) {
        Reply::Error(failure) => {
            assert_eq!(failure.code, RpcErrorCode::Weather);
            assert_eq!(failure.message, "down");
        }
        other => panic!("unexpected reply {other:?}"),
    }
}
