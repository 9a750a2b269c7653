use weather_core::catalog::{
    accept_cities, accept_provinces, append_warning, begin_catalog_refresh, catalog_cache_is_fresh,
    catalog_endpoint, catalog_event_message, conclude_catalog_refresh, flatten_city_scopes,
    persist_catalog, resolve_provider_province, sort_provider_cities, sort_provider_provinces,
    validate_population_city_codes, CatalogRows, CatalogStart, CityScopes, KeepOutcome,
};
use weather_core::catalog_requests::{
    batch_queries, fetch_region_page, handle_list_cities, handle_list_provinces, RegionQuery,
};
use weather_core::limits::{
    normalize_pagination, validate_batch_size, PageLimits, DEFAULT_PAGE_SIZE, MAX_BATCH_QUERIES,
};
use weather_core::page::{handle_list_configured_stations, paginate, requested_page};
use weather_core::population::{
    assemble_catalog, join_scopes, province_codes, split_city_scopes, ScopeLoader,
};
use weather_core::config::{
    AppConfig, DbConfig, EngineConfig, IpcConfig, StationConfig, UpdaterConfig,
};
use weather_core::provider::{ProviderCity, ProviderProvince};
use weather_core::rpc::{Reply, RpcErrorCode, RpcFailure};
use weather_core::textmap::TextMap;

const MAX_RPC_PAGE_OFFSET: u32 = 1_000_000;
const MAX_RPC_PAGE_SIZE: u32 = 256;
const LIMITS: PageLimits = PageLimits {
    max_offset: MAX_RPC_PAGE_OFFSET,
    max_size: MAX_RPC_PAGE_SIZE,
};

fn province(code: &str, name: &str) -> ProviderProvince {
    ProviderProvince {
        provider_code: code.to_string(),
        name: name.to_string(),
        url: format!("/{code}"),
    }
}

fn city(code: &str, scope: &str, name: &str) -> ProviderCity {
    ProviderCity {
        provider_code: code.to_string(),
        provider_province_code: scope.to_string(),
        province: format!("province-{scope}"),
        city: name.to_string(),
        url: format!("/{code}"),
    }
}

fn codes(cities: &[ProviderCity]) -> Vec<&str> {
    cities.iter().map(|c| c.provider_code.as_str()).collect()
}

#[test]
fn freshness_is_strict_at_the_ttl_boundary() {
    let fetched = 1_000_000;

    assert!(catalog_cache_is_fresh(fetched, fetched + 59_999, 60));
    assert!(!catalog_cache_is_fresh(fetched, fetched + 60_000, 60));
    assert!(!catalog_cache_is_fresh(fetched, fetched, 0));
}

#[test]
fn freshness_handles_clock_rollback_and_extreme_values() {
    assert!(catalog_cache_is_fresh(10_000, 9_000, 1));
    assert!(catalog_cache_is_fresh(i64::MIN, i64::MAX, u64::MAX));
    assert!(!catalog_cache_is_fresh(i64::MIN, i64::MAX, 1));
}

#[test]
fn pagination_applies_default_and_accepts_bounds() {
    assert_eq!(
        normalize_pagination(MAX_RPC_PAGE_OFFSET, 0, DEFAULT_PAGE_SIZE, LIMITS),
        Ok((MAX_RPC_PAGE_OFFSET as usize, DEFAULT_PAGE_SIZE as usize))
    );
    assert_eq!(
        normalize_pagination(0, MAX_RPC_PAGE_SIZE, DEFAULT_PAGE_SIZE, LIMITS),
        Ok((0, MAX_RPC_PAGE_SIZE as usize))
    );
}

#[test]
fn pagination_rejects_oversized_values() {
    assert!(normalize_pagination(MAX_RPC_PAGE_OFFSET + 1, 1, DEFAULT_PAGE_SIZE, LIMITS).is_err());
    assert!(normalize_pagination(0, MAX_RPC_PAGE_SIZE + 1, DEFAULT_PAGE_SIZE, LIMITS).is_err());
}

#[test]
fn batch_limit_is_inclusive() {
    assert!(validate_batch_size(MAX_BATCH_QUERIES).is_ok());
    assert!(validate_batch_size(MAX_BATCH_QUERIES + 1).is_err());
}

#[test]
fn paginate_returns_first_page_with_more() {
    let items = vec![1, 2, 3, 4, 5];
    let page = paginate(&items, 0, 2);
    assert_eq!(page.items, vec![1, 2]);
    assert!(page.has_more);
    assert_eq!(page.next_offset, 2);
}

#[test]
fn paginate_returns_last_page_without_more() {
    let items = vec![1, 2, 3, 4, 5];
    let page = paginate(&items, 4, 10);
    assert_eq!(page.items, vec![5]);
    assert!(!page.has_more);
    assert_eq!(page.next_offset, 5);
}

#[test]
fn paginate_clamps_offset_beyond_end() {
    let items = vec![1, 2, 3];
    let page = paginate(&items, 10, 2);
    assert!(page.items.is_empty());
    assert!(!page.has_more);
    assert_eq!(page.next_offset, 3);
}

#[test]
fn paginate_handles_empty_input() {
    let items: Vec<i32> = vec![];
    let page = paginate(&items, 0, 5);
    assert!(page.items.is_empty());
    assert!(!page.has_more);
    assert_eq!(page.next_offset, 0);
}

#[test]
fn paginate_zero_page_size_yields_empty_page() {
    let items = vec![1, 2, 3];
    let page = paginate(&items, 0, 0);
    assert!(page.items.is_empty());
    assert!(page.has_more);
    assert_eq!(page.next_offset, 0);
}

#[test]
fn pages_make_up_the_whole_list() {
    let items: Vec<i32> = (0..23).collect();
    let mut all = Vec::new();
    let mut offset = 0;
    loop {
        let page = paginate(&items, offset, 5);
        all.extend(page.items);
        offset = page.next_offset as usize;
        if !page.has_more {
            break;
        }
    }
    assert_eq!(all, items);
}

#[test]
fn catalogs_are_sorted() {
    let provinces = sort_provider_provinces(vec![
        province("B", "second"),
        province("C", "first"),
        province("A", "third"),
    ]);
    let names: Vec<&str> = provinces.iter().map(|p| p.provider_code.as_str()).collect();
    assert_eq!(names, ["A", "B", "C"]);
    let cities = sort_provider_cities(vec![
        city("3", "A", "Zulu"),
        city("2", "A", "Alpha"),
        city("1", "A", "Alpha"),
    ]);
    assert_eq!(codes(&cities), ["1", "2", "3"]);
    assert_eq!(catalog_endpoint(None), "rest/province/all");
    assert_eq!(catalog_endpoint(Some("ABJ")), "rest/province/ABJ");
}

#[test]
fn fetched_lists_are_taken_only_when_they_are_valid() {
    assert!(accept_provinces(Ok(vec![province("A", "a")]), Ok(())).is_ok());
    assert!(accept_provinces(Err("down".to_string()), Ok(()))
        .unwrap_err()
        .contains("down"));
    assert!(
        accept_provinces(Ok(vec![province("A", "a")]), Err("twice".to_string()))
            .unwrap_err()
            .contains("twice")
    );
    assert_eq!(
        codes(&accept_cities(Ok(vec![city("2", "A", "b"), city("1", "A", "a")]), Ok(())).unwrap()),
        ["1", "2"]
    );
    assert!(accept_cities(Err("down".to_string()), Ok(())).is_err());
}

#[test]
fn provinces_are_found_by_their_exact_name() {
    let provinces = vec![province("A", "北京市"), province("B", "湖北省"), province("C", "湖北省")];
    assert_eq!(
        resolve_provider_province(&provinces, "nmc", "北京市")
            .unwrap()
            .provider_code,
        "A"
    );
    assert_eq!(
        resolve_provider_province(&provinces, "nmc", "北京").unwrap_err(),
        "provider province `北京` not found for `nmc`"
    );
    let ambiguous = resolve_provider_province(&provinces, "nmc", "湖北省").unwrap_err();
    assert!(ambiguous.contains("B") && ambiguous.contains("C"), "{ambiguous}");
}

fn scopes(entries: Vec<(&str, Vec<ProviderCity>)>) -> CityScopes {
    let mut scopes = CityScopes::new();
    for (code, cities) in entries {
        scopes.set(code, cities);
    }
    scopes
}

#[test]
fn population_rejects_duplicate_city_codes_across_scopes() {
    let cities = vec![city("DUP", "A", "One"), city("OTHER", "A", "Two"), city("DUP", "B", "Three")];
    let error = validate_population_city_codes(&cities).unwrap_err();
    assert!(error.contains("DUP"), "{error}");
    assert!(validate_population_city_codes(&vec![city("X", "A", "One")]).is_ok());
    assert!(assemble_catalog(
        vec![province("A", "a"), province("B", "b")],
        scopes(vec![
            ("A", vec![city("DUP", "A", "One")]),
            ("B", vec![city("DUP", "B", "Two")]),
        ]),
    )
    .is_err());
}

#[test]
fn scopes_are_joined_in_the_order_of_their_provinces() {
    let provinces = vec![province("B", "b"), province("A", "a")];
    assert_eq!(province_codes(&provinces), ["B", "A"]);
    let catalog = assemble_catalog(
        provinces,
        join_scopes(
            scopes(vec![("A", vec![city("A1", "A", "One")])]),
            scopes(vec![("B", vec![city("B1", "B", "Two")])]),
        ),
    )
    .unwrap();
    assert_eq!(codes(&catalog.cities), ["B1", "A1"]);
    assert!(flatten_city_scopes(&vec!["A".to_string()], scopes(vec![]))
        .unwrap_err()
        .contains("A"));
}

#[test]
fn fresh_scopes_are_served_and_the_others_fetched() {
    let mut cached = TextMap::new();
    cached.set(
        "A",
        CatalogRows {
            items: vec![city("A1", "A", "One")],
            fetched_at_unix_ms: 0,
        },
    );
    cached.set(
        "B",
        CatalogRows {
            items: vec![city("B1", "B", "Two")],
            fetched_at_unix_ms: -60_000,
        },
    );
    let expected = vec!["A".to_string(), "B".to_string(), "C".to_string()];
    let (kept, missing) = split_city_scopes(&expected, cached, 0, 60);
    assert_eq!(codes(kept.get("A").unwrap()), ["A1"]);
    assert_eq!(kept.len(), 1);
    assert_eq!(missing, ["B", "C"]);
}

#[test]
fn provider_population_has_a_rolling_eight_scope_window() {
    let all: Vec<String> = (0..10).map(|i| format!("S{i}")).collect();
    let (mut loader, started) = ScopeLoader::start(all.clone());
    assert_eq!(started.len(), 8);
    let mut running = started;
    let mut finished = Vec::new();
    while !loader.is_done() {
        let code = running.remove(0);
        let next = loader
            .scope_loaded(&code, Ok(vec![city(&code, &code, "One")]))
            .unwrap();
        running.extend(next);
        assert!(running.len() <= 8);
        finished.push(code);
    }
    assert_eq!(finished.len(), 10);
    let loaded = loader.into_scopes();
    assert!(all.iter().all(|code| loaded.get(code).is_some()));
}

#[test]
fn population_first_error_aborts_and_drains_other_scopes() {
    let (mut loader, _) = ScopeLoader::start(vec!["A".to_string(), "B".to_string()]);
    let error = loader
        .scope_loaded("A", Err("scope failed".to_string()))
        .unwrap_err();
    assert_eq!(error.message, "failed to populate provider city scope `A`");
    assert_eq!(
        error.whole(),
        "failed to populate provider city scope `A`: scope failed"
    );
}

#[test]
fn catalog_rows_are_served_until_they_are_stale() {
    let rows = CatalogRows {
        items: vec![1],
        fetched_at_unix_ms: 0,
    };
    assert!(matches!(
        begin_catalog_refresh(Some(rows), 59_999, 60),
        CatalogStart::Serve(items) if items == [1]
    ));
    let rows = CatalogRows {
        items: vec![1],
        fetched_at_unix_ms: 0,
    };
    assert!(matches!(
        begin_catalog_refresh(Some(rows), 60_000, 60),
        CatalogStart::Fetch(Some(items)) if items == [1]
    ));
    assert!(matches!(
        begin_catalog_refresh::<i32>(None, 0, 60),
        CatalogStart::Fetch(None)
    ));
}

#[test]
fn cache_write_failure_returns_sorted_upstream_with_a_warning() {
    let (rows, warning) = persist_catalog(vec![1, 2], KeepOutcome::WriteFailed("full".to_string()));
    assert_eq!(rows, [1, 2]);
    assert!(warning.unwrap().contains("full"));
    let (rows, warning) = persist_catalog(vec![1, 2], KeepOutcome::Reread(vec![2, 1]));
    assert_eq!(rows, [2, 1]);
    assert_eq!(warning, None);
    let (rows, warning) = persist_catalog(vec![1, 2], KeepOutcome::Gone);
    assert_eq!(rows, [1, 2]);
    assert!(warning.is_some());
}

#[test]
fn cache_reread_failure_returns_sorted_upstream_with_a_warning() {
    let (rows, warning) =
        persist_catalog(vec![1, 2], KeepOutcome::RereadFailed("locked".to_string()));
    assert_eq!(rows, [1, 2]);
    assert!(warning.unwrap().contains("locked"));
}

#[test]
fn failures_fall_back_to_stale_rows() {
    let (served, log) =
        conclude_catalog_refresh(Err("province unavailable".to_string()), Some(vec![1]));
    assert_eq!(served, Ok(vec![1]));
    assert!(!log.persisted_ok);
    assert_eq!(log.persisted_message.as_deref(), Some("province unavailable"));
    assert!(!log.event_ok);
    assert!(log
        .event_message
        .unwrap()
        .contains("using stale catalog after province unavailable"));
    let (served, log) =
        conclude_catalog_refresh::<i32>(Err("cold scope unavailable".to_string()), None);
    assert!(served.unwrap_err().contains("cold scope unavailable"));
    assert!(!log.persisted_ok);
    assert!(!log.event_ok);
    let (served, log) = conclude_catalog_refresh(
        Ok((vec![1], KeepOutcome::Reread(vec![1]))),
        Some(vec![0]),
    );
    assert_eq!(served, Ok(vec![1]));
    assert!(log.persisted_ok && log.event_ok);
    assert_eq!(log.event_message, None);
}

#[test]
fn fetch_log_failure_only_adds_a_warning() {
    assert_eq!(catalog_event_message(None, Ok(())), None);
    assert!(catalog_event_message(None, Err("log table missing".to_string()))
        .unwrap()
        .contains("log table missing"));
    let both = catalog_event_message(Some("first".to_string()), Err("second".to_string())).unwrap();
    assert!(both.starts_with("first; ") && both.contains("second"), "{both}");
    assert_eq!(
        append_warning(Some("first".to_string()), "second").as_deref(),
        Some("first; second")
    );
    assert_eq!(append_warning(None, "only").as_deref(), Some("only"));
}

#[test]
fn region_requests_are_paged() {
    match handle_list_provinces(1, 1, Ok(vec![province("A", "a"), province("B", "b")])) {
        Reply::Done(page) => {
            assert_eq!(page.items.len(), 1);
            assert_eq!(page.items[0].name, "b");
            assert!(!page.has_more);
        }
        other => panic!("unexpected reply {other:?}"),
    }
    assert!(matches!(
        handle_list_cities(0, 1, Err("down".to_string())),
        Reply::Error(RpcFailure { code: RpcErrorCode::Updater, .. })
    ));
    let query = |page_size: u32| RegionQuery {
        province: "a".to_string(),
        page_offset: 0,
        page_size,
    };
    let queries = batch_queries(Ok(vec![query(0), query(1)]), LIMITS).unwrap();
    assert_eq!(queries[0].page_size, DEFAULT_PAGE_SIZE as usize);
    assert!(batch_queries(Ok(vec![query(MAX_RPC_PAGE_SIZE + 1)]), LIMITS).is_err());
    let page = fetch_region_page(&queries[1], Ok(vec![city("1", "A", "x"), city("2", "A", "y")]));
    assert_eq!(page.cities.len(), 1);
    assert!(page.has_more);
    assert_eq!(page.error, None);
    let page = fetch_region_page(&queries[1], Err("down".to_string()));
    assert!(page.cities.is_empty());
    assert_eq!(page.error.as_deref(), Some("down"));
}

fn config(stations: &[(&str, bool)]) -> AppConfig {
    AppConfig {
        engine: EngineConfig {
            lock_path: String::new(),
            startup_timeout_ms: 1,
            request_timeout_ms: 1,
        },
        ipc: IpcConfig {
            rpc_endpoint: String::new(),
            pub_endpoint: String::new(),
        },
        db: DbConfig {
            path: String::new(),
            lock_path: String::new(),
            timezone: "UTC".to_string(),
        },
        updater: UpdaterConfig {
            weather_ttl_seconds: 60,
            province_ttl_seconds: 60,
            default_provider: "nmc".to_string(),
            provider: Vec::new(),
        },
        stations: stations
            .iter()
            .map(|(name, enabled)| StationConfig {
                name: name.to_string(),
                enabled: *enabled,
            })
            .collect(),
        others: String::new(),
    }
}

#[test]
fn configured_stations_are_listed_in_pages() {
    let config = config(&[("A", true), ("B", false), ("C", true)]);
    match handle_list_configured_stations(&config, Ok((1, 1)), LIMITS) {
        Reply::Done(page) => {
            assert_eq!(page.items.len(), 1);
            assert_eq!(page.items[0].name, "B");
            assert!(!page.items[0].enabled);
            assert!(page.has_more);
            assert_eq!(page.next_offset, 2);
        }
        other => panic!("unexpected reply {other:?}"),
    }
    assert!(requested_page(Err("truncated".to_string()), DEFAULT_PAGE_SIZE, LIMITS).is_err());
}
