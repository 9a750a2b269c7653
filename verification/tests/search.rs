use weather_core::population::ProviderCatalog;
use weather_core::provider::{ProviderCity, ProviderProvince};
use weather_core::rpc::{Reply, RpcErrorCode, RpcFailure};
use weather_core::search::{
    city_matches, fuzzy, fuzzy_reply, handle_resolve_station_uuid, match_rank,
    resolve_station_name, search_candidates, targeted_provinces, FuzzyMatchStationsResponse,
    SearchCandidate,
};

fn uuid_of(name: &str) -> String {
    format!("uuid:{name}")
}

fn city(code: &str, scope: &str) -> ProviderCity {
    ProviderCity {
        provider_code: code.to_string(),
        provider_province_code: scope.to_string(),
        province: "Same省".to_string(),
        city: "SameCity".to_string(),
        url: format!("/{code}"),
    }
}

fn upstream_province(code: &str, name: &str) -> ProviderProvince {
    ProviderProvince {
        provider_code: code.to_string(),
        name: name.to_string(),
        url: format!("/{code}"),
    }
}

fn upstream_city(code: &str, scope: &str, name: &str) -> ProviderCity {
    ProviderCity {
        provider_code: code.to_string(),
        provider_province_code: scope.to_string(),
        province: format!("province-{scope}"),
        city: name.to_string(),
        url: format!("/{code}"),
    }
}

#[test]
fn candidates_deduplicate_public_identities_after_stable_sorting() {
    let catalog = ProviderCatalog {
        provinces: vec![
            ProviderProvince {
                provider_code: "B".to_string(),
                name: "Same省".to_string(),
                url: "/B".to_string(),
            },
            ProviderProvince {
                provider_code: "A".to_string(),
                name: "Same省".to_string(),
                url: "/A".to_string(),
            },
        ],
        cities: vec![city("B1", "B"), city("A1", "A")],
    };

    let candidates = search_candidates("provider", &catalog, "", &uuid_of);

    assert_eq!(candidates.len(), 3);
    match &candidates[0] {
        SearchCandidate::Station(station) => assert_eq!(station.provider_station_id, "A1"),
        _ => panic!("first candidate was not a station"),
    }
    match &candidates[1] {
        SearchCandidate::City(city) => assert_eq!(city.provider_code, "A1"),
        _ => panic!("second candidate was not a city"),
    }
    match &candidates[2] {
        SearchCandidate::Province(province) => assert_eq!(province.provider_code, "A"),
        _ => panic!("third candidate was not a province"),
    }
}

fn keys(page: &FuzzyMatchStationsResponse) -> Vec<String> {
    let stations = page.stations.iter().map(|s| format!("station:{}", s.unified_uuid));
    let cities = page.cities.iter().map(|c| format!("city:{}:{}", c.province, c.city));
    let provinces = page.provinces.iter().map(|p| format!("province:{}", p.name));
    stations.chain(cities).chain(provinces).collect()
}

#[test]
fn fuzzy_pages_form_one_stable_deduplicated_candidate_sequence() {
    let catalog = ProviderCatalog {
        provinces: vec![
            upstream_province("B", "province-B"),
            upstream_province("A", "province-A"),
        ],
        cities: vec![
            upstream_city("A3", "A", "Three"),
            upstream_city("A1", "A", "One"),
            upstream_city("A2", "A", "Two"),
            upstream_city("B2", "B", "Five"),
            upstream_city("B1", "B", "Four"),
        ],
    };
    let candidates = search_candidates("provider", &catalog, "", &uuid_of);

    let (default_page, _) = fuzzy(&candidates, 0, 10);
    assert!(default_page.has_more);
    assert_eq!(default_page.next_offset, 10);
    let (full, _) = fuzzy(&candidates, 0, 256);
    let full_keys = keys(&full);
    assert_eq!(full_keys.len(), 12);
    let mut distinct = full_keys.clone();
    distinct.sort();
    distinct.dedup();
    assert_eq!(distinct.len(), full_keys.len());

    let mut paged_keys = Vec::new();
    let mut offset = 0;
    loop {
        let (page, _) = fuzzy(&candidates, offset as usize, 3);
        paged_keys.extend(keys(&page));
        if !page.has_more {
            assert_eq!(page.next_offset, 12);
            break;
        }
        assert!(page.next_offset > offset);
        offset = page.next_offset;
    }
    assert_eq!(paged_keys, full_keys);

    let (beyond, _) = fuzzy(&candidates, 100, 3);
    assert!(keys(&beyond).is_empty());
    assert!(!beyond.has_more);
    assert_eq!(beyond.next_offset, 12);
}

#[test]
fn stations_of_a_page_are_handed_out_to_be_kept() {
    let catalog = ProviderCatalog {
        provinces: vec![upstream_province("A", "province-A")],
        cities: vec![upstream_city("A1", "A", "One")],
    };
    let candidates = search_candidates("provider", &catalog, "One", &uuid_of);
    let (page, found) = fuzzy(&candidates, 0, 10);
    assert_eq!(found.len(), 1);
    assert_eq!(found[0].provider_station_id, "A1");
    assert_eq!(page.stations[0], found[0].public_ref());
    assert!(page.provinces.is_empty());
    assert!(matches!(fuzzy_reply(Ok(page)), Reply::Done(_)));
    assert!(matches!(
        fuzzy_reply(Err("down".to_string())),
        Reply::Error(RpcFailure { code: RpcErrorCode::Fuzzy, .. })
    ));
}

#[test]
fn better_fits_come_first() {
    assert_eq!(match_rank(&vec!["北京"], "北京"), 0);
    assert_eq!(match_rank(&vec!["北京市"], "北京"), 1);
    assert_eq!(match_rank(&vec!["朝阳-北京"], "北京"), 2);
    assert_eq!(match_rank(&vec!["anything"], ""), match_rank(&vec!["else"], ""));
    assert!(city_matches(&upstream_city("A1", "A", "Three"), "hre"));
    assert!(!city_matches(&upstream_city("A1", "A", "Three"), "four"));
}

#[test]
fn targeted_resolution_populates_only_its_matching_scope() {
    let provinces = vec![
        upstream_province("ABJ", "北京市"),
        upstream_province("AHB", "湖北省"),
    ];
    let targeted = targeted_provinces(&provinces, "北京-北京市-朝阳");
    assert_eq!(targeted.len(), 1);
    assert_eq!(targeted[0].provider_code, "ABJ");
    assert!(targeted_provinces(&provinces, "nowhere").is_empty());
}

#[test]
fn station_names_resolve_to_the_first_city_that_bears_them() {
    let mut first = upstream_city("B", "ABJ", "朝阳");
    first.province = "北京市".to_string();
    let mut second = upstream_city("A", "ABJ", "朝阳");
    second.province = "北京市".to_string();
    let cities = vec![first, second];
    let found = resolve_station_name("nmc", &cities, "北京-北京市-朝阳", &uuid_of).unwrap();
    assert_eq!(found.provider_station_id, "A");
    assert_eq!(found.unified_uuid, "uuid:北京-北京市-朝阳");
    assert!(resolve_station_name("nmc", &cities, "北京-北京市", &uuid_of)
        .unwrap_err()
        .contains("北京-北京市"));
}

#[test]
fn names_are_turned_into_identifiers() {
    match handle_resolve_station_uuid(Ok("北京-朝阳".to_string()), &uuid_of) {
        Reply::Done(response) => {
            assert_eq!(response.name, "北京-朝阳");
            assert_eq!(response.unified_uuid, "uuid:北京-朝阳");
        }
        other => panic!("unexpected reply {other:?}"),
    }
    assert_eq!(
        handle_resolve_station_uuid(Err("truncated".to_string()), &uuid_of),
        Reply::Error(RpcFailure {
            code: RpcErrorCode::BadRequest,
            message: "truncated".to_string(),
        })
    );
}
