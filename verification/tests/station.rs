use weather_core::provider::ProviderProvince;
use weather_core::station::{
    canonical_station_name, merge_station, normalize_station_name, push_matching_provinces,
    short_region_name, station_names, ProviderStation,
};

fn station(province: &str, city: &str) -> ProviderStation {
    ProviderStation {
        provider_name: "nmc".to_string(),
        display_name: String::new(),
        provider_station_id: "X".to_string(),
        provider_province_code: "ABJ".to_string(),
        province: province.to_string(),
        city: city.to_string(),
        url: String::new(),
        name: String::new(),
        unified_uuid: String::new(),
    }
}

#[test]
fn short_region_name_strips_suffixes() {
    assert_eq!(short_region_name("北京市"), "北京");
    assert_eq!(short_region_name("湖北省"), "湖北");
    assert_eq!(short_region_name("广西壮族自治区"), "广西壮族");
    assert_eq!(short_region_name("香港特别行政区"), "香港");
    assert_eq!(short_region_name("重庆"), "重庆");
}

#[test]
fn canonical_name_omits_redundant_city() {
    assert_eq!(canonical_station_name("北京市", "北京"), "北京-北京市");
    assert_eq!(canonical_station_name("北京市", "朝阳"), "北京-北京市-朝阳");
}

#[test]
fn station_names_returns_single_canonical() {
    assert_eq!(
        station_names(&station("北京市", "朝阳")),
        vec!["北京-北京市-朝阳".to_string()]
    );
}

#[test]
fn normalize_station_name_drops_empty_parts() {
    assert_eq!(normalize_station_name(" 北京 -  - 朝阳 "), "北京-朝阳");
    assert_eq!(normalize_station_name("北京-北京市"), "北京-北京市");
}

#[test]
fn normalizing_twice_changes_nothing_more() {
    for name in [" a -b- ", "--", "", "北京 - 朝阳", "a"] {
        let once = normalize_station_name(name);
        assert_eq!(normalize_station_name(&once), once);
    }
}

#[test]
fn merging_completes_only_what_is_empty() {
    let requested = ProviderStation {
        name: "北京-北京市-朝阳".to_string(),
        unified_uuid: "uuid".to_string(),
        ..station("北京市", "朝阳")
    };
    let mut upstream = station("上海市", "").public_ref();
    upstream.name = "upstream".to_string();

    let merged = merge_station(Some(upstream), &requested);

    assert_eq!(merged.province, "上海市");
    assert_eq!(merged.city, "朝阳");
    assert_eq!(merged.name, "upstream");
    assert_eq!(merged.unified_uuid, "uuid");
    assert_eq!(merge_station(None, &requested), requested.public_ref());
}

#[test]
fn hinted_provinces_are_pushed_once() {
    let province = |code: &str, name: &str| ProviderProvince {
        provider_code: code.to_string(),
        name: name.to_string(),
        url: String::new(),
    };
    let source = vec![
        province("ABJ", "北京市"),
        province("AHB", "湖北省"),
        province("ABJ", "北京"),
    ];
    let mut target = Vec::new();
    push_matching_provinces(&mut target, &source, "北京-北京市-朝阳");
    push_matching_provinces(&mut target, &source, "北京");
    assert_eq!(target.len(), 1);
    assert_eq!(target[0].provider_code, "ABJ");
}
