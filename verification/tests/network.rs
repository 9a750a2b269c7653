use weather_core::http::{
    binary_failure_text, content_type_of, request_failure_text, url_for, BoundedBody,
    ConnectAttempts,
};
use weather_core::network::{
    normalized_network_value, resolve_network, HttpNetworkConfig, NetworkConfig, ProviderNetworkConfig,
    ProxyEnvironment, ProxyVariable,
};
use weather_core::nmc::transport::{
    check_resource_type, check_resource_url, cities_path, weather_path, weather_query,
    MAX_RESOURCE_BYTES,
};
use weather_core::url::resolve_with_query;

#[test]
fn provider_network_overrides_global_and_environment_by_field() {
    let environment = HttpNetworkConfig {
        http_proxy: Some("http://environment-http:8000".to_string()),
        https_proxy: Some("http://environment-https:8001".to_string()),
        no_proxy: Some("environment.internal".to_string()),
        all_proxy: Some("http://environment-all:8002".to_string()),
        allow_insecure: false,
    };
    let global = NetworkConfig {
        http_proxy: Some(" http://global-http:9000 ".to_string()),
        https_proxy: None,
        no_proxy: Some(String::new()),
        all_proxy: None,
        allow_insecure: true,
    };
    let provider = ProviderNetworkConfig {
        http_proxy: None,
        https_proxy: Some("http://provider-https:9100".to_string()),
        no_proxy: None,
        all_proxy: Some(String::new()),
        allow_insecure: Some(false),
    };

    let effective = resolve_network(environment, &global, &provider);

    assert_eq!(
        effective.http_proxy.as_deref(),
        Some("http://global-http:9000")
    );
    assert_eq!(
        effective.https_proxy.as_deref(),
        Some("http://provider-https:9100")
    );
    assert_eq!(effective.no_proxy, None);
    assert_eq!(effective.all_proxy, None);
    assert!(!effective.allow_insecure);
}

fn variable(uppercase: Option<&str>, lowercase: Option<&str>) -> ProxyVariable {
    ProxyVariable {
        uppercase: uppercase.map(str::to_string),
        lowercase: lowercase.map(str::to_string),
    }
}

#[test]
fn environment_prefers_the_upper_case_spelling() {
    let config = HttpNetworkConfig::from_environment(&ProxyEnvironment {
        http_proxy: variable(Some(" http://upper "), Some("http://lower")),
        https_proxy: variable(None, Some("http://lower")),
        no_proxy: variable(Some("  "), Some("internal")),
        all_proxy: variable(None, None),
    });
    assert_eq!(config.http_proxy.as_deref(), Some("http://upper"));
    assert_eq!(config.https_proxy.as_deref(), Some("http://lower"));
    assert_eq!(config.no_proxy, None);
    assert_eq!(config.all_proxy, None);
    assert!(!config.allow_insecure);
    assert_eq!(normalized_network_value(" a ").as_deref(), Some("a"));
    assert_eq!(normalized_network_value(" \t "), None);
}

#[test]
fn url_for_joins_path_and_encodes_query() {
    let url = url_for(
        "https://www.nmc.cn/base/",
        "rest/weather",
        &vec![
            ("stationid".to_string(), "MjX fi".to_string()),
            ("lang".to_string(), "zh-CN".to_string()),
        ],
    )
    .expect("url");

    assert_eq!(
        url,
        "https://www.nmc.cn/base/rest/weather?stationid=MjX+fi&lang=zh-CN"
    );
}

#[test]
fn queries_are_put_before_fragments_and_behind_earlier_pairs() {
    let query = vec![
        ("a b".to_string(), "é/~".to_string()),
        (String::new(), "*-._".to_string()),
    ];
    assert_eq!(
        url_for("http://a.test/x/", "y?z=1#part", &query).unwrap(),
        "http://a.test/x/y?z=1&a+b=%C3%A9%2F%7E&=*-._#part"
    );
    assert_eq!(
        url_for("http://a.test/x/", "#part", &query).unwrap(),
        "http://a.test/x/?a+b=%C3%A9%2F%7E&=*-._#part"
    );
    assert_eq!(
        resolve_with_query("http://a.test/x/", "y", &Vec::new()).unwrap(),
        "http://a.test/x/y?"
    );
    assert_eq!(
        resolve_with_query("y", "y", &query).unwrap_err(),
        "relative URL without a base"
    );
}

#[test]
fn addresses_that_cannot_be_built_are_named() {
    assert_eq!(
        url_for("not a base", "rest/weather", &Vec::new()).unwrap_err(),
        "failed to build URL for rest/weather: relative URL without a base"
    );
    assert_eq!(
        url_for("https://www.nmc.cn", "/rest/position", &Vec::new()).unwrap(),
        "https://www.nmc.cn/rest/position"
    );
}

#[test]
fn resource_rejects_urls_outside_the_configured_origin() {
    let error = check_resource_url(
        "http://127.0.0.1:41001/nmc/",
        "http://127.0.0.1:41002/radar.png",
    )
    .unwrap_err();

    assert!(error.contains("outside the configured provider origin"));
    assert_eq!(
        check_resource_url("http://a.test/", "radar.png").unwrap_err(),
        "invalid NMC resource URL: relative URL without a base"
    );
}

#[test]
fn resource_accepts_same_origin_images() {
    assert!(check_resource_url("http://a.test/nmc/", "http://a.test:80/radar.png").is_ok());
    assert!(check_resource_type(&content_type_of(Some("image/png"))).is_ok());
    assert!(check_resource_type(&content_type_of(Some(" IMAGE/JPEG ; q=1"))).is_ok());
}

#[test]
fn resource_rejects_non_image_content_types() {
    let error = check_resource_type(&content_type_of(Some("text/html; charset=utf-8"))).unwrap_err();
    assert!(error.contains("unsupported NMC resource content type `text/html`"));
    assert_eq!(content_type_of(None), "application/octet-stream");
    assert_eq!(content_type_of(Some(" ;x")), "application/octet-stream");
}

#[test]
fn resource_rejects_declared_sizes_above_the_limit() {
    let error = BoundedBody::start(
        "http://a.test/radar.png",
        Some(MAX_RESOURCE_BYTES as u64 + 1),
        MAX_RESOURCE_BYTES,
    )
    .unwrap_err();
    assert!(error.contains("exceeds 8388608 bytes"));
}

#[test]
fn bodies_never_grow_over_their_limit() {
    assert!(BoundedBody::check_limit(0).is_err());
    assert!(BoundedBody::check_limit(4).is_ok());
    let mut body = BoundedBody::start("a", Some(4), 4).unwrap();
    body.push("a", &b"123".to_vec()).unwrap();
    assert_eq!(
        body.push("a", &b"45".to_vec()).unwrap_err(),
        "binary response from a exceeds 4 bytes"
    );
    body.push("a", &b"4".to_vec()).unwrap();
    assert_eq!(body.finish(), b"1234");
}

#[test]
fn connection_failures_are_tried_again_with_growing_pauses() {
    let mut attempts = ConnectAttempts::first();
    let mut pauses = Vec::new();
    while let Some(pause) = attempts.after_failure(true) {
        pauses.push(pause);
    }
    assert_eq!(pauses, [25, 50, 100, 200, 400]);
    assert_eq!(attempts.number(), 6);
    assert_eq!(ConnectAttempts::first().after_failure(false), None);
    assert_eq!(request_failure_text("a", 1), "request failed for a");
    assert_eq!(
        request_failure_text("a", 5),
        "request failed for a after 5 attempts"
    );
    assert_eq!(
        binary_failure_text("a", 1),
        "binary request failed for a after 1 attempts"
    );
}

#[test]
fn provider_requests_have_fixed_paths() {
    assert_eq!(cities_path("ABJ"), "rest/province/ABJ");
    assert_eq!(weather_path(), "rest/weather");
    assert_eq!(
        weather_query("MjXfi"),
        vec![("stationid".to_string(), "MjXfi".to_string())]
    );
}
