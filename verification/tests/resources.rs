use std::sync::Arc;
use weather_core::report::{ObservedWeather, RadarInfo, WeatherAlert, WeatherSnapshot};
use weather_core::resource_requests::{
    conclude_resource_fetch, handle_get_resource, pending_resource_response, resource_chunk,
    GetResourceRequest, ResourceTransferState, ASYNC_RESOURCE_RETRY_AFTER_MS,
    MAX_RESOURCE_CHUNK_BYTES,
};
use weather_core::resources::{
    ProviderResource, ResourceFetchPlan, ResourceManager, FAILED_FETCH_TTL,
};
use weather_core::rpc::{Reply, RpcErrorCode, RpcFailure};
use weather_core::weather_requests::prepare_snapshot_resources;

const MINUTE: u128 = 60_000_000_000;

fn uuid_of(name: &str) -> String {
    format!("uuid:{name}")
}

fn resource(bytes: &[u8]) -> ProviderResource {
    ProviderResource {
        content_type: "image/png".to_string(),
        bytes: Arc::new(bytes.to_vec()),
    }
}

fn request(offset: u64, max_bytes: u32) -> GetResourceRequest {
    GetResourceRequest {
        resource_id: "resource-id".to_string(),
        offset,
        max_bytes,
    }
}

#[test]
fn registry_is_deterministic_but_does_not_resolve_unknown_ids() {
    let mut manager = ResourceManager::default();
    let first = manager
        .register("https://provider.example/radar.png", &uuid_of)
        .unwrap();
    let second = manager
        .register("https://provider.example/radar.png", &uuid_of)
        .unwrap();

    assert_eq!(first, second);
    assert_eq!(
        manager.source_url(&first).as_deref(),
        Some("https://provider.example/radar.png")
    );
    assert_eq!(manager.source_url("resource-unknown"), None);
}

#[test]
fn cached_resources_reuse_the_same_byte_allocation() {
    let mut manager = ResourceManager::default();
    let id = manager
        .register("https://provider.example/radar.png", &uuid_of)
        .unwrap();
    let fetched = resource(b"png");
    let fetched_bytes = Arc::clone(&fetched.bytes);
    manager.cache(&id, fetched, 0).unwrap();

    let cached = manager.cached(&id, 0).unwrap();
    assert!(Arc::ptr_eq(&fetched_bytes, &cached.bytes));
}

#[test]
fn expired_resources_are_removed() {
    let mut manager = ResourceManager::with_limits(0, 32, 4);
    let id = manager
        .register("https://provider.example/radar.png", &uuid_of)
        .unwrap();
    manager.cache(&id, resource(b"png"), 7).unwrap();

    assert!(manager.cached(&id, 7).is_none());
}

#[test]
fn capacity_evicts_the_least_recently_used_resource() {
    let mut manager = ResourceManager::with_limits(MINUTE, 6, 4);
    let first = manager
        .register("https://provider.example/one.png", &uuid_of)
        .unwrap();
    let second = manager
        .register("https://provider.example/two.png", &uuid_of)
        .unwrap();
    manager.cache(&first, resource(b"1111"), 0).unwrap();
    manager.cache(&second, resource(b"2222"), 0).unwrap();

    assert!(manager.cached(&first, 0).is_none());
    assert_eq!(manager.cached(&second, 0).unwrap().bytes.as_slice(), b"2222");
}

#[test]
fn asynchronous_fetches_start_once_and_preserve_failures_briefly() {
    let mut manager = ResourceManager::default();
    let id = manager
        .register("https://provider.example/radar.png", &uuid_of)
        .unwrap();

    assert!(matches!(
        manager.begin_fetch(&id, 0),
        ResourceFetchPlan::Start { .. }
    ));
    assert!(matches!(
        manager.begin_fetch(&id, 0),
        ResourceFetchPlan::Pending
    ));

    manager.finish_fetch(&id, Some("upstream failed".to_string()), 0);
    assert!(matches!(
        manager.begin_fetch(&id, 0),
        ResourceFetchPlan::Failed(message) if message == "upstream failed"
    ));
    assert!(matches!(
        manager.begin_fetch("resource-missing", 0),
        ResourceFetchPlan::Missing
    ));
}

#[test]
fn failures_are_forgotten_after_a_while() {
    let mut manager = ResourceManager::default();
    let id = manager.register("https://a.test/x.png", &uuid_of).unwrap();
    assert!(matches!(
        manager.begin_fetch(&id, 0),
        ResourceFetchPlan::Start { source_url } if source_url == "https://a.test/x.png"
    ));
    manager.finish_fetch(&id, Some("upstream failed".to_string()), 0);
    assert!(matches!(
        manager.begin_fetch(&id, FAILED_FETCH_TTL - 1),
        ResourceFetchPlan::Failed(_)
    ));
    assert!(matches!(
        manager.begin_fetch(&id, FAILED_FETCH_TTL),
        ResourceFetchPlan::Start { .. }
    ));
}

#[test]
fn active_fetch_registration_is_not_evicted() {
    let mut manager = ResourceManager::with_limits(MINUTE, 32, 1);
    let id = manager
        .register("https://provider.example/radar.png", &uuid_of)
        .unwrap();
    assert!(matches!(
        manager.begin_fetch(&id, 0),
        ResourceFetchPlan::Start { .. }
    ));

    assert!(manager
        .register("https://provider.example/other.png", &uuid_of)
        .is_none());
    assert!(matches!(
        manager.begin_fetch(&id, 0),
        ResourceFetchPlan::Pending
    ));
}

#[test]
fn oversized_resource_fails_instead_of_restarting_forever() {
    let mut manager = ResourceManager::with_limits(MINUTE, 2, 1);
    let id = manager
        .register("https://provider.example/radar.png", &uuid_of)
        .unwrap();

    let error = manager.cache(&id, resource(b"png"), 0).unwrap_err();
    assert!(
        error.contains("exceeding the 2 byte cache limit"),
        "{error}"
    );
}

#[test]
fn registrations_make_way_by_their_last_use() {
    let mut manager = ResourceManager::with_limits(MINUTE, 32, 2);
    let first = manager.register("https://a.test/1", &uuid_of).unwrap();
    let second = manager.register("https://a.test/2", &uuid_of).unwrap();
    manager.cache(&second, resource(b"2"), 0).unwrap();
    manager.register("https://a.test/1", &uuid_of).unwrap();

    let third = manager.register("https://a.test/3", &uuid_of).unwrap();

    assert!(manager.source_url(&first).is_some());
    assert!(manager.source_url(&second).is_none());
    assert!(manager.cached(&second, 0).is_none());
    assert!(manager.source_url(&third).is_some());
    assert_eq!(manager.register("  ", &uuid_of), None);
}

#[test]
fn chunks_report_offsets_and_completion() {
    let bytes = b"abcdef".to_vec();
    let first = resource_chunk(&request(0, 3), "image/png", &bytes, 3).unwrap();
    assert_eq!(first.data, b"abc");
    assert_eq!(first.total_size, 6);
    assert_eq!(first.next_offset, 3);
    assert!(!first.complete);
    assert_eq!(first.transfer_state, ResourceTransferState::Ready);

    let second = resource_chunk(&request(3, 3), "image/png", &bytes, 3).unwrap();
    assert_eq!(second.data, b"def");
    assert_eq!(second.next_offset, 6);
    assert!(second.complete);
}

#[test]
fn exact_end_is_an_empty_complete_chunk() {
    let response = resource_chunk(&request(3, 8), "image/png", &b"abc".to_vec(), 8).unwrap();
    assert!(response.data.is_empty());
    assert_eq!(response.next_offset, 3);
    assert!(response.complete);
}

#[test]
fn offset_beyond_the_resource_is_rejected() {
    assert!(resource_chunk(&request(4, 8), "image/png", &b"abc".to_vec(), 8).is_err());
}

#[test]
fn pending_responses_do_not_advance_the_requested_offset() {
    let response = pending_resource_response(&request(17, 8), 75);
    assert_eq!(response.next_offset, 17);
    assert!(response.data.is_empty());
    assert!(!response.complete);
    assert_eq!(response.retry_after_ms, 75);
    assert_eq!(response.transfer_state, ResourceTransferState::Pending);
}

#[test]
fn chunks_make_up_the_whole_resource() {
    let bytes: Vec<u8> = (0..100u8).collect();
    let mut offset = 0;
    let mut read = Vec::new();
    loop {
        let chunk = resource_chunk(&request(offset, 7), "image/png", &bytes, 7).unwrap();
        read.extend(chunk.data);
        offset = chunk.next_offset;
        if chunk.complete {
            break;
        }
    }
    assert_eq!(read, bytes);
    assert_eq!(offset, 100);
}

fn asked(id: &str, offset: u64, max_bytes: u32) -> Result<GetResourceRequest, String> {
    Ok(GetResourceRequest {
        resource_id: id.to_string(),
        offset,
        max_bytes,
    })
}

#[test]
fn handler_fetches_once_then_reports_a_cache_hit() {
    let mut manager = ResourceManager::default();
    let id = manager
        .register("https://provider.example/radar.png", &uuid_of)
        .unwrap();

    let (reply, start) = handle_get_resource(&mut manager, asked(&id, 0, 0), 0);
    assert_eq!(start.as_deref(), Some("https://provider.example/radar.png"));
    match reply {
        Reply::Accepted(response) => {
            assert_eq!(response.transfer_state, ResourceTransferState::Pending);
            assert_eq!(response.retry_after_ms, ASYNC_RESOURCE_RETRY_AFTER_MS);
            assert!(!response.complete);
        }
        other => panic!("unexpected reply {other:?}"),
    }
    let (_, again) = handle_get_resource(&mut manager, asked(&id, 0, 0), 1);
    assert_eq!(again, None);

    conclude_resource_fetch(&mut manager, &id, Ok(resource(b"png")), 2);
    let (reply, start) = handle_get_resource(&mut manager, asked(&id, 0, 0), 3);
    assert_eq!(start, None);
    match reply {
        Reply::Done(response) => {
            assert_eq!(response.transfer_state, ResourceTransferState::Ready);
            assert_eq!(response.data, b"png");
            assert_eq!(response.content_type, "image/png");
            assert!(response.cache_hit);
            assert!(response.complete);
        }
        other => panic!("unexpected reply {other:?}"),
    }
}

#[test]
fn handler_rejects_unregistered_resource_ids_without_calling_provider() {
    let mut manager = ResourceManager::default();
    let (reply, start) = handle_get_resource(&mut manager, asked("resource-unknown", 0, 0), 0);
    assert_eq!(start, None);
    assert!(matches!(
        reply,
        Reply::Error(RpcFailure { code: RpcErrorCode::Resource, .. })
    ));
}

#[test]
fn malformed_resource_requests_are_answered_with_bad_request() {
    let mut manager = ResourceManager::default();
    let refused = [
        Err("truncated".to_string()),
        asked(" ", 0, 0),
        asked("resource-id", 0, MAX_RESOURCE_CHUNK_BYTES + 1),
    ];
    for request in refused {
        let (reply, start) = handle_get_resource(&mut manager, request, 0);
        assert_eq!(start, None);
        assert!(matches!(
            reply,
            Reply::Error(RpcFailure { code: RpcErrorCode::BadRequest, .. })
        ));
    }
}

#[test]
fn failed_fetches_are_told_to_later_requests() {
    let mut manager = ResourceManager::default();
    let id = manager.register("https://a.test/x.png", &uuid_of).unwrap();
    handle_get_resource(&mut manager, asked(&id, 0, 0), 0);
    conclude_resource_fetch(&mut manager, &id, Err("upstream failed".to_string()), 0);
    let (reply, start) = handle_get_resource(&mut manager, asked(&id, 0, 0), 1);
    assert_eq!(start, None);
    match reply {
        Reply::Error(failure) => {
            assert_eq!(failure.code, RpcErrorCode::Resource);
            assert!(failure.message.contains("upstream failed"));
        }
        other => panic!("unexpected reply {other:?}"),
    }
}

fn alert(url: &str, icon_url: &str) -> WeatherAlert {
    WeatherAlert {
        alert: None,
        province: None,
        city: None,
        url: Some(url.to_string()),
        issue_content: None,
        prevention: None,
        signal_type: None,
        signal_level: None,
        icon_url: Some(icon_url.to_string()),
        icon_name: None,
        icon_resource_id: None,
        inherited: false,
    }
}

#[test]
fn outbound_snapshot_replaces_remote_urls_with_registered_resource_ids() {
    let mut manager = ResourceManager::default();
    let snapshot = WeatherSnapshot {
        station: None,
        real: Some(ObservedWeather {
            publish_time: None,
            info: None,
            temperature: None,
            feel_temperature: None,
            humidity: None,
            rain: None,
            wind_direct: None,
            wind_power: None,
            wind_speed: None,
            sunrise: None,
            sunset: None,
            alerts: vec![alert(
                "https://provider.example/alert.html",
                "https://provider.example/alert.png",
            )],
            temperature_diff: None,
            air_pressure: None,
            comfort_index: None,
            comfort_label: None,
            weather_icon: None,
            wind_degree: None,
        }),
        predict: None,
        air: None,
        tempchart: Vec::new(),
        passedchart: Vec::new(),
        climate: None,
        radar: Some(RadarInfo {
            title: None,
            image_url: Some("https://provider.example/radar.png".to_string()),
            page_url: Some("https://provider.example/radar.html".to_string()),
            image_resource_id: None,
        }),
        stale: false,
        debug: None,
    };

    let outbound = prepare_snapshot_resources(&mut manager, snapshot, &uuid_of);
    let alert = outbound.real.unwrap().alerts.remove(0);
    let radar = outbound.radar.unwrap();

    assert!(alert.url.is_none());
    assert!(alert.icon_url.is_none());
    assert_eq!(
        manager
            .source_url(alert.icon_resource_id.as_deref().unwrap())
            .as_deref(),
        Some("https://provider.example/alert.png")
    );
    assert!(radar.image_url.is_none());
    assert!(radar.page_url.is_none());
    assert_eq!(
        manager
            .source_url(radar.image_resource_id.as_deref().unwrap())
            .as_deref(),
        Some("https://provider.example/radar.png")
    );
}
