use weather_core::history_requests::{
    handle_get_temperature_history, history_request, GetTemperatureHistoryRequest,
};
use weather_core::rpc::{Reply, RpcErrorCode};

fn request(uuid: &str, page_size: u32, before_date: Option<&str>) -> GetTemperatureHistoryRequest {
    GetTemperatureHistoryRequest {
        unified_uuid: uuid.to_string(),
        page_size,
        before_date: before_date.map(str::to_string),
    }
}

#[test]
fn history_requests_are_checked() {
    let query = history_request(Ok(request(" uuid ", 0, Some("  ")))).unwrap();
    assert_eq!(query.unified_uuid, "uuid");
    assert_eq!(query.page_size, 7);
    assert_eq!(query.before_date, None);
    for (refused, message) in [
        (Err("truncated".to_string()), "truncated"),
        (Ok(request("", 0, None)), "unified_uuid must not be empty"),
        (
            Ok(request("uuid", 32, None)),
            "page_size 32 exceeds maximum 31",
        ),
        (
            Ok(request("uuid", 7, Some("2026-7-1"))),
            "before_date `2026-7-1` must use YYYY-MM-DD",
        ),
        (
            Ok(request("uuid", 7, Some("2026-02-30"))),
            "before_date `2026-02-30` must use YYYY-MM-DD",
        ),
    ] {
        let failure = history_request(refused).unwrap_err();
        assert_eq!(failure.code, RpcErrorCode::BadRequest);
        assert_eq!(failure.message, message);
    }
}

#[test]
fn history_requests_are_answered() {
    let query = history_request(Ok(request("uuid", 7, None))).unwrap();
    match handle_get_temperature_history(&query, Ok((Vec::new(), true))) {
        Reply::Done(page) => {
            assert!(page.points.is_empty());
            assert!(page.has_more_history);
            assert_eq!(page.next_before_date, None);
        }
        other => panic!("unexpected reply {other:?}"),
    }
    match handle_get_temperature_history(&query, Err("locked".to_string())) {
        Reply::Error(failure) => {
            assert_eq!(failure.code, RpcErrorCode::Database);
            assert_eq!(failure.message, "failed to load temperature history: locked");
        }
        other => panic!("unexpected reply {other:?}"),
    }
}
