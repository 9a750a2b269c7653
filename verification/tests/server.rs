use weather_core::events::{
    fetch_log_output_line, lifecycle_status, refresh_ended, refresh_started, EngineStatus,
    RefreshOutcome, RefreshPhase,
};
use weather_core::limits::{payload_exceeds_limit, MAX_RPC_PAYLOAD_BYTES};
use weather_core::rpc::{
    build_response, handle_rpc_request, handle_shutdown, rpc_error_response,
    shutdown_owner_authorized, sign_response, Authentication, Reply, ResponseStatus, Route,
    RpcErrorCode, RpcFailure, RpcKind,
};
use weather_core::server::{
    accepted_exit, add_failure, at_least_one_ms, bind_failure, cleanup_timeout, close_socket,
    drain_publisher_step, drain_step, exit_after_sending, finish_with_cleanup, publisher_step,
    request_timed_out, router_action, run_bound_engine, startup_failure, terminal_lifecycle,
    wait_for_exit, ChannelEvent, DbClose, DrainEvent, EngineExit, ExitRequest, FirstEvent,
    LifecycleState, PublisherClose, PublisherEnd, PublisherStep, RouterAction, TaskEnd, TaskKind,
    MAX_CLEANUP_TIMEOUT, MIN_CLEANUP_TIMEOUT,
};
use weather_core::weather::RefreshTerminal;

const SECOND: u128 = 1_000_000_000;

#[test]
fn only_accepted_shutdown_and_restart_responses_request_exit() {
    let mut response = rpc_error_response(
        "1",
        "id",
        RpcFailure::of(RpcErrorCode::Engine, "failed"),
        7,
    );
    assert_eq!(accepted_exit(RpcKind::Shutdown, &response), None);

    response.status = ResponseStatus::Accepted;
    assert_eq!(
        accepted_exit(RpcKind::Shutdown, &response),
        Some(EngineExit::Shutdown)
    );
    assert_eq!(
        accepted_exit(RpcKind::RestartEngine, &response),
        Some(EngineExit::Restart)
    );
    assert_eq!(accepted_exit(RpcKind::Ping, &response), None);
}

#[test]
fn oversized_payload_limit_is_strict() {
    assert!(!payload_exceeds_limit(MAX_RPC_PAYLOAD_BYTES));
    assert!(payload_exceeds_limit(MAX_RPC_PAYLOAD_BYTES + 1));
}

#[test]
fn cleanup_timeout_is_clamped() {
    assert_eq!(cleanup_timeout(1_000_000), MIN_CLEANUP_TIMEOUT);
    assert_eq!(cleanup_timeout(5 * SECOND), 5 * SECOND);
    assert_eq!(cleanup_timeout(60 * SECOND), MAX_CLEANUP_TIMEOUT);
    assert_eq!(at_least_one_ms(0), 1);
    assert_eq!(at_least_one_ms(20), 20);
}

#[test]
fn terminal_lifecycle_distinguishes_exit_and_failure() {
    assert_eq!(
        terminal_lifecycle(Some(EngineExit::Shutdown), None),
        (
            LifecycleState::Stopping,
            Some("engine shutdown requested".to_string())
        )
    );
    assert_eq!(
        terminal_lifecycle(Some(EngineExit::Restart), None),
        (
            LifecycleState::Stopping,
            Some("engine restart requested".to_string())
        )
    );

    let failure = "router failed";
    assert_eq!(
        terminal_lifecycle(None, Some(failure)),
        (LifecycleState::Failed, Some("router failed".to_string()))
    );

    let cleanup_failure = "DB shutdown timed out";
    assert_eq!(
        terminal_lifecycle(Some(EngineExit::Restart), Some(cleanup_failure)),
        (
            LifecycleState::Failed,
            Some("DB shutdown timed out".to_string())
        )
    );
}

#[test]
fn first_exit_request_wins() {
    let mut control = ExitRequest::new();
    assert_eq!(control.requested(), None);
    assert!(control.request_exit(EngineExit::Restart));
    assert!(!control.request_exit(EngineExit::Shutdown));

    assert_eq!(
        wait_for_exit(control.requested(), false),
        Some(EngineExit::Restart)
    );
    assert_eq!(wait_for_exit(None, false), None);
    assert_eq!(wait_for_exit(None, true), Some(EngineExit::Shutdown));
}

#[test]
fn empty_legacy_shutdown_payload_is_unconditional() {
    let owner_token: Option<&str> = None;

    assert_eq!(owner_token, None);
    assert!(shutdown_owner_authorized(Some("owner"), None));
    assert!(shutdown_owner_authorized(None, None));
}

#[test]
fn conditional_shutdown_requires_the_current_owner() {
    assert!(shutdown_owner_authorized(Some("owner"), Some("owner")));
    assert!(!shutdown_owner_authorized(Some("winner"), Some("loser")));
    assert!(!shutdown_owner_authorized(None, Some("owner")));
}

#[test]
fn shutdown_requests_are_answered() {
    assert_eq!(handle_shutdown(Some("owner"), Ok(Some("owner"))), Reply::Accepted(()));
    assert!(matches!(
        handle_shutdown(Some("owner"), Ok(Some("other"))),
        Reply::Error(RpcFailure { code: RpcErrorCode::OwnerMismatch, .. })
    ));
    assert_eq!(
        handle_shutdown(None, Err("truncated")),
        Reply::Error(RpcFailure {
            code: RpcErrorCode::BadRequest,
            message: "invalid shutdown payload: truncated".to_string(),
        })
    );
}

#[test]
fn internal_failure_preserves_typed_code_and_wire_message() {
    let error =
        RpcFailure::new(RpcErrorCode::Busy, "try later".to_string()).into_engine_error();

    assert_eq!(error.code, "BUSY");
    assert_eq!(error.message, "try later");
}

#[test]
fn error_codes_have_distinct_names() {
    let codes = [
        RpcErrorCode::BadRequest,
        RpcErrorCode::SchemaVersion,
        RpcErrorCode::Auth,
        RpcErrorCode::Busy,
        RpcErrorCode::PayloadTooLarge,
        RpcErrorCode::Timeout,
        RpcErrorCode::OwnerMismatch,
        RpcErrorCode::RestartRequired,
        RpcErrorCode::Config,
        RpcErrorCode::Database,
        RpcErrorCode::Updater,
        RpcErrorCode::Fuzzy,
        RpcErrorCode::Resource,
        RpcErrorCode::Weather,
        RpcErrorCode::Engine,
    ];
    for (i, a) in codes.iter().enumerate() {
        for b in codes.iter().skip(i + 1) {
            assert_ne!(a.as_str(), b.as_str());
        }
    }
}

#[test]
fn requests_are_routed_after_version_and_authentication() {
    assert!(matches!(
        handle_rpc_request("2", "1", Authentication::Invalid, RpcKind::Ping),
        Route::Refuse(RpcFailure { code: RpcErrorCode::SchemaVersion, .. })
    ));
    assert!(matches!(
        handle_rpc_request("1", "1", Authentication::Invalid, RpcKind::Ping),
        Route::Refuse(RpcFailure { code: RpcErrorCode::Auth, .. })
    ));
    assert!(matches!(
        handle_rpc_request("1", "1", Authentication::Open, RpcKind::Unspecified),
        Route::Refuse(RpcFailure { code: RpcErrorCode::BadRequest, .. })
    ));
    assert_eq!(
        handle_rpc_request("1", "1", Authentication::Valid, RpcKind::RestartEngine),
        Route::Empty(ResponseStatus::Accepted)
    );
    assert_eq!(
        handle_rpc_request("1", "1", Authentication::Open, RpcKind::GetWeather),
        Route::Handle(RpcKind::GetWeather)
    );
}

#[test]
fn responses_carry_payloads_or_errors() {
    let done = build_response("1", "id", Reply::Done(vec![1, 2]), 7);
    assert_eq!(done.status, ResponseStatus::Done);
    assert_eq!(done.payload, [1, 2]);
    assert_eq!(done.error, None);
    assert_eq!(done.timestamp_unix_ms, 7);
    let signed = sign_response(done, Some(vec![9]));
    assert_eq!(signed.hmac_sha256, [9]);
    assert_eq!(signed.payload, [1, 2]);

    let refused = build_response(
        "1",
        "id",
        Reply::Error(RpcFailure::of(RpcErrorCode::Busy, "try later")),
        7,
    );
    assert_eq!(refused.status, ResponseStatus::Error);
    assert!(refused.payload.is_empty());
    assert_eq!(refused.error.unwrap().code, "BUSY");
}

#[test]
fn fetch_log_output_skips_plain_success() {
    assert!(fetch_log_output_line(Some("uuid"), "rest/weather", true, None).is_none());
}

#[test]
fn fetch_log_output_includes_failure_context() {
    let line = fetch_log_output_line(
        Some("uuid-1"),
        "rest/weather",
        false,
        Some("failed to decode NMC weather response"),
    )
    .expect("failure should produce output");

    assert!(line.contains("weather-engine error"));
    assert!(line.contains("endpoint=rest/weather"));
    assert!(line.contains("station=uuid-1"));
    assert!(line.contains("failed to decode NMC weather response"));
}

#[test]
fn fetch_log_output_includes_warning_context() {
    let line = fetch_log_output_line(None, "rest/weather", true, Some("using stale data"))
        .expect("message should produce output");

    assert!(line.contains("weather-engine warn"));
    assert!(line.contains("endpoint=rest/weather"));
    assert!(line.contains("using stale data"));
}

#[test]
fn events_tell_the_state_of_the_engine() {
    let status = EngineStatus {
        ready: true,
        mode: "service".to_string(),
        rpc_endpoint: "rpc".to_string(),
        pub_endpoint: "pub".to_string(),
        config_path: "weather.toml".to_string(),
        last_config_error: None,
        message: None,
        engine_version: "1".to_string(),
        schema_version: "1".to_string(),
        build_version: "1".to_string(),
        instance_id: "x".to_string(),
        lifecycle_state: LifecycleState::Ready,
    };
    let stopping = lifecycle_status(status, LifecycleState::Stopping, Some("bye".to_string()));
    assert!(!stopping.ready);
    assert_eq!(stopping.lifecycle_state, LifecycleState::Stopping);
    assert_eq!(stopping.message.as_deref(), Some("bye"));
    let started = refresh_started(Some("uuid"));
    assert_eq!(started.unified_uuid.as_deref(), Some("uuid"));
    assert!(started.started);
    assert!(!started.completed);
    assert_eq!(started.phase, RefreshPhase::Started);
    assert_eq!(started.outcome, RefreshOutcome::Unspecified);
    assert_eq!(started.message, None);
    let failure = RefreshTerminal::Failure("refresh cancelled before completion".to_string());
    for (terminal, outcome, message) in [
        (RefreshTerminal::Success, RefreshOutcome::Success, "success"),
        (RefreshTerminal::Stale, RefreshOutcome::Stale, "stale"),
        (
            failure,
            RefreshOutcome::Failure,
            "failure: refresh cancelled before completion",
        ),
    ] {
        let ended = refresh_ended(Some("uuid"), terminal);
        assert!(!ended.started);
        assert!(ended.completed);
        assert_eq!(ended.phase, RefreshPhase::Completed);
        assert_eq!(ended.outcome, outcome);
        assert_eq!(ended.message.as_deref(), Some(message));
    }
}

#[test]
fn failures_are_gathered_in_order() {
    assert_eq!(add_failure(None, "a".to_string()).as_deref(), Some("a"));
    assert_eq!(
        add_failure(Some("a".to_string()), "b".to_string()).as_deref(),
        Some("a; additionally: b")
    );
}

#[test]
fn a_requested_exit_without_failures_is_the_outcome() {
    let (told, outcome) = run_bound_engine(
        FirstEvent::Exit(EngineExit::Restart),
        None,
        DbClose::Closed,
        None,
        PublisherClose::Ended(PublisherEnd::Returned),
    );
    assert_eq!(told.0, LifecycleState::Stopping);
    assert_eq!(told.1.as_deref(), Some("engine restart requested"));
    assert_eq!(outcome, Ok(EngineExit::Restart));
}

#[test]
fn every_failure_on_the_way_out_is_told() {
    let (told, outcome) = run_bound_engine(
        FirstEvent::Task(TaskEnd::Failed(TaskKind::Router, "socket gone".to_string())),
        Some("task drain timed out".to_string()),
        DbClose::Failed("disk gone".to_string()),
        None,
        PublisherClose::TimedOut("2s".to_string()),
    );
    assert_eq!(told.0, LifecycleState::Failed);
    let failure = outcome.unwrap_err();
    for part in [
        "socket gone",
        "task drain timed out",
        "failed to shut down DB actor: disk gone",
        "publisher cleanup timed out after 2s",
    ] {
        assert!(failure.contains(part), "{failure}");
    }
    assert!(!told.1.unwrap().contains("publisher cleanup"));
}

#[test]
fn a_finished_publisher_is_not_closed_again() {
    let (_, outcome) = run_bound_engine(
        FirstEvent::Publisher(PublisherEnd::Returned),
        None,
        DbClose::Closed,
        None,
        PublisherClose::TimedOut("2s".to_string()),
    );
    assert!(!outcome.unwrap_err().contains("timed out"));
}

#[test]
fn draining_ends_with_the_last_task_or_the_deadline() {
    let (failure, goes_on) =
        drain_step(None, DrainEvent::Ended(TaskEnd::Returned(TaskKind::Signal)));
    assert_eq!(failure, None);
    assert!(goes_on);
    let (failure, goes_on) = drain_step(failure, DrainEvent::Empty);
    assert_eq!(failure, None);
    assert!(!goes_on);
    let (failure, goes_on) = drain_step(None, DrainEvent::TimedOut("2s".to_string()));
    assert_eq!(
        failure.as_deref(),
        Some("engine task cleanup timed out after 2s")
    );
    assert!(!goes_on);
}

#[test]
fn the_publisher_sends_what_is_queued_before_it_stops() {
    assert_eq!(publisher_step(ChannelEvent::Event, false), PublisherStep::Send);
    assert_eq!(publisher_step(ChannelEvent::Lagged, false), PublisherStep::Next);
    assert_eq!(publisher_step(ChannelEvent::Closed, true), PublisherStep::Stop);
    assert!(matches!(
        publisher_step(ChannelEvent::Closed, false),
        PublisherStep::Fail(_)
    ));
    assert_eq!(drain_publisher_step(ChannelEvent::Event), PublisherStep::Send);
    assert_eq!(drain_publisher_step(ChannelEvent::Empty), PublisherStep::Stop);
    assert_eq!(drain_publisher_step(ChannelEvent::Closed), PublisherStep::Stop);
}

#[test]
fn messages_are_answered_or_dropped() {
    let frame = |n: usize| vec![0u8; n];
    assert_eq!(router_action(&Vec::new(), 1), RouterAction::Ignore);
    assert_eq!(
        router_action(&vec![frame(1)], 1),
        RouterAction::Refuse {
            failure: RpcFailure::of(RpcErrorCode::BadRequest, "missing rpc frame"),
            correlated: false,
        }
    );
    assert_eq!(router_action(&vec![frame(1), frame(8)], 1), RouterAction::Start);
    assert!(matches!(
        router_action(&vec![frame(1), frame(8)], 0),
        RouterAction::Refuse { failure: RpcFailure { code: RpcErrorCode::Busy, .. }, .. }
    ));
    assert!(matches!(
        router_action(&vec![frame(1), frame(MAX_RPC_PAYLOAD_BYTES + 1)], 1),
        RouterAction::Refuse { failure: RpcFailure { code: RpcErrorCode::PayloadTooLarge, .. }, .. }
    ));
    assert_eq!(request_timed_out("3s").code, RpcErrorCode::Timeout);
    assert_eq!(exit_after_sending(false, Some(EngineExit::Restart)), None);
    assert_eq!(
        exit_after_sending(true, Some(EngineExit::Restart)),
        Some(EngineExit::Restart)
    );
}

#[test]
fn cleanup_failures_join_the_first_failure() {
    assert_eq!(close_socket("RPC", &Vec::new()), Ok(()));
    assert!(close_socket("RPC", &vec!["still open".to_string()])
        .unwrap_err()
        .contains("still open"));
    assert_eq!(finish_with_cleanup(Ok(()), Ok(()), "cleanup"), Ok(()));
    assert!(finish_with_cleanup(Ok(()), Err("b".to_string()), "cleanup")
        .unwrap_err()
        .contains("b"));
    let both = finish_with_cleanup(Err("a".to_string()), Err("b".to_string()), "cleanup");
    let both = both.unwrap_err();
    assert!(both.starts_with("a") && both.contains("b"), "{both}");
    assert_eq!(startup_failure("a".to_string(), DbClose::Closed), "a");
    assert!(startup_failure("a".to_string(), DbClose::TimedOut("2s".to_string())).contains("2s"));
    assert_eq!(bind_failure("a".to_string(), Ok(())), "a");
    assert!(bind_failure("a".to_string(), Err("b".to_string())).contains("b"));
}
