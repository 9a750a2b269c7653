use weather_core::config::{
    commit_failure, conclude_commit, handle_get_config, handle_update_config,
    migration_fault_message, migration_reply, normalize_config_stations, plan_commit,
    plan_timezone_migration, recover_pending_timezone, restart_required_message, AppConfig,
    CommitPlan, ConfigCommitError, DbConfig, EngineConfig, IpcConfig, MigrationFault,
    ProviderConfig, StationConfig, UpdaterConfig, WriteOutcome,
};
use weather_core::provider::{create_weather_provider, validate_injected_provider};
use weather_core::rpc::{Reply, RpcErrorCode};
use weather_core::weather_requests::{
    begin_station_lookup, configured_station_name, first_enabled_station_name, StationLookup,
};

fn updater_config(default_provider: &str, provider: Vec<ProviderConfig>) -> UpdaterConfig {
    UpdaterConfig {
        weather_ttl_seconds: 60,
        province_ttl_seconds: 60,
        default_provider: default_provider.to_string(),
        provider,
    }
}

fn config(stations: &[(&str, bool)]) -> AppConfig {
    AppConfig {
        engine: EngineConfig {
            lock_path: "engine.lock".to_string(),
            startup_timeout_ms: 1,
            request_timeout_ms: 1,
        },
        ipc: IpcConfig {
            rpc_endpoint: "rpc".to_string(),
            pub_endpoint: "pub".to_string(),
        },
        db: DbConfig {
            path: "weather.db".to_string(),
            lock_path: String::new(),
            timezone: "UTC".to_string(),
        },
        updater: updater_config("nmc", Vec::new()),
        stations: stations
            .iter()
            .map(|(name, enabled)| StationConfig {
                name: name.to_string(),
                enabled: *enabled,
            })
            .collect(),
        others: String::new(),
    }
}

fn names(config: &AppConfig) -> Vec<&str> {
    config.stations.iter().map(|s| s.name.as_str()).collect()
}

#[test]
fn restart_required_message_is_stable() {
    assert_eq!(
        restart_required_message(&vec!["engine".to_string(), "updater.provider".to_string()]),
        "configuration changes require an engine restart: engine, updater.provider"
    );
}

#[test]
fn provider_change_requires_restart_without_mutating_config() {
    let plan = plan_commit(
        &config(&[]),
        &config(&[]),
        Ok(()),
        vec!["updater.default_provider".to_string()],
    );
    match plan {
        CommitPlan::Refuse(error) => {
            let failure = commit_failure(error);
            assert_eq!(failure.code, RpcErrorCode::RestartRequired);
            assert_eq!(
                failure.message,
                "configuration changes require an engine restart: updater.default_provider"
            );
        }
        other => panic!("unexpected plan {other:?}"),
    }
}

#[test]
fn persistence_failure_does_not_apply_candidate() {
    assert_eq!(
        plan_commit(&config(&[]), &config(&[("A", true)]), Ok(()), Vec::new()),
        CommitPlan::Persist
    );
    let failures = [
        (WriteOutcome::Unplaced("disk full".to_string()), "disk full"),
        (
            WriteOutcome::Aborted("cancelled".to_string()),
            "config prepare task failed: cancelled",
        ),
        (WriteOutcome::Unprepared("denied".to_string()), "denied"),
    ];
    for (outcome, message) in failures {
        let end = conclude_commit(config(&[]), config(&[("A", true)]), outcome);
        assert_eq!(end.live, config(&[]));
        assert_eq!(
            end.error,
            Some(ConfigCommitError::Persistence(message.to_string()))
        );
        assert_eq!(end.recorded.as_deref(), Some(message));
    }
}

#[test]
fn update_succeeds_on_current_thread_runtime() {
    let end = conclude_commit(config(&[]), config(&[("A", true)]), WriteOutcome::Written);
    assert_eq!(end.live, config(&[("A", true)]));
    assert_eq!(end.error, None);
    assert_eq!(end.recorded, None);
}

#[test]
fn settings_that_only_others_read_count_as_changes() {
    let mut candidate = config(&[]);
    candidate.others = "[network]\nallow_insecure = true\n".to_string();
    assert_eq!(
        plan_commit(&config(&[]), &candidate, Ok(()), Vec::new()),
        CommitPlan::Persist
    );
    let mut candidate = config(&[]);
    candidate.db.lock_path = "other.lock".to_string();
    assert_eq!(
        plan_commit(&config(&[]), &candidate, Ok(()), Vec::new()),
        CommitPlan::Persist
    );
}

#[test]
fn unchanged_candidate_skips_persistence_and_watch_notification() {
    assert_eq!(
        plan_commit(&config(&[("A", true)]), &config(&[("A", true)]), Ok(()), Vec::new()),
        CommitPlan::Unchanged
    );
    assert_eq!(
        plan_commit(
            &config(&[]),
            &config(&[]),
            Err("bad timezone".to_string()),
            Vec::new()
        ),
        CommitPlan::Refuse(ConfigCommitError::Invalid("bad timezone".to_string()))
    );
    assert!(!config(&[("A", true)]).same(&config(&[("A", false)])));
}

#[test]
fn startup_normalizes_config_before_exposing_live_state() {
    let (normalized, changed) =
        normalize_config_stations(config(&[(" 北京 -  - 朝阳 ", true), ("  ", true), ("A", false)]));
    assert!(changed);
    assert_eq!(names(&normalized)[0], "北京-朝阳");
    let (again, changed) = normalize_config_stations(normalized);
    assert!(!changed);
    assert_eq!(names(&again)[0], "北京-朝阳");
}

#[test]
fn configuration_requests_are_answered() {
    assert_eq!(
        handle_get_config(Ok(false), config(&[("A", true)]), config(&[])),
        Reply::Done(config(&[("A", true)]))
    );
    assert_eq!(
        handle_get_config(Ok(true), config(&[("A", true)]), config(&[])),
        Reply::Done(config(&[]))
    );
    assert!(matches!(
        handle_get_config(Err("truncated".to_string()), config(&[]), config(&[])),
        Reply::Error(_)
    ));
    assert_eq!(
        handle_update_config(Ok(None)).unwrap_err().message,
        "missing config field"
    );
    assert_eq!(
        names(&handle_update_config(Ok(Some(config(&[(" A ", true)])))).unwrap()),
        ["A"]
    );
}

#[test]
fn startup_recovery_rolls_pending_timezone_forward_and_clears_marker() {
    let recovered = recover_pending_timezone(config(&[]), Some("Asia/Shanghai")).unwrap();
    assert_eq!(recovered.db.timezone, "Asia/Shanghai");
    assert_eq!(recovered.db.path, "weather.db");
    assert!(recover_pending_timezone(config(&[]), Some("UTC")).is_err());
    assert!(recover_pending_timezone(config(&[]), None).is_err());
}

#[test]
fn timezone_bundle_keeps_database_file_and_live_config_in_sync() {
    let plan = plan_timezone_migration(config(&[]), Ok("Asia/Shanghai")).unwrap();
    assert_eq!(plan.old_timezone, "UTC");
    assert_eq!(plan.new_timezone, "Asia/Shanghai");
    assert_eq!(plan.candidate.as_ref().unwrap().db.timezone, "Asia/Shanghai");
    match migration_reply(plan, Ok(3)) {
        Reply::Done(migration) => assert_eq!(migration.rows_rewritten, 3),
        other => panic!("unexpected reply {other:?}"),
    }
    let same = plan_timezone_migration(config(&[]), Ok("UTC")).unwrap();
    assert_eq!(same.candidate, None);
    let unknown = plan_timezone_migration(config(&[]), Ok("Not/A/Zone")).unwrap_err();
    assert_eq!(unknown.code, RpcErrorCode::BadRequest);
    assert_eq!(unknown.message, "invalid timezone `Not/A/Zone`");
    assert_eq!(
        migration_fault_message(MigrationFault::Invalid("x".to_string())),
        "invalid timezone migration config: x"
    );
}

#[test]
fn default_weather_request_uses_first_enabled_station() {
    let config = config(&[("disabled", false), ("first", true), ("second", true)]);

    assert_eq!(
        first_enabled_station_name(&config),
        Some(config.stations[1].name.as_str())
    );
}

#[test]
fn default_weather_request_requires_an_enabled_station() {
    let mut config = config(&[("a", true), ("b", true)]);
    for station in &mut config.stations {
        station.enabled = false;
    }

    assert_eq!(first_enabled_station_name(&config), None);
    assert!(begin_station_lookup(&config, "").is_err());
}

#[test]
fn stations_are_looked_up_by_name_or_identifier() {
    let config = config(&[("disabled", false), ("first", true)]);
    assert!(matches!(
        begin_station_lookup(&config, "").unwrap(),
        StationLookup::ByName(name) if name == "first"
    ));
    assert!(matches!(
        begin_station_lookup(&config, "uuid").unwrap(),
        StationLookup::ByUuid
    ));
    let uuid_of = |name: &str| format!("uuid:{name}");
    assert_eq!(
        configured_station_name(&config, "uuid:first", &uuid_of).unwrap(),
        "first"
    );
    assert!(configured_station_name(&config, "uuid:other", &uuid_of).is_err());
}

#[test]
fn rejects_unsupported_default_provider() {
    let result = create_weather_provider(&UpdaterConfig {
        weather_ttl_seconds: 60,
        province_ttl_seconds: 60,
        default_provider: "other".to_string(),
        provider: vec![ProviderConfig {
            name: "other".to_string(),
            base_url: "https://example.invalid".to_string(),
            request_timeout_seconds: 3,
        }],
    });
    let err = result.err().expect("unsupported provider should fail");

    assert!(err.contains("unsupported updater provider"));
}

#[test]
fn factory_builds_the_configured_nmc_provider() {
    let provider = create_weather_provider(&updater_config(
        "nmc",
        vec![ProviderConfig {
            name: "nmc".to_string(),
            base_url: "https://example.invalid".to_string(),
            request_timeout_seconds: 3,
        }],
    ))
    .unwrap();

    assert_eq!(provider.name, "nmc");
}

#[test]
fn factory_rejects_an_unconfigured_default_provider() {
    let error = create_weather_provider(&updater_config("missing", Vec::new()))
        .err()
        .expect("missing provider should fail");

    assert!(error.contains("is not configured"));
}

#[test]
fn factory_rejects_an_unsupported_provider() {
    let error = create_weather_provider(&updater_config(
        "other",
        vec![ProviderConfig {
            name: "other".to_string(),
            base_url: "https://example.invalid".to_string(),
            request_timeout_seconds: 3,
        }],
    ))
    .err()
    .expect("unsupported provider should fail");

    assert!(error.contains("unsupported updater provider"));
}

#[test]
fn injected_provider_rejects_an_empty_name_before_database_startup() {
    let error = validate_injected_provider(&updater_config("scripted", Vec::new()), "  ");
    assert!(error.unwrap_err().contains("name must not be empty"));
}

#[test]
fn injected_provider_rejects_a_mismatched_name_before_database_startup() {
    let updater = updater_config("scripted", Vec::new());
    let error = validate_injected_provider(&updater, "other");
    assert!(error
        .unwrap_err()
        .contains("does not match updater.default_provider `scripted`"));
    assert_eq!(validate_injected_provider(&updater, "scripted"), Ok(()));
}
