use std::sync::Arc;

use weather_core::config::{
    AppConfig, DbConfig, EngineConfig, IpcConfig, StationConfig, UpdaterConfig,
};
use weather_core::flights::{FlightTable, Turn};
use weather_core::limits::MAX_CONCURRENT_REFRESHES;
use weather_core::refresh::{
    claim_due_stations, deadline, enabled_stations, finish_job, local_day_at, next_scheduler_wait,
    reconcile_schedules, schedule_date_refresh, stagger, weather_ttl, Scheduler, Schedules,
    StationSchedule, FALLBACK_WAKE, LAST_INSTANT, SECOND, STAGGER,
};

const START: u128 = 1_000 * SECOND;

fn config(stations: &[(&str, bool)], weather_ttl_seconds: u64) -> AppConfig {
    AppConfig {
        engine: EngineConfig {
            lock_path: String::new(),
            startup_timeout_ms: 1,
            request_timeout_ms: 1,
        },
        ipc: IpcConfig {
            rpc_endpoint: String::new(),
            pub_endpoint: String::new(),
        },
        db: DbConfig {
            path: String::new(),
            lock_path: String::new(),
            timezone: "UTC".to_string(),
        },
        updater: UpdaterConfig {
            weather_ttl_seconds,
            province_ttl_seconds: 60,
            default_provider: "nmc".to_string(),
            provider: Vec::new(),
        },
        stations: stations
            .iter()
            .map(|(name, enabled)| StationConfig {
                name: name.to_string(),
                enabled: *enabled,
            })
            .collect(),
        others: String::new(),
    }
}

fn change(schedules: &mut Schedules, name: &str, edit: impl Fn(&mut StationSchedule)) {
    let mut schedule = *schedules.get(name).unwrap();
    edit(&mut schedule);
    schedules.set(name, schedule);
}

fn of(schedules: &Schedules, name: &str) -> StationSchedule {
    *schedules.get(name).unwrap()
}

#[test]
fn enabled_station_names_are_deduplicated_in_order() {
    let config = config(&[("A", true), ("A", true), ("B", false), ("C", true)], 60);

    assert_eq!(enabled_stations(&config), vec!["A", "C"]);
}

#[test]
fn ttl_change_recomputes_deadline_from_last_completion() {
    let started = START;
    let mut schedules = Schedules::new();
    let names = vec!["A".to_string()];
    reconcile_schedules(&mut schedules, &names, started, 60 * SECOND);
    finish_job(&mut schedules, "A", started, 60 * SECOND);

    reconcile_schedules(
        &mut schedules,
        &names,
        deadline(started, 10 * SECOND),
        5 * SECOND,
    );

    assert_eq!(of(&schedules, "A").next_due, deadline(started, 5 * SECOND));
}

#[test]
fn local_date_change_schedules_all_stations_with_stagger() {
    let now = START;
    let names = vec!["A".to_string(), "B".to_string()];
    let mut schedules = Schedules::new();
    reconcile_schedules(&mut schedules, &names, now, 60 * SECOND);
    finish_job(&mut schedules, "A", now, 60 * SECOND);
    finish_job(&mut schedules, "B", now, 60 * SECOND);

    schedule_date_refresh(&mut schedules, &names, now);

    assert_eq!(of(&schedules, "A").next_due, now);
    assert_eq!(of(&schedules, "B").next_due, deadline(now, STAGGER));
    assert!(of(&schedules, "A").date_refresh_pending);
    assert!(of(&schedules, "B").date_refresh_pending);
}

#[test]
fn pending_date_refresh_survives_ttl_reconciliation() {
    let now = START;
    let names = vec!["A".to_string()];
    let mut schedules = Schedules::new();
    reconcile_schedules(&mut schedules, &names, now, 60 * SECOND);
    finish_job(&mut schedules, "A", now, 60 * SECOND);
    let date_due = deadline(now, 10 * SECOND);
    change(&mut schedules, "A", |schedule| {
        schedule.next_due = date_due;
        schedule.date_refresh_pending = true;
    });

    reconcile_schedules(&mut schedules, &names, deadline(now, SECOND), 600 * SECOND);

    assert_eq!(of(&schedules, "A").next_due, date_due);
}

#[test]
fn local_date_change_during_flight_is_refreshed_after_completion() {
    let now = START;
    let names = vec!["A".to_string()];
    let mut schedules = Schedules::new();
    reconcile_schedules(&mut schedules, &names, now, 60 * SECOND);
    change(&mut schedules, "A", |schedule| schedule.in_flight = true);

    schedule_date_refresh(&mut schedules, &names, deadline(now, STAGGER));
    assert!(of(&schedules, "A").date_refresh_pending);

    let completed = deadline(now, 10 * SECOND);
    finish_job(&mut schedules, "A", completed, 60 * SECOND);

    assert!(!of(&schedules, "A").in_flight);
    assert_eq!(of(&schedules, "A").next_due, completed);
    assert!(of(&schedules, "A").date_refresh_pending);
}

#[test]
fn due_refreshes_are_claimed_up_to_concurrency_limit() {
    let now = START;
    let names = (0..(MAX_CONCURRENT_REFRESHES + 3))
        .map(|index| format!("station-{index}"))
        .collect::<Vec<_>>();
    let mut schedules = Schedules::new();
    reconcile_schedules(&mut schedules, &names, now, 60 * SECOND);
    for name in &names {
        change(&mut schedules, name, |schedule| schedule.next_due = now);
    }

    let claimed = claim_due_stations(
        &names,
        &mut schedules,
        now,
        60 * SECOND,
        MAX_CONCURRENT_REFRESHES,
    );

    assert_eq!(claimed.len(), MAX_CONCURRENT_REFRESHES);
    assert!(claimed.iter().all(|name| of(&schedules, name).in_flight));
    for name in names.iter().skip(MAX_CONCURRENT_REFRESHES) {
        assert!(!of(&schedules, name).in_flight);
        assert_eq!(of(&schedules, name).next_due, now);
    }
    assert_eq!(
        next_scheduler_wait(&schedules, now, MAX_CONCURRENT_REFRESHES),
        FALLBACK_WAKE
    );
    assert_eq!(
        next_scheduler_wait(&schedules, now, MAX_CONCURRENT_REFRESHES - 1),
        0
    );
}

#[test]
fn deadlines_past_the_last_instant_stay_where_they_are() {
    assert_eq!(deadline(5, 7), 12);
    assert_eq!(deadline(LAST_INSTANT, 0), LAST_INSTANT);
    assert_eq!(deadline(LAST_INSTANT, 1), LAST_INSTANT);
    assert_eq!(deadline(5, u128::MAX), 5);
    assert_eq!(stagger(0), 0);
    assert_eq!(stagger(3), 15 * SECOND);
    assert_eq!(weather_ttl(&config(&[], 600)), 600 * SECOND);
    assert_eq!(weather_ttl(&config(&[], 0)), SECOND);
}

#[test]
fn a_scheduler_starts_what_is_due_and_sleeps_until_the_next() {
    let mut scheduler = Scheduler::start(
        &config(&[("A", true), ("B", true)], 60),
        START,
        Some(("2026-06-23".to_string(), 3_600 * SECOND)),
    );
    let day = Some(("2026-06-23".to_string(), 3_600 * SECOND));

    let first = scheduler.wake_on(START, day.clone());
    assert_eq!(first.start, ["A"]);
    assert_eq!(first.wait, STAGGER);
    assert_eq!(scheduler.active_jobs(), 1);

    let second = scheduler.wake_on(START + STAGGER, day.clone());
    assert_eq!(second.start, ["B"]);
    assert_eq!(scheduler.active_jobs(), 2);

    assert_eq!(scheduler.job_ended("A", START + STAGGER, None), None);
    let complaint = scheduler
        .job_ended("B", START + STAGGER, Some("no route"))
        .unwrap();
    assert!(complaint.contains("no route"), "{complaint}");
    assert_eq!(scheduler.active_jobs(), 0);

    let next_day = Some(("2026-06-24".to_string(), 86_400 * SECOND));
    let third = scheduler.wake_on(START + 2 * STAGGER, next_day);
    assert_eq!(third.start, ["A"]);
    assert_eq!(third.wait, STAGGER);
}

#[test]
fn a_scheduler_follows_its_configuration() {
    let mut scheduler = Scheduler::start(&config(&[("A", true)], 60), START, None);
    scheduler.reconfigure(&config(&[("A", false), ("C", true)], 60), START);
    let wake = scheduler.wake_on(START, None);
    assert_eq!(wake.start, ["C"]);
    assert_eq!(wake.wait, FALLBACK_WAKE);
}

#[test]
fn a_scheduler_reads_the_local_day_of_its_zone() {
    let unix_ms = 1_782_230_370_000;
    assert_eq!(
        local_day_at(unix_ms, "Asia/Shanghai"),
        Some(("2026-06-23".to_string(), 30 * SECOND))
    );
    assert_eq!(local_day_at(unix_ms, "Nowhere"), None);

    let mut scheduler = Scheduler::start(
        &config(&[], 60),
        START,
        local_day_at(unix_ms, "Asia/Shanghai"),
    );
    assert_eq!(scheduler.wake(START, unix_ms, "Asia/Shanghai").wait, 30 * SECOND);
    assert_eq!(scheduler.wake(START, unix_ms, "Nowhere").wait, FALLBACK_WAKE);
}

/// Lets a call have its turn: whether it does the work.
fn leads(flights: &mut FlightTable<bool>, call: u64) -> bool {
    matches!(flights.turn(call), Some(Turn::Lead))
}

#[test]
fn overlapping_calls_share_one_fetch() {
    let mut flights = FlightTable::new();
    let first = flights.join("station");
    assert!(leads(&mut flights, first));
    let second = flights.join("station");
    assert!(matches!(flights.turn(second), Some(Turn::Wait)));
    let other = flights.join("other");
    assert!(leads(&mut flights, other));

    flights.land(first, &Ok(Arc::new(true)));

    assert!(flights.turn(first).is_none());
    match flights.turn(second) {
        Some(Turn::Take(Ok(stale))) => assert!(*stale),
        turn => panic!("unexpected turn {turn:?}"),
    }
    assert!(flights.turn(second).is_none());
    assert!(leads(&mut flights, other));
}

#[test]
fn overlapping_calls_share_a_failure() {
    let mut flights = FlightTable::<bool>::new();
    let first = flights.join("station");
    assert!(leads(&mut flights, first));
    let second = flights.join("station");
    let third = flights.join("station");
    flights.land(first, &Err("upstream".to_string()));
    for call in [third, second] {
        match flights.turn(call) {
            Some(Turn::Take(Err(message))) => assert_eq!(message, "upstream"),
            turn => panic!("unexpected turn {turn:?}"),
        }
    }
}

#[test]
fn completed_forced_calls_start_new_fetches() {
    let mut flights = FlightTable::new();
    let mut calls = 0;
    for _ in 0..2 {
        let call = flights.join("station");
        if leads(&mut flights, call) {
            calls += 1;
        }
        flights.land(call, &Ok(Arc::new(false)));
    }
    assert_eq!(calls, 2);
}

#[test]
fn cancelled_leader_allows_waiter_to_take_over() {
    let mut flights = FlightTable::new();
    let leader = flights.join("station");
    assert!(leads(&mut flights, leader));
    let waiter = flights.join("station");
    assert!(matches!(flights.turn(waiter), Some(Turn::Wait)));

    flights.abandon(leader);

    assert!(leads(&mut flights, waiter));
    flights.land(leader, &Ok(Arc::new(false)));
    assert!(leads(&mut flights, waiter));
    let late = flights.join("station");
    flights.land(waiter, &Ok(Arc::new(true)));
    match flights.turn(late) {
        Some(Turn::Take(Ok(stale))) => assert!(*stale),
        turn => panic!("unexpected turn {turn:?}"),
    }
    assert!(flights.has_room());
}
