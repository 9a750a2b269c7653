use std::path::{Component, Path};

use weather_core::lock::{lock_step, start_marker, LockAttempt, LockStep, ENGINE_LOCK_RETRIES};
use weather_core::manifest::{
    finish_locked, temporary_prefix, ComponentEntry, ComponentKind, ComponentManifest,
    ManifestDocument, COMPONENT_MANIFEST_FILE_NAME,
};
use weather_core::paths::{base_directory, parent_directory, resolve_relative, PathText};
use weather_core::startup::{
    absolute_config_path, database_components, request_id, DatabasePaths,
};

fn path(text: &str) -> PathText {
    let key = |component: Component| match component {
        Component::Prefix(prefix) => format!("0{}", prefix.as_os_str().to_str().unwrap()),
        Component::RootDir => "1".to_string(),
        Component::CurDir => "2".to_string(),
        Component::ParentDir => "3".to_string(),
        Component::Normal(name) => format!("4{}", name.to_str().unwrap()),
    };
    PathText {
        text: text.to_string(),
        keys: Path::new(text).components().map(key).collect(),
    }
}

fn parent(path: &str) -> Option<&str> {
    Path::new(path).parent().map(|parent| parent.to_str().unwrap())
}

fn join(base: &str, path: &str) -> String {
    Path::new(base).join(path).to_str().unwrap().to_string()
}

fn entry(kind: ComponentKind, text: &str) -> ComponentEntry {
    ComponentEntry {
        kind,
        path: path(text),
    }
}

fn beside(config_path: &str) -> ComponentManifest {
    ComponentManifest::for_config_path(parent(config_path), &join)
}

#[test]
fn records_unique_components_in_stable_order() {
    let manifest = ComponentManifest::open("/tmp/component-manifest.toml");

    let first = manifest.record(None, ComponentKind::Bin, path("/tmp/bin/z")).unwrap();
    let second = manifest
        .record(first, ComponentKind::Config, path("/tmp/config/weather.toml"))
        .unwrap();
    let third = manifest
        .record(second, ComponentKind::Bin, path("/tmp/bin/a"))
        .unwrap()
        .unwrap();
    assert_eq!(third.version, 1);
    let components = vec![
        entry(ComponentKind::Bin, "/tmp/bin/a"),
        entry(ComponentKind::Bin, "/tmp/bin/z"),
        entry(ComponentKind::Config, "/tmp/config/weather.toml"),
    ];
    assert_eq!(third.components, components);
    let again = ManifestDocument {
        version: 1,
        components: third.components,
    };
    assert_eq!(
        manifest.record(Some(again), ComponentKind::Bin, path("/tmp/bin/a")),
        Ok(None)
    );
    let listed = ManifestDocument {
        version: 1,
        components: vec![
            entry(ComponentKind::Config, "/tmp/config/weather.toml"),
            entry(ComponentKind::Bin, "/tmp/bin/z"),
            entry(ComponentKind::Bin, "/tmp/bin/a"),
        ],
    };
    assert_eq!(manifest.list(Some(listed)).unwrap(), components);
}

#[test]
fn concurrent_records_do_not_lose_entries() {
    let manifest = ComponentManifest::open("/tmp/component-manifest.toml");
    let record_all = |order: Vec<usize>| {
        let mut document = None;
        for index in order {
            let file = path(&format!("/tmp/database-{index}"));
            document = manifest.record(document, ComponentKind::Db, file).unwrap();
        }
        manifest.list(document).unwrap()
    };
    let forwards = record_all((0..24).collect());
    let turned = record_all((0..24).map(|index| index * 7 % 24).collect());
    assert_eq!(forwards.len(), 24);
    assert_eq!(turned, forwards);
    for index in 0..24 {
        assert!(forwards.contains(&entry(ComponentKind::Db, &format!("/tmp/database-{index}"))));
    }
}

#[test]
fn what_was_written_is_listed() {
    let manifest = ComponentManifest::open("/tmp/component-manifest.toml");
    let first = manifest.record(None, ComponentKind::Lock, path("/b")).unwrap();
    let second = manifest
        .record(first, ComponentKind::Bin, path("/a"))
        .unwrap()
        .unwrap();
    let written = second.components.clone();
    assert_eq!(manifest.list(Some(second)).unwrap(), written);
}

#[test]
fn rejects_documents_of_another_version() {
    let manifest = ComponentManifest::open("/tmp/future.toml");
    let future = || ManifestDocument {
        version: 2,
        components: Vec::new(),
    };
    let error = manifest.list(Some(future())).unwrap_err();
    assert!(error.contains("version 2 is unsupported"), "{error}");
    assert!(manifest
        .record(Some(future()), ComponentKind::Db, path("/tmp/new"))
        .is_err());
}

#[test]
fn missing_manifest_list_has_no_filesystem_side_effects() {
    let manifest = beside("/tmp/x/missing/config/weather.toml");

    assert!(manifest.list(None).unwrap().is_empty());
    assert_eq!(manifest.path(), "/tmp/x/missing/config/component-manifest.toml");
}

#[test]
fn config_relative_manifest_path_and_lock_are_stable() {
    let directory = "/tmp/x";
    let config = format!("{directory}/weather.toml");

    let manifest = beside(&config);

    assert_eq!(
        manifest.path(),
        format!("{directory}/{COMPONENT_MANIFEST_FILE_NAME}")
    );
    assert_eq!(
        manifest.lock_path(),
        format!("{directory}/component-manifest.toml.lock")
    );
    assert_eq!(
        beside("weather.toml").path(),
        "./component-manifest.toml"
    );
}

#[test]
fn unlocking_failures_do_not_hide_the_outcome() {
    assert_eq!(finish_locked(Ok(1), Ok(())), Ok(1));
    assert!(finish_locked(Ok(1), Err("unlock".to_string()))
        .unwrap_err()
        .contains("unlock"));
    let both = finish_locked::<i32>(Err("write".to_string()), Err("unlock".to_string()));
    assert!(both.unwrap_err().contains("write"));
}

#[test]
fn paths_with_the_same_components_are_the_same_file() {
    let manifest = ComponentManifest::open("/tmp/component-manifest.toml");
    let document = manifest.record(None, ComponentKind::Db, path("/a/./b")).unwrap();
    assert_eq!(
        manifest.record(document, ComponentKind::Db, path("/a//b/")),
        Ok(None)
    );
}

#[test]
fn entries_are_ordered_as_the_platform_orders_paths() {
    let all = ["/a", "/a/b", "/a-b", "a", "./a", "a/./b", "/", "..", "a/.."];
    let manifest = ComponentManifest::open("/tmp/component-manifest.toml");
    let listed = manifest
        .list(Some(ManifestDocument {
            version: 1,
            components: all.iter().map(|text| entry(ComponentKind::Bin, text)).collect(),
        }))
        .unwrap();
    let mut sorted = all;
    sorted.sort_by(|left, right| Path::new(left).cmp(Path::new(right)));
    let listed: Vec<&str> = listed.iter().map(|entry| entry.path.text.as_str()).collect();
    assert_eq!(listed, sorted);
}

#[test]
fn drives_are_up_to_the_platform() {
    // Under Windows, `C:/weather.toml` is absolute.
    let refuse = |_: &str| -> Result<String, String> { panic!("no directory is asked for") };
    assert_eq!(
        absolute_config_path("C:/weather.toml", true, &refuse).unwrap(),
        "C:/weather.toml"
    );
    assert_eq!(
        resolve_relative("C:/run", "D:/db/weather.db", true, &join),
        "D:/db/weather.db"
    );
    let backslash = |base: &str, path: &str| format!("{base}\\{path}");
    assert_eq!(
        ComponentManifest::for_config_path(Some("C:"), &backslash).path(),
        "C:\\component-manifest.toml"
    );
}

#[test]
fn startup_paths_are_relative_to_the_configuration() {
    let in_etc = |path: &str| -> Result<String, String> { Ok(join("/etc", path)) };
    assert_eq!(
        absolute_config_path("weather.toml", false, &in_etc).unwrap(),
        "/etc/weather.toml"
    );
    assert_eq!(
        absolute_config_path("/x/weather.toml", true, &in_etc).unwrap(),
        "/x/weather.toml"
    );
    let gone = |_: &str| -> Result<String, String> { Err("no directory".to_string()) };
    assert_eq!(
        absolute_config_path("weather.toml", false, &gone).unwrap_err(),
        "no directory"
    );
    let base = base_directory(parent("/etc/weather.toml"));
    assert_eq!(base, "/etc");
    assert_eq!(base_directory(None), ".");
    assert_eq!(base_directory(Some("")), "");
    assert_eq!(parent_directory(Some("")), ".");
    assert_eq!(parent_directory(None), ".");
    assert_eq!(
        resolve_relative(base, "run/engine.lock", false, &join),
        "/etc/run/engine.lock"
    );
    assert_eq!(
        resolve_relative(base, "/var/weather.db", true, &join),
        "/var/weather.db"
    );
    assert_eq!(
        temporary_prefix(Some("component-manifest.toml")),
        ".component-manifest.toml."
    );
    assert_eq!(temporary_prefix(None), ".component-manifest.");

    let components = database_components(DatabasePaths {
        data: path("/var/weather.db"),
        wal: path("/var/weather.db-wal"),
        shm: path("/var/weather.db-shm"),
        lock: path("/var/weather.db.lock"),
    });
    assert_eq!(
        components,
        [
            entry(ComponentKind::Db, "/var/weather.db"),
            entry(ComponentKind::Db, "/var/weather.db-wal"),
            entry(ComponentKind::Db, "/var/weather.db-shm"),
            entry(ComponentKind::Lock, "/var/weather.db.lock"),
        ]
    );
    assert_eq!(request_id(42, -7), "42--7");
}

#[test]
fn locks_are_tried_again_while_they_may_come_free() {
    let busy = || LockAttempt::Busy("would block".to_string());
    for number in 0..ENGINE_LOCK_RETRIES {
        assert_eq!(lock_step("l", number, ENGINE_LOCK_RETRIES, busy()), LockStep::Retry);
    }
    assert_eq!(
        lock_step("l", ENGINE_LOCK_RETRIES, ENGINE_LOCK_RETRIES, busy()),
        LockStep::Fail("failed to acquire lock l: would block".to_string())
    );
    assert_eq!(
        lock_step("l", 0, 0, LockAttempt::Moved),
        LockStep::Fail("lock path l changed while acquiring the lock".to_string())
    );
    assert_eq!(
        lock_step("l", 0, 9, LockAttempt::Refused("denied".to_string())),
        LockStep::Fail("failed to acquire lock l: denied".to_string())
    );
    assert_eq!(
        lock_step("l", 0, 9, LockAttempt::Unopened("denied".to_string())),
        LockStep::Fail("failed to open lock file l: denied".to_string())
    );
    assert_eq!(
        lock_step("l", 0, 9, LockAttempt::Unidentified("gone".to_string())),
        LockStep::Fail("gone".to_string())
    );
    assert_eq!(lock_step("l", 0, 9, LockAttempt::MovedSinceMarked), LockStep::Retry);
    assert_eq!(lock_step("l", 0, 9, LockAttempt::Held), LockStep::Done);
    assert_eq!(start_marker(17), "started_at_unix_ms=17\n");
}
