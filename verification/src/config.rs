//! Configuration: what the engine reads of it, how it is normalized, and when a change
//! of it is taken over.

use vstd::prelude::*;
use crate::clock;
use crate::rpc::{self, Reply, RpcErrorCode, RpcFailure};
use crate::station;
use crate::text;

verus! {

/// A station to refresh.
#[derive(Debug, PartialEq, Eq)]
pub struct StationConfig {
    pub name: String,
    pub enabled: bool,
}

/// A provider of weather reports.
#[derive(Debug, PartialEq, Eq)]
pub struct ProviderConfig {
    pub name: String,
    pub base_url: String,
    pub request_timeout_seconds: u64,
}

/// Where reports come from and how long they serve.
#[derive(Debug, Clone, PartialEq, Eq)]
pub struct UpdaterConfig {
    pub weather_ttl_seconds: u64,
    pub province_ttl_seconds: u64,
    pub default_provider: String,
    pub provider: Vec<ProviderConfig>,
}

/// The database and the time zone of its days. The path of a lock is carried along, and
/// not used: the lock of the database is beside its file.
#[derive(Debug, Clone, PartialEq, Eq)]
pub struct DbConfig {
    pub path: String,
    pub lock_path: String,
    pub timezone: String,
}

/// The engine's lock file and its time limits.
#[derive(Debug, Clone, PartialEq, Eq)]
pub struct EngineConfig {
    pub lock_path: String,
    pub startup_timeout_ms: u64,
    pub request_timeout_ms: u64,
}

/// Where the engine listens and where it publishes.
#[derive(Debug, Clone, PartialEq, Eq)]
pub struct IpcConfig {
    pub rpc_endpoint: String,
    pub pub_endpoint: String,
}

/// The configuration.
///
/// Settings that the library does not read, such as those of the network and of
/// signatures, are carried as one text. Two such texts are the same exactly where the
/// settings are.
#[derive(Debug, Clone, PartialEq, Eq)]
pub struct AppConfig {
    pub engine: EngineConfig,
    pub ipc: IpcConfig,
    pub db: DbConfig,
    pub updater: UpdaterConfig,
    pub stations: Vec<StationConfig>,
    pub others: String,
}

impl Clone for StationConfig {
    fn clone(&self) -> (r: Self)
        ensures
            r == *self,
    {
        StationConfig { name: self.name.clone(), enabled: self.enabled }
    }
}

impl Clone for ProviderConfig {
    fn clone(&self) -> (r: Self)
        ensures
            r == *self,
    {
        ProviderConfig {
            name: self.name.clone(),
            base_url: self.base_url.clone(),
            request_timeout_seconds: self.request_timeout_seconds,
        }
    }
}

/// The two stations read the same.
pub open spec fn station_alike(a: StationConfig, b: StationConfig) -> bool {
    a.name@ == b.name@ && a.enabled == b.enabled
}

/// The two providers read the same.
pub open spec fn provider_alike(a: ProviderConfig, b: ProviderConfig) -> bool {
    a.name@ == b.name@ && a.base_url@ == b.base_url@ && a.request_timeout_seconds
        == b.request_timeout_seconds
}

/// The two configurations read the same.
pub open spec fn alike(a: AppConfig, b: AppConfig) -> bool {
    &&& a.engine.lock_path@ == b.engine.lock_path@
    &&& a.engine.startup_timeout_ms == b.engine.startup_timeout_ms
    &&& a.engine.request_timeout_ms == b.engine.request_timeout_ms
    &&& a.ipc.rpc_endpoint@ == b.ipc.rpc_endpoint@
    &&& a.ipc.pub_endpoint@ == b.ipc.pub_endpoint@
    &&& a.db.path@ == b.db.path@
    &&& a.db.lock_path@ == b.db.lock_path@
    &&& a.db.timezone@ == b.db.timezone@
    &&& a.updater.weather_ttl_seconds == b.updater.weather_ttl_seconds
    &&& a.updater.province_ttl_seconds == b.updater.province_ttl_seconds
    &&& a.updater.default_provider@ == b.updater.default_provider@
    &&& a.updater.provider@.len() == b.updater.provider@.len()
    &&& forall|i: int|
        0 <= i < a.updater.provider@.len() ==> provider_alike(
            #[trigger] a.updater.provider@[i],
            b.updater.provider@[i],
        )
    &&& a.stations@.len() == b.stations@.len()
    &&& forall|i: int|
        0 <= i < a.stations@.len() ==> station_alike(
            #[trigger] a.stations@[i],
            b.stations@[i],
        )
    &&& a.others@ == b.others@
}

fn same_providers(a: &Vec<ProviderConfig>, b: &Vec<ProviderConfig>) -> (r: bool)
    ensures
        r == (a@.len() == b@.len() && forall|i: int|
            0 <= i < a@.len() ==> provider_alike(#[trigger] a@[i], b@[i])),
{
    if a.len() != b.len() {
        return false;
    }
    let mut i: usize = 0;
    while i < a.len()
        invariant
            a@.len() == b@.len(),
            i <= a@.len(),
            forall|j: int| 0 <= j < i ==> provider_alike(#[trigger] a@[j], b@[j]),
        decreases a@.len() - i,
    {
        if !(text::same(a[i].name.as_str(), b[i].name.as_str()) && text::same(
            a[i].base_url.as_str(),
            b[i].base_url.as_str(),
        ) && a[i].request_timeout_seconds == b[i].request_timeout_seconds) {
            assert(!provider_alike(a@[i as int], b@[i as int]));
            return false;
        }
        i = i + 1;
    }
    true
}

fn same_stations(a: &Vec<StationConfig>, b: &Vec<StationConfig>) -> (r: bool)
    ensures
        r == (a@.len() == b@.len() && forall|i: int|
            0 <= i < a@.len() ==> station_alike(#[trigger] a@[i], b@[i])),
{
    if a.len() != b.len() {
        return false;
    }
    let mut i: usize = 0;
    while i < a.len()
        invariant
            a@.len() == b@.len(),
            i <= a@.len(),
            forall|j: int| 0 <= j < i ==> station_alike(#[trigger] a@[j], b@[j]),
        decreases a@.len() - i,
    {
        if !(text::same(a[i].name.as_str(), b[i].name.as_str()) && a[i].enabled == b[i].enabled) {
            assert(!station_alike(a@[i as int], b@[i as int]));
            return false;
        }
        i = i + 1;
    }
    true
}

impl AppConfig {
    /// Whether the configurations read the same.
    pub fn same(&self, other: &AppConfig) -> (r: bool)
        ensures
            r == alike(*self, *other),
    {
        text::same(self.engine.lock_path.as_str(), other.engine.lock_path.as_str())
            && self.engine.startup_timeout_ms == other.engine.startup_timeout_ms
            && self.engine.request_timeout_ms == other.engine.request_timeout_ms && text::same(
            self.ipc.rpc_endpoint.as_str(),
            other.ipc.rpc_endpoint.as_str(),
        ) && text::same(self.ipc.pub_endpoint.as_str(), other.ipc.pub_endpoint.as_str())
            && text::same(self.db.path.as_str(), other.db.path.as_str()) && text::same(
            self.db.lock_path.as_str(),
            other.db.lock_path.as_str(),
        ) && text::same(self.db.timezone.as_str(), other.db.timezone.as_str())
            && self.updater.weather_ttl_seconds == other.updater.weather_ttl_seconds
            && self.updater.province_ttl_seconds == other.updater.province_ttl_seconds
            && text::same(
            self.updater.default_provider.as_str(),
            other.updater.default_provider.as_str(),
        ) && same_providers(&self.updater.provider, &other.updater.provider) && same_stations(
            &self.stations,
            &other.stations,
        ) && text::same(self.others.as_str(), other.others.as_str())
    }
}

/// The answer to a request for the configuration: the one in force, or the one that an
/// installation starts with.
pub fn handle_get_config(
    decoded: Result<bool, String>,
    current: AppConfig,
    defaults: AppConfig,
) -> (r: Reply<AppConfig>)
    ensures
        match decoded {
            Ok(want_defaults) => r == Reply::Done(
                if want_defaults {
                    defaults
                } else {
                    current
                },
            ),
            Err(m) => r matches Reply::Error(f) && rpc::fails(f, RpcErrorCode::BadRequest, m@),
        },
{
    match decoded {
        Ok(want_defaults) => Reply::Done(
            if want_defaults {
                defaults
            } else {
                current
            },
        ),
        Err(message) => Reply::Error(RpcFailure::new(RpcErrorCode::BadRequest, message)),
    }
}

/// The name of a station after normalization. A blank name stays.
pub open spec fn settled_name(name: Seq<char>) -> Seq<char> {
    if text::blank(name) {
        name
    } else {
        station::normal_name(name)
    }
}

/// `new` holds the stations of `prior` with normalized names.
pub open spec fn settled(new: Seq<StationConfig>, prior: Seq<StationConfig>) -> bool {
    &&& new.len() == prior.len()
    &&& forall|i: int|
        0 <= i < new.len() ==> (#[trigger] new[i]).name@ == settled_name(prior[i].name@)
            && new[i].enabled == prior[i].enabled
}

/// Normalizing would change a name.
pub open spec fn unsettled(stations: Seq<StationConfig>) -> bool {
    exists|i: int|
        0 <= i < stations.len() && settled_name((#[trigger] stations[i]).name@)
            != stations[i].name@
}

/// The configuration with normalized station names, and whether that changes a name.
pub fn normalize_config_stations(config: AppConfig) -> (r: (AppConfig, bool))
    ensures
        settled(r.0.stations@, config.stations@),
        r.0.engine == config.engine,
        r.0.ipc == config.ipc,
        r.0.db == config.db,
        r.0.updater == config.updater,
        r.0.others == config.others,
        r.1 == unsettled(config.stations@),
        !r.1 ==> alike(r.0, config),
{
    let mut stations: Vec<StationConfig> = Vec::new();
    let mut changed = false;
    let mut i: usize = 0;
    while i < config.stations.len()
        invariant
            i <= config.stations@.len(),
            settled(stations@, config.stations@.take(i as int)),
            changed == unsettled(config.stations@.take(i as int)),
        decreases config.stations@.len() - i,
    {
        let ghost before = config.stations@.take(i as int);
        let ghost after = config.stations@.take(i + 1);
        let ghost last = config.stations@[i as int];
        assert(after =~= before.push(last));
        let name = config.stations[i].name.as_str();
        let mut settled_as = name.to_owned();
        let mut differs = false;
        if !text::is_blank(name) {
            settled_as = station::normalize_station_name(name);
            differs = !text::same(name, settled_as.as_str());
        }
        proof {
            if changed {
                let j = choose|j: int|
                    0 <= j < before.len() && settled_name((#[trigger] before[j]).name@)
                        != before[j].name@;
                assert(after[j] == before[j]);
            }
            if differs {
                assert(after[i as int] == last);
            }
            if unsettled(after) {
                let j = choose|j: int|
                    0 <= j < after.len() && settled_name((#[trigger] after[j]).name@)
                        != after[j].name@;
                if j < i {
                    assert(after[j] == before[j]);
                }
            }
        }
        if differs {
            changed = true;
        }
        stations.push(StationConfig { name: settled_as, enabled: config.stations[i].enabled });
        i = i + 1;
    }
    assert(config.stations@.take(i as int) =~= config.stations@);
    (
        AppConfig {
            engine: config.engine,
            ipc: config.ipc,
            db: config.db,
            updater: config.updater,
            stations,
            others: config.others,
        },
        changed,
    )
}

/// Once normalized, station names stay as they are.
pub proof fn normalized_stations_stay(prior: Seq<StationConfig>, new: Seq<StationConfig>)
    requires
        settled(new, prior),
    ensures
        !unsettled(new),
{
    assert forall|i: int| 0 <= i < new.len() implies settled_name((#[trigger] new[i]).name@)
        == new[i].name@ by {
        if !text::blank(prior[i].name@) {
            station::normalization_is_idempotent(prior[i].name@);
        }
    }
}

/// Why a new configuration is not taken over.
#[derive(Debug, Clone, PartialEq, Eq)]
pub enum ConfigCommitError {
    Invalid(String),
    RestartRequired(Vec<String>),
    Persistence(String),
}

/// What is to be done with a new configuration.
#[derive(Debug, Clone, PartialEq, Eq)]
pub enum CommitPlan {
    Refuse(ConfigCommitError),
    /// Nothing changes, and nothing is written.
    Unchanged,
    /// It is to be written, and then taken over.
    Persist,
}

/// What is to be done with a normalized configuration that was validated, and whose
/// changes that need a restart were listed.
pub fn plan_commit(
    current: &AppConfig,
    candidate: &AppConfig,
    validation: Result<(), String>,
    restart_fields: Vec<String>,
) -> (r: CommitPlan)
    ensures
        r == match validation {
            Err(m) => CommitPlan::Refuse(ConfigCommitError::Invalid(m)),
            Ok(_) => if restart_fields@.len() > 0 {
                CommitPlan::Refuse(ConfigCommitError::RestartRequired(restart_fields))
            } else if alike(*candidate, *current) {
                CommitPlan::Unchanged
            } else {
                CommitPlan::Persist
            },
        },
        r is Unchanged ==> validation is Ok && restart_fields@.len() == 0,
        validation is Ok && restart_fields@.len() == 0 ==> r is Unchanged || r is Persist,
        validation is Ok && restart_fields@.len() == 0 ==> (r is Unchanged <==> {
            &&& candidate.engine.lock_path@ == current.engine.lock_path@
            &&& candidate.engine.startup_timeout_ms == current.engine.startup_timeout_ms
            &&& candidate.engine.request_timeout_ms == current.engine.request_timeout_ms
            &&& candidate.ipc.rpc_endpoint@ == current.ipc.rpc_endpoint@
            &&& candidate.ipc.pub_endpoint@ == current.ipc.pub_endpoint@
            &&& candidate.db.path@ == current.db.path@
            &&& candidate.db.lock_path@ == current.db.lock_path@
            &&& candidate.db.timezone@ == current.db.timezone@
            &&& candidate.updater.weather_ttl_seconds == current.updater.weather_ttl_seconds
            &&& candidate.updater.province_ttl_seconds == current.updater.province_ttl_seconds
            &&& candidate.updater.default_provider@ == current.updater.default_provider@
            &&& candidate.updater.provider@.len() == current.updater.provider@.len()
            &&& forall|i: int|
                0 <= i < candidate.updater.provider@.len() ==> {
                    let a = #[trigger] candidate.updater.provider@[i];
                    let b = current.updater.provider@[i];
                    &&& a.name@ == b.name@
                    &&& a.base_url@ == b.base_url@
                    &&& a.request_timeout_seconds == b.request_timeout_seconds
                }
            &&& candidate.stations@.len() == current.stations@.len()
            &&& forall|i: int|
                0 <= i < candidate.stations@.len() ==> {
                    let a = #[trigger] candidate.stations@[i];
                    let b = current.stations@[i];
                    a.name@ == b.name@ && a.enabled == b.enabled
                }
            &&& candidate.others@ == current.others@
        }),
{
    match validation {
        Err(message) => CommitPlan::Refuse(ConfigCommitError::Invalid(message)),
        Ok(_) => {
            if restart_fields.len() > 0 {
                CommitPlan::Refuse(ConfigCommitError::RestartRequired(restart_fields))
            } else if candidate.same(current) {
                CommitPlan::Unchanged
            } else {
                CommitPlan::Persist
            }
        },
    }
}

/// Configurations read the same only where every setting is the same. One setting that
/// differs is enough for them to differ: a limit or a time to live, a text, the number of
/// the stations or providers, or anything of one of these.
pub proof fn every_setting_tells_configurations_apart(a: AppConfig, b: AppConfig, i: int)
    requires
        alike(a, b),
    ensures
        a.engine.lock_path@ == b.engine.lock_path@,
        a.engine.startup_timeout_ms == b.engine.startup_timeout_ms,
        a.engine.request_timeout_ms == b.engine.request_timeout_ms,
        a.ipc.rpc_endpoint@ == b.ipc.rpc_endpoint@,
        a.ipc.pub_endpoint@ == b.ipc.pub_endpoint@,
        a.db.path@ == b.db.path@,
        a.db.lock_path@ == b.db.lock_path@,
        a.db.timezone@ == b.db.timezone@,
        a.updater.weather_ttl_seconds == b.updater.weather_ttl_seconds,
        a.updater.province_ttl_seconds == b.updater.province_ttl_seconds,
        a.updater.default_provider@ == b.updater.default_provider@,
        a.updater.provider@.len() == b.updater.provider@.len(),
        0 <= i < a.updater.provider@.len() ==> a.updater.provider@[i].name@
            == b.updater.provider@[i].name@,
        0 <= i < a.updater.provider@.len() ==> a.updater.provider@[i].base_url@
            == b.updater.provider@[i].base_url@,
        0 <= i < a.updater.provider@.len() ==> a.updater.provider@[i].request_timeout_seconds
            == b.updater.provider@[i].request_timeout_seconds,
        a.stations@.len() == b.stations@.len(),
        0 <= i < a.stations@.len() ==> a.stations@[i].name@ == b.stations@[i].name@,
        0 <= i < a.stations@.len() ==> a.stations@[i].enabled == b.stations@[i].enabled,
        a.others@ == b.others@,
{
}

/// A configuration reads the same as itself.
pub proof fn configurations_are_like_themselves(a: AppConfig)
    ensures
        alike(a, a),
{
}

/// How the writing of a configuration ended.
#[derive(Debug, Clone, PartialEq, Eq)]
pub enum WriteOutcome {
    /// The file holds the new configuration.
    Written,
    /// The new file could not be prepared.
    Unprepared(String),
    /// The preparation did not end.
    Aborted(String),
    /// The prepared file could not take the place of the old one.
    Unplaced(String),
}

/// What the writing of a new configuration leaves behind.
#[derive(Debug, Clone, PartialEq, Eq)]
pub struct CommitEnd {
    /// The configuration that is live from now on.
    pub live: AppConfig,
    /// Why the new configuration was not taken over, if it was not.
    pub error: Option<ConfigCommitError>,
    /// What is to be recorded as the last error of the configuration.
    pub recorded: Option<String>,
}

/// What is said of a configuration that was not written.
pub open spec fn write_complaint(outcome: WriteOutcome) -> Option<Seq<char>> {
    match outcome {
        WriteOutcome::Written => None,
        WriteOutcome::Unprepared(m) => Some(m@),
        WriteOutcome::Aborted(m) => Some("config prepare task failed: "@ + m@),
        WriteOutcome::Unplaced(m) => Some(m@),
    }
}

/// Takes the new configuration over where it was written. Where it was not, the current
/// one stays, and the reason is recorded and reported.
pub fn conclude_commit(current: AppConfig, candidate: AppConfig, outcome: WriteOutcome) -> (r:
    CommitEnd)
    ensures
        match write_complaint(outcome) {
            None => r.live == candidate && r.error is None && r.recorded is None,
            Some(m) => {
                &&& r.live == current
                &&& r.error matches Some(e)
                &&& e matches ConfigCommitError::Persistence(reported)
                &&& reported@ == m
                &&& r.recorded matches Some(recorded)
                &&& recorded@ == m
            },
        },
{
    let message = match outcome {
        WriteOutcome::Written => {
            return CommitEnd { live: candidate, error: None, recorded: None };
        },
        WriteOutcome::Unprepared(message) => message,
        WriteOutcome::Aborted(message) => text::cat(
            "config prepare task failed: ",
            message.as_str(),
        ),
        WriteOutcome::Unplaced(message) => message,
    };
    CommitEnd {
        live: current,
        recorded: Some(message.clone()),
        error: Some(ConfigCommitError::Persistence(message)),
    }
}

/// What is said of changes that need a restart.
pub fn restart_required_message(fields: &Vec<String>) -> (r: String)
    ensures
        r@ == "configuration changes require an engine restart: "@ + text::joined(
            text::texts(fields@),
            ", "@,
        ),
{
    text::cat(
        "configuration changes require an engine restart: ",
        text::join(fields, ", ").as_str(),
    )
}

/// The failure that reports why a configuration was not taken over.
pub fn commit_failure(error: ConfigCommitError) -> (r: RpcFailure)
    ensures
        match error {
            ConfigCommitError::Invalid(m) => rpc::fails(r, RpcErrorCode::BadRequest, m@),
            ConfigCommitError::RestartRequired(fields) => rpc::fails(
                r,
                RpcErrorCode::RestartRequired,
                "configuration changes require an engine restart: "@ + text::joined(
                    text::texts(fields@),
                    ", "@,
                ),
            ),
            ConfigCommitError::Persistence(m) => rpc::fails(r, RpcErrorCode::Config, m@),
        },
{
    match error {
        ConfigCommitError::Invalid(message) => RpcFailure::new(RpcErrorCode::BadRequest, message),
        ConfigCommitError::RestartRequired(fields) => RpcFailure::new(
            RpcErrorCode::RestartRequired,
            restart_required_message(&fields),
        ),
        ConfigCommitError::Persistence(message) => RpcFailure::new(RpcErrorCode::Config, message),
    }
}

/// The normalized configuration that a request brings, or why it brings none.
pub fn handle_update_config(decoded: Result<Option<AppConfig>, String>) -> (r: Result<
    AppConfig,
    RpcFailure,
>)
    ensures
        match decoded {
            Err(m) => r matches Err(f) && rpc::fails(f, RpcErrorCode::BadRequest, m@),
            Ok(None) => r matches Err(f) && rpc::fails(
                f,
                RpcErrorCode::BadRequest,
                "missing config field"@,
            ),
            Ok(Some(config)) => {
                &&& r matches Ok(c)
                &&& settled(c.stations@, config.stations@)
                &&& c.engine == config.engine
                &&& c.ipc == config.ipc
                &&& c.db == config.db
                &&& c.updater == config.updater
                &&& c.others == config.others
            },
        },
{
    match decoded {
        Err(message) => Err(RpcFailure::new(RpcErrorCode::BadRequest, message)),
        Ok(None) => Err(RpcFailure::of(RpcErrorCode::BadRequest, "missing config field")),
        Ok(Some(config)) => Ok(normalize_config_stations(config).0),
    }
}

/// The answer to a request for a new configuration, once it was taken over or refused.
pub fn update_config_reply(result: Result<AppConfig, ConfigCommitError>) -> (r: Reply<AppConfig>)
    ensures
        match result {
            Ok(config) => r == Reply::Done(config),
            Err(ConfigCommitError::Invalid(m)) => r matches Reply::Error(f) && rpc::fails(
                f,
                RpcErrorCode::BadRequest,
                m@,
            ),
            Err(ConfigCommitError::RestartRequired(fields)) => r matches Reply::Error(f)
                && rpc::fails(
                f,
                RpcErrorCode::RestartRequired,
                "configuration changes require an engine restart: "@ + text::joined(
                    text::texts(fields@),
                    ", "@,
                ),
            ),
            Err(ConfigCommitError::Persistence(m)) => r matches Reply::Error(f) && rpc::fails(
                f,
                RpcErrorCode::Config,
                m@,
            ),
        },
{
    match result {
        Ok(config) => Reply::Done(config),
        Err(error) => Reply::Error(commit_failure(error)),
    }
}

/// The configuration with another time zone.
pub open spec fn with_timezone(r: AppConfig, config: AppConfig, timezone: Seq<char>) -> bool {
    &&& r.db.timezone@ == timezone
    &&& r.db.path == config.db.path
    &&& r.db.lock_path == config.db.lock_path
    &&& r.engine == config.engine
    &&& r.ipc == config.ipc
    &&& r.updater == config.updater
    &&& r.stations == config.stations
    &&& r.others == config.others
}

/// The configuration to validate and write where the database is under way to another
/// time zone; none where it is not, or where the configuration names it already.
pub fn recover_pending_timezone(config: AppConfig, pending: Option<&str>) -> (r: Result<
    AppConfig,
    AppConfig,
>)
    ensures
        match pending {
            Some(target) => if target@ == config.db.timezone@ {
                r == Err::<AppConfig, _>(config)
            } else {
                r matches Ok(c) && with_timezone(c, config, target@)
            },
            None => r == Err::<AppConfig, _>(config),
        },
{
    match pending {
        None => Err(config),
        Some(target) => {
            if text::same(target, config.db.timezone.as_str()) {
                return Err(config);
            }
            let mut recovered = config;
            recovered.db.timezone = target.to_owned();
            Ok(recovered)
        },
    }
}

/// What a change of the database's time zone does.
#[derive(Debug, Clone, PartialEq, Eq)]
pub struct TimezoneMigration {
    pub old_timezone: String,
    pub new_timezone: String,
    pub rows_rewritten: u64,
}

/// A change of the database's time zone that is to be made, and the configuration to
/// validate, prepare and take over with it. There is none where the time zone stays: then
/// only the rows are rewritten.
#[derive(Debug, Clone, PartialEq, Eq)]
pub struct MigrationPlan {
    pub old_timezone: String,
    pub new_timezone: String,
    pub candidate: Option<AppConfig>,
}

/// What follows from the wish for another time zone.
pub fn plan_timezone_migration(current: AppConfig, decoded: Result<&str, &str>) -> (r: Result<
    MigrationPlan,
    RpcFailure,
>)
    ensures
        match decoded {
            Err(m) => r matches Err(f) && rpc::fails(f, RpcErrorCode::BadRequest, m@),
            Ok(zone) => if !clock::timezone_known(zone@) {
                r matches Err(f) && rpc::fails(
                    f,
                    RpcErrorCode::BadRequest,
                    clock::unknown_timezone(zone@),
                )
            } else {
                &&& r matches Ok(p)
                &&& p.old_timezone@ == current.db.timezone@
                &&& p.new_timezone@ == zone@
                &&& if zone@ == current.db.timezone@ {
                    p.candidate is None
                } else {
                    p.candidate matches Some(c) && with_timezone(c, current, zone@)
                }
            },
        },
{
    let zone = match decoded {
        Err(message) => {
            return Err(RpcFailure::of(RpcErrorCode::BadRequest, message));
        },
        Ok(zone) => zone,
    };
    match clock::check_timezone(zone) {
        Err(message) => {
            return Err(RpcFailure::new(RpcErrorCode::BadRequest, message));
        },
        Ok(_) => {},
    }
    Ok(plan_known_timezone(current, zone))
}

/// What follows from the wish for another time zone, where the zone is a known one.
pub fn plan_known_timezone(current: AppConfig, zone: &str) -> (r: MigrationPlan)
    ensures
        r.old_timezone@ == current.db.timezone@,
        r.new_timezone@ == zone@,
        if zone@ == current.db.timezone@ {
            r.candidate is None
        } else {
            r.candidate matches Some(c) && with_timezone(c, current, zone@)
        },
{
    let old_timezone = current.db.timezone.clone();
    let candidate = match recover_pending_timezone(current, Some(zone)) {
        Ok(candidate) => Some(candidate),
        Err(_) => None,
    };
    MigrationPlan { old_timezone, new_timezone: zone.to_owned(), candidate }
}

/// Why a change of the time zone ended before the rows were rewritten.
#[derive(Debug, Clone, PartialEq, Eq)]
pub enum MigrationFault {
    /// The configuration with the new time zone is not valid.
    Invalid(String),
    /// The new configuration file could not be prepared.
    Unprepared(String),
    /// The preparation did not end.
    Aborted(String),
}

/// What is said of a change of the time zone that ended early.
pub fn migration_fault_message(fault: MigrationFault) -> (r: String)
    ensures
        r@ == match fault {
            MigrationFault::Invalid(m) => "invalid timezone migration config: "@ + m@,
            MigrationFault::Unprepared(m) => m@,
            MigrationFault::Aborted(m) => "timezone config prepare task failed: "@ + m@,
        },
{
    match fault {
        MigrationFault::Invalid(message) => text::cat(
            "invalid timezone migration config: ",
            message.as_str(),
        ),
        MigrationFault::Unprepared(message) => message,
        MigrationFault::Aborted(message) => text::cat(
            "timezone config prepare task failed: ",
            message.as_str(),
        ),
    }
}

/// The answer once the rows were rewritten, or could not be.
pub fn migration_reply(plan: MigrationPlan, rows: Result<u64, String>) -> (r: Reply<
    TimezoneMigration,
>)
    ensures
        match rows {
            Ok(n) => r == Reply::Done(
                TimezoneMigration {
                    old_timezone: plan.old_timezone,
                    new_timezone: plan.new_timezone,
                    rows_rewritten: n,
                },
            ),
            Err(m) => r matches Reply::Error(f) && rpc::fails(f, RpcErrorCode::Database, m@),
        },
{
    match rows {
        Ok(rows_rewritten) => Reply::Done(
            TimezoneMigration {
                old_timezone: plan.old_timezone,
                new_timezone: plan.new_timezone,
                rows_rewritten,
            },
        ),
        Err(message) => Reply::Error(RpcFailure::new(RpcErrorCode::Database, message)),
    }
}

/// Normalizing keeps the stations in their order, each enabled or not as before. Names are
/// normalized, and blank ones stay; a change is told exactly where a name changes.
pub proof fn normalizing_changes_names_only(
    new: Seq<StationConfig>,
    prior: Seq<StationConfig>,
    i: int,
)
    requires
        settled(new, prior),
        0 <= i < prior.len(),
    ensures
        new.len() == prior.len(),
        new[i].enabled == prior[i].enabled,
        text::blank(prior[i].name@) ==> new[i].name@ == prior[i].name@,
        !text::blank(prior[i].name@) ==> new[i].name@ == station::normal_name(prior[i].name@),
        new[i].name@ != prior[i].name@ ==> unsettled(prior),
        unsettled(prior) <==> exists|k: int|
            0 <= k < prior.len() && (#[trigger] new[k]).name@ != prior[k].name@,
{
    if unsettled(prior) {
        let k = choose|k: int|
            0 <= k < prior.len() && settled_name((#[trigger] prior[k]).name@) != prior[k].name@;
        assert(new[k].name@ != prior[k].name@);
    }
    if exists|k: int| 0 <= k < prior.len() && (#[trigger] new[k]).name@ != prior[k].name@ {
        let k = choose|k: int| 0 <= k < prior.len() && (#[trigger] new[k]).name@ != prior[k].name@;
        assert(settled_name(prior[k].name@) != prior[k].name@);
    }
}

/// Another time zone is the only thing that changes with it.
pub proof fn another_timezone_changes_nothing_else(
    r: AppConfig,
    config: AppConfig,
    timezone: Seq<char>,
)
    requires
        with_timezone(r, config, timezone),
    ensures
        r.db.timezone@ == timezone,
        timezone != config.db.timezone@ ==> !alike(r, config),
        r.engine == config.engine,
        r.ipc == config.ipc,
        r.db.path@ == config.db.path@,
        r.db.lock_path@ == config.db.lock_path@,
        r.updater == config.updater,
        r.stations@ == config.stations@,
        r.others@ == config.others@,
{
}

/// A configuration is told to be unwritten exactly where it was not written, with the reason.
pub proof fn unwritten_configurations_are_told(m: String)
    ensures
        write_complaint(WriteOutcome::Written) is None,
        write_complaint(WriteOutcome::Unprepared(m)) == Some(m@),
        write_complaint(WriteOutcome::Aborted(m)) == Some("config prepare task failed: "@ + m@),
        write_complaint(WriteOutcome::Unplaced(m)) == Some(m@),
{
}

} // verus!
