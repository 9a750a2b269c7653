//! What the engine publishes.

use vstd::prelude::*;
use crate::report::WeatherSnapshot;
use crate::server::LifecycleState;
use crate::text;
use crate::weather::RefreshTerminal;

verus! {

/// What is told of a fetch.
#[derive(Debug, PartialEq, Eq)]
pub struct FetchLogEvent {
    pub unified_uuid: Option<String>,
    pub endpoint: String,
    pub ok: bool,
    pub message: Option<String>,
    pub timestamp_unix_ms: i64,
}

/// How far a refresh has come.
#[derive(Debug, Clone, Copy, PartialEq, Eq, Structural)]
pub enum RefreshPhase {
    Started,
    Completed,
}

/// How a refresh ended, once it has.
#[derive(Debug, Clone, Copy, PartialEq, Eq, Structural)]
pub enum RefreshOutcome {
    Unspecified,
    Success,
    Stale,
    Failure,
}

/// What is told of a refresh.
#[derive(Debug, PartialEq, Eq)]
pub struct RefreshEvent {
    pub unified_uuid: Option<String>,
    pub started: bool,
    pub completed: bool,
    pub phase: RefreshPhase,
    pub outcome: RefreshOutcome,
    pub message: Option<String>,
}

/// What is told of the engine.
#[derive(Debug, PartialEq, Eq)]
pub struct EngineStatus {
    pub ready: bool,
    pub mode: String,
    pub rpc_endpoint: String,
    pub pub_endpoint: String,
    pub config_path: String,
    pub last_config_error: Option<String>,
    pub message: Option<String>,
    pub engine_version: String,
    pub schema_version: String,
    pub build_version: String,
    pub instance_id: String,
    pub lifecycle_state: LifecycleState,
}

/// The part of a line that names a value, where there is one to name.
pub open spec fn named(label: Seq<char>, value: Option<Seq<char>>) -> Seq<char> {
    match value {
        Some(v) => if v.len() == 0 {
            Seq::empty()
        } else {
            label + v
        },
        None => Seq::empty(),
    }
}

/// The line that is printed of a fetch: none of one that is plainly successful.
pub open spec fn log_line(
    unified_uuid: Option<Seq<char>>,
    endpoint: Seq<char>,
    ok: bool,
    message: Option<Seq<char>>,
) -> Option<Seq<char>> {
    if ok && message is None {
        None
    } else {
        Some(
            "weather-engine "@ + (if ok {
                "warn"@
            } else {
                "error"@
            }) + ": endpoint="@ + endpoint + named(" station="@, unified_uuid) + named(
                " message="@,
                message,
            ),
        )
    }
}

fn append_named(line: &mut String, label: &str, value: Option<&str>)
    ensures
        final(line)@ == old(line)@ + named(label@, text::opt_str(value)),
{
    match value {
        Some(v) => {
            if !v.is_empty() {
                line.append(text::cat(label, v).as_str());
            } else {
                assert(line@ =~= line@ + Seq::<char>::empty());
            }
        },
        None => {
            assert(line@ =~= line@ + Seq::<char>::empty());
        },
    }
}

/// The line that is printed of a fetch: none of one that is plainly successful.
pub fn fetch_log_output_line(
    unified_uuid: Option<&str>,
    endpoint: &str,
    ok: bool,
    message: Option<&str>,
) -> (r: Option<String>)
    ensures
        text::opt_text(r) == log_line(
            text::opt_str(unified_uuid),
            endpoint@,
            ok,
            text::opt_str(message),
        ),
{
    if ok && message.is_none() {
        return None;
    }
    let mut line = text::cat(
        "weather-engine ",
        if ok {
            "warn"
        } else {
            "error"
        },
    );
    line.append(": endpoint=");
    line.append(endpoint);
    append_named(&mut line, " station=", unified_uuid);
    append_named(&mut line, " message=", message);
    Some(line)
}

/// A snapshot as it is published: without the provider's raw answer.
pub fn snapshot_event(snapshot: WeatherSnapshot) -> (r: WeatherSnapshot)
    ensures
        r == (WeatherSnapshot { debug: None, ..snapshot }),
{
    let mut published = snapshot;
    published.debug = None;
    published
}

/// The status of the engine in a state of its life: it is ready in one state only.
pub fn lifecycle_status(
    status: EngineStatus,
    lifecycle_state: LifecycleState,
    message: Option<String>,
) -> (r: EngineStatus)
    ensures
        r == (EngineStatus {
            ready: lifecycle_state == LifecycleState::Ready,
            lifecycle_state,
            message,
            ..status
        }),
{
    let mut status = status;
    status.ready = lifecycle_state == LifecycleState::Ready;
    status.lifecycle_state = lifecycle_state;
    status.message = message;
    status
}

fn owned(uuid: Option<&str>) -> (r: Option<String>)
    ensures
        text::opt_text(r) == text::opt_str(uuid),
{
    match uuid {
        Some(uuid) => Some(uuid.to_owned()),
        None => None,
    }
}

/// The event that a refresh began.
pub fn refresh_started(unified_uuid: Option<&str>) -> (r: RefreshEvent)
    ensures
        text::opt_text(r.unified_uuid) == text::opt_str(unified_uuid),
        r.started,
        !r.completed,
        r.phase is Started,
        r.outcome is Unspecified,
        r.message is None,
{
    RefreshEvent {
        unified_uuid: owned(unified_uuid),
        started: true,
        completed: false,
        phase: RefreshPhase::Started,
        outcome: RefreshOutcome::Unspecified,
        message: None,
    }
}

/// How the end of a refresh is told.
pub open spec fn terminal_message(outcome: RefreshTerminal) -> Seq<char> {
    match outcome {
        RefreshTerminal::Success => "success"@,
        RefreshTerminal::Stale => "stale"@,
        RefreshTerminal::Failure(m) => "failure: "@ + m@,
    }
}

/// The event that a refresh ended.
pub fn refresh_ended(unified_uuid: Option<&str>, outcome: RefreshTerminal) -> (r: RefreshEvent)
    ensures
        text::opt_text(r.unified_uuid) == text::opt_str(unified_uuid),
        !r.started,
        r.completed,
        r.phase is Completed,
        r.outcome == match outcome {
            RefreshTerminal::Success => RefreshOutcome::Success,
            RefreshTerminal::Stale => RefreshOutcome::Stale,
            RefreshTerminal::Failure(_) => RefreshOutcome::Failure,
        },
        text::opt_text(r.message) == Some(terminal_message(outcome)),
{
    let (kind, message) = match outcome {
        RefreshTerminal::Success => (RefreshOutcome::Success, "success".to_owned()),
        RefreshTerminal::Stale => (RefreshOutcome::Stale, "stale".to_owned()),
        RefreshTerminal::Failure(m) => (
            RefreshOutcome::Failure,
            text::cat("failure: ", m.as_str()),
        ),
    };
    RefreshEvent {
        unified_uuid: owned(unified_uuid),
        started: false,
        completed: true,
        phase: RefreshPhase::Completed,
        outcome: kind,
        message: Some(message),
    }
}

/// A fetch is printed unless it succeeded without a message: as a warning where it
/// succeeded, and as an error where it did not, with the endpoint, the station and the
/// message, as far as they are there.
pub proof fn fetches_are_printed_unless_plain(
    uuid: Seq<char>,
    endpoint: Seq<char>,
    message: Seq<char>,
    ok: bool,
)
    requires
        uuid.len() > 0,
        message.len() > 0,
    ensures
        log_line(Some(uuid), endpoint, true, None) is None,
        log_line(None, endpoint, true, None) is None,
        log_line(None, endpoint, false, None) == Some(
            "weather-engine "@ + "error"@ + ": endpoint="@ + endpoint,
        ),
        log_line(Some(uuid), endpoint, false, None) == Some(
            "weather-engine "@ + "error"@ + ": endpoint="@ + endpoint + " station="@ + uuid,
        ),
        log_line(None, endpoint, ok, Some(message)) == Some(
            "weather-engine "@ + (if ok {
                "warn"@
            } else {
                "error"@
            }) + ": endpoint="@ + endpoint + " message="@ + message,
        ),
        log_line(Some(uuid), endpoint, ok, Some(message)) == Some(
            "weather-engine "@ + (if ok {
                "warn"@
            } else {
                "error"@
            }) + ": endpoint="@ + endpoint + " station="@ + uuid + " message="@ + message,
        ),
        log_line(Some(""@), endpoint, ok, Some(message)) == log_line(
            None,
            endpoint,
            ok,
            Some(message),
        ),
{
    reveal_strlit("");
    let none = Seq::<char>::empty();
    let error = "weather-engine "@ + "error"@ + ": endpoint="@ + endpoint;
    let warn = "weather-engine "@ + "warn"@ + ": endpoint="@ + endpoint;
    assert(error + none + none =~= error);
    assert(error + (" station="@ + uuid) + none =~= error + " station="@ + uuid);
    assert(error + none + (" message="@ + message) =~= error + " message="@ + message);
    assert(warn + none + (" message="@ + message) =~= warn + " message="@ + message);
    assert(error + (" station="@ + uuid) + (" message="@ + message) =~= error + " station="@ + uuid
        + " message="@ + message);
    assert(warn + (" station="@ + uuid) + (" message="@ + message) =~= warn + " station="@ + uuid
        + " message="@ + message);
}

/// The end of a refresh is told by its kind, and a failure with its message.
pub proof fn ends_of_refreshes_are_told(m: String)
    ensures
        terminal_message(RefreshTerminal::Success) == "success"@,
        terminal_message(RefreshTerminal::Stale) == "stale"@,
        terminal_message(RefreshTerminal::Failure(m)) == "failure: "@ + m@,
{
}

} // verus!
