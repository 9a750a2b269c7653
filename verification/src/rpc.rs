//! Requests and answers: admission, error codes, and the envelope of an answer.

use vstd::prelude::*;
use crate::text;

verus! {

/// What kind of failure an answer reports.
#[derive(Debug, Clone, Copy, PartialEq, Eq, Structural)]
pub enum RpcErrorCode {
    BadRequest,
    SchemaVersion,
    Auth,
    Busy,
    PayloadTooLarge,
    Timeout,
    OwnerMismatch,
    RestartRequired,
    Config,
    Database,
    Updater,
    Fuzzy,
    Resource,
    Weather,
    Engine,
}

/// The text of an error code.
pub open spec fn code_text(code: RpcErrorCode) -> Seq<char> {
    match code {
        RpcErrorCode::BadRequest => "BAD_REQUEST"@,
        RpcErrorCode::SchemaVersion => "SCHEMA_VERSION"@,
        RpcErrorCode::Auth => "AUTH"@,
        RpcErrorCode::Busy => "BUSY"@,
        RpcErrorCode::PayloadTooLarge => "PAYLOAD_TOO_LARGE"@,
        RpcErrorCode::Timeout => "TIMEOUT"@,
        RpcErrorCode::OwnerMismatch => "OWNER_MISMATCH"@,
        RpcErrorCode::RestartRequired => "RESTART_REQUIRED"@,
        RpcErrorCode::Config => "CONFIG"@,
        RpcErrorCode::Database => "DATABASE"@,
        RpcErrorCode::Updater => "UPDATER"@,
        RpcErrorCode::Fuzzy => "FUZZY"@,
        RpcErrorCode::Resource => "RESOURCE"@,
        RpcErrorCode::Weather => "WEATHER"@,
        RpcErrorCode::Engine => "ENGINE"@,
    }
}

impl RpcErrorCode {
    /// The text of the code.
    pub fn as_str(self) -> (r: &'static str)
        ensures
            r@ == code_text(self),
    {
        match self {
            RpcErrorCode::BadRequest => "BAD_REQUEST",
            RpcErrorCode::SchemaVersion => "SCHEMA_VERSION",
            RpcErrorCode::Auth => "AUTH",
            RpcErrorCode::Busy => "BUSY",
            RpcErrorCode::PayloadTooLarge => "PAYLOAD_TOO_LARGE",
            RpcErrorCode::Timeout => "TIMEOUT",
            RpcErrorCode::OwnerMismatch => "OWNER_MISMATCH",
            RpcErrorCode::RestartRequired => "RESTART_REQUIRED",
            RpcErrorCode::Config => "CONFIG",
            RpcErrorCode::Database => "DATABASE",
            RpcErrorCode::Updater => "UPDATER",
            RpcErrorCode::Fuzzy => "FUZZY",
            RpcErrorCode::Resource => "RESOURCE",
            RpcErrorCode::Weather => "WEATHER",
            RpcErrorCode::Engine => "ENGINE",
        }
    }
}

/// What is asked for.
#[derive(Debug, Clone, Copy, PartialEq, Eq, Structural)]
pub enum RpcKind {
    Unspecified,
    Ping,
    GetEngineStatus,
    GetConfig,
    UpdateConfig,
    ListProvinces,
    ListCities,
    ListConfiguredStations,
    BatchListRegions,
    ResolveStationUuid,
    MigrateDbTimezone,
    GetWeather,
    GetResource,
    GetTemperatureHistory,
    FuzzyMatchStations,
    TriggerRefresh,
    RestartEngine,
    Shutdown,
}

/// How a request ended.
#[derive(Debug, Clone, Copy, PartialEq, Eq, Structural)]
pub enum ResponseStatus {
    Done,
    Accepted,
    Error,
}

/// A failure with its code.
#[derive(Debug, PartialEq, Eq)]
pub struct RpcFailure {
    pub code: RpcErrorCode,
    pub message: String,
}

/// A failure as an answer carries it.
#[derive(Debug, PartialEq, Eq)]
pub struct EngineError {
    pub code: String,
    pub message: String,
}

/// A refusal with this code and this message.
pub open spec fn fails(f: RpcFailure, code: RpcErrorCode, message: Seq<char>) -> bool {
    f.code == code && f.message@ == message
}

impl RpcFailure {
    /// A failure with this code and this message.
    pub fn new(code: RpcErrorCode, message: String) -> (r: RpcFailure)
        ensures
            r.code == code,
            r.message == message,
    {
        RpcFailure { code, message }
    }

    /// A failure with this code and this message.
    pub fn of(code: RpcErrorCode, message: &str) -> (r: RpcFailure)
        ensures
            fails(r, code, message@),
    {
        RpcFailure { code, message: message.to_owned() }
    }

    /// The failure as an answer carries it.
    pub fn into_engine_error(self) -> (r: EngineError)
        ensures
            r.code@ == code_text(self.code),
            r.message == self.message,
    {
        EngineError { code: self.code.as_str().to_owned(), message: self.message }
    }
}

/// What the handling of a request gives back.
#[derive(Debug, PartialEq, Eq)]
pub enum Reply<T> {
    /// The request is answered.
    Done(T),
    /// The request is taken up, and ends later.
    Accepted(T),
    /// The request fails.
    Error(RpcFailure),
}

/// The answer to a request.
#[derive(Debug, PartialEq, Eq)]
pub struct RpcResponse {
    pub schema_version: String,
    pub request_id: String,
    pub status: ResponseStatus,
    pub timestamp_unix_ms: i64,
    pub hmac_sha256: Vec<u8>,
    pub payload: Vec<u8>,
    pub error: Option<EngineError>,
}

/// The error answer to a request: no payload, no signature.
pub fn rpc_error_response(
    schema_version: &str,
    request_id: &str,
    failure: RpcFailure,
    timestamp_unix_ms: i64,
) -> (r: RpcResponse)
    ensures
        r.schema_version@ == schema_version@,
        r.request_id@ == request_id@,
        r.status == ResponseStatus::Error,
        r.timestamp_unix_ms == timestamp_unix_ms,
        r.hmac_sha256@.len() == 0,
        r.payload@.len() == 0,
        r.error matches Some(e) && e.code@ == code_text(failure.code) && e.message
            == failure.message,
{
    RpcResponse {
        schema_version: schema_version.to_owned(),
        request_id: request_id.to_owned(),
        status: ResponseStatus::Error,
        timestamp_unix_ms,
        hmac_sha256: Vec::new(),
        payload: Vec::new(),
        error: Some(failure.into_engine_error()),
    }
}

/// The answer that carries an encoded reply. Only answers without an error are signed,
/// once they are complete.
pub fn build_response(
    schema_version: &str,
    request_id: &str,
    reply: Reply<Vec<u8>>,
    timestamp_unix_ms: i64,
) -> (r: RpcResponse)
    ensures
        r.schema_version@ == schema_version@,
        r.request_id@ == request_id@,
        r.timestamp_unix_ms == timestamp_unix_ms,
        r.hmac_sha256@.len() == 0,
        match reply {
            Reply::Done(payload) => r.status == ResponseStatus::Done && r.payload == payload
                && r.error is None,
            Reply::Accepted(payload) => r.status == ResponseStatus::Accepted && r.payload
                == payload && r.error is None,
            Reply::Error(failure) => {
                &&& r.status == ResponseStatus::Error
                &&& r.payload@.len() == 0
                &&& r.error matches Some(e)
                &&& e.code@ == code_text(failure.code)
                &&& e.message == failure.message
            },
        },
{
    let (status, payload) = match reply {
        Reply::Done(payload) => (ResponseStatus::Done, payload),
        Reply::Accepted(payload) => (ResponseStatus::Accepted, payload),
        Reply::Error(failure) => {
            return rpc_error_response(schema_version, request_id, failure, timestamp_unix_ms);
        },
    };
    RpcResponse {
        schema_version: schema_version.to_owned(),
        request_id: request_id.to_owned(),
        status,
        timestamp_unix_ms,
        hmac_sha256: Vec::new(),
        payload,
        error: None,
    }
}

/// The answer with its signature. An error answer stays unsigned, and so does an answer
/// for which there is no signature.
pub fn sign_response(response: RpcResponse, signature: Option<Vec<u8>>) -> (r: RpcResponse)
    ensures
        r == match signature {
            Some(s) => if response.status == ResponseStatus::Error {
                response
            } else {
                RpcResponse { hmac_sha256: s, ..response }
            },
            None => response,
        },
{
    let mut response = response;
    if response.status != ResponseStatus::Error {
        match signature {
            Some(s) => {
                response.hmac_sha256 = s;
            },
            None => {},
        }
    }
    response
}

/// What is known of the authenticity of a request.
#[derive(Debug, PartialEq, Eq)]
pub enum Authentication {
    /// No key is configured.
    Open,
    /// The configured key cannot be had.
    NoKey(String),
    /// The signature fits.
    Valid,
    /// The signature does not fit.
    Invalid,
    /// The signature cannot be examined.
    Unreadable(String),
}

/// Why a request is not even looked at.
pub open spec fn refusal(
    version: Seq<char>,
    supported: Seq<char>,
    authentication: Authentication,
) -> Option<(RpcErrorCode, Seq<char>)> {
    if version != supported {
        Some((RpcErrorCode::SchemaVersion, "unsupported schema version"@))
    } else {
        match authentication {
            Authentication::Open => None,
            Authentication::Valid => None,
            Authentication::Invalid => Some((RpcErrorCode::Auth, "invalid hmac"@)),
            Authentication::NoKey(m) => Some((RpcErrorCode::Auth, m@)),
            Authentication::Unreadable(m) => Some((RpcErrorCode::Auth, m@)),
        }
    }
}

/// What becomes of a request.
#[derive(Debug, PartialEq, Eq)]
pub enum Route {
    /// It is answered at once, with an empty payload.
    Empty(ResponseStatus),
    /// It is refused.
    Refuse(RpcFailure),
    /// The handler of this kind takes it.
    Handle(RpcKind),
}

/// What becomes of a request: first its schema version counts, then whether it is
/// authentic, then what it asks for.
pub fn handle_rpc_request(
    version: &str,
    supported: &str,
    authentication: Authentication,
    kind: RpcKind,
) -> (r: Route)
    ensures
        match refusal(version@, supported@, authentication) {
            Some((code, message)) => r matches Route::Refuse(f) && fails(f, code, message),
            None => match kind {
                RpcKind::Ping => r == Route::Empty(ResponseStatus::Done),
                RpcKind::RestartEngine => r == Route::Empty(ResponseStatus::Accepted),
                RpcKind::Unspecified => r matches Route::Refuse(f) && fails(
                    f,
                    RpcErrorCode::BadRequest,
                    "rpc kind is unspecified"@,
                ),
                other => r == Route::Handle(other),
            },
        },
{
    if !text::same(version, supported) {
        return Route::Refuse(
            RpcFailure::of(RpcErrorCode::SchemaVersion, "unsupported schema version"),
        );
    }
    match authentication {
        Authentication::Open => {},
        Authentication::Valid => {},
        Authentication::Invalid => {
            return Route::Refuse(RpcFailure::of(RpcErrorCode::Auth, "invalid hmac"));
        },
        Authentication::NoKey(message) => {
            return Route::Refuse(RpcFailure::new(RpcErrorCode::Auth, message));
        },
        Authentication::Unreadable(message) => {
            return Route::Refuse(RpcFailure::new(RpcErrorCode::Auth, message));
        },
    }
    match kind {
        RpcKind::Ping => Route::Empty(ResponseStatus::Done),
        RpcKind::RestartEngine => Route::Empty(ResponseStatus::Accepted),
        RpcKind::Unspecified => Route::Refuse(
            RpcFailure::of(RpcErrorCode::BadRequest, "rpc kind is unspecified"),
        ),
        other => Route::Handle(other),
    }
}

/// Whether the requested owner may shut the engine down: anyone may who names no owner.
pub fn shutdown_owner_authorized(actual: Option<&str>, requested: Option<&str>) -> (r: bool)
    ensures
        r == (text::opt_str(requested) is None || text::opt_str(actual) == text::opt_str(
            requested,
        )),
{
    match (requested, actual) {
        (None, _) => true,
        (Some(_), None) => false,
        (Some(owner), Some(current)) => text::same(owner, current),
    }
}

/// The answer to a shutdown request, of which either the requested owner was read or the
/// decoder's message is given.
pub fn handle_shutdown(actual: Option<&str>, requested: Result<Option<&str>, &str>) -> (r: Reply<()>)
    ensures
        match requested {
            Err(m) => r matches Reply::Error(f) && fails(
                f,
                RpcErrorCode::BadRequest,
                "invalid shutdown payload: "@ + m@,
            ),
            Ok(owner) => if text::opt_str(owner) is None || text::opt_str(actual) == text::opt_str(
                owner,
            ) {
                r == Reply::Accepted(())
            } else {
                r matches Reply::Error(f) && fails(
                    f,
                    RpcErrorCode::OwnerMismatch,
                    "engine ownership changed before conditional shutdown"@,
                )
            },
        },
{
    match requested {
        Err(message) => Reply::Error(
            RpcFailure::new(
                RpcErrorCode::BadRequest,
                text::cat("invalid shutdown payload: ", message),
            ),
        ),
        Ok(owner) => {
            if shutdown_owner_authorized(actual, owner) {
                Reply::Accepted(())
            } else {
                Reply::Error(
                    RpcFailure::of(
                        RpcErrorCode::OwnerMismatch,
                        "engine ownership changed before conditional shutdown",
                    ),
                )
            }
        },
    }
}

/// The answer to a payload that cannot be decoded.
pub fn undecodable<T>(message: &str) -> (r: Reply<T>)
    ensures
        r matches Reply::Error(f) && fails(f, RpcErrorCode::BadRequest, message@),
{
    Reply::Error(RpcFailure::of(RpcErrorCode::BadRequest, message))
}

/// A request with the wrong schema version is refused, whatever it asks for and whatever
/// is known of its authenticity.
pub proof fn version_counts_first(
    version: Seq<char>,
    supported: Seq<char>,
    authentication: Authentication,
)
    requires
        version != supported,
    ensures
        refusal(version, supported, authentication) == Some(
            (RpcErrorCode::SchemaVersion, "unsupported schema version"@),
        ),
{
}

/// Every error code has its text, and no two have the same.
pub proof fn error_codes_are_told_apart(a: RpcErrorCode, b: RpcErrorCode)
    ensures
        code_text(RpcErrorCode::BadRequest) == "BAD_REQUEST"@,
        code_text(RpcErrorCode::SchemaVersion) == "SCHEMA_VERSION"@,
        code_text(RpcErrorCode::Auth) == "AUTH"@,
        code_text(RpcErrorCode::Busy) == "BUSY"@,
        code_text(RpcErrorCode::PayloadTooLarge) == "PAYLOAD_TOO_LARGE"@,
        code_text(RpcErrorCode::Timeout) == "TIMEOUT"@,
        code_text(RpcErrorCode::OwnerMismatch) == "OWNER_MISMATCH"@,
        code_text(RpcErrorCode::RestartRequired) == "RESTART_REQUIRED"@,
        code_text(RpcErrorCode::Config) == "CONFIG"@,
        code_text(RpcErrorCode::Database) == "DATABASE"@,
        code_text(RpcErrorCode::Updater) == "UPDATER"@,
        code_text(RpcErrorCode::Fuzzy) == "FUZZY"@,
        code_text(RpcErrorCode::Resource) == "RESOURCE"@,
        code_text(RpcErrorCode::Weather) == "WEATHER"@,
        code_text(RpcErrorCode::Engine) == "ENGINE"@,
        code_text(a) == code_text(b) ==> a == b,
{
    reveal_strlit("BAD_REQUEST");
    reveal_strlit("SCHEMA_VERSION");
    reveal_strlit("AUTH");
    reveal_strlit("BUSY");
    reveal_strlit("PAYLOAD_TOO_LARGE");
    reveal_strlit("TIMEOUT");
    reveal_strlit("OWNER_MISMATCH");
    reveal_strlit("RESTART_REQUIRED");
    reveal_strlit("CONFIG");
    reveal_strlit("DATABASE");
    reveal_strlit("UPDATER");
    reveal_strlit("FUZZY");
    reveal_strlit("RESOURCE");
    reveal_strlit("WEATHER");
    reveal_strlit("ENGINE");
    if code_text(a) == code_text(b) {
        assert(code_text(a).len() == code_text(b).len());
        assert(code_text(a)[0] == code_text(b)[0]);
        assert(code_text(a)[1] == code_text(b)[1]);
        assert(code_text(a)[2] == code_text(b)[2]);
    }
}

/// A request is looked at exactly where its schema version is the supported one and either
/// no key is configured or its signature fits; whatever else fails is a failure to
/// authenticate.
pub proof fn only_authentic_requests_are_looked_at(
    version: Seq<char>,
    supported: Seq<char>,
    authentication: Authentication,
)
    ensures
        refusal(version, supported, authentication) is None <==> version == supported && (
        authentication is Open || authentication is Valid),
        version == supported && !(authentication is Open) && !(authentication is Valid) ==> (
        refusal(version, supported, authentication) matches Some((code, m)) && code
            == RpcErrorCode::Auth),
        version == supported && authentication is Invalid ==> refusal(
            version,
            supported,
            authentication,
        ) == Some((RpcErrorCode::Auth, "invalid hmac"@)),
{
}

/// A failure tells its code and its message.
pub proof fn failures_tell_code_and_message(f: RpcFailure, code: RpcErrorCode, message: Seq<char>)
    ensures
        fails(f, code, message) <==> f.code == code && f.message@ == message,
{
}

} // verus!
