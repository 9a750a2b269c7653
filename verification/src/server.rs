//! Running the engine: what ends it, how what ended it is reported, and what the request
//! socket does with a message. Errors are texts: the outermost context first, then a
//! colon, then what caused it.

use vstd::prelude::*;
use crate::limits::{payload_exceeds_limit, MAX_RPC_PAYLOAD_BYTES};
use crate::rpc::{self, RpcErrorCode, RpcFailure, RpcKind, RpcResponse, ResponseStatus};
use crate::text;

verus! {

/// How the engine ends.
#[derive(Debug, Clone, Copy, PartialEq, Eq, Structural)]
pub enum EngineExit {
    Shutdown,
    Restart,
}

/// The tasks without which the engine does not run.
#[derive(Debug, Clone, Copy, PartialEq, Eq, Structural)]
pub enum TaskKind {
    Router,
    Signal,
    Refresh,
}

/// The name of a task.
pub open spec fn task_name(kind: TaskKind) -> Seq<char> {
    match kind {
        TaskKind::Router => "Router"@,
        TaskKind::Signal => "Signal"@,
        TaskKind::Refresh => "Refresh"@,
    }
}

impl TaskKind {
    /// The name of the task.
    pub fn name(self) -> (r: &'static str)
        ensures
            r@ == task_name(self),
    {
        match self {
            TaskKind::Router => "Router",
            TaskKind::Signal => "Signal",
            TaskKind::Refresh => "Refresh",
        }
    }
}

/// How a task ended.
#[derive(Debug, PartialEq, Eq)]
pub enum TaskEnd {
    /// It returned.
    Returned(TaskKind),
    /// It returned an error.
    Failed(TaskKind, String),
    /// It panicked or was cancelled.
    Broken(String),
}

/// How the publisher ended.
#[derive(Debug, PartialEq, Eq)]
pub enum PublisherEnd {
    Returned,
    Failed(String),
    Broken(String),
}

/// What ends the engine's normal run.
#[derive(Debug, PartialEq, Eq)]
pub enum FirstEvent {
    /// An exit was asked for.
    Exit(EngineExit),
    /// A task ended.
    Task(TaskEnd),
    /// No task is left.
    NoTasks,
    /// The publisher ended.
    Publisher(PublisherEnd),
}

/// The engine while it ends.
#[derive(Debug, PartialEq, Eq)]
pub struct Ending {
    pub requested: Option<EngineExit>,
    pub failure: Option<String>,
    pub publisher_finished: bool,
}

/// The two failures as one.
pub open spec fn both_failures(failure: Option<Seq<char>>, error: Seq<char>) -> Seq<char> {
    match failure {
        Some(previous) => previous + "; additionally: "@ + error,
        None => error,
    }
}

/// Adds a failure to what failed before.
pub fn add_failure(failure: Option<String>, error: String) -> (r: Option<String>)
    ensures
        text::opt_text(r) == Some(both_failures(text::opt_text(failure), error@)),
{
    match failure {
        Some(previous) => {
            let mut all = previous;
            all.append("; additionally: ");
            all.append(error.as_str());
            Some(all)
        },
        None => Some(error),
    }
}

/// What is said of a publisher that ended while it was needed.
pub open spec fn publisher_exit_text(end: PublisherEnd) -> Seq<char> {
    match end {
        PublisherEnd::Returned => "critical engine task Publisher exited unexpectedly"@,
        PublisherEnd::Failed(m) => text::in_context("critical engine task Publisher failed"@, m@),
        PublisherEnd::Broken(m) => "critical engine task Publisher panicked or was cancelled: "@
            + m@,
    }
}

/// What is said of a publisher that ended while it was needed.
pub fn unexpected_publisher_exit(end: PublisherEnd) -> (r: String)
    ensures
        r@ == publisher_exit_text(end),
{
    match end {
        PublisherEnd::Returned => "critical engine task Publisher exited unexpectedly".to_owned(),
        PublisherEnd::Failed(m) => text::with_context("critical engine task Publisher failed", m.as_str()),
        PublisherEnd::Broken(m) => text::cat(
            "critical engine task Publisher panicked or was cancelled: ",
            m.as_str(),
        ),
    }
}

/// What failed while the publisher was closed down.
pub open spec fn publisher_cleanup_text(end: PublisherEnd) -> Option<Seq<char>> {
    match end {
        PublisherEnd::Returned => None,
        PublisherEnd::Failed(m) => Some(text::in_context("publisher cleanup failed"@, m@)),
        PublisherEnd::Broken(m) => Some(
            "publisher cleanup task panicked or was cancelled: "@ + m@,
        ),
    }
}

/// What failed while the publisher was closed down.
pub fn publisher_cleanup_failure(end: PublisherEnd) -> (r: Option<String>)
    ensures
        text::opt_text(r) == publisher_cleanup_text(end),
{
    match end {
        PublisherEnd::Returned => None,
        PublisherEnd::Failed(m) => Some(text::with_context("publisher cleanup failed", m.as_str())),
        PublisherEnd::Broken(m) => Some(
            text::cat("publisher cleanup task panicked or was cancelled: ", m.as_str()),
        ),
    }
}

/// The exit that an event asks for.
pub open spec fn exit_of(event: FirstEvent) -> Option<EngineExit> {
    match event {
        FirstEvent::Exit(exit) => Some(exit),
        FirstEvent::Task(TaskEnd::Returned(TaskKind::Signal)) => Some(EngineExit::Shutdown),
        _ => None,
    }
}

/// The failure that an event is.
pub open spec fn failure_of(event: FirstEvent) -> Option<Seq<char>> {
    match event {
        FirstEvent::Exit(_) => None,
        FirstEvent::Task(TaskEnd::Returned(kind)) => match kind {
            TaskKind::Signal => None,
            _ => Some("critical engine task "@ + task_name(kind) + " exited unexpectedly"@),
        },
        FirstEvent::Task(TaskEnd::Failed(kind, m)) => Some(
            text::in_context("critical engine task "@ + task_name(kind) + " failed"@, m@),
        ),
        FirstEvent::Task(TaskEnd::Broken(m)) => Some(
            "critical engine task panicked or was cancelled: "@ + m@,
        ),
        FirstEvent::NoTasks => Some("all critical engine tasks exited unexpectedly"@),
        FirstEvent::Publisher(end) => Some(publisher_exit_text(end)),
    }
}

/// The end that an event brings about.
pub fn begin_ending(event: FirstEvent) -> (r: Ending)
    ensures
        r.requested == exit_of(event),
        text::opt_text(r.failure) == failure_of(event),
        r.publisher_finished == (event is Publisher),
{
    match event {
        FirstEvent::Exit(exit) => Ending {
            requested: Some(exit),
            failure: None,
            publisher_finished: false,
        },
        FirstEvent::Task(TaskEnd::Returned(kind)) => match kind {
            TaskKind::Signal => Ending {
                requested: Some(EngineExit::Shutdown),
                failure: None,
                publisher_finished: false,
            },
            _ => Ending {
                requested: None,
                failure: Some(
                    text::cat("critical engine task ", kind.name()).concat(" exited unexpectedly"),
                ),
                publisher_finished: false,
            },
        },
        FirstEvent::Task(TaskEnd::Failed(kind, m)) => Ending {
            requested: None,
            failure: Some(
                text::with_context(
                    text::cat("critical engine task ", kind.name()).concat(" failed").as_str(),
                    m.as_str(),
                ),
            ),
            publisher_finished: false,
        },
        FirstEvent::Task(TaskEnd::Broken(m)) => Ending {
            requested: None,
            failure: Some(
                text::cat("critical engine task panicked or was cancelled: ", m.as_str()),
            ),
            publisher_finished: false,
        },
        FirstEvent::NoTasks => Ending {
            requested: None,
            failure: Some("all critical engine tasks exited unexpectedly".to_owned()),
            publisher_finished: false,
        },
        FirstEvent::Publisher(end) => Ending {
            requested: None,
            failure: Some(unexpected_publisher_exit(end)),
            publisher_finished: true,
        },
    }
}

/// One step of waiting for the tasks to end.
#[derive(Debug, PartialEq, Eq)]
pub enum DrainEvent {
    /// A task ended.
    Ended(TaskEnd),
    /// No task is left.
    Empty,
    /// The time is up, which is told in this text.
    TimedOut(String),
}

/// What failed in a step of waiting.
pub open spec fn drain_text(event: DrainEvent) -> Option<Seq<char>> {
    match event {
        DrainEvent::Ended(TaskEnd::Returned(_)) => None,
        DrainEvent::Ended(TaskEnd::Failed(kind, m)) => Some(
            text::in_context("engine task "@ + task_name(kind) + " cleanup failed"@, m@),
        ),
        DrainEvent::Ended(TaskEnd::Broken(m)) => Some(
            "engine task cleanup panicked or was cancelled: "@ + m@,
        ),
        DrainEvent::Empty => None,
        DrainEvent::TimedOut(limit) => Some("engine task cleanup timed out after "@ + limit@),
    }
}

/// What failed so far, after one more step.
pub open spec fn drained(failure: Option<Seq<char>>, event: DrainEvent) -> Option<Seq<char>> {
    match drain_text(event) {
        Some(m) => Some(both_failures(failure, m)),
        None => failure,
    }
}

/// Takes note of a step of waiting for the tasks to end. Where the waiting goes on, the
/// second value says so; when the time is up the rest is to be aborted.
pub fn drain_step(failure: Option<String>, event: DrainEvent) -> (r: (Option<String>, bool))
    ensures
        text::opt_text(r.0) == drained(text::opt_text(failure), event),
        r.1 == (event is Ended),
{
    match event {
        DrainEvent::Ended(TaskEnd::Returned(_)) => (failure, true),
        DrainEvent::Ended(TaskEnd::Failed(kind, m)) => {
            let context = text::cat("engine task ", kind.name()).concat(" cleanup failed");
            (add_failure(failure, text::with_context(context.as_str(), m.as_str())), true)
        },
        DrainEvent::Ended(TaskEnd::Broken(m)) => (
            add_failure(
                failure,
                text::cat("engine task cleanup panicked or was cancelled: ", m.as_str()),
            ),
            true,
        ),
        DrainEvent::Empty => (failure, false),
        DrainEvent::TimedOut(limit) => (
            add_failure(failure, text::cat("engine task cleanup timed out after ", limit.as_str())),
            false,
        ),
    }
}

/// What is told of the engine.
#[derive(Debug, Clone, Copy, PartialEq, Eq, Structural)]
pub enum LifecycleState {
    Starting,
    Ready,
    Stopping,
    Failed,
}

/// What is told of the engine at its end.
pub open spec fn terminal_text(requested: Option<EngineExit>, failure: Option<Seq<char>>) -> (
    LifecycleState,
    Option<Seq<char>>,
) {
    match failure {
        Some(m) => (LifecycleState::Failed, Some(m)),
        None => match requested {
            Some(EngineExit::Restart) => (
                LifecycleState::Stopping,
                Some("engine restart requested"@),
            ),
            _ => (LifecycleState::Stopping, Some("engine shutdown requested"@)),
        },
    }
}

/// What is told of the engine at its end.
pub fn terminal_lifecycle(requested: Option<EngineExit>, failure: Option<&str>) -> (r: (
    LifecycleState,
    Option<String>,
))
    ensures
        (r.0, text::opt_text(r.1)) == terminal_text(requested, text::opt_str(failure)),
{
    match failure {
        Some(message) => (LifecycleState::Failed, Some(message.to_owned())),
        None => match requested {
            Some(EngineExit::Restart) => (
                LifecycleState::Stopping,
                Some("engine restart requested".to_owned()),
            ),
            _ => (LifecycleState::Stopping, Some("engine shutdown requested".to_owned())),
        },
    }
}

/// How the closing down of the publisher ended.
#[derive(Debug, PartialEq, Eq)]
pub enum PublisherClose {
    Ended(PublisherEnd),
    /// The time is up, which is told in this text.
    TimedOut(String),
}

/// How the shutdown of the database ended.
#[derive(Debug, PartialEq, Eq)]
pub enum DbClose {
    Closed,
    Failed(String),
    /// The time is up, which is told in this text.
    TimedOut(String),
}

/// What failed at the shutdown of the database.
pub open spec fn db_close_text(close: DbClose) -> Option<Seq<char>> {
    match close {
        DbClose::Closed => None,
        DbClose::Failed(m) => Some(text::in_context("failed to shut down DB actor"@, m@)),
        DbClose::TimedOut(limit) => Some("DB shutdown timed out after "@ + limit@),
    }
}

/// What failed at the shutdown of the database.
pub fn bounded_db_shutdown(close: DbClose) -> (r: Option<String>)
    ensures
        text::opt_text(r) == db_close_text(close),
{
    match close {
        DbClose::Closed => None,
        DbClose::Failed(m) => Some(text::with_context("failed to shut down DB actor", m.as_str())),
        DbClose::TimedOut(limit) => Some(text::cat("DB shutdown timed out after ", limit.as_str())),
    }
}

/// What failed so far, where `error` may have failed in addition.
pub open spec fn also(failure: Option<Seq<char>>, error: Option<Seq<char>>) -> Option<Seq<char>> {
    match error {
        Some(m) => Some(both_failures(failure, m)),
        None => failure,
    }
}

/// What failed until the tasks and the database were closed down, with a publisher that
/// ended on the way.
pub open spec fn closing_failure(
    ending: Ending,
    drain: Option<Seq<char>>,
    db: DbClose,
    publisher: Option<PublisherEnd>,
) -> Option<Seq<char>> {
    also(
        also(also(text::opt_text(ending.failure), drain), db_close_text(db)),
        match publisher {
            Some(end) => if ending.publisher_finished {
                None
            } else {
                Some(publisher_exit_text(end))
            },
            None => None,
        },
    )
}

fn also_failed(failure: Option<String>, error: Option<String>) -> (r: Option<String>)
    ensures
        text::opt_text(r) == also(text::opt_text(failure), text::opt_text(error)),
{
    match error {
        Some(error) => add_failure(failure, error),
        None => failure,
    }
}

impl Ending {
    /// The end, once the tasks and the database are closed down. A publisher that is
    /// found ended by then failed, unless its end is what ended the engine.
    pub fn close_work(
        self,
        drain: Option<String>,
        db: DbClose,
        publisher: Option<PublisherEnd>,
    ) -> (r: Ending)
        ensures
            r.requested == self.requested,
            text::opt_text(r.failure) == closing_failure(
                self,
                text::opt_text(drain),
                db,
                publisher,
            ),
            r.publisher_finished == (self.publisher_finished || publisher is Some),
    {
        let Ending { requested, failure, publisher_finished } = self;
        let failure = also_failed(failure, drain);
        let failure = also_failed(failure, bounded_db_shutdown(db));
        match publisher {
            Some(end) => {
                if publisher_finished {
                    Ending { requested, failure, publisher_finished }
                } else {
                    Ending {
                        requested,
                        failure: add_failure(failure, unexpected_publisher_exit(end)),
                        publisher_finished: true,
                    }
                }
            },
            None => Ending { requested, failure, publisher_finished },
        }
    }

    /// What is told of the engine at this end.
    pub fn terminal(&self) -> (r: (LifecycleState, Option<String>))
        ensures
            (r.0, text::opt_text(r.1)) == terminal_text(self.requested, text::opt_text(self.failure)),
    {
        match &self.failure {
            Some(failure) => terminal_lifecycle(self.requested, Some(failure.as_str())),
            None => terminal_lifecycle(self.requested, None),
        }
    }

    /// The end, once the publisher is closed down, where it had not ended before.
    pub fn close_publisher(self, close: PublisherClose) -> (r: Ending)
        ensures
            r.requested == self.requested,
            r.publisher_finished,
            text::opt_text(r.failure) == if self.publisher_finished {
                text::opt_text(self.failure)
            } else {
                also(text::opt_text(self.failure), publisher_close_text(close))
            },
    {
        let Ending { requested, failure, publisher_finished } = self;
        if publisher_finished {
            return Ending { requested, failure, publisher_finished };
        }
        let error = match close {
            PublisherClose::Ended(end) => publisher_cleanup_failure(end),
            PublisherClose::TimedOut(limit) => Some(
                text::cat("publisher cleanup timed out after ", limit.as_str()),
            ),
        };
        Ending { requested, failure: also_failed(failure, error), publisher_finished: true }
    }

    /// How the engine ended: with what failed, else with the exit that was asked for.
    pub fn outcome(self) -> (r: Result<EngineExit, String>)
        ensures
            match self.failure {
                Some(m) => r == Err::<EngineExit, _>(m),
                None => r == Ok::<_, String>(
                    match self.requested {
                        Some(exit) => exit,
                        None => EngineExit::Shutdown,
                    },
                ),
            },
    {
        match self.failure {
            Some(message) => Err(message),
            None => match self.requested {
                Some(exit) => Ok(exit),
                None => Ok(EngineExit::Shutdown),
            },
        }
    }
}

/// What failed while the publisher was closed down.
pub open spec fn publisher_close_text(close: PublisherClose) -> Option<Seq<char>> {
    match close {
        PublisherClose::Ended(end) => publisher_cleanup_text(end),
        PublisherClose::TimedOut(limit) => Some("publisher cleanup timed out after "@ + limit@),
    }
}

/// What is told of the engine at its end, and how it ended, for everything that happened
/// on the way.
pub fn run_bound_engine(
    event: FirstEvent,
    drain: Option<String>,
    db: DbClose,
    publisher: Option<PublisherEnd>,
    close: PublisherClose,
) -> (r: ((LifecycleState, Option<String>), Result<EngineExit, String>))
    ensures
        ({
            let closing = closing_of(event, text::opt_text(drain), db, publisher);
            let last = if event is Publisher || publisher is Some {
                closing
            } else {
                also(closing, publisher_close_text(close))
            };
            &&& (r.0.0, text::opt_text(r.0.1)) == terminal_text(exit_of(event), closing)
            &&& match last {
                Some(m) => r.1 matches Err(e) && e@ == m,
                None => r.1 == Ok::<_, String>(
                    match exit_of(event) {
                        Some(exit) => exit,
                        None => EngineExit::Shutdown,
                    },
                ),
            }
        }),
{
    let ending = begin_ending(event).close_work(drain, db, publisher);
    let terminal = ending.terminal();
    (terminal, ending.close_publisher(close).outcome())
}

/// What failed until the tasks and the database were closed down.
pub open spec fn closing_of(
    event: FirstEvent,
    drain: Option<Seq<char>>,
    db: DbClose,
    publisher: Option<PublisherEnd>,
) -> Option<Seq<char>> {
    also(
        also(also(failure_of(event), drain), db_close_text(db)),
        match publisher {
            Some(end) => if event is Publisher {
                None
            } else {
                Some(publisher_exit_text(end))
            },
            None => None,
        },
    )
}

/// Whatever fails after the first failure is told after it, and nothing that failed is
/// lost.
pub proof fn first_failure_comes_first(failure: Seq<char>, error: Option<Seq<char>>)
    ensures
        also(Some(failure), error) matches Some(m) && text::begins(m, failure),
        error matches Some(e) ==> text::ends(also(Some(failure), error)->0, e),
{
    match error {
        Some(e) => {
            let m = failure + "; additionally: "@ + e;
            assert(m.subrange(0, failure.len() as int) =~= failure);
            assert(m.subrange(m.len() - e.len(), m.len() as int) =~= e);
        },
        None => {
            assert(failure.subrange(0, failure.len() as int) =~= failure);
        },
    }
}

/// An engine that ends without a failure ends as it was asked to, and the closing down of
/// work cannot hide a failure.
pub proof fn failures_are_not_hidden(
    event: FirstEvent,
    drain: Option<Seq<char>>,
    db: DbClose,
    publisher: Option<PublisherEnd>,
)
    ensures
        closing_of(event, drain, db, publisher) is None <==> failure_of(event) is None && drain
            is None && db is Closed && (publisher is None || event is Publisher),
        failure_of(event) is None <==> exit_of(event) is Some,
{
}

/// The least time for closing down, in nanoseconds.
pub const MIN_CLEANUP_TIMEOUT: u128 = 2_000_000_000;

/// The most time for closing down, in nanoseconds.
pub const MAX_CLEANUP_TIMEOUT: u128 = 10_000_000_000;

/// The time for closing down: that of a request, within its bounds.
pub fn cleanup_timeout(request_timeout: u128) -> (r: u128)
    ensures
        r == if request_timeout < MIN_CLEANUP_TIMEOUT {
            MIN_CLEANUP_TIMEOUT
        } else if request_timeout > MAX_CLEANUP_TIMEOUT {
            MAX_CLEANUP_TIMEOUT
        } else {
            request_timeout
        },
{
    if request_timeout < MIN_CLEANUP_TIMEOUT {
        MIN_CLEANUP_TIMEOUT
    } else if request_timeout > MAX_CLEANUP_TIMEOUT {
        MAX_CLEANUP_TIMEOUT
    } else {
        request_timeout
    }
}

/// A configured time limit in milliseconds: at least one.
pub fn at_least_one_ms(timeout_ms: u64) -> (r: u64)
    ensures
        r == if timeout_ms == 0 {
            1
        } else {
            timeout_ms
        },
{
    if timeout_ms == 0 {
        1
    } else {
        timeout_ms
    }
}

/// What is said of an engine that could not start, where the shutdown of the database may
/// have failed too.
pub fn startup_failure(error: String, db: DbClose) -> (r: String)
    ensures
        r@ == match db_close_text(db) {
            Some(m) => text::in_context("DB shutdown also failed: "@ + m, error@),
            None => error@,
        },
{
    match bounded_db_shutdown(db) {
        Some(message) => text::with_context(
            text::cat("DB shutdown also failed: ", message.as_str()).as_str(),
            error.as_str(),
        ),
        None => error,
    }
}

/// What is said of a request socket that could not be bound, where closing the publisher
/// may have failed too.
pub fn bind_failure(error: String, close: Result<(), String>) -> (r: String)
    ensures
        r@ == match close {
            Ok(_) => error@,
            Err(m) => error@ + "; PUB cleanup after RPC bind failure also failed: "@ + m@,
        },
{
    match close {
        Ok(_) => error,
        Err(message) => {
            let mut all = error;
            all.append("; PUB cleanup after RPC bind failure also failed: ");
            all.append(message.as_str());
            all
        },
    }
}

/// What became of closing a socket, given the errors that it reported.
pub fn close_socket(label: &str, errors: &Vec<String>) -> (r: Result<(), String>)
    ensures
        if errors@.len() == 0 {
            r is Ok
        } else {
            r matches Err(m) && m@ == "failed to close "@ + label@ + " socket: "@ + text::joined(
                text::texts(errors@),
                "; "@,
            )
        },
{
    if errors.len() == 0 {
        return Ok(());
    }
    let mut m = text::cat("failed to close ", label);
    m.append(" socket: ");
    m.append(text::join(errors, "; ").as_str());
    Err(m)
}

/// How a task ended that had a socket to close.
pub fn finish_with_cleanup(
    outcome: Result<(), String>,
    cleanup: Result<(), String>,
    cleanup_context: &str,
) -> (r: Result<(), String>)
    ensures
        match (outcome, cleanup) {
            (Ok(_), Ok(_)) => r is Ok,
            (Err(m), Ok(_)) => r == Err::<(), _>(m),
            (Ok(_), Err(c)) => r matches Err(m) && m@ == text::in_context(cleanup_context@, c@),
            (Err(e), Err(c)) => r matches Err(m) && m@ == e@ + "; "@ + text::in_context(
                cleanup_context@,
                c@,
            ),
        },
{
    match (outcome, cleanup) {
        (Ok(_), Ok(_)) => Ok(()),
        (Err(error), Ok(_)) => Err(error),
        (Ok(_), Err(error)) => Err(text::with_context(cleanup_context, error.as_str())),
        (Err(error), Err(cleanup_error)) => {
            let mut all = error;
            all.append("; ");
            all.append(text::with_context(cleanup_context, cleanup_error.as_str()).as_str());
            Err(all)
        },
    }
}

/// What the publisher got from the event channel.
#[derive(Debug, PartialEq, Eq)]
pub enum ChannelEvent {
    /// An event, which is to be sent.
    Event,
    /// Events were skipped.
    Lagged,
    /// No event is there, or the one that was there has been sent.
    Empty,
    /// The channel is closed.
    Closed,
}

/// What the publisher does next.
#[derive(Debug, PartialEq, Eq)]
pub enum PublisherStep {
    /// Send the event.
    Send,
    /// Wait for the next event.
    Next,
    /// Send what is left, and end.
    Drain,
    /// End.
    Stop,
    /// End with this failure.
    Fail(String),
}

/// What the publisher does with what it got from the channel.
pub fn publisher_step(event: ChannelEvent, cancelled: bool) -> (r: PublisherStep)
    ensures
        match event {
            ChannelEvent::Event => r == PublisherStep::Send,
            ChannelEvent::Lagged => r == PublisherStep::Next,
            ChannelEvent::Empty => r == if cancelled {
                PublisherStep::Drain
            } else {
                PublisherStep::Next
            },
            ChannelEvent::Closed => if cancelled {
                r == PublisherStep::Stop
            } else {
                r matches PublisherStep::Fail(m) && m@ == "engine event channel closed unexpectedly"@
            },
        },
{
    match event {
        ChannelEvent::Event => PublisherStep::Send,
        ChannelEvent::Lagged => PublisherStep::Next,
        ChannelEvent::Empty => {
            if cancelled {
                PublisherStep::Drain
            } else {
                PublisherStep::Next
            }
        },
        ChannelEvent::Closed => {
            if cancelled {
                PublisherStep::Stop
            } else {
                PublisherStep::Fail("engine event channel closed unexpectedly".to_owned())
            }
        },
    }
}

/// What the publisher does with what is left in the channel while it closes down.
pub fn drain_publisher_step(event: ChannelEvent) -> (r: PublisherStep)
    ensures
        r == match event {
            ChannelEvent::Event => PublisherStep::Send,
            ChannelEvent::Lagged => PublisherStep::Next,
            ChannelEvent::Empty => PublisherStep::Stop,
            ChannelEvent::Closed => PublisherStep::Stop,
        },
{
    match event {
        ChannelEvent::Event => PublisherStep::Send,
        ChannelEvent::Lagged => PublisherStep::Next,
        ChannelEvent::Empty => PublisherStep::Stop,
        ChannelEvent::Closed => PublisherStep::Stop,
    }
}

/// What the request socket does with a message.
#[derive(Debug, PartialEq, Eq)]
pub enum RouterAction {
    /// Nothing: there is nobody to answer.
    Ignore,
    /// Answer with a failure. The request id is that of the payload, where the message
    /// has one that can be read.
    Refuse { failure: RpcFailure, correlated: bool },
    /// Take one of the places, and work on the request.
    Start,
}

/// Why a message is not worked on.
pub open spec fn message_fault(frames: Seq<Vec<u8>>, free_places: nat) -> Option<
    (RpcErrorCode, Seq<char>),
> {
    if frames.len() < 2 {
        Some((RpcErrorCode::BadRequest, "missing rpc frame"@))
    } else if frames.len() > 2 {
        Some((RpcErrorCode::BadRequest, "unexpected extra rpc frames"@))
    } else if frames[1]@.len() > MAX_RPC_PAYLOAD_BYTES {
        Some(
            (
                RpcErrorCode::PayloadTooLarge,
                "rpc payload "@ + text::numeral(frames[1]@.len()) + " bytes exceeds maximum "@
                    + text::numeral(MAX_RPC_PAYLOAD_BYTES as nat),
            ),
        )
    } else if free_places == 0 {
        Some((RpcErrorCode::Busy, "maximum concurrent RPC requests reached"@))
    } else {
        None
    }
}

/// What the request socket does with a message: the first frame is who sent it, the
/// second the request, and there is no third.
pub fn router_action(frames: &Vec<Vec<u8>>, free_places: usize) -> (r: RouterAction)
    ensures
        if frames@.len() == 0 {
            r is Ignore
        } else {
            match message_fault(frames@, free_places as nat) {
                Some((code, m)) => {
                    &&& r matches RouterAction::Refuse { failure, correlated }
                    &&& rpc::fails(failure, code, m)
                    &&& correlated == (frames@.len() >= 2)
                },
                None => r is Start,
            }
        },
{
    if frames.len() == 0 {
        return RouterAction::Ignore;
    }
    if frames.len() < 2 {
        return RouterAction::Refuse {
            failure: RpcFailure::of(RpcErrorCode::BadRequest, "missing rpc frame"),
            correlated: false,
        };
    }
    if frames.len() > 2 {
        return RouterAction::Refuse {
            failure: RpcFailure::of(RpcErrorCode::BadRequest, "unexpected extra rpc frames"),
            correlated: true,
        };
    }
    let len = frames[1].len();
    if payload_exceeds_limit(len) {
        let mut m = text::cat("rpc payload ", text::decimal(len as u64).as_str());
        m.append(" bytes exceeds maximum ");
        m.append(text::decimal(MAX_RPC_PAYLOAD_BYTES as u64).as_str());
        return RouterAction::Refuse {
            failure: RpcFailure::new(RpcErrorCode::PayloadTooLarge, m),
            correlated: true,
        };
    }
    if free_places == 0 {
        return RouterAction::Refuse {
            failure: RpcFailure::of(
                RpcErrorCode::Busy,
                "maximum concurrent RPC requests reached",
            ),
            correlated: true,
        };
    }
    RouterAction::Start
}

/// The failure of a request that cannot be decoded.
pub fn undecoded_request(message: &str) -> (r: RpcFailure)
    ensures
        rpc::fails(r, RpcErrorCode::BadRequest, "invalid rpc request: "@ + message@),
{
    RpcFailure::new(RpcErrorCode::BadRequest, text::cat("invalid rpc request: ", message))
}

/// The failure of a request whose time is up; the limit is given as a text.
pub fn request_timed_out(limit: &str) -> (r: RpcFailure)
    ensures
        rpc::fails(r, RpcErrorCode::Timeout, "rpc request timed out after "@ + limit@),
{
    RpcFailure::new(RpcErrorCode::Timeout, text::cat("rpc request timed out after ", limit))
}

/// The exit that an answer grants.
pub open spec fn granted_exit(kind: RpcKind, status: ResponseStatus) -> Option<EngineExit> {
    if status != ResponseStatus::Accepted {
        None
    } else {
        match kind {
            RpcKind::RestartEngine => Some(EngineExit::Restart),
            RpcKind::Shutdown => Some(EngineExit::Shutdown),
            _ => None,
        }
    }
}

/// The exit that an answer grants.
pub fn accepted_exit(kind: RpcKind, response: &RpcResponse) -> (r: Option<EngineExit>)
    ensures
        r == granted_exit(kind, response.status),
{
    if response.status != ResponseStatus::Accepted {
        return None;
    }
    match kind {
        RpcKind::RestartEngine => Some(EngineExit::Restart),
        RpcKind::Shutdown => Some(EngineExit::Shutdown),
        _ => None,
    }
}

/// The exit to ask for once an answer was sent: none where it could not be sent.
pub fn exit_after_sending(sent: bool, exit: Option<EngineExit>) -> (r: Option<EngineExit>)
    ensures
        r == if sent {
            exit
        } else {
            None
        },
{
    if sent {
        exit
    } else {
        None
    }
}

/// The exit that holds after one more was asked for: the first one.
pub open spec fn exit_after(current: Option<EngineExit>, exit: EngineExit) -> Option<EngineExit> {
    match current {
        Some(first) => Some(first),
        None => Some(exit),
    }
}

/// The exit that was asked for first, if any.
#[derive(Debug)]
pub struct ExitRequest {
    exit: Option<EngineExit>,
}

impl View for ExitRequest {
    type V = Option<EngineExit>;

    closed spec fn view(&self) -> Option<EngineExit> {
        self.exit
    }
}

impl ExitRequest {
    /// No exit is asked for.
    pub fn new() -> (r: ExitRequest)
        ensures
            r@ is None,
    {
        ExitRequest { exit: None }
    }

    /// Asks for an exit. Says whether it is the first one.
    pub fn request_exit(&mut self, exit: EngineExit) -> (r: bool)
        ensures
            final(self)@ == exit_after(old(self)@, exit),
            r == old(self)@ is None,
    {
        if self.exit.is_some() {
            false
        } else {
            self.exit = Some(exit);
            true
        }
    }

    /// The exit that was asked for.
    pub fn requested(&self) -> (r: Option<EngineExit>)
        ensures
            r == self@,
    {
        self.exit
    }
}

/// The exit to take: what was asked for, or a shutdown once nobody can ask any more.
/// Until then there is nothing to take.
pub fn wait_for_exit(requested: Option<EngineExit>, closed: bool) -> (r: Option<EngineExit>)
    ensures
        r == match requested {
            Some(exit) => Some(exit),
            None => if closed {
                Some(EngineExit::Shutdown)
            } else {
                None
            },
        },
{
    match requested {
        Some(exit) => Some(exit),
        None => {
            if closed {
                Some(EngineExit::Shutdown)
            } else {
                None
            }
        },
    }
}

/// The first exit that is asked for is the one that is taken, whatever is asked for later.
pub proof fn first_exit_stays(current: Option<EngineExit>, first: EngineExit, later: EngineExit)
    ensures
        exit_after(exit_after(current, first), later) == exit_after(current, first),
{
}

/// Failures are told in the order in which they came, and what did not fail is not told.
pub proof fn failures_are_told_in_turn(first: Seq<char>, second: Seq<char>)
    ensures
        also(None, None) is None,
        also(Some(first), None) == Some(first),
        also(None, Some(second)) == Some(second),
        also(Some(first), Some(second)) == Some(first + "; additionally: "@ + second),
        both_failures(None, second) == second,
        both_failures(Some(first), second) == first + "; additionally: "@ + second,
{
}

/// Only an exit that was asked for and the end of the signal task end the engine without a
/// failure; the latter shuts it down.
pub proof fn exits_are_asked_for(event: FirstEvent, exit: EngineExit)
    ensures
        exit_of(FirstEvent::Exit(exit)) == Some(exit),
        exit_of(FirstEvent::Task(TaskEnd::Returned(TaskKind::Signal))) == Some(
            EngineExit::Shutdown,
        ),
        exit_of(event) is Some <==> event is Exit || event == FirstEvent::Task(
            TaskEnd::Returned(TaskKind::Signal),
        ),
        failure_of(event) is Some <==> !(event is Exit) && event != FirstEvent::Task(
            TaskEnd::Returned(TaskKind::Signal),
        ),
{
}

/// What ended the engine is told by the task and the reason.
pub proof fn failed_tasks_are_named(m: String)
    ensures
        failure_of(FirstEvent::Task(TaskEnd::Returned(TaskKind::Router))) == Some(
            "critical engine task "@ + "Router"@ + " exited unexpectedly"@,
        ),
        failure_of(FirstEvent::Task(TaskEnd::Returned(TaskKind::Refresh))) == Some(
            "critical engine task "@ + "Refresh"@ + " exited unexpectedly"@,
        ),
        failure_of(FirstEvent::Task(TaskEnd::Failed(TaskKind::Router, m))) == Some(
            "critical engine task "@ + "Router"@ + " failed"@ + ": "@ + m@,
        ),
        failure_of(FirstEvent::Task(TaskEnd::Failed(TaskKind::Signal, m))) == Some(
            "critical engine task "@ + "Signal"@ + " failed"@ + ": "@ + m@,
        ),
        failure_of(FirstEvent::Task(TaskEnd::Failed(TaskKind::Refresh, m))) == Some(
            "critical engine task "@ + "Refresh"@ + " failed"@ + ": "@ + m@,
        ),
        failure_of(FirstEvent::Task(TaskEnd::Broken(m))) == Some(
            "critical engine task panicked or was cancelled: "@ + m@,
        ),
        failure_of(FirstEvent::NoTasks) == Some("all critical engine tasks exited unexpectedly"@),
        failure_of(FirstEvent::Publisher(PublisherEnd::Returned)) == Some(
            "critical engine task Publisher exited unexpectedly"@,
        ),
        failure_of(FirstEvent::Publisher(PublisherEnd::Failed(m))) == Some(
            "critical engine task Publisher failed"@ + ": "@ + m@,
        ),
        failure_of(FirstEvent::Publisher(PublisherEnd::Broken(m))) == Some(
            "critical engine task Publisher panicked or was cancelled: "@ + m@,
        ),
{
}

/// While work is closed down, a task that returns is no failure, and the end of the time is
/// one; a failure is told behind those before it.
pub proof fn closing_down_is_watched(failure: Option<Seq<char>>, kind: TaskKind, m: String)
    ensures
        drained(failure, DrainEvent::Ended(TaskEnd::Returned(kind))) == failure,
        drained(failure, DrainEvent::Empty) == failure,
        drained(None, DrainEvent::Ended(TaskEnd::Failed(TaskKind::Router, m))) == Some(
            "engine task "@ + "Router"@ + " cleanup failed"@ + ": "@ + m@,
        ),
        drained(failure, DrainEvent::Ended(TaskEnd::Failed(kind, m))) is Some,
        drained(None, DrainEvent::Ended(TaskEnd::Broken(m))) == Some(
            "engine task cleanup panicked or was cancelled: "@ + m@,
        ),
        drained(None, DrainEvent::TimedOut(m)) == Some(
            "engine task cleanup timed out after "@ + m@,
        ),
        failure is Some ==> drained(failure, DrainEvent::TimedOut(m)) == Some(
            failure.unwrap() + "; additionally: "@ + ("engine task cleanup timed out after "@ + m@),
        ),
        db_close_text(DbClose::Closed) is None,
        db_close_text(DbClose::Failed(m)) == Some("failed to shut down DB actor"@ + ": "@ + m@),
        db_close_text(DbClose::TimedOut(m)) == Some("DB shutdown timed out after "@ + m@),
        publisher_close_text(PublisherClose::Ended(PublisherEnd::Returned)) is None,
        publisher_close_text(PublisherClose::Ended(PublisherEnd::Failed(m))) == Some(
            "publisher cleanup failed"@ + ": "@ + m@,
        ),
        publisher_close_text(PublisherClose::Ended(PublisherEnd::Broken(m))) == Some(
            "publisher cleanup task panicked or was cancelled: "@ + m@,
        ),
        publisher_close_text(PublisherClose::TimedOut(m)) == Some(
            "publisher cleanup timed out after "@ + m@,
        ),
{
}

/// The engine is told to have failed exactly where something failed, with that; else to
/// stop, for the reason that was given.
pub proof fn ends_are_told(requested: Option<EngineExit>, failure: Option<Seq<char>>)
    ensures
        terminal_text(requested, failure).0 == LifecycleState::Failed <==> failure is Some,
        failure is None ==> terminal_text(requested, failure).0 == LifecycleState::Stopping,
        failure is Some ==> terminal_text(requested, failure).1 == failure,
        failure is None && requested == Some(EngineExit::Restart) ==> terminal_text(
            requested,
            failure,
        ).1 == Some("engine restart requested"@),
        failure is None && requested != Some(EngineExit::Restart) ==> terminal_text(
            requested,
            failure,
        ).1 == Some("engine shutdown requested"@),
{
}

/// Everything that failed until the end is told, in the order in which it came: what ended
/// the engine, its tasks, its database and its publisher.
pub proof fn everything_that_failed_is_told(
    exit: EngineExit,
    m: String,
    drain: Seq<char>,
    d: String,
    p: PublisherEnd,
)
    ensures
        closing_of(FirstEvent::Exit(exit), None, DbClose::Closed, None) is None,
        closing_of(FirstEvent::Exit(exit), Some(drain), DbClose::Closed, None) == Some(drain),
        closing_of(FirstEvent::Task(TaskEnd::Broken(m)), Some(drain), DbClose::TimedOut(d), None)
            == Some(
            "critical engine task panicked or was cancelled: "@ + m@ + "; additionally: "@ + drain
                + "; additionally: "@ + ("DB shutdown timed out after "@ + d@),
        ),
        closing_of(FirstEvent::Exit(exit), None, DbClose::Closed, Some(PublisherEnd::Returned))
            == Some("critical engine task Publisher exited unexpectedly"@),
        closing_of(FirstEvent::Publisher(p), None, DbClose::Closed, Some(p)) == failure_of(
            FirstEvent::Publisher(p),
        ),
{
}

/// What failed while an engine ended is what failed before, then its tasks, its database
/// and its publisher.
pub proof fn endings_tell_everything(
    ending: Ending,
    drain: Option<Seq<char>>,
    db: DbClose,
    publisher: Option<PublisherEnd>,
)
    ensures
        closing_failure(ending, drain, db, publisher) is None <==> ending.failure is None && drain
            is None && db is Closed && (publisher is None || ending.publisher_finished),
        ending.failure is Some && drain is None && db is Closed && publisher is None
            ==> closing_failure(ending, drain, db, publisher) == Some(ending.failure.unwrap()@),
        ending.failure is Some && drain is Some && db is Closed && publisher is None
            ==> closing_failure(ending, drain, db, publisher) == Some(
            ending.failure.unwrap()@ + "; additionally: "@ + drain.unwrap(),
        ),
{
}

/// A message is worked on exactly where it has a sender and one frame of at most a mebibyte
/// and there is a free place; what is wrong with the message is told before that there is
/// no place.
pub proof fn well_formed_messages_are_worked_on(frames: Seq<Vec<u8>>, free_places: nat)
    ensures
        message_fault(frames, free_places) is None <==> frames.len() == 2 && frames[1]@.len()
            <= 1_048_576 && free_places > 0,
        frames.len() != 2 ==> (message_fault(frames, free_places) matches Some((code, m)) && code
            == RpcErrorCode::BadRequest),
        frames.len() == 2 && frames[1]@.len() > 1_048_576 ==> (message_fault(
            frames,
            free_places,
        ) matches Some((code, m)) && code == RpcErrorCode::PayloadTooLarge),
        frames.len() == 2 && frames[1]@.len() <= 1_048_576 && free_places == 0 ==> (message_fault(
            frames,
            free_places,
        ) matches Some((code, m)) && code == RpcErrorCode::Busy),
{
}

/// An exit is granted only with a request for one that was accepted: a restart with the
/// request for it, a shutdown with that.
pub proof fn exits_are_granted_where_accepted(kind: RpcKind, status: ResponseStatus)
    ensures
        granted_exit(kind, status) == Some(EngineExit::Restart) <==> kind == RpcKind::RestartEngine
            && status == ResponseStatus::Accepted,
        granted_exit(kind, status) == Some(EngineExit::Shutdown) <==> kind == RpcKind::Shutdown
            && status == ResponseStatus::Accepted,
{
}

/// Where no exit was asked for yet, the one that is asked for holds.
pub proof fn the_first_exit_holds(first: EngineExit, exit: EngineExit)
    ensures
        exit_after(None, exit) == Some(exit),
        exit_after(Some(first), exit) == Some(first),
{
}

/// The time for closing down lies between two and ten seconds.
pub proof fn closing_down_takes_seconds()
    ensures
        MIN_CLEANUP_TIMEOUT == 2_000_000_000,
        MAX_CLEANUP_TIMEOUT == 10_000_000_000,
{
}

/// A message that is not worked on is told why.
pub proof fn refused_messages_are_told(frames: Seq<Vec<u8>>, free_places: nat)
    ensures
        frames.len() < 2 ==> message_fault(frames, free_places) == Some(
            (RpcErrorCode::BadRequest, "missing rpc frame"@),
        ),
        frames.len() > 2 ==> message_fault(frames, free_places) == Some(
            (RpcErrorCode::BadRequest, "unexpected extra rpc frames"@),
        ),
        frames.len() == 2 && frames[1]@.len() > 1_048_576 ==> message_fault(frames, free_places)
            == Some(
            (
                RpcErrorCode::PayloadTooLarge,
                "rpc payload "@ + text::numeral(frames[1]@.len()) + " bytes exceeds maximum "@
                    + text::numeral(1_048_576),
            ),
        ),
        frames.len() == 2 && frames[1]@.len() <= 1_048_576 && free_places == 0 ==> message_fault(
            frames,
            free_places,
        ) == Some((RpcErrorCode::Busy, "maximum concurrent RPC requests reached"@)),
{
}

/// Each task is told by its name.
pub proof fn tasks_are_named()
    ensures
        task_name(TaskKind::Router) == "Router"@,
        task_name(TaskKind::Signal) == "Signal"@,
        task_name(TaskKind::Refresh) == "Refresh"@,
{
}

} // verus!
