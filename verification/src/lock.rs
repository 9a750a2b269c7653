//! Taking the engine's lock file.

use vstd::prelude::*;
use crate::text;

verus! {

/// How often the engine tries again to take its lock.
pub const ENGINE_LOCK_RETRIES: usize = 8;

/// How long the engine waits before it tries again, in milliseconds.
pub const ENGINE_LOCK_RETRY_DELAY_MS: u64 = 10;

/// What became of one try.
#[derive(Debug, PartialEq, Eq)]
pub enum LockAttempt {
    /// The file could not be opened.
    Unopened(String),
    /// Another holds the lock.
    Busy(String),
    /// The lock was refused for another reason.
    Refused(String),
    /// It could not be told whether the file is still the one at the path.
    Unidentified(String),
    /// The file at the path is another one by now.
    Moved,
    /// The start could not be marked in the file.
    Unmarked(String),
    /// After the start was marked, the file at the path is another one.
    MovedSinceMarked,
    /// The lock is held.
    Held,
}

/// What follows from a try.
#[derive(Debug, PartialEq, Eq)]
pub enum LockStep {
    /// The lock is held.
    Done,
    /// Wait, and try again.
    Retry,
    /// Give up.
    Fail(String),
}

/// Why a try ends the trying, where it is the last one.
pub open spec fn lock_fault(path: Seq<char>, attempt: LockAttempt) -> Option<Seq<char>> {
    match attempt {
        LockAttempt::Unopened(m) => Some(text::in_context("failed to open lock file "@ + path, m@)),
        LockAttempt::Busy(m) => Some(text::in_context("failed to acquire lock "@ + path, m@)),
        LockAttempt::Refused(m) => Some(text::in_context("failed to acquire lock "@ + path, m@)),
        LockAttempt::Unidentified(m) => Some(m@),
        LockAttempt::Moved => Some(
            "lock path "@ + path + " changed while acquiring the lock"@,
        ),
        LockAttempt::Unmarked(m) => Some(m@),
        LockAttempt::MovedSinceMarked => Some(
            "lock path "@ + path + " changed while initializing the lock"@,
        ),
        LockAttempt::Held => None,
    }
}

/// What may be otherwise at the next try.
pub open spec fn passing(attempt: LockAttempt) -> bool {
    attempt is Busy || attempt is Moved || attempt is MovedSinceMarked
}

/// What follows from the try with this number, the first being zero.
pub fn lock_step(path: &str, number: usize, retries: usize, attempt: LockAttempt) -> (r: LockStep)
    ensures
        match lock_fault(path@, attempt) {
            None => r is Done,
            Some(m) => if passing(attempt) && number < retries {
                r is Retry
            } else {
                r matches LockStep::Fail(e) && e@ == m
            },
        },
{
    match attempt {
        LockAttempt::Held => LockStep::Done,
        LockAttempt::Unopened(m) => {
            let context = text::cat("failed to open lock file ", path);
            LockStep::Fail(text::with_context(context.as_str(), m.as_str()))
        },
        LockAttempt::Busy(m) => {
            if number < retries {
                return LockStep::Retry;
            }
            let context = text::cat("failed to acquire lock ", path);
            LockStep::Fail(text::with_context(context.as_str(), m.as_str()))
        },
        LockAttempt::Refused(m) => {
            let context = text::cat("failed to acquire lock ", path);
            LockStep::Fail(text::with_context(context.as_str(), m.as_str()))
        },
        LockAttempt::Unidentified(m) => LockStep::Fail(m),
        LockAttempt::Moved => {
            if number < retries {
                return LockStep::Retry;
            }
            LockStep::Fail(
                text::cat("lock path ", path).concat(" changed while acquiring the lock"),
            )
        },
        LockAttempt::Unmarked(m) => LockStep::Fail(m),
        LockAttempt::MovedSinceMarked => {
            if number < retries {
                return LockStep::Retry;
            }
            LockStep::Fail(
                text::cat("lock path ", path).concat(" changed while initializing the lock"),
            )
        },
    }
}

/// The line that marks the start in the lock file.
pub fn start_marker(started_at_unix_ms: u64) -> (r: String)
    ensures
        r@ == "started_at_unix_ms="@ + text::numeral(started_at_unix_ms as nat) + "\n"@,
{
    text::cat("started_at_unix_ms=", text::decimal(started_at_unix_ms).as_str()).concat("\n")
}

/// The trying ends well exactly where the lock is held; it goes on only where another holds
/// the lock or the file at the path is another one by then.
pub proof fn tries_end_with_the_lock(path: Seq<char>, attempt: LockAttempt)
    ensures
        lock_fault(path, attempt) is None <==> attempt is Held,
        passing(attempt) <==> attempt is Busy || attempt is Moved || attempt is MovedSinceMarked,
        !passing(attempt) <==> attempt is Unopened || attempt is Refused
            || attempt is Unidentified || attempt is Unmarked || attempt is Held,
        ENGINE_LOCK_RETRIES == 8,
        ENGINE_LOCK_RETRY_DELAY_MS == 10,
{
}

/// What a try that ends the trying is told with: what was tried, on which path, and why it
/// failed.
pub proof fn failed_tries_tell_the_path(path: Seq<char>, m: String)
    ensures
        lock_fault(path, LockAttempt::Unopened(m)) == Some(
            "failed to open lock file "@ + path + ": "@ + m@,
        ),
        lock_fault(path, LockAttempt::Busy(m)) == Some(
            "failed to acquire lock "@ + path + ": "@ + m@,
        ),
        lock_fault(path, LockAttempt::Refused(m)) == Some(
            "failed to acquire lock "@ + path + ": "@ + m@,
        ),
        lock_fault(path, LockAttempt::Unidentified(m)) == Some(m@),
        lock_fault(path, LockAttempt::Unmarked(m)) == Some(m@),
        lock_fault(path, LockAttempt::Moved) == Some(
            "lock path "@ + path + " changed while acquiring the lock"@,
        ),
        lock_fault(path, LockAttempt::MovedSinceMarked) == Some(
            "lock path "@ + path + " changed while initializing the lock"@,
        ),
{
}

} // verus!
