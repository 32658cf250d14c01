//! Failures of the storage that holds the dataset, and what to do about
//! them.

use vstd::prelude::*;

verus! {

/// How an attempt to reach the stored dataset failed.
#[derive(Clone, Copy, Debug, PartialEq, Eq, Structural)]
pub enum StorageFailure {
    /// Another process holds the dataset for the moment.
    Locked,
    /// Anything else: the failure will not go away by itself.
    Other,
}

/// What to do after an attempt to reach the stored dataset has failed.
#[derive(Clone, Copy, Debug, PartialEq, Eq, Structural)]
pub enum Recovery {
    /// Wait a short while and try once more.
    Retry,
    /// Report the failure and stop.
    GiveUp,
}

/// What to do after the attempt number `attempts` has failed: a locked
/// dataset is worth one more attempt after the first, nothing else is.
pub open spec fn recovery_spec(failure: StorageFailure, attempts: nat) -> Recovery {
    if failure == StorageFailure::Locked && attempts <= 1 {
        Recovery::Retry
    } else {
        Recovery::GiveUp
    }
}

/// What to do after the attempt number `attempts` has failed.
pub fn after_failure(failure: StorageFailure, attempts: u32) -> (r: Recovery)
    ensures
        r == recovery_spec(failure, attempts as nat),
{
    match failure {
        StorageFailure::Locked => if attempts <= 1 {
            Recovery::Retry
        } else {
            Recovery::GiveUp
        },
        StorageFailure::Other => Recovery::GiveUp,
    }
}

/// A failure is retried at most once: whatever went wrong, the second
/// failed attempt is the last.
pub proof fn retry_happens_once(failure: StorageFailure, attempts: nat)
    requires
        attempts >= 2,
    ensures
        recovery_spec(failure, attempts) == Recovery::GiveUp,
{
}

/// The errors of `rusqlite`.
#[verifier::external_type_specification]
#[verifier::external_body]
pub struct ExSqliteError(rusqlite::Error);

/// How a failure that `rusqlite` reports counts here: a `SqliteFailure`
/// whose code is `ErrorCode::DatabaseBusy` or `ErrorCode::DatabaseLocked`
/// is a locked dataset, every other error is not. The kind depends on
/// the error alone.
pub uninterp spec fn failure_kind(error: rusqlite::Error) -> StorageFailure;

/// Tells the variants of `rusqlite::Error` apart, and within a
/// `SqliteFailure` the variants of its `ErrorCode`. The result is the
/// kind of the error; nothing else is claimed of it.
#[verifier::external_body]
fn failure_of(error: &rusqlite::Error) -> (r: StorageFailure)
    ensures
        r == failure_kind(*error),
{
    match error {
        rusqlite::Error::SqliteFailure(failure, _) => match failure.code {
            rusqlite::ErrorCode::DatabaseBusy => StorageFailure::Locked,
            rusqlite::ErrorCode::DatabaseLocked => StorageFailure::Locked,
            _ => StorageFailure::Other,
        },
        _ => StorageFailure::Other,
    }
}

/// What to do after the attempt number `attempts` has failed with
/// `error`: a locked dataset is worth one more attempt after the first,
/// no other failure is, and whatever the error, there is no further
/// attempt after the second.
pub fn recover(error: &rusqlite::Error, attempts: u32) -> (r: Recovery)
    ensures
        r == recovery_spec(failure_kind(*error), attempts as nat),
        attempts >= 2 ==> r == Recovery::GiveUp,
{
    after_failure(failure_of(error), attempts)
}

} // verus!
