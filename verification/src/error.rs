//! What can go wrong, and how a failure is reported to the caller of the
//! program.

use vstd::prelude::*;

verus! {

/// Why an operation on the projects or the log was refused.
#[derive(Clone, Copy, Debug, PartialEq, Eq, Structural)]
pub enum RepoError {
    /// A project name was empty.
    InvalidInput,
    /// A duration was zero or negative.
    InvalidDuration,
    /// A project of that name exists already.
    DuplicateName,
    /// No project of that name, or no entry of that id, exists.
    NotFound,
    /// The project is still referenced by log entries.
    InUse,
    /// No project was named and the log holds no entry to take one from.
    NoDefaultProject,
    /// The dataset cannot hand out another id.
    StorageFull,
}

/// Why a migration was refused.
#[derive(Clone, Copy, Debug, PartialEq, Eq, Structural)]
pub enum MigrationError {
    /// The dataset is at a later version than the one asked for.
    UnknownVersion,
    /// The version asked for lies beyond the last step this code defines.
    UndefinedStep,
}

/// The families of failure that the program tells apart when it exits.
#[derive(Clone, Copy, Debug, PartialEq, Eq, Structural)]
pub enum ErrorClass {
    Validation,
    NotFound,
    Conflict,
    Migration,
    Storage,
}

impl RepoError {
    /// The family of this error.
    pub open spec fn class_spec(self) -> ErrorClass {
        match self {
            RepoError::InvalidInput => ErrorClass::Validation,
            RepoError::InvalidDuration => ErrorClass::Validation,
            RepoError::DuplicateName => ErrorClass::Conflict,
            RepoError::InUse => ErrorClass::Conflict,
            RepoError::NotFound => ErrorClass::NotFound,
            RepoError::NoDefaultProject => ErrorClass::NotFound,
            RepoError::StorageFull => ErrorClass::Storage,
        }
    }

    /// The family of this error.
    #[verifier::when_used_as_spec(class_spec)]
    pub fn class(self) -> (c: ErrorClass)
        ensures
            c == self.class_spec(),
    {
        match self {
            RepoError::InvalidInput => ErrorClass::Validation,
            RepoError::InvalidDuration => ErrorClass::Validation,
            RepoError::DuplicateName => ErrorClass::Conflict,
            RepoError::InUse => ErrorClass::Conflict,
            RepoError::NotFound => ErrorClass::NotFound,
            RepoError::NoDefaultProject => ErrorClass::NotFound,
            RepoError::StorageFull => ErrorClass::Storage,
        }
    }

    /// True for the two refusals that protect existing data: a duplicate
    /// name and a project still in use.
    pub open spec fn is_conflict(self) -> bool {
        self.class_spec() == ErrorClass::Conflict
    }
}

impl MigrationError {
    /// The family of this error.
    pub fn class(self) -> (c: ErrorClass)
        ensures
            c == ErrorClass::Migration,
    {
        ErrorClass::Migration
    }
}

/// The exit code of the process for each family of failure. Success is 0.
pub open spec fn exit_code_spec(class: ErrorClass) -> u8 {
    match class {
        ErrorClass::Validation => 2,
        ErrorClass::NotFound => 3,
        ErrorClass::Conflict => 4,
        ErrorClass::Migration => 5,
        ErrorClass::Storage => 6,
    }
}

/// The exit code of the process for each family of failure: never 0, and
/// different for different families.
#[verifier::when_used_as_spec(exit_code_spec)]
pub fn exit_code(class: ErrorClass) -> (code: u8)
    ensures
        code == exit_code_spec(class),
        code != 0,
{
    match class {
        ErrorClass::Validation => 2,
        ErrorClass::NotFound => 3,
        ErrorClass::Conflict => 4,
        ErrorClass::Migration => 5,
        ErrorClass::Storage => 6,
    }
}

/// Exit codes tell the families apart: two families share a code only if
/// they are the same family.
pub proof fn exit_codes_are_distinct(a: ErrorClass, b: ErrorClass)
    ensures
        exit_code_spec(a) == exit_code_spec(b) <==> a == b,
        exit_code_spec(a) != 0,
{
}

} // verus!
