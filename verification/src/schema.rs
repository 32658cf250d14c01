//! The schema of the stored dataset and the steps that lead to it.

use vstd::prelude::*;
use crate::error::MigrationError;

verus! {

/// The schema version that this code works on: the number of the last
/// migration step defined here.
pub const DB_VERSION: u64 = 1;

/// The statements of the first step: they create the relation of the
/// projects and the relation of the log entries. Names are unique and
/// not empty, durations are positive thousandths of an hour, and an
/// entry counts for a project that exists.
pub const STEP_1: &'static str = "CREATE TABLE projects (
    id INTEGER PRIMARY KEY,
    name TEXT NOT NULL UNIQUE CHECK (name <> ''),
    description TEXT NOT NULL
);
CREATE TABLE log_entries (
    id INTEGER PRIMARY KEY,
    description TEXT NOT NULL,
    hours INTEGER NOT NULL CHECK (hours > 0),
    project TEXT NOT NULL REFERENCES projects (name),
    created TEXT NOT NULL
);
";

/// The steps that lead from the version `current` to `target`, in the
/// order in which they are applied: none if the dataset is there already.
/// There are none to a version below `current`, nor to one beyond the
/// steps defined here.
pub open spec fn pending_steps_spec(current: nat, target: nat) -> Result<Seq<nat>, MigrationError> {
    if current == target {
        Ok(Seq::empty())
    } else if current > target {
        Err(MigrationError::UnknownVersion)
    } else if target > DB_VERSION {
        Err(MigrationError::UndefinedStep)
    } else {
        Ok(Seq::new((target - current) as nat, |i: int| (current + 1 + i) as nat))
    }
}

/// The steps that lead from the version `current` to `target`, in the
/// order in which they are applied.
pub fn pending_steps(current: u64, target: u64) -> (r: Result<Vec<u64>, MigrationError>)
    ensures
        match r {
            Ok(steps) => pending_steps_spec(current as nat, target as nat) == Ok::<
                Seq<nat>,
                MigrationError,
            >(steps@.map_values(|s: u64| s as nat)),
            Err(e) => pending_steps_spec(current as nat, target as nat) == Err::<
                Seq<nat>,
                MigrationError,
            >(e),
        },
{
    let mut steps: Vec<u64> = Vec::new();
    if current == target {
        assert(steps@.map_values(|s: u64| s as nat) =~= Seq::<nat>::empty());
        return Ok(steps);
    }
    if current > target {
        return Err(MigrationError::UnknownVersion);
    }
    if target > DB_VERSION {
        return Err(MigrationError::UndefinedStep);
    }
    let mut next: u64 = current;
    while next < target
        invariant
            current <= next <= target,
            steps@.len() == next - current,
            forall|i: int| 0 <= i < steps@.len() ==> steps@[i] == current + 1 + i,
        decreases target - next,
    {
        next = next + 1;
        steps.push(next);
    }
    assert(steps@.map_values(|s: u64| s as nat) =~= Seq::new(
        (target - current) as nat,
        |i: int| (current + 1 + i) as nat,
    ));
    Ok(steps)
}

/// The statements that the step `step` runs against the stored dataset,
/// before the version marker is set to `step`. Only the steps from 1 to
/// `DB_VERSION` have any.
pub fn step_statements(step: u64) -> (r: Option<&'static str>)
    ensures
        r is Some <==> 1 <= step <= DB_VERSION,
        step == 1 ==> r == Some(STEP_1),
{
    if step == 1 {
        Some(STEP_1)
    } else {
        None
    }
}

/// The schema version that a stored marker stands for. A fresh dataset
/// holds 0; a negative marker is no version.
pub fn version_of(marker: i64) -> (r: Option<u64>)
    ensures
        r == if marker >= 0 {
            Some(marker as u64)
        } else {
            None::<u64>
        },
{
    if marker >= 0 {
        Some(marker as u64)
    } else {
        None
    }
}

} // verus!
