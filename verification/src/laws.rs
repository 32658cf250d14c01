//! What holds of the operations on a dataset when they are taken
//! together.

use vstd::prelude::*;
use crate::dataset::add_entry_spec;
use crate::dataset::add_project_keeps_validity;
use crate::dataset::add_project_spec;
use crate::dataset::entries_since;
use crate::dataset::listing_is_exact;
use crate::dataset::migrate_spec;
use crate::dataset::remove_project_spec;
use crate::dataset::resolve_project;
use crate::dataset::DatasetView;
use crate::date::Date;
use crate::error::RepoError;
use crate::hours::Hours;
use crate::model::EntryView;
use crate::model::ProjectView;
use crate::report::csv_is_read_back;
use crate::report::csv_rows;
use crate::report::csv_text;
use crate::report::rows_of;

verus! {

/// A name that a project of the dataset bears is refused to a second
/// project as a conflict, and the dataset stays as it was.
pub proof fn existing_name_is_refused(s: DatasetView, name: Seq<char>, description: Seq<char>)
    requires
        s.ready(),
        s.has_project(name),
    ensures
        add_project_spec(s, name, description) == (s, Err::<ProjectView, RepoError>(RepoError::DuplicateName)),
        RepoError::DuplicateName.is_conflict(),
{
    let k = s.project_index(name);
    assert(s.projects[k].name.len() > 0);
}

/// A project, once it exists, is still there after any attempt to add a
/// project, with the id, name and description it had.
pub proof fn projects_outlive_additions(
    s: DatasetView,
    name: Seq<char>,
    other: Seq<char>,
    description: Seq<char>,
)
    requires
        s.ready(),
        s.has_project(name),
    ensures
        add_project_spec(s, other, description).0.has_project(name),
        add_project_spec(s, other, description).0.projects[s.project_index(name)] == s.projects[
            s.project_index(name)
        ],
{
    let k = s.project_index(name);
    let after = add_project_spec(s, other, description).0;
    assert(after.projects[k].name == name);
}

/// After a project was added under a name, the next attempt to add one
/// under the same name is refused as a conflict, whatever description it
/// brings, and the projects stay as the first call left them.
pub proof fn second_project_of_a_name_is_refused(
    s: DatasetView,
    name: Seq<char>,
    first: Seq<char>,
    second: Seq<char>,
)
    requires
        s.ready(),
        add_project_spec(s, name, first).1 is Ok,
    ensures
        ({
            let s1 = add_project_spec(s, name, first).0;
            &&& s1.has_project(name)
            &&& add_project_spec(s1, name, second) == (
                s1,
                Err::<ProjectView, RepoError>(RepoError::DuplicateName),
            )
        }),
{
    let s1 = add_project_spec(s, name, first).0;
    add_project_keeps_validity(s, name, first);
    assert(s1.projects[s.projects.len() as int].name == name);
    existing_name_is_refused(s1, name, second);
}

/// A project that at least one log entry counts for cannot be removed:
/// the attempt is refused as a conflict, and the project and its entries
/// stay as they were.
pub proof fn referenced_project_is_kept(s: DatasetView, name: Seq<char>)
    requires
        s.ready(),
        s.is_referenced(name),
    ensures
        s.has_project(name),
        remove_project_spec(s, name) == (s, Err::<(), RepoError>(RepoError::InUse)),
        RepoError::InUse.is_conflict(),
{
    let i = choose|i: int| 0 <= i < s.entries.len() && (#[trigger] s.entries[i]).project == name;
    assert(s.has_project(s.entries[i].project));
}

/// Migrating a second time to the same version changes nothing and gives
/// the same result as the first time.
pub proof fn migration_is_idempotent(s: DatasetView, target: nat)
    ensures
        migrate_spec(migrate_spec(s, target).0, target).0 == migrate_spec(s, target).0,
        migrate_spec(migrate_spec(s, target).0, target).1 == migrate_spec(s, target).1,
{
}

/// With an empty log there is no project to fall back on: an entry that
/// names none is refused, whatever else it holds.
pub proof fn empty_log_has_no_default(s: DatasetView, duration: Hours, message: Seq<char>, today: Date)
    requires
        s.entries.len() == 0,
    ensures
        add_entry_spec(s, duration, message, None, today) == (
            s,
            Err::<EntryView, RepoError>(RepoError::NoDefaultProject),
        ),
{
}

/// Where the log holds an entry, an entry that names no project and has
/// a positive duration is accepted as long as there is an id left for
/// it: it becomes the last entry of the log, behind the entries that
/// were there, and counts for the project of the entry before it.
pub proof fn unnamed_entry_follows_the_last(
    s: DatasetView,
    duration: Hours,
    message: Seq<char>,
    today: Date,
)
    requires
        s.ready(),
        s.entries.len() > 0,
        duration.millis > 0,
        s.next_entry_id() <= u64::MAX,
    ensures
        ({
            let (after, r) = add_entry_spec(s, duration, message, None, today);
            &&& r is Ok
            &&& r->Ok_0.project == s.entries.last().project
            &&& r->Ok_0.duration == duration
            &&& r->Ok_0.message == message
            &&& after.entries == s.entries.push(r->Ok_0)
            &&& after.entries.len() == s.entries.len() + 1
            &&& after.entries.last().project == s.entries.last().project
            &&& after.projects == s.projects
        }),
{
}

/// After an entry was logged on a named project, an entry that names no
/// project counts for that same project. It is accepted exactly when its
/// duration is positive and there is an id left for it, and is then the
/// last entry of the log.
pub proof fn default_project_is_the_last_used(
    s: DatasetView,
    duration: Hours,
    message: Seq<char>,
    name: Seq<char>,
    today: Date,
    next_duration: Hours,
    next_message: Seq<char>,
    next_day: Date,
)
    requires
        s.ready(),
        add_entry_spec(s, duration, message, Some(name), today).1 is Ok,
    ensures
        ({
            let s1 = add_entry_spec(s, duration, message, Some(name), today).0;
            let next = add_entry_spec(s1, next_duration, next_message, None, next_day);
            &&& resolve_project(s1, None) == Ok::<Seq<char>, RepoError>(name)
            &&& next.1 is Ok <==> next_duration.millis > 0 && s1.next_entry_id() <= u64::MAX
            &&& next.1 is Ok ==> next.1->Ok_0.project == name && next.0.entries
                == s1.entries.push(next.1->Ok_0)
            &&& next.1 is Err ==> next.0 == s1
        }),
{
}

/// The entries listed from a dataset, written as comma-separated values
/// and read back, give one row for each entry, in the order of the
/// listing, with the project, the description, the duration and the day
/// of the entry.
pub proof fn listed_entries_are_read_back(s: DatasetView, since: Date)
    requires
        s.valid(),
    ensures
        csv_rows(csv_text(rows_of(entries_since(s.entries, since)))) == Some(
            rows_of(entries_since(s.entries, since)),
        ),
{
    let listed = entries_since(s.entries, since);
    let rows = rows_of(listed);
    listing_is_exact(s.entries, since);
    assert forall|i: int| 0 <= i < rows.len() implies (#[trigger] rows[i]).created.wf() by {
        assert(listed.contains(listed[i]));
        assert(s.entries.contains(listed[i]));
        let j = choose|j: int| 0 <= j < s.entries.len() && s.entries[j] == listed[i];
        assert(s.entries[j].created.wf());
    }
    csv_is_read_back(rows);
}

} // verus!
