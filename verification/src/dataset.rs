//! What a dataset is: the schema version, the projects and the log, the
//! rules that hold between them, and what each operation does to them.

use vstd::prelude::*;
use crate::date::Date;
use crate::error::MigrationError;
use crate::error::RepoError;
use crate::hours::Hours;
use crate::model::EntryView;
use crate::model::ProjectView;
use crate::schema::pending_steps_spec;
use crate::schema::DB_VERSION;

verus! {

/// What a dataset holds: the last migration step applied to it, its
/// projects and its log entries, both in the order of their creation.
pub ghost struct DatasetView {
    pub version: nat,
    pub projects: Seq<ProjectView>,
    pub entries: Seq<EntryView>,
}

impl DatasetView {
    /// The dataset that was never initialised.
    pub open spec fn empty() -> DatasetView {
        DatasetView { version: 0, projects: Seq::empty(), entries: Seq::empty() }
    }

    /// Whether a project of that name exists.
    pub open spec fn has_project(self, name: Seq<char>) -> bool {
        exists|i: int| 0 <= i < self.projects.len() && (#[trigger] self.projects[i]).name == name
    }

    /// The place of the project of that name among the projects.
    pub open spec fn project_index(self, name: Seq<char>) -> int {
        choose|i: int| 0 <= i < self.projects.len() && (#[trigger] self.projects[i]).name == name
    }

    /// Whether some log entry counts for the project of that name.
    pub open spec fn is_referenced(self, name: Seq<char>) -> bool {
        exists|i: int| 0 <= i < self.entries.len() && (#[trigger] self.entries[i]).project == name
    }

    /// Whether an entry of that id exists.
    pub open spec fn has_entry(self, id: nat) -> bool {
        exists|i: int| 0 <= i < self.entries.len() && (#[trigger] self.entries[i]).id == id
    }

    /// The place of the entry of that id in the log.
    pub open spec fn entry_index(self, id: nat) -> int {
        choose|i: int| 0 <= i < self.entries.len() && (#[trigger] self.entries[i]).id == id
    }

    /// The id that the next project gets: one more than that of the
    /// project created last.
    pub open spec fn next_project_id(self) -> nat {
        if self.projects.len() == 0 {
            1
        } else {
            self.projects.last().id + 1
        }
    }

    /// The id that the next entry gets: one more than that of the entry
    /// created last.
    pub open spec fn next_entry_id(self) -> nat {
        if self.entries.len() == 0 {
            1
        } else {
            self.entries.last().id + 1
        }
    }

    /// The rules on projects: ids are positive and grow with the order of
    /// creation, names are not empty, and no name occurs twice.
    pub open spec fn projects_valid(self) -> bool {
        &&& forall|i: int|
            0 <= i < self.projects.len() ==> (#[trigger] self.projects[i]).id >= 1
                && self.projects[i].name.len() > 0
        &&& forall|i: int, j: int|
            0 <= i < j < self.projects.len() ==> (#[trigger] self.projects[i]).id < (
            #[trigger] self.projects[j]).id
        &&& forall|i: int, j: int|
            0 <= i < j < self.projects.len() ==> (#[trigger] self.projects[i]).name != (
            #[trigger] self.projects[j]).name
    }

    /// The rules on entries: ids are positive and grow with the order of
    /// creation, durations are positive, dates exist, and every entry
    /// counts for a project of the dataset.
    pub open spec fn entries_valid(self) -> bool {
        &&& forall|i: int|
            0 <= i < self.entries.len() ==> {
                &&& (#[trigger] self.entries[i]).id >= 1
                &&& self.entries[i].duration.millis > 0
                &&& self.entries[i].created.wf()
                &&& self.has_project(self.entries[i].project)
            }
        &&& forall|i: int, j: int|
            0 <= i < j < self.entries.len() ==> (#[trigger] self.entries[i]).id < (
            #[trigger] self.entries[j]).id
    }

    /// The rules that every dataset obeys. Before the first migration
    /// step there are no relations, so there is nothing in them.
    pub open spec fn valid(self) -> bool {
        &&& self.version == 0 ==> self.projects.len() == 0 && self.entries.len() == 0
        &&& self.projects_valid()
        &&& self.entries_valid()
    }

    /// A dataset is ready for the operations on projects and entries
    /// when it stands at the version this code works on.
    pub open spec fn ready(self) -> bool {
        self.valid() && self.version == DB_VERSION
    }
}

/// What `migrate` does to a dataset and what it returns: where there are
/// steps to `target`, or none are needed, the dataset stands at `target`
/// afterwards, with its records as they were.
pub open spec fn migrate_spec(s: DatasetView, target: nat) -> (
    DatasetView,
    Result<nat, MigrationError>,
) {
    match pending_steps_spec(s.version, target) {
        Ok(_) => (DatasetView { version: target, ..s }, Ok(target)),
        Err(e) => (s, Err(e)),
    }
}

/// What `add_project` does to a dataset and what it returns.
pub open spec fn add_project_spec(s: DatasetView, name: Seq<char>, description: Seq<char>) -> (
    DatasetView,
    Result<ProjectView, RepoError>,
) {
    if name.len() == 0 {
        (s, Err(RepoError::InvalidInput))
    } else if s.has_project(name) {
        (s, Err(RepoError::DuplicateName))
    } else if s.next_project_id() > u64::MAX {
        (s, Err(RepoError::StorageFull))
    } else {
        let p = ProjectView { id: s.next_project_id(), name, description };
        (DatasetView { projects: s.projects.push(p), ..s }, Ok(p))
    }
}

/// What `remove_project` does to a dataset and what it returns.
pub open spec fn remove_project_spec(s: DatasetView, name: Seq<char>) -> (
    DatasetView,
    Result<(), RepoError>,
) {
    if !s.has_project(name) {
        (s, Err(RepoError::NotFound))
    } else if s.is_referenced(name) {
        (s, Err(RepoError::InUse))
    } else {
        (DatasetView { projects: s.projects.remove(s.project_index(name)), ..s }, Ok(()))
    }
}

/// The project that a new entry counts for: the one named, which must
/// exist, or else the project of the entry created last.
pub open spec fn resolve_project(s: DatasetView, project: Option<Seq<char>>) -> Result<
    Seq<char>,
    RepoError,
> {
    match project {
        Some(name) => if s.has_project(name) {
            Ok(name)
        } else {
            Err(RepoError::NotFound)
        },
        None => if s.entries.len() == 0 {
            Err(RepoError::NoDefaultProject)
        } else {
            Ok(s.entries.last().project)
        },
    }
}

/// What `add_entry` does to a dataset and what it returns.
pub open spec fn add_entry_spec(
    s: DatasetView,
    duration: Hours,
    message: Seq<char>,
    project: Option<Seq<char>>,
    today: Date,
) -> (DatasetView, Result<EntryView, RepoError>) {
    match resolve_project(s, project) {
        Err(e) => (s, Err(e)),
        Ok(name) => if duration.millis <= 0 {
            (s, Err(RepoError::InvalidDuration))
        } else if s.next_entry_id() > u64::MAX {
            (s, Err(RepoError::StorageFull))
        } else {
            let e = EntryView {
                id: s.next_entry_id(),
                duration,
                message,
                project: name,
                created: today,
            };
            (DatasetView { entries: s.entries.push(e), ..s }, Ok(e))
        },
    }
}

/// What `remove_entry` does to a dataset and what it returns.
pub open spec fn remove_entry_spec(s: DatasetView, id: nat) -> (DatasetView, Result<(), RepoError>) {
    if !s.has_entry(id) {
        (s, Err(RepoError::NotFound))
    } else {
        (DatasetView { entries: s.entries.remove(s.entry_index(id)), ..s }, Ok(()))
    }
}

/// The entries logged on `since` or later, in their order.
pub open spec fn entries_since(entries: Seq<EntryView>, since: Date) -> Seq<EntryView>
    decreases entries.len(),
{
    if entries.len() == 0 {
        Seq::empty()
    } else if entries.last().created.on_or_after(since) {
        entries_since(entries.drop_last(), since).push(entries.last())
    } else {
        entries_since(entries.drop_last(), since)
    }
}

/// A listing holds the entries of the log that were logged on `since`
/// or later, and no others.
pub proof fn listing_is_exact(entries: Seq<EntryView>, since: Date)
    ensures
        forall|e: EntryView|
            #![trigger entries_since(entries, since).contains(e)]
            #![trigger entries.contains(e)]
            entries_since(entries, since).contains(e) <==> entries.contains(e)
                && e.created.on_or_after(since),
    decreases entries.len(),
{
    let listed = entries_since(entries, since);
    if entries.len() > 0 {
        let last = entries.last();
        let before = entries.drop_last();
        let earlier = entries_since(before, since);
        listing_is_exact(before, since);
        assert forall|e: EntryView| listed.contains(e) implies entries.contains(e)
            && e.created.on_or_after(since) by {
            let i = choose|i: int| 0 <= i < listed.len() && listed[i] == e;
            if i < earlier.len() {
                assert(earlier[i] == e);
                assert(earlier.contains(e));
                assert(before.contains(e));
                let j = choose|j: int| 0 <= j < before.len() && before[j] == e;
                assert(entries[j] == e);
            } else {
                assert(e == last);
                assert(entries[entries.len() - 1] == e);
            }
        }
        assert forall|e: EntryView| entries.contains(e) && e.created.on_or_after(
            since,
        ) implies listed.contains(e) by {
            let j = choose|j: int| 0 <= j < entries.len() && entries[j] == e;
            if j < before.len() {
                assert(before[j] == e);
                assert(before.contains(e));
                let i = choose|i: int| 0 <= i < earlier.len() && earlier[i] == e;
                assert(listed[i] == e);
            } else {
                assert(listed[listed.len() - 1] == e);
            }
        }
    }
}

/// A listing keeps the order of the log: where the ids grow along the
/// log, they grow along the listing.
pub proof fn listing_keeps_order(entries: Seq<EntryView>, since: Date)
    requires
        forall|i: int, j: int|
            0 <= i < j < entries.len() ==> (#[trigger] entries[i]).id < (#[trigger] entries[j]).id,
    ensures
        forall|i: int, j: int|
            0 <= i < j < entries_since(entries, since).len() ==> (#[trigger] entries_since(
                entries,
                since,
            )[i]).id < (#[trigger] entries_since(entries, since)[j]).id,
    decreases entries.len(),
{
    let listed = entries_since(entries, since);
    if entries.len() > 0 {
        let last = entries.last();
        let before = entries.drop_last();
        let earlier = entries_since(before, since);
        assert forall|i: int, j: int| 0 <= i < j < before.len() implies (#[trigger] before[i]).id
            < (#[trigger] before[j]).id by {
            assert(before[i] == entries[i]);
            assert(before[j] == entries[j]);
        }
        listing_keeps_order(before, since);
        listing_is_exact(before, since);
        assert forall|i: int, j: int| 0 <= i < j < listed.len() implies (#[trigger] listed[i]).id
            < (#[trigger] listed[j]).id by {
            if j < earlier.len() {
                assert(listed[i] == earlier[i]);
                assert(listed[j] == earlier[j]);
            } else {
                assert(listed[j] == last);
                assert(listed[i] == earlier[i]);
                assert(earlier.contains(earlier[i]));
                assert(before.contains(earlier[i]));
                let k = choose|k: int| 0 <= k < before.len() && before[k] == earlier[i];
                assert(entries[k] == earlier[i]);
                assert(entries[entries.len() - 1] == last);
            }
        }
    }
}

/// The entries of `after` count for projects of `after`, where each of
/// them counts for a project of `s`, and `after` holds every project of
/// `s` that one of its entries counts for.
pub proof fn entries_keep_their_projects(s: DatasetView, after: DatasetView)
    requires
        forall|i: int|
            0 <= i < after.entries.len() ==> s.has_project((#[trigger] after.entries[i]).project),
        forall|k: int|
            0 <= k < s.projects.len() ==> after.projects.contains(#[trigger] s.projects[k])
                || !after.is_referenced(s.projects[k].name),
    ensures
        forall|i: int|
            0 <= i < after.entries.len() ==> after.has_project(
                (#[trigger] after.entries[i]).project,
            ),
{
    assert forall|i: int| 0 <= i < after.entries.len() implies after.has_project(
        (#[trigger] after.entries[i]).project,
    ) by {
        let name = after.entries[i].project;
        let k = s.project_index(name);
        assert(after.is_referenced(name));
        assert(after.projects.contains(s.projects[k]));
        let j = choose|j: int| 0 <= j < after.projects.len() && after.projects[j] == s.projects[k];
        assert(after.projects[j].name == name);
    }
}

/// Migration keeps a dataset valid and never lowers its version.
pub proof fn migrate_keeps_validity(s: DatasetView, target: nat)
    requires
        s.valid(),
    ensures
        migrate_spec(s, target).0.valid(),
        migrate_spec(s, target).0.version >= s.version,
        migrate_spec(s, target).1 is Ok ==> migrate_spec(s, target).0.version == target,
        migrate_spec(s, target).1 is Err ==> migrate_spec(s, target).0 == s,
{
    let after = migrate_spec(s, target).0;
    entries_keep_their_projects(s, after);
}

/// Adding a project keeps a dataset valid, whether the project is
/// accepted or refused.
pub proof fn add_project_keeps_validity(s: DatasetView, name: Seq<char>, description: Seq<char>)
    requires
        s.ready(),
    ensures
        add_project_spec(s, name, description).0.ready(),
        add_project_spec(s, name, description).0.version == s.version,
        add_project_spec(s, name, description).0.entries == s.entries,
        add_project_spec(s, name, description).1 is Err ==> add_project_spec(
            s,
            name,
            description,
        ).0 == s,
{
    let after = add_project_spec(s, name, description).0;
    if add_project_spec(s, name, description).1 is Ok {
        let n = s.projects.len() as int;
        assert forall|i: int, j: int| 0 <= i < j < after.projects.len() implies (
        #[trigger] after.projects[i]).id < (#[trigger] after.projects[j]).id
            && after.projects[i].name != after.projects[j].name by {
            assert(after.projects[i] == s.projects[i]);
            if j < n {
                assert(after.projects[j] == s.projects[j]);
            } else {
                assert(s.projects[i].id <= s.projects[n - 1].id);
            }
        }
        assert forall|k: int| 0 <= k < s.projects.len() implies after.projects.contains(
            #[trigger] s.projects[k],
        ) by {
            assert(after.projects[k] == s.projects[k]);
        }
        entries_keep_their_projects(s, after);
    }
}

/// Removing a project keeps a dataset ready, whether the project is
/// removed or kept.
pub proof fn remove_project_keeps_validity(s: DatasetView, name: Seq<char>)
    requires
        s.ready(),
    ensures
        remove_project_spec(s, name).0.ready(),
        remove_project_spec(s, name).0.version == s.version,
        remove_project_spec(s, name).0.entries == s.entries,
        remove_project_spec(s, name).1 is Err ==> remove_project_spec(s, name).0 == s,
{
    let after = remove_project_spec(s, name).0;
    if remove_project_spec(s, name).1 is Ok {
        let at = s.project_index(name);
        assert forall|k: int| 0 <= k < s.projects.len() implies after.projects.contains(
            #[trigger] s.projects[k],
        ) || !after.is_referenced(s.projects[k].name) by {
            if k < at {
                assert(after.projects[k] == s.projects[k]);
            } else if k > at {
                assert(after.projects[k - 1] == s.projects[k]);
            }
        }
        entries_keep_their_projects(s, after);
    }
}

/// Adding an entry keeps a dataset ready, whether the entry is accepted
/// or refused.
pub proof fn add_entry_keeps_validity(
    s: DatasetView,
    duration: Hours,
    message: Seq<char>,
    project: Option<Seq<char>>,
    today: Date,
)
    requires
        s.ready(),
        today.wf(),
    ensures
        add_entry_spec(s, duration, message, project, today).0.ready(),
        add_entry_spec(s, duration, message, project, today).0.version == s.version,
        add_entry_spec(s, duration, message, project, today).0.projects == s.projects,
        add_entry_spec(s, duration, message, project, today).1 is Err ==> add_entry_spec(
            s,
            duration,
            message,
            project,
            today,
        ).0 == s,
{
    let after = add_entry_spec(s, duration, message, project, today).0;
    if add_entry_spec(s, duration, message, project, today).1 is Ok {
        let name = resolve_project(s, project)->Ok_0;
        if project is None {
            assert(s.has_project(s.entries[s.entries.len() - 1].project));
        }
        assert(s.has_project(name));
        assert forall|i: int| 0 <= i < after.entries.len() implies s.has_project(
            (#[trigger] after.entries[i]).project,
        ) by {
            if i < s.entries.len() {
                assert(after.entries[i] == s.entries[i]);
            }
        }
        entries_keep_their_projects(s, after);
    }
}

/// Removing an entry keeps a dataset ready, whether there was such an
/// entry or not.
pub proof fn remove_entry_keeps_validity(s: DatasetView, id: nat)
    requires
        s.ready(),
    ensures
        remove_entry_spec(s, id).0.ready(),
        remove_entry_spec(s, id).0.version == s.version,
        remove_entry_spec(s, id).0.projects == s.projects,
        remove_entry_spec(s, id).1 is Err ==> remove_entry_spec(s, id).0 == s,
{
    let after = remove_entry_spec(s, id).0;
    if remove_entry_spec(s, id).1 is Ok {
        let at = s.entry_index(id);
        assert(s.has_entry(id));
        assert(0 <= at < s.entries.len());
        assert forall|i: int| 0 <= i < after.entries.len() implies s.has_project(
            (#[trigger] after.entries[i]).project,
        ) by {
            if i < at {
                assert(after.entries[i] == s.entries[i]);
            } else {
                assert(after.entries[i] == s.entries[i + 1]);
            }
        }
        entries_keep_their_projects(s, after);
    }
}

} // verus!
