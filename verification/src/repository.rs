//! The dataset in memory and the operations on it.

use vstd::prelude::*;
use crate::dataset::add_entry_keeps_validity;
use crate::dataset::add_entry_spec;
use crate::dataset::add_project_keeps_validity;
use crate::dataset::add_project_spec;
use crate::dataset::entries_since;
use crate::dataset::migrate_spec;
use crate::dataset::remove_entry_keeps_validity;
use crate::dataset::remove_entry_spec;
use crate::dataset::remove_project_keeps_validity;
use crate::dataset::remove_project_spec;
use crate::dataset::DatasetView;
use crate::date::Date;
use crate::error::MigrationError;
use crate::error::RepoError;
use crate::hours::Hours;
use crate::model::entry_views;
use crate::model::project_views;
use crate::model::EntryView;
use crate::model::Project;
use crate::model::ProjectView;
use crate::model::TloggEntry;
use crate::schema::pending_steps;
use crate::schema::pending_steps_spec;
use crate::schema::DB_VERSION;

verus! {

/// The result of a migration as the contracts speak of it.
pub open spec fn version_result(r: Result<u64, MigrationError>) -> Result<nat, MigrationError> {
    match r {
        Ok(v) => Ok(v as nat),
        Err(e) => Err(e),
    }
}

/// The result of adding a project as the contracts speak of it.
pub open spec fn project_result(r: Result<Project, RepoError>) -> Result<ProjectView, RepoError> {
    match r {
        Ok(p) => Ok(p@),
        Err(e) => Err(e),
    }
}

/// The result of adding an entry as the contracts speak of it.
pub open spec fn entry_result(r: Result<TloggEntry, RepoError>) -> Result<EntryView, RepoError> {
    match r {
        Ok(e) => Ok(e@),
        Err(e) => Err(e),
    }
}

/// What a dataset holds that stands at `version` with these records.
pub open spec fn stored_view(version: u64, projects: Seq<Project>, entries: Seq<TloggEntry>) -> DatasetView {
    DatasetView {
        version: version as nat,
        projects: project_views(projects),
        entries: entry_views(entries),
    }
}

/// A dataset in memory.
#[derive(Debug)]
pub struct Dataset {
    version: u64,
    projects: Vec<Project>,
    entries: Vec<TloggEntry>,
}

impl View for Dataset {
    type V = DatasetView;

    closed spec fn view(&self) -> DatasetView {
        DatasetView {
            version: self.version as nat,
            projects: project_views(self.projects@),
            entries: entry_views(self.entries@),
        }
    }
}

impl Dataset {
    /// A dataset is well formed when what it holds obeys the rules.
    pub open spec fn wf(&self) -> bool {
        self@.valid()
    }

    /// The dataset that was never initialised: version 0, nothing in it.
    pub fn new() -> (d: Dataset)
        ensures
            d@ == DatasetView::empty(),
            d.wf(),
    {
        let d = Dataset { version: 0, projects: Vec::new(), entries: Vec::new() };
        assert(d@.projects =~= Seq::empty());
        assert(d@.entries =~= Seq::empty());
        d
    }

    /// The dataset that holds the given records at the given version, if
    /// they obey the rules: what was read from storage is taken over only
    /// when it is valid.
    pub fn restore(version: u64, projects: Vec<Project>, entries: Vec<TloggEntry>) -> (r: Option<
        Dataset,
    >)
        ensures
            match r {
                Some(d) => d.wf() && d@ == stored_view(version, projects@, entries@),
                None => !stored_view(version, projects@, entries@).valid(),
            },
    {
        let ghost s = stored_view(version, projects@, entries@);
        if version == 0 && (projects.len() > 0 || entries.len() > 0) {
            return None;
        }
        let mut i: usize = 0;
        while i < projects.len()
            invariant
                i <= projects.len(),
                s == stored_view(version, projects@, entries@),
                forall|k: int|
                    0 <= k < i ==> (#[trigger] s.projects[k]).id >= 1 && s.projects[k].name.len()
                        > 0,
                forall|a: int, b: int|
                    0 <= a < b < i ==> (#[trigger] s.projects[a]).id < (#[trigger] s.projects[b]).id,
                forall|a: int, b: int|
                    0 <= a < b < i ==> (#[trigger] s.projects[a]).name != (
                    #[trigger] s.projects[b]).name,
            decreases projects.len() - i,
        {
            let p = &projects[i];
            assert(s.projects[i as int] == p@);
            if p.id < 1 || p.name.as_str().is_empty() {
                return None;
            }
            if i > 0 && projects[i - 1].id >= p.id {
                assert(s.projects[i - 1] == projects[i - 1]@);
                return None;
            }
            if find_project_before(&projects, &p.name, i).is_some() {
                return None;
            }
            assert forall|a: int| 0 <= a < i implies (#[trigger] s.projects[a]).id
                < s.projects[i as int].id by {
                assert(s.projects[i - 1] == projects[i - 1]@);
                if a < i - 1 {
                    assert(s.projects[a].id < s.projects[i - 1].id);
                }
            }
            i = i + 1;
        }
        let mut j: usize = 0;
        while j < entries.len()
            invariant
                j <= entries.len(),
                s == stored_view(version, projects@, entries@),
                forall|k: int|
                    0 <= k < j ==> {
                        &&& (#[trigger] s.entries[k]).id >= 1
                        &&& s.entries[k].duration.millis > 0
                        &&& s.entries[k].created.wf()
                        &&& s.has_project(s.entries[k].project)
                    },
                forall|a: int, b: int|
                    0 <= a < b < j ==> (#[trigger] s.entries[a]).id < (#[trigger] s.entries[b]).id,
            decreases entries.len() - j,
        {
            let e = &entries[j];
            assert(s.entries[j as int] == e@);
            if e.id < 1 || !e.duration.is_positive() || !e.created.is_wf() {
                return None;
            }
            if j > 0 && entries[j - 1].id >= e.id {
                assert(s.entries[j - 1] == entries[j - 1]@);
                return None;
            }
            match find_project(&projects, &e.project) {
                None => {
                    return None;
                },
                Some(at) => {
                    assert(s.projects[at as int].name == s.entries[j as int].project);
                },
            }
            assert forall|a: int| 0 <= a < j implies (#[trigger] s.entries[a]).id
                < s.entries[j as int].id by {
                assert(s.entries[j - 1] == entries[j - 1]@);
                if a < j - 1 {
                    assert(s.entries[a].id < s.entries[j - 1].id);
                }
            }
            j = j + 1;
        }
        Some(Dataset { version, projects, entries })
    }
}

/// The schema version of the dataset: 0 if it was never initialised.
pub fn user_version(store: &Dataset) -> (v: u64)
    ensures
        v == store@.version,
{
    store.version
}

/// Brings the dataset to `target`, one step after the other. Nothing
/// happens if it is there already; a dataset that is further on, or a
/// target beyond the steps defined here, is refused and left as it was.
pub fn migrate(store: &mut Dataset, target: u64) -> (r: Result<u64, MigrationError>)
    requires
        old(store).wf(),
    ensures
        final(store).wf(),
        final(store)@ == migrate_spec(old(store)@, target as nat).0,
        version_result(r) == migrate_spec(old(store)@, target as nat).1,
        final(store)@.version >= old(store)@.version,
{
    let steps = match pending_steps(store.version, target) {
        Err(e) => {
            return Err(e);
        },
        Ok(steps) => steps,
    };
    let ghost planned = steps@.map_values(|s: u64| s as nat);
    let mut i: usize = 0;
    while i < steps.len()
        invariant
            i <= steps.len(),
            planned == steps@.map_values(|s: u64| s as nat),
            Ok::<Seq<nat>, MigrationError>(planned) == pending_steps_spec(
                old(store)@.version,
                target as nat,
            ),
            store.version == old(store).version + i,
            store.projects == old(store).projects,
            store.entries == old(store).entries,
            store.wf(),
        decreases steps.len() - i,
    {
        proof {
            assert(planned.len() == steps.len());
            assert(planned[i as int] == steps@[i as int]);
            assert(old(store)@.version < target <= DB_VERSION);
            assert(planned[i as int] == old(store)@.version + 1 + i);
        }
        store.version = steps[i];
        i = i + 1;
    }
    proof {
        assert(planned.len() == steps.len());
        if old(store)@.version == target {
            assert(planned.len() == 0);
        }
    }
    Ok(target)
}

/// The place of the project named `name` among the first `limit`
/// projects, if there is one.
fn find_project_before(projects: &Vec<Project>, name: &String, limit: usize) -> (r: Option<usize>)
    requires
        limit <= projects.len(),
    ensures
        match r {
            Some(i) => i < limit && project_views(projects@)[i as int].name == name@,
            None => forall|i: int|
                0 <= i < limit ==> (#[trigger] project_views(projects@)[i]).name != name@,
        },
{
    let mut i: usize = 0;
    while i < limit
        invariant
            i <= limit <= projects.len(),
            forall|k: int| 0 <= k < i ==> (#[trigger] project_views(projects@)[k]).name != name@,
        decreases limit - i,
    {
        if projects[i].name == *name {
            return Some(i);
        }
        i = i + 1;
    }
    None
}

/// The place of the project named `name`, if there is one.
fn find_project(projects: &Vec<Project>, name: &String) -> (r: Option<usize>)
    ensures
        match r {
            Some(i) => i < projects.len() && project_views(projects@)[i as int].name == name@,
            None => forall|i: int|
                0 <= i < projects.len() ==> (#[trigger] project_views(projects@)[i]).name != name@,
        },
{
    find_project_before(projects, name, projects.len())
}

/// Whether some entry counts for the project named `name`.
fn references(entries: &Vec<TloggEntry>, name: &String) -> (r: bool)
    ensures
        r == exists|i: int|
            0 <= i < entries.len() && (#[trigger] entry_views(entries@)[i]).project == name@,
{
    let mut i: usize = 0;
    while i < entries.len()
        invariant
            i <= entries.len(),
            forall|k: int| 0 <= k < i ==> (#[trigger] entry_views(entries@)[k]).project != name@,
        decreases entries.len() - i,
    {
        if entries[i].project == *name {
            assert(entry_views(entries@)[i as int].project == name@);
            return true;
        }
        i = i + 1;
    }
    false
}

/// The place of the entry with the id `id`, if there is one.
fn find_entry(entries: &Vec<TloggEntry>, id: u64) -> (r: Option<usize>)
    ensures
        match r {
            Some(i) => i < entries.len() && entry_views(entries@)[i as int].id == id,
            None => forall|i: int|
                0 <= i < entries.len() ==> (#[trigger] entry_views(entries@)[i]).id != id,
        },
{
    let mut i: usize = 0;
    while i < entries.len()
        invariant
            i <= entries.len(),
            forall|k: int| 0 <= k < i ==> (#[trigger] entry_views(entries@)[k]).id != id,
        decreases entries.len() - i,
    {
        if entries[i].id == id {
            return Some(i);
        }
        i = i + 1;
    }
    None
}

/// The name that an operation may be given, as the contracts speak of it.
pub open spec fn name_of(name: Option<&str>) -> Option<Seq<char>> {
    match name {
        Some(n) => Some(n@),
        None => None,
    }
}

/// Creates the project `name`. An empty name is refused, and so is a name
/// that a project of the dataset bears already; the dataset is then left
/// as it was.
pub fn add_project(store: &mut Dataset, name: &str, description: &str) -> (r: Result<
    Project,
    RepoError,
>)
    requires
        old(store)@.ready(),
    ensures
        final(store)@.ready(),
        final(store)@ == add_project_spec(old(store)@, name@, description@).0,
        project_result(r) == add_project_spec(old(store)@, name@, description@).1,
{
    let name = name.to_owned();
    if name.as_str().is_empty() {
        return Err(RepoError::InvalidInput);
    }
    if find_project(&store.projects, &name).is_some() {
        return Err(RepoError::DuplicateName);
    }
    let n = store.projects.len();
    let last: u64 = if n == 0 {
        0
    } else {
        store.projects[n - 1].id
    };
    if last == u64::MAX {
        return Err(RepoError::StorageFull);
    }
    let project = Project { id: last + 1, name, description: description.to_owned() };
    store.projects.push(project.duplicate());
    proof {
        assert(store@.projects =~= old(store)@.projects.push(project@));
        add_project_keeps_validity(old(store)@, name@, description@);
    }
    Ok(project)
}

/// The projects, in the order of their creation.
pub fn list_projects(store: &Dataset) -> (r: Vec<Project>)
    requires
        store@.ready(),
    ensures
        project_views(r@) == store@.projects,
{
    let mut out: Vec<Project> = Vec::new();
    let mut i: usize = 0;
    while i < store.projects.len()
        invariant
            i <= store.projects.len(),
            project_views(out@) == store@.projects.take(i as int),
        decreases store.projects.len() - i,
    {
        let ghost before = out@;
        let p = store.projects[i].duplicate();
        out.push(p);
        proof {
            assert(project_views(out@) =~= project_views(before).push(p@));
            assert(store@.projects.take(i + 1) =~= store@.projects.take(i as int).push(p@));
        }
        i = i + 1;
    }
    proof {
        assert(store@.projects.take(i as int) =~= store@.projects);
    }
    out
}

/// Removes the project `name`. A project that log entries still count
/// for is not removed, and nothing else changes either.
pub fn remove_project(store: &mut Dataset, name: &str) -> (r: Result<(), RepoError>)
    requires
        old(store)@.ready(),
    ensures
        final(store)@.ready(),
        final(store)@ == remove_project_spec(old(store)@, name@).0,
        r == remove_project_spec(old(store)@, name@).1,
{
    let name = name.to_owned();
    let at = match find_project(&store.projects, &name) {
        None => {
            return Err(RepoError::NotFound);
        },
        Some(at) => at,
    };
    if references(&store.entries, &name) {
        return Err(RepoError::InUse);
    }
    store.projects.remove(at);
    proof {
        assert(old(store)@.project_index(name@) == at);
        assert(store@.projects =~= old(store)@.projects.remove(at as int));
        remove_project_keeps_validity(old(store)@, name@);
    }
    Ok(())
}

/// Logs `duration` on a project: the one named, or, where none is named,
/// the project of the entry created last. A project that does not exist,
/// an empty log where none is named, and a duration that is not positive
/// are refused, in this order, and the dataset is then left as it was.
pub fn add_entry(
    store: &mut Dataset,
    duration: Hours,
    message: &str,
    project: Option<&str>,
    today: Date,
) -> (r: Result<TloggEntry, RepoError>)
    requires
        old(store)@.ready(),
        today.wf(),
    ensures
        final(store)@.ready(),
        final(store)@ == add_entry_spec(old(store)@, duration, message@, name_of(project), today).0,
        entry_result(r) == add_entry_spec(
            old(store)@,
            duration,
            message@,
            name_of(project),
            today,
        ).1,
{
    let n = store.entries.len();
    let resolved: String = match project {
        Some(name) => {
            let name = name.to_owned();
            if find_project(&store.projects, &name).is_none() {
                return Err(RepoError::NotFound);
            }
            name
        },
        None => {
            if n == 0 {
                return Err(RepoError::NoDefaultProject);
            }
            store.entries[n - 1].project.clone()
        },
    };
    if !duration.is_positive() {
        return Err(RepoError::InvalidDuration);
    }
    let last: u64 = if n == 0 {
        0
    } else {
        store.entries[n - 1].id
    };
    if last == u64::MAX {
        return Err(RepoError::StorageFull);
    }
    let entry = TloggEntry {
        id: last + 1,
        duration,
        message: message.to_owned(),
        project: resolved,
        created: today,
    };
    store.entries.push(entry.duplicate());
    proof {
        assert(store@.entries =~= old(store)@.entries.push(entry@));
        add_entry_keeps_validity(old(store)@, duration, message@, name_of(project), today);
    }
    Ok(entry)
}

/// Removes the entry with the id `id`.
pub fn remove_entry(store: &mut Dataset, id: u64) -> (r: Result<(), RepoError>)
    requires
        old(store)@.ready(),
    ensures
        final(store)@.ready(),
        final(store)@ == remove_entry_spec(old(store)@, id as nat).0,
        r == remove_entry_spec(old(store)@, id as nat).1,
{
    let at = match find_entry(&store.entries, id) {
        None => {
            return Err(RepoError::NotFound);
        },
        Some(at) => at,
    };
    store.entries.remove(at);
    proof {
        assert(old(store)@.entry_index(id as nat) == at);
        assert(store@.entries =~= old(store)@.entries.remove(at as int));
        remove_entry_keeps_validity(old(store)@, id as nat);
    }
    Ok(())
}

/// The entries logged on `since` or later, in the order of their
/// creation.
pub fn list_entries(store: &Dataset, since: Date) -> (r: Vec<TloggEntry>)
    requires
        store@.ready(),
    ensures
        entry_views(r@) == entries_since(store@.entries, since),
{
    let mut out: Vec<TloggEntry> = Vec::new();
    let mut i: usize = 0;
    proof {
        assert(store@.entries.take(0) =~= Seq::<EntryView>::empty());
    }
    while i < store.entries.len()
        invariant
            i <= store.entries.len(),
            entry_views(out@) == entries_since(store@.entries.take(i as int), since),
        decreases store.entries.len() - i,
    {
        let ghost before = out@;
        proof {
            let longer = store@.entries.take(i + 1);
            assert(longer.drop_last() =~= store@.entries.take(i as int));
            assert(longer.last() == store.entries[i as int]@);
        }
        if store.entries[i].created.is_on_or_after(since) {
            let e = store.entries[i].duplicate();
            out.push(e);
            proof {
                assert(entry_views(out@) =~= entry_views(before).push(e@));
            }
        }
        i = i + 1;
    }
    proof {
        assert(store@.entries.take(i as int) =~= store@.entries);
    }
    out
}

} // verus!
