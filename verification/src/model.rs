//! The records of the dataset and their mathematical views.

use vstd::prelude::*;
use crate::date::Date;
use crate::hours::Hours;

verus! {

/// What a project is: its id, its name and its description.
pub ghost struct ProjectView {
    pub id: nat,
    pub name: Seq<char>,
    pub description: Seq<char>,
}

/// A project that hours are logged on. The dataset assigns the id when the
/// project is created; neither id nor name changes afterwards.
#[derive(Clone, Debug, PartialEq, Eq)]
pub struct Project {
    pub id: u64,
    pub name: String,
    pub description: String,
}

impl View for Project {
    type V = ProjectView;

    open spec fn view(&self) -> ProjectView {
        ProjectView { id: self.id as nat, name: self.name@, description: self.description@ }
    }
}

impl Project {
    /// A copy of this project.
    pub fn duplicate(&self) -> (p: Project)
        ensures
            p@ == self@,
    {
        Project { id: self.id, name: self.name.clone(), description: self.description.clone() }
    }
}

/// What a log entry is: its id, the time spent, what was done, the name of
/// the project it counts for, and the day it was logged.
pub ghost struct EntryView {
    pub id: nat,
    pub duration: Hours,
    pub message: Seq<char>,
    pub project: Seq<char>,
    pub created: Date,
}

/// One entry of the time log. The dataset assigns the id when the entry is
/// created; an entry is never changed afterwards, only removed.
#[derive(Clone, Debug, PartialEq, Eq)]
pub struct TloggEntry {
    pub id: u64,
    pub duration: Hours,
    pub message: String,
    pub project: String,
    pub created: Date,
}

impl View for TloggEntry {
    type V = EntryView;

    open spec fn view(&self) -> EntryView {
        EntryView {
            id: self.id as nat,
            duration: self.duration,
            message: self.message@,
            project: self.project@,
            created: self.created,
        }
    }
}

impl TloggEntry {
    /// A copy of this entry.
    pub fn duplicate(&self) -> (e: TloggEntry)
        ensures
            e@ == self@,
    {
        TloggEntry {
            id: self.id,
            duration: self.duration,
            message: self.message.clone(),
            project: self.project.clone(),
            created: self.created,
        }
    }
}

/// The views of a list of projects, in the same order.
pub open spec fn project_views(projects: Seq<Project>) -> Seq<ProjectView> {
    projects.map_values(|p: Project| p@)
}

/// The views of a list of entries, in the same order.
pub open spec fn entry_views(entries: Seq<TloggEntry>) -> Seq<EntryView> {
    entries.map_values(|e: TloggEntry| e@)
}

} // verus!
