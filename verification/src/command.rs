//! The commands of the program and what each of them does to a dataset.

use vstd::prelude::*;
use crate::repository::add_entry;
use crate::dataset::add_entry_spec;
use crate::repository::add_project;
use crate::dataset::add_project_spec;
use crate::dataset::entries_since;
use crate::repository::list_entries;
use crate::repository::remove_entry;
use crate::dataset::remove_entry_spec;
use crate::repository::remove_project;
use crate::dataset::remove_project_spec;
use crate::repository::Dataset;
use crate::dataset::DatasetView;
use crate::date::Date;
use crate::error::RepoError;
use crate::hours::Hours;
use crate::model::EntryView;
use crate::model::Project;
use crate::model::ProjectView;
use crate::model::TloggEntry;
use crate::report::csv_text;
use crate::report::markdown_text;
use crate::report::rows_of;
use crate::report::to_csv;
use crate::report::to_markdown;

verus! {

/// The form of a report.
#[derive(Clone, Copy, Debug, PartialEq, Eq, Structural)]
pub enum Format {
    /// A table for people to read.
    Markdown,
    /// Comma-separated values for programs to read.
    Csv,
}

/// What the user asks for.
#[derive(Clone, Debug, PartialEq, Eq)]
pub enum Command {
    /// Log hours on a project: the one named or, where none is named,
    /// the one used last.
    Add { hours: Hours, description: String, project: Option<String> },
    /// Remove the log entry with this id.
    Rm { id: u64 },
    /// Create a project.
    AddProject { name: String, description: String },
    /// Remove the project of this name.
    RemoveProject { name: String },
    /// Report the entries logged on `from` or later.
    Print { from: Date, format: Format },
}

/// What a command gave.
#[derive(Clone, Debug, PartialEq, Eq)]
pub enum Reply {
    EntryAdded(TloggEntry),
    EntryRemoved,
    ProjectAdded(Project),
    ProjectRemoved,
    Report(String),
}

/// What a reply says.
pub ghost enum ReplyView {
    EntryAdded(EntryView),
    EntryRemoved,
    ProjectAdded(ProjectView),
    ProjectRemoved,
    Report(Seq<char>),
}

impl View for Reply {
    type V = ReplyView;

    open spec fn view(&self) -> ReplyView {
        match self {
            Reply::EntryAdded(e) => ReplyView::EntryAdded(e@),
            Reply::EntryRemoved => ReplyView::EntryRemoved,
            Reply::ProjectAdded(p) => ReplyView::ProjectAdded(p@),
            Reply::ProjectRemoved => ReplyView::ProjectRemoved,
            Reply::Report(text) => ReplyView::Report(text@),
        }
    }
}

/// The result of a command as the contracts speak of it.
pub open spec fn reply_result(r: Result<Reply, RepoError>) -> Result<ReplyView, RepoError> {
    match r {
        Ok(reply) => Ok(reply@),
        Err(e) => Err(e),
    }
}

/// The name that a command may carry, as the contracts speak of it.
pub open spec fn name_view(name: Option<String>) -> Option<Seq<char>> {
    match name {
        Some(n) => Some(n@),
        None => None,
    }
}

/// What a command does to a dataset and what it gives: each command is
/// one operation on the dataset, and a report is drawn from the listing
/// of the entries.
pub open spec fn execute_spec(s: DatasetView, command: Command, today: Date) -> (
    DatasetView,
    Result<ReplyView, RepoError>,
) {
    match command {
        Command::Add { hours, description, project } => {
            let (after, r) = add_entry_spec(s, hours, description@, name_view(project), today);
            (
                after,
                match r {
                    Ok(e) => Ok(ReplyView::EntryAdded(e)),
                    Err(e) => Err(e),
                },
            )
        },
        Command::Rm { id } => {
            let (after, r) = remove_entry_spec(s, id as nat);
            (
                after,
                match r {
                    Ok(_) => Ok(ReplyView::EntryRemoved),
                    Err(e) => Err(e),
                },
            )
        },
        Command::AddProject { name, description } => {
            let (after, r) = add_project_spec(s, name@, description@);
            (
                after,
                match r {
                    Ok(p) => Ok(ReplyView::ProjectAdded(p)),
                    Err(e) => Err(e),
                },
            )
        },
        Command::RemoveProject { name } => {
            let (after, r) = remove_project_spec(s, name@);
            (
                after,
                match r {
                    Ok(_) => Ok(ReplyView::ProjectRemoved),
                    Err(e) => Err(e),
                },
            )
        },
        Command::Print { from, format } => {
            let rows = rows_of(entries_since(s.entries, from));
            (
                s,
                Ok(
                    ReplyView::Report(
                        match format {
                            Format::Markdown => markdown_text(rows),
                            Format::Csv => csv_text(rows),
                        },
                    ),
                ),
            )
        },
    }
}

/// Carries out a command on the dataset. Every command has its
/// operation; a command that is refused leaves the dataset as it was.
pub fn execute(store: &mut Dataset, command: &Command, today: Date) -> (r: Result<Reply, RepoError>)
    requires
        old(store)@.ready(),
        today.wf(),
    ensures
        final(store)@.ready(),
        final(store)@ == execute_spec(old(store)@, *command, today).0,
        reply_result(r) == execute_spec(old(store)@, *command, today).1,
{
    match command {
        Command::Add { hours, description, project } => {
            let name: Option<&str> = match project {
                Some(n) => Some(n.as_str()),
                None => None,
            };
            match add_entry(store, *hours, description.as_str(), name, today) {
                Ok(e) => Ok(Reply::EntryAdded(e)),
                Err(e) => Err(e),
            }
        },
        Command::Rm { id } => match remove_entry(store, *id) {
            Ok(_) => Ok(Reply::EntryRemoved),
            Err(e) => Err(e),
        },
        Command::AddProject { name, description } => match add_project(
            store,
            name.as_str(),
            description.as_str(),
        ) {
            Ok(p) => Ok(Reply::ProjectAdded(p)),
            Err(e) => Err(e),
        },
        Command::RemoveProject { name } => match remove_project(store, name.as_str()) {
            Ok(_) => Ok(Reply::ProjectRemoved),
            Err(e) => Err(e),
        },
        Command::Print { from, format } => {
            let entries = list_entries(store, *from);
            let text = match format {
                Format::Markdown => to_markdown(&entries),
                Format::Csv => to_csv(&entries),
            };
            Ok(Reply::Report(text))
        },
    }
}

} // verus!
