use tlogg::error::exit_code;
use tlogg::error::ErrorClass;
use tlogg::execute;
use tlogg::list_entries;
use tlogg::list_projects;
use tlogg::migrate;
use tlogg::schema::pending_steps;
use tlogg::schema::step_statements;
use tlogg::schema::version_of;
use tlogg::storage::after_failure;
use tlogg::storage::recover;
use tlogg::storage::Recovery;
use tlogg::storage::StorageFailure;
use tlogg::Command;
use tlogg::Dataset;
use tlogg::Date;
use tlogg::Format;
use tlogg::Hours;
use tlogg::MigrationError;
use tlogg::RepoError;
use tlogg::Reply;
use tlogg::DB_VERSION;

fn ready() -> Dataset {
    let mut store = Dataset::new();
    migrate(&mut store, DB_VERSION).expect("could not migrate");
    store
}

fn add_project_command(name: &str, description: &str) -> Command {
    Command::AddProject { name: name.to_string(), description: description.to_string() }
}

fn add_command(millis: i64, description: &str, project: Option<&str>) -> Command {
    Command::Add {
        hours: Hours::from_millis(millis),
        description: description.to_string(),
        project: project.map(|p| p.to_string()),
    }
}

fn sqlite_failure(code: i32) -> rusqlite::Error {
    rusqlite::Error::SqliteFailure(rusqlite::ffi::Error::new(code), None)
}

#[test]
fn every_command_has_its_operation() {
    let mut store = ready();
    let today = Date::new(2024, 5, 17).unwrap();
    let added = execute(&mut store, &add_project_command("work", "day job"), today);
    match added {
        Ok(Reply::ProjectAdded(p)) => {
            assert_eq!(p.id, 1);
            assert_eq!(p.name, "work");
            assert_eq!(p.description, "day job");
        }
        other => panic!("{:?}", other),
    }
    let logged = execute(&mut store, &add_command(2500, "bugfix", Some("work")), today);
    match logged {
        Ok(Reply::EntryAdded(e)) => {
            assert_eq!(e.id, 1);
            assert_eq!(e.project, "work");
            assert_eq!(e.created, today);
        }
        other => panic!("{:?}", other),
    }
    let again = execute(&mut store, &add_command(500, "planning", None), today);
    assert!(matches!(again, Ok(Reply::EntryAdded(_))));
    let csv = execute(&mut store, &Command::Print { from: Date::epoch(), format: Format::Csv }, today);
    assert_eq!(
        csv,
        Ok(Reply::Report(
            "project,description,hours,date\n\
             work,bugfix,2.500,2024-05-17\n\
             work,planning,0.500,2024-05-17\n"
                .to_string()
        ))
    );
    let later = Date::new(2024, 5, 18).unwrap();
    let table =
        execute(&mut store, &Command::Print { from: later, format: Format::Markdown }, today);
    assert_eq!(
        table,
        Ok(Reply::Report(
            "| project | description | hours | date |\n|---|---|---|---|\n".to_string()
        ))
    );
    let kept = execute(&mut store, &Command::RemoveProject { name: "work".to_string() }, today);
    assert_eq!(kept, Err(RepoError::InUse));
    assert_eq!(execute(&mut store, &Command::Rm { id: 1 }, today), Ok(Reply::EntryRemoved));
    assert_eq!(execute(&mut store, &Command::Rm { id: 1 }, today), Err(RepoError::NotFound));
    assert_eq!(execute(&mut store, &Command::Rm { id: 2 }, today), Ok(Reply::EntryRemoved));
    let removed = execute(&mut store, &Command::RemoveProject { name: "work".to_string() }, today);
    assert_eq!(removed, Ok(Reply::ProjectRemoved));
    assert_eq!(list_projects(&store), Vec::new());
    assert_eq!(list_entries(&store, Date::epoch()), Vec::new());
}

#[test]
fn a_refused_command_changes_nothing() {
    let mut store = ready();
    let today = Date::epoch();
    execute(&mut store, &add_project_command("work", ""), today).unwrap();
    let before = list_projects(&store);
    assert_eq!(
        execute(&mut store, &add_project_command("work", "x"), today),
        Err(RepoError::DuplicateName)
    );
    assert_eq!(
        execute(&mut store, &add_project_command("", "x"), today),
        Err(RepoError::InvalidInput)
    );
    assert_eq!(
        execute(&mut store, &add_command(0, "x", Some("work")), today),
        Err(RepoError::InvalidDuration)
    );
    assert_eq!(
        execute(&mut store, &add_command(1, "x", None), today),
        Err(RepoError::NoDefaultProject)
    );
    assert_eq!(list_projects(&store), before);
    assert_eq!(list_entries(&store, Date::epoch()), Vec::new());
}

#[test]
fn errors_fall_into_families() {
    assert_eq!(RepoError::InvalidInput.class(), ErrorClass::Validation);
    assert_eq!(RepoError::InvalidDuration.class(), ErrorClass::Validation);
    assert_eq!(RepoError::NotFound.class(), ErrorClass::NotFound);
    assert_eq!(RepoError::NoDefaultProject.class(), ErrorClass::NotFound);
    assert_eq!(RepoError::DuplicateName.class(), ErrorClass::Conflict);
    assert_eq!(RepoError::InUse.class(), ErrorClass::Conflict);
    assert_eq!(RepoError::StorageFull.class(), ErrorClass::Storage);
    assert_eq!(MigrationError::UnknownVersion.class(), ErrorClass::Migration);
    assert_eq!(MigrationError::UndefinedStep.class(), ErrorClass::Migration);
}

#[test]
fn exit_codes_tell_the_families_apart() {
    assert_eq!(exit_code(ErrorClass::Validation), 2);
    assert_eq!(exit_code(ErrorClass::NotFound), 3);
    assert_eq!(exit_code(ErrorClass::Conflict), 4);
    assert_eq!(exit_code(ErrorClass::Migration), 5);
    assert_eq!(exit_code(ErrorClass::Storage), 6);
}

#[test]
fn the_steps_to_a_version_are_counted_up() {
    assert_eq!(pending_steps(0, 0), Ok(Vec::new()));
    assert_eq!(pending_steps(1, 1), Ok(Vec::new()));
    assert_eq!(pending_steps(0, 1), Ok(vec![1]));
    assert_eq!(pending_steps(2, 1), Err(MigrationError::UnknownVersion));
    assert_eq!(pending_steps(0, 2), Err(MigrationError::UndefinedStep));
    assert_eq!(pending_steps(1, 2), Err(MigrationError::UndefinedStep));
    assert_eq!(pending_steps(5, 5), Ok(Vec::new()));
}

#[test]
fn a_stored_marker_is_a_version_unless_negative() {
    assert_eq!(version_of(0), Some(0));
    assert_eq!(version_of(1), Some(1));
    assert_eq!(version_of(i64::MAX), Some(i64::MAX as u64));
    assert_eq!(version_of(-1), None);
    assert_eq!(version_of(i64::MIN), None);
}

#[test]
fn only_defined_steps_have_statements() {
    assert!(step_statements(0).is_none());
    assert!(step_statements(1).is_some());
    assert!(step_statements(2).is_none());
}

#[test]
fn the_first_step_creates_relations_that_keep_the_rules() {
    let conn = rusqlite::Connection::open_in_memory().expect("could not open db");
    conn.execute("PRAGMA foreign_keys = ON", rusqlite::NO_PARAMS).unwrap();
    conn.execute_batch(step_statements(1).unwrap()).expect("the schema");
    conn.execute("INSERT INTO projects (name, description) VALUES (?, ?)", &["work", "day job"])
        .expect("a project");
    assert!(conn
        .execute("INSERT INTO projects (name, description) VALUES (?, ?)", &["work", "again"])
        .is_err());
    assert!(conn
        .execute("INSERT INTO projects (name, description) VALUES (?, ?)", &["", "nameless"])
        .is_err());
    let insert = "INSERT INTO log_entries (description, hours, project, created) \
                  VALUES (?, ?, ?, ?)";
    conn.execute(insert, &["bugfix", "2500", "work", "2024-05-17"]).expect("an entry");
    assert!(conn.execute(insert, &["bugfix", "0", "work", "2024-05-17"]).is_err());
    assert!(conn.execute(insert, &["bugfix", "2500", "play", "2024-05-17"]).is_err());
    assert!(conn.execute("DELETE FROM projects WHERE name = ?", &["work"]).is_err());
    let id: i64 = conn
        .query_row("SELECT id FROM log_entries", rusqlite::NO_PARAMS, |r| r.get(0))
        .unwrap();
    assert_eq!(id, 1);
    conn.execute("DELETE FROM log_entries WHERE id = 1", rusqlite::NO_PARAMS).unwrap();
    assert_eq!(conn.execute("DELETE FROM projects WHERE name = ?", &["work"]).unwrap(), 1);
}

#[test]
fn a_locked_dataset_is_tried_once_more() {
    assert_eq!(after_failure(StorageFailure::Locked, 1), Recovery::Retry);
    assert_eq!(after_failure(StorageFailure::Locked, 2), Recovery::GiveUp);
    assert_eq!(after_failure(StorageFailure::Locked, 3), Recovery::GiveUp);
    assert_eq!(after_failure(StorageFailure::Other, 1), Recovery::GiveUp);
    assert_eq!(after_failure(StorageFailure::Other, 2), Recovery::GiveUp);
}

#[test]
fn busy_and_locked_are_told_from_other_errors() {
    let busy = sqlite_failure(rusqlite::ffi::SQLITE_BUSY);
    let locked = sqlite_failure(rusqlite::ffi::SQLITE_LOCKED);
    let constraint = sqlite_failure(rusqlite::ffi::SQLITE_CONSTRAINT);
    assert_eq!(recover(&busy, 1), Recovery::Retry);
    assert_eq!(recover(&locked, 1), Recovery::Retry);
    assert_eq!(recover(&busy, 2), Recovery::GiveUp);
    assert_eq!(recover(&locked, 2), Recovery::GiveUp);
    assert_eq!(recover(&constraint, 1), Recovery::GiveUp);
    assert_eq!(recover(&rusqlite::Error::QueryReturnedNoRows, 1), Recovery::GiveUp);
    assert_eq!(recover(&rusqlite::Error::InvalidQuery, 1), Recovery::GiveUp);
}
