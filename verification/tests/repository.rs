use tlogg::add_entry;
use tlogg::error::ErrorClass;
use tlogg::add_project;
use tlogg::list_entries;
use tlogg::list_projects;
use tlogg::migrate;
use tlogg::remove_entry;
use tlogg::remove_project;
use tlogg::user_version;
use tlogg::Dataset;
use tlogg::Date;
use tlogg::Hours;
use tlogg::MigrationError;
use tlogg::Project;
use tlogg::RepoError;
use tlogg::TloggEntry;
use tlogg::DB_VERSION;

fn fresh() -> Dataset {
    let mut store = Dataset::new();
    migrate(&mut store, DB_VERSION).expect("could not migrate");
    store
}

fn day(year: u16, month: u8, day: u8) -> Date {
    Date::new(year, month, day).expect("no such day")
}

fn project(id: u64, name: &str, description: &str) -> Project {
    Project { id, name: name.to_string(), description: description.to_string() }
}

fn entry(id: u64, millis: i64, message: &str, project: &str, created: Date) -> TloggEntry {
    TloggEntry {
        id,
        duration: Hours::from_millis(millis),
        message: message.to_string(),
        project: project.to_string(),
        created,
    }
}

#[test]
fn test_create_bucket() {
    let mut store = Dataset::new();
    migrate(&mut store, DB_VERSION).expect("could not migrate");
    add_project(&mut store, "testproject", "just testing").expect("could not add project");
}

#[test]
fn test_list_projects() {
    let mut store = Dataset::new();
    migrate(&mut store, DB_VERSION).expect("could not migrate");
    add_project(&mut store, "testproject", "just testing").expect("could not add project");
    let projects = list_projects(&store);
    assert_eq!(projects, vec![project(1, "testproject", "just testing")]);
}

#[test]
fn a_new_dataset_is_uninitialised() {
    let store = Dataset::new();
    assert_eq!(user_version(&store), 0);
}

#[test]
fn migration_reaches_the_target() {
    let mut store = Dataset::new();
    assert_eq!(migrate(&mut store, 1), Ok(1));
    assert_eq!(user_version(&store), 1);
}

#[test]
fn migration_to_the_current_version_changes_nothing() {
    let mut store = Dataset::new();
    assert_eq!(migrate(&mut store, 0), Ok(0));
    assert_eq!(user_version(&store), 0);
}

#[test]
fn migrating_twice_gives_the_same_version() {
    let mut store = Dataset::new();
    assert_eq!(migrate(&mut store, DB_VERSION), Ok(DB_VERSION));
    add_project(&mut store, "work", "day job").unwrap();
    assert_eq!(migrate(&mut store, DB_VERSION), Ok(DB_VERSION));
    assert_eq!(user_version(&store), DB_VERSION);
    assert_eq!(list_projects(&store), vec![project(1, "work", "day job")]);
}

#[test]
fn a_dataset_from_a_later_release_is_refused() {
    let mut store = Dataset::restore(2, Vec::new(), Vec::new()).expect("valid");
    assert_eq!(migrate(&mut store, 1), Err(MigrationError::UnknownVersion));
    assert_eq!(user_version(&store), 2);
}

#[test]
fn a_target_without_steps_is_refused() {
    let mut store = Dataset::new();
    assert_eq!(migrate(&mut store, 2), Err(MigrationError::UndefinedStep));
    assert_eq!(user_version(&store), 0);
}

#[test]
fn projects_get_ids_in_the_order_of_creation() {
    let mut store = fresh();
    assert_eq!(add_project(&mut store, "work", "day job"), Ok(project(1, "work", "day job")));
    assert_eq!(add_project(&mut store, "home", ""), Ok(project(2, "home", "")));
    assert_eq!(
        list_projects(&store),
        vec![project(1, "work", "day job"), project(2, "home", "")]
    );
}

#[test]
fn an_empty_project_name_is_invalid() {
    let mut store = fresh();
    assert_eq!(add_project(&mut store, "", "nameless"), Err(RepoError::InvalidInput));
    assert_eq!(list_projects(&store), Vec::new());
}

#[test]
fn a_second_project_of_the_same_name_is_a_conflict() {
    let mut store = fresh();
    add_project(&mut store, "work", "day job").unwrap();
    add_project(&mut store, "home", "chores").unwrap();
    assert_eq!(add_project(&mut store, "work", "again"), Err(RepoError::DuplicateName));
    assert_eq!(
        list_projects(&store),
        vec![project(1, "work", "day job"), project(2, "home", "chores")]
    );
}

#[test]
fn project_names_are_case_sensitive() {
    let mut store = fresh();
    add_project(&mut store, "work", "").unwrap();
    assert_eq!(add_project(&mut store, "Work", ""), Ok(project(2, "Work", "")));
}

#[test]
fn removing_an_unknown_project_is_not_found() {
    let mut store = fresh();
    add_project(&mut store, "work", "").unwrap();
    assert_eq!(remove_project(&mut store, "play"), Err(RepoError::NotFound));
    assert_eq!(list_projects(&store).len(), 1);
}

#[test]
fn a_project_in_use_is_not_removed() {
    let mut store = fresh();
    add_project(&mut store, "work", "").unwrap();
    add_entry(&mut store, Hours::from_millis(1000), "meeting", Some("work"), Date::epoch()).unwrap();
    assert_eq!(remove_project(&mut store, "work"), Err(RepoError::InUse));
    assert_eq!(list_projects(&store), vec![project(1, "work", "")]);
    assert_eq!(list_entries(&store, Date::epoch()).len(), 1);
}

#[test]
fn a_project_without_entries_is_removed() {
    let mut store = fresh();
    add_project(&mut store, "work", "").unwrap();
    add_project(&mut store, "home", "").unwrap();
    add_project(&mut store, "play", "").unwrap();
    assert_eq!(remove_project(&mut store, "home"), Ok(()));
    assert_eq!(list_projects(&store), vec![project(1, "work", ""), project(3, "play", "")]);
}

#[test]
fn an_entry_on_an_unknown_project_is_not_found() {
    let mut store = fresh();
    add_project(&mut store, "work", "").unwrap();
    let r = add_entry(&mut store, Hours::from_millis(1000), "x", Some("play"), Date::epoch());
    assert_eq!(r, Err(RepoError::NotFound));
    assert_eq!(list_entries(&store, Date::epoch()), Vec::new());
}

#[test]
fn an_empty_log_has_no_default_project() {
    let mut store = fresh();
    add_project(&mut store, "A", "").unwrap();
    let r = add_entry(&mut store, Hours::from_millis(1000), "x", None, Date::epoch());
    assert_eq!(r, Err(RepoError::NoDefaultProject));
    let r = add_entry(&mut store, Hours::from_millis(0), "x", None, Date::epoch());
    assert_eq!(r, Err(RepoError::NoDefaultProject));
}

#[test]
fn the_default_project_is_the_one_used_last() {
    let mut store = fresh();
    add_project(&mut store, "A", "").unwrap();
    add_project(&mut store, "B", "").unwrap();
    add_entry(&mut store, Hours::from_millis(1000), "first", Some("A"), Date::epoch()).unwrap();
    let second = add_entry(&mut store, Hours::from_millis(500), "second", None, Date::epoch());
    assert_eq!(second, Ok(entry(2, 500, "second", "A", Date::epoch())));
    add_entry(&mut store, Hours::from_millis(250), "third", Some("B"), Date::epoch()).unwrap();
    let fourth = add_entry(&mut store, Hours::from_millis(125), "fourth", None, Date::epoch());
    assert_eq!(fourth, Ok(entry(4, 125, "fourth", "B", Date::epoch())));
}

#[test]
fn a_duration_of_nothing_is_invalid() {
    let mut store = fresh();
    add_project(&mut store, "work", "").unwrap();
    let r = add_entry(&mut store, Hours::from_millis(0), "x", Some("work"), Date::epoch());
    assert_eq!(r, Err(RepoError::InvalidDuration));
    let r = add_entry(&mut store, Hours::from_millis(-1), "x", Some("work"), Date::epoch());
    assert_eq!(r, Err(RepoError::InvalidDuration));
    assert_eq!(list_entries(&store, Date::epoch()), Vec::new());
}

#[test]
fn the_project_is_resolved_before_the_duration_is_checked() {
    let mut store = fresh();
    add_project(&mut store, "work", "").unwrap();
    let r = add_entry(&mut store, Hours::from_millis(-1), "x", Some("play"), Date::epoch());
    assert_eq!(r, Err(RepoError::NotFound));
}

#[test]
fn removing_an_unknown_entry_is_not_found() {
    let mut store = fresh();
    add_project(&mut store, "work", "").unwrap();
    add_entry(&mut store, Hours::from_millis(1000), "x", Some("work"), Date::epoch()).unwrap();
    assert_eq!(remove_entry(&mut store, 2), Err(RepoError::NotFound));
    assert_eq!(remove_entry(&mut store, 0), Err(RepoError::NotFound));
    assert_eq!(list_entries(&store, Date::epoch()).len(), 1);
}

#[test]
fn an_entry_is_removed_by_its_id() {
    let mut store = fresh();
    add_project(&mut store, "work", "").unwrap();
    add_entry(&mut store, Hours::from_millis(1000), "one", Some("work"), Date::epoch()).unwrap();
    add_entry(&mut store, Hours::from_millis(2000), "two", None, Date::epoch()).unwrap();
    add_entry(&mut store, Hours::from_millis(3000), "three", None, Date::epoch()).unwrap();
    assert_eq!(remove_entry(&mut store, 2), Ok(()));
    assert_eq!(
        list_entries(&store, Date::epoch()),
        vec![
            entry(1, 1000, "one", "work", Date::epoch()),
            entry(3, 3000, "three", "work", Date::epoch())
        ]
    );
}

#[test]
fn the_next_id_follows_the_last_entry() {
    let mut store = fresh();
    add_project(&mut store, "work", "").unwrap();
    add_entry(&mut store, Hours::from_millis(1000), "one", Some("work"), Date::epoch()).unwrap();
    add_entry(&mut store, Hours::from_millis(1000), "two", None, Date::epoch()).unwrap();
    remove_entry(&mut store, 1).unwrap();
    let third = add_entry(&mut store, Hours::from_millis(1000), "three", None, Date::epoch());
    assert_eq!(third.map(|e| e.id), Ok(3));
}

#[test]
fn entries_are_listed_from_a_day_on() {
    let mut store = fresh();
    add_project(&mut store, "work", "").unwrap();
    add_entry(&mut store, Hours::from_millis(1000), "old", Some("work"), day(2020, 1, 31)).unwrap();
    add_entry(&mut store, Hours::from_millis(1000), "that day", None, day(2020, 2, 1)).unwrap();
    add_entry(&mut store, Hours::from_millis(1000), "late", None, day(2021, 1, 1)).unwrap();
    add_entry(&mut store, Hours::from_millis(1000), "clock set back", None, day(2019, 12, 31))
        .unwrap();
    let listed = list_entries(&store, day(2020, 2, 1));
    assert_eq!(
        listed,
        vec![
            entry(2, 1000, "that day", "work", day(2020, 2, 1)),
            entry(3, 1000, "late", "work", day(2021, 1, 1))
        ]
    );
    assert_eq!(list_entries(&store, Date::epoch()).len(), 4);
    assert_eq!(list_entries(&store, day(2021, 1, 2)), Vec::new());
}

#[test]
fn work_is_logged_and_cleared_away() {
    let mut store = fresh();
    add_project(&mut store, "work", "day job").unwrap();
    let duration = Hours::parse("2.5").expect("a duration");
    let added = add_entry(&mut store, duration, "bugfix", Some("work"), day(2024, 5, 17)).unwrap();
    let listed = list_entries(&store, Date::epoch());
    assert_eq!(listed.len(), 1);
    assert_eq!(listed[0].duration, Hours::from_millis(2500));
    assert_eq!(listed[0].duration.millis as f64 / 1000.0, 2.5);
    assert_eq!(listed[0].message, "bugfix");
    assert_eq!(listed[0].project, "work");
    assert_eq!(listed[0].id, added.id);
    let refused = remove_project(&mut store, "work");
    assert_eq!(refused, Err(RepoError::InUse));
    assert_eq!(refused.unwrap_err().class(), ErrorClass::Conflict);
    assert_eq!(remove_entry(&mut store, added.id), Ok(()));
    assert_eq!(remove_project(&mut store, "work"), Ok(()));
    assert_eq!(list_projects(&store), Vec::new());
    assert_eq!(list_entries(&store, Date::epoch()), Vec::new());
}

#[test]
fn stored_records_are_taken_over() {
    let projects = vec![project(3, "work", "day job"), project(7, "home", "")];
    let entries = vec![
        entry(2, 1500, "planning", "work", day(2024, 2, 29)),
        entry(9, 250, "dishes", "home", day(2024, 3, 1)),
    ];
    let mut store = Dataset::restore(1, projects.clone(), entries.clone()).expect("valid records");
    assert_eq!(user_version(&store), 1);
    assert_eq!(list_projects(&store), projects);
    assert_eq!(list_entries(&store, Date::epoch()), entries);
    assert_eq!(add_project(&mut store, "play", ""), Ok(project(8, "play", "")));
    let next = add_entry(&mut store, Hours::from_millis(1), "more", None, day(2024, 3, 2));
    assert_eq!(next, Ok(entry(10, 1, "more", "home", day(2024, 3, 2))));
}

#[test]
fn records_that_break_the_rules_are_not_taken_over() {
    let work = project(1, "work", "");
    let home = project(2, "home", "");
    let e = entry(1, 1000, "x", "work", Date::epoch());
    assert!(Dataset::restore(0, vec![work.clone()], Vec::new()).is_none());
    assert!(Dataset::restore(1, vec![project(0, "work", "")], Vec::new()).is_none());
    assert!(Dataset::restore(1, vec![project(1, "", "")], Vec::new()).is_none());
    assert!(Dataset::restore(1, vec![home.clone(), work.clone()], Vec::new()).is_none());
    assert!(Dataset::restore(1, vec![work.clone(), project(2, "work", "")], Vec::new()).is_none());
    assert!(Dataset::restore(1, vec![work.clone(), project(1, "home", "")], Vec::new()).is_none());
    assert!(Dataset::restore(1, vec![home.clone()], vec![e.clone()]).is_none());
    assert!(Dataset::restore(1, vec![work.clone()], vec![entry(0, 1, "x", "work", Date::epoch())])
        .is_none());
    assert!(Dataset::restore(1, vec![work.clone()], vec![entry(1, 0, "x", "work", Date::epoch())])
        .is_none());
    let no_day = Date { year: 2023, month: 2, day: 29 };
    assert!(Dataset::restore(1, vec![work.clone()], vec![entry(1, 1, "x", "work", no_day)])
        .is_none());
    let twice = vec![e.clone(), e.clone()];
    assert!(Dataset::restore(1, vec![work.clone()], twice).is_none());
    assert!(Dataset::restore(1, vec![work.clone(), home], vec![e]).is_some());
}

#[test]
fn a_full_dataset_hands_out_no_more_ids() {
    let projects = vec![project(u64::MAX, "work", "")];
    let entries = vec![entry(u64::MAX, 1, "x", "work", Date::epoch())];
    let mut store = Dataset::restore(1, projects, entries).expect("valid records");
    assert_eq!(add_project(&mut store, "home", ""), Err(RepoError::StorageFull));
    let r = add_entry(&mut store, Hours::from_millis(1), "y", None, Date::epoch());
    assert_eq!(r, Err(RepoError::StorageFull));
    assert_eq!(list_projects(&store).len(), 1);
    assert_eq!(list_entries(&store, Date::epoch()).len(), 1);
}

#[test]
fn an_entry_without_a_project_joins_the_only_entry() {
    let mut store = fresh();
    add_project(&mut store, "A", "").unwrap();
    add_entry(&mut store, Hours::from_millis(1000), "first", Some("A"), Date::epoch()).unwrap();
    assert_eq!(list_entries(&store, Date::epoch()).len(), 1);
    let second = add_entry(&mut store, Hours::from_millis(1), "second", None, day(1970, 1, 2));
    assert_eq!(second, Ok(entry(2, 1, "second", "A", day(1970, 1, 2))));
    assert_eq!(
        list_entries(&store, Date::epoch()),
        vec![
            entry(1, 1000, "first", "A", Date::epoch()),
            entry(2, 1, "second", "A", day(1970, 1, 2))
        ]
    );
}

#[test]
fn the_last_id_leaves_no_room_for_a_default_entry() {
    let projects = vec![project(1, "A", "")];
    let entries = vec![entry(u64::MAX, 1000, "first", "A", Date::epoch())];
    let mut store = Dataset::restore(1, projects, entries.clone()).expect("valid records");
    let second = add_entry(&mut store, Hours::from_millis(1), "second", None, Date::epoch());
    assert_eq!(second, Err(RepoError::StorageFull));
    assert_eq!(list_entries(&store, Date::epoch()), entries);
}
