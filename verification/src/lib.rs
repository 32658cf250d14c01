//! Time tracking on named projects: a dataset of projects and log entries
//! with its schema version, the operations that keep it consistent, and
//! the reports drawn from it.

pub mod command;
pub mod csv;
pub mod dataset;
pub mod date;
pub mod digits;
pub mod error;
pub mod hours;
pub mod laws;
pub mod model;
pub mod report;
pub mod repository;
pub mod schema;
pub mod storage;
pub mod text;

pub use command::execute;
pub use command::Command;
pub use command::Format;
pub use command::Reply;
pub use repository::add_entry;
pub use repository::add_project;
pub use repository::list_entries;
pub use repository::list_projects;
pub use repository::migrate;
pub use repository::remove_entry;
pub use repository::remove_project;
pub use repository::user_version;
pub use repository::Dataset;
pub use date::Date;
pub use error::MigrationError;
pub use error::RepoError;
pub use hours::Hours;
pub use model::Project;
pub use model::TloggEntry;
pub use report::parse_csv;
pub use report::to_csv;
pub use report::to_markdown;
pub use schema::DB_VERSION;
