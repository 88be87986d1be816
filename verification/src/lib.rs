//! Schema migrations for relational databases.
//!
//! A run takes a set of named migration units, applies in name order those
//! that the bookkeeping table does not list yet, records each success, and
//! rolls a failed unit back before it reports the failure. A lock row in
//! the bookkeeping table keeps two runs from working at the same time.
//!
//! The library decides and builds; it never talks to a database.
//!
//! - [`seaorm_integration`] turns the columns and relations of an
//!   [`entity`] into column and foreign-key definitions, and [`manager`]
//!   puts them into the statements that create and change tables.
//! - [`migrations_table`] has the statements of the bookkeeping table.
//! - [`order`] says in which order units run.
//! - [`migrator`] is the run as a state machine: it names the next thing
//!   to do and is told how that went. [`version`] is the same for runs
//!   that count versions rather than keep names.
//! - [`model`] proves what holds of every run: that a second run applies
//!   nothing, that the lock is given back, and more.
//! - [`ddl`] is the boundary to the statement builders of `sea_query`.

pub mod ddl;
pub mod entity;
pub mod error;
pub mod example;
pub mod manager;
pub mod migration;
pub mod migrations_table;
pub mod migrator;
pub mod model;
pub mod order;
pub mod seaorm_integration;
pub mod version;

pub use entity::{ColumnMeta, EntityMeta, RelationMeta, RelationShape, RelationType, TableRef};
pub use error::{MigrationError, SynthesisError};
pub use manager::MigrationManager;
pub use migration::{MigrationName, MigratorTrait};
pub use migrator::{Action, Migrator, Phase};
