//! What a migration unit is: a name, and the statements that apply it and
//! that take it back.

use crate::error::SynthesisError;
use crate::manager::MigrationManager;
use sea_orm::Statement;
use vstd::prelude::*;

verus! {

/// The name of a migration. Units run in the order of their names, and a
/// unit is known as applied by its name; a date and time at the front of
/// the name keeps both in step with the order of writing.
pub trait MigrationName {
    /// The name of the migration.
    fn name(&self) -> &'static str;
}

/// A migration unit.
pub trait MigratorTrait: MigrationName {
    /// The statements that apply the migration, in order. What they
    /// create may be taken not to exist yet. If one of them fails, `down`
    /// is run before the failure is reported.
    fn up(&self, mg: &MigrationManager) -> Result<Vec<Statement>, SynthesisError>;

    /// The statements that take the migration back, in order. They may
    /// find less than `up` was to create, since `up` may have failed
    /// half way.
    fn down(&self, mg: &MigrationManager) -> Result<Vec<Statement>, SynthesisError>;
}

} // verus!
