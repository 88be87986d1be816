//! The failures that the library reports.

use crate::entity::{RelationShape, TableRefKind};
use vstd::prelude::*;
use vstd::string::StringExecFns;

verus! {

/// Why no statement could be built from a piece of entity metadata.
///
/// None of these is recoverable: a schema that cannot be expressed is
/// refused, never approximated.
#[derive(Clone, Copy, Debug, PartialEq, Eq, Structural)]
pub enum SynthesisError {
    /// The column asks for a plain index, which cannot be migrated.
    IndexedColumn,
    /// The relation is of a shape that gives no foreign key.
    UnsupportedRelation(RelationShape),
    /// The table is referred to in another way than by its bare name.
    UnsupportedTableRef(TableRefKind),
    /// The backend has no statement for the operation.
    UnsupportedByBackend,
}

/// Why a run ended without success. `E` is the error type of whatever
/// executes statements and units; such errors pass through untouched.
#[derive(Debug)]
pub enum MigrationError<E> {
    /// The unit at this place in the list goes by the value of the lock
    /// row, which no unit may: it would pass for applied while a run
    /// holds the lock. Nothing was done.
    ReservedName(usize),
    /// Another run holds the lock. Nothing was done; try again later.
    Locked,
    /// A bookkeeping statement failed.
    Database(E),
    /// A unit failed to apply and was rolled back; the error is the unit's.
    Apply(E),
    /// A unit failed to apply and its rollback failed too; the error is
    /// the rollback's.
    Rollback(E),
    /// In a version-counted run, the step function failed. Nothing was
    /// rolled back.
    Step(E),
    /// In a version-counted run, the step function knew no step for the
    /// version it was given.
    UnrecognizedVersion(Option<i64>),
}

/// The text of [`SynthesisError::message`].
pub open spec fn synthesis_message(e: SynthesisError) -> Seq<char> {
    match e {
        SynthesisError::IndexedColumn => "Indexed columns are not yet able to be migrated!"@,
        SynthesisError::UnsupportedRelation(shape) => "Sea migrations does not yet support '"@
            + shape.spec_name() + "' relationships!"@,
        SynthesisError::UnsupportedTableRef(kind) => "Sea migrations does not yet support '"@
            + kind.spec_name() + "' TableRef!"@,
        SynthesisError::UnsupportedByBackend =>
            "The database backend does not support this operation!"@,
    }
}

impl SynthesisError {
    /// A sentence for the person who wrote the entity.
    pub fn message(&self) -> (s: String)
        ensures
            s@ == synthesis_message(*self),
    {
        match self {
            SynthesisError::IndexedColumn => String::from_str(
                "Indexed columns are not yet able to be migrated!",
            ),
            SynthesisError::UnsupportedRelation(shape) => {
                let s = String::from_str("Sea migrations does not yet support '");
                let s = s.concat(shape.name());
                s.concat("' relationships!")
            },
            SynthesisError::UnsupportedTableRef(kind) => {
                let s = String::from_str("Sea migrations does not yet support '");
                let s = s.concat(kind.name());
                s.concat("' TableRef!")
            },
            SynthesisError::UnsupportedByBackend => String::from_str(
                "The database backend does not support this operation!",
            ),
        }
    }
}

/// What a caller is told when the lock is held.
pub open spec fn locked_message() -> Seq<char> {
    "Migrations table is locked! Please try again later!"@
}

impl<E> MigrationError<E> {
    /// Whether the run was turned away at the lock.
    pub fn is_locked(&self) -> (b: bool)
        ensures
            b == (self is Locked),
    {
        match self {
            MigrationError::Locked => true,
            _ => false,
        }
    }

    /// The sentence that goes with [`MigrationError::Locked`].
    pub fn lock_message() -> (s: String)
        ensures
            s@ == locked_message(),
    {
        String::from_str("Migrations table is locked! Please try again later!")
    }
}

} // verus!
