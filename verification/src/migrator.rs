//! A run over named migration units, as a state machine.
//!
//! The machine never acts. It names the next thing to do, an [`Action`],
//! and is told how that went: `Ok(found)` if it went well, where `found`
//! says of a question put to the bookkeeping table whether a row came
//! back, and `Err(e)` if it failed. Whoever drives the machine executes
//! statements and calls the units' code.

use crate::ddl::{create_table_built, delete_built, insert_built, select_built};
use crate::error::MigrationError;
use crate::migrations_table::{
    get_version, init, insert_migration, migrations_table, unlock, version_deletion,
    version_insertion, version_query, MIGRATIONS_TABLE_LOCK_ROW_VERSION,
};
use crate::order::{is_run_order, sort_order};
use sea_orm::{DbBackend, Statement};
use vstd::prelude::*;

verus! {

/// What the driver of a run is to do next. Units are meant by their place
/// in the list that the run was started with.
#[derive(Debug)]
pub enum Action<E> {
    /// Create the bookkeeping table if it does not exist.
    EnsureTable,
    /// Ask the bookkeeping table for the lock row.
    CheckLock,
    /// Insert the lock row.
    AcquireLock,
    /// Ask the bookkeeping table for the row of this unit's name.
    CheckApplied(usize),
    /// Apply this unit.
    Apply(usize),
    /// Insert the row of this unit's name.
    Record(usize),
    /// Roll this unit back.
    Rollback(usize),
    /// Delete the lock row.
    ReleaseLock,
    /// Stop: the run has ended as given.
    Finish(Result<(), MigrationError<E>>),
}

/// Where a run stands: which action it waits to hear of. A unit is meant
/// here by its place in the run order.
#[derive(Debug)]
pub enum Phase<E> {
    /// Waiting for the bookkeeping table to be there.
    EnsuringTable,
    /// Waiting to hear whether the lock row is there.
    CheckingLock,
    /// Waiting for the lock row to be inserted.
    AcquiringLock,
    /// Waiting to hear whether the unit at this place was applied before.
    Checking(usize),
    /// Waiting for the unit at this place to be applied.
    Applying(usize),
    /// Waiting for the unit at this place to be recorded.
    Recording(usize),
    /// Waiting for the unit at this place to be rolled back, after its
    /// apply failed with the given error.
    RollingBack(usize, E),
    /// Waiting for the lock row to be deleted; the run's work ended as given.
    Releasing(Result<(), MigrationError<E>>),
    /// The run is over.
    Finished,
}

/// A run as contracts see it.
pub struct Machine<E> {
    /// The names of the units, as they were handed in.
    pub names: Seq<Seq<char>>,
    /// The units in the order in which they run.
    pub order: Seq<usize>,
    /// Where the run stands.
    pub phase: Phase<E>,
}

impl<E> Machine<E> {
    /// Whether no unit goes by the value of the lock row, the order is
    /// the run order of the names, and the phase speaks of a unit that is
    /// there.
    pub open spec fn wf(self) -> bool {
        &&& first_reserved(self.names) is None
        &&& is_run_order(self.names, self.order)
        &&& self.order.len() <= usize::MAX
        &&& match self.phase {
            Phase::Checking(k) => k < self.order.len(),
            Phase::Applying(k) => k < self.order.len(),
            Phase::Recording(k) => k < self.order.len(),
            Phase::RollingBack(k, _) => k < self.order.len(),
            _ => true,
        }
    }

    /// The same run in another phase.
    pub open spec fn at(self, phase: Phase<E>) -> Machine<E> {
        Machine { phase, ..self }
    }

    /// Turning to the unit at place `k`: ask whether it was applied, or,
    /// past the last unit, give the lock back with all work done.
    pub open spec fn turn_to(self, k: int) -> (Machine<E>, Option<Action<E>>) {
        if 0 <= k < self.order.len() {
            (self.at(Phase::Checking(k as usize)), Some(Action::CheckApplied(self.order[k])))
        } else {
            (self.at(Phase::Releasing(Ok(()))), Some(Action::ReleaseLock))
        }
    }

    /// Giving the lock back after the work has failed.
    pub open spec fn give_up(self, error: MigrationError<E>) -> (Machine<E>, Option<Action<E>>) {
        (self.at(Phase::Releasing(Err(error))), Some(Action::ReleaseLock))
    }

    /// Ending the run as given.
    pub open spec fn end(self, outcome: Result<(), MigrationError<E>>) -> (
        Machine<E>,
        Option<Action<E>>,
    ) {
        (self.at(Phase::Finished), Some(Action::Finish(outcome)))
    }

    /// The run after it has heard how its last action went, and the
    /// action that it asks for next; none once the run is over.
    ///
    /// - The table is ensured, then the lock is asked for. If the lock
    ///   row is there the run ends at once with [`MigrationError::Locked`].
    /// - With the lock taken, each unit in run order is looked up. One
    ///   that was applied before is passed over. Any other is applied and,
    ///   if that went well, recorded.
    /// - If a unit fails to apply it is rolled back and the work ends:
    ///   with the unit's error if the rollback went well, with the
    ///   rollback's error if not.
    /// - However the work ended, the lock is given back last. If that
    ///   fails, the run ends with that failure.
    /// - A failure before the lock was taken ends the run at once.
    pub open spec fn next(self, reply: Result<bool, E>) -> (Machine<E>, Option<Action<E>>) {
        match self.phase {
            Phase::EnsuringTable => match reply {
                Ok(_) => (self.at(Phase::CheckingLock), Some(Action::CheckLock)),
                Err(e) => self.end(Err(MigrationError::Database(e))),
            },
            Phase::CheckingLock => match reply {
                Ok(true) => self.end(Err(MigrationError::Locked)),
                Ok(false) => (self.at(Phase::AcquiringLock), Some(Action::AcquireLock)),
                Err(e) => self.end(Err(MigrationError::Database(e))),
            },
            Phase::AcquiringLock => match reply {
                Ok(_) => self.turn_to(0),
                Err(e) => self.end(Err(MigrationError::Database(e))),
            },
            Phase::Checking(k) => match reply {
                Ok(true) => self.turn_to(k + 1),
                Ok(false) => (self.at(Phase::Applying(k)), Some(Action::Apply(self.order[k as int]))),
                Err(e) => self.give_up(MigrationError::Database(e)),
            },
            Phase::Applying(k) => match reply {
                Ok(_) => (self.at(Phase::Recording(k)), Some(Action::Record(self.order[k as int]))),
                Err(e) => (
                    self.at(Phase::RollingBack(k, e)),
                    Some(Action::Rollback(self.order[k as int])),
                ),
            },
            Phase::Recording(k) => match reply {
                Ok(_) => self.turn_to(k + 1),
                Err(e) => self.give_up(MigrationError::Database(e)),
            },
            Phase::RollingBack(_, apply_error) => match reply {
                Ok(_) => self.give_up(MigrationError::Apply(apply_error)),
                Err(e) => self.give_up(MigrationError::Rollback(e)),
            },
            Phase::Releasing(outcome) => match reply {
                Ok(_) => self.end(outcome),
                Err(e) => self.end(Err(MigrationError::Database(e))),
            },
            Phase::Finished => (self, None),
        }
    }
}

/// The value of the lock row.
pub open spec fn lock_row() -> Seq<char> {
    MIGRATIONS_TABLE_LOCK_ROW_VERSION@
}

/// Whether `place` is the first in `names` to hold the value of the lock
/// row.
pub open spec fn is_first_reserved(names: Seq<Seq<char>>, place: int) -> bool {
    &&& 0 <= place < names.len()
    &&& names[place] == lock_row()
    &&& forall|i: int| 0 <= i < place ==> names[i] != lock_row()
}

/// The first place in `names` that holds the value of the lock row, if
/// there is one.
pub open spec fn first_reserved(names: Seq<Seq<char>>) -> Option<int> {
    if exists|place: int| is_first_reserved(names, place) {
        Some(choose|place: int| is_first_reserved(names, place))
    } else {
        None
    }
}

/// Names are free of the lock row's value exactly if none of them is it.
pub proof fn lemma_first_reserved(names: Seq<Seq<char>>)
    ensures
        first_reserved(names) is None <==> forall|i: int|
            0 <= i < names.len() ==> names[i] != lock_row(),
        first_reserved(names) matches Some(place) ==> is_first_reserved(names, place),
{
    if exists|i: int| 0 <= i < names.len() && names[i] == lock_row() {
        let i = choose|i: int| 0 <= i < names.len() && names[i] == lock_row();
        lemma_some_first(names, i);
    }
    if first_reserved(names) is Some {
        let place = choose|place: int| is_first_reserved(names, place);
        assert(is_first_reserved(names, place));
    }
}

/// Where a place holds the lock row's value, some place is the first.
proof fn lemma_some_first(names: Seq<Seq<char>>, i: int)
    requires
        0 <= i < names.len(),
        names[i] == lock_row(),
    ensures
        exists|place: int| is_first_reserved(names, place),
    decreases i,
{
    if exists|j: int| 0 <= j < i && names[j] == lock_row() {
        let j = choose|j: int| 0 <= j < i && names[j] == lock_row();
        lemma_some_first(names, j);
    } else {
        assert(is_first_reserved(names, i));
    }
}

/// What the bookkeeping statement that an action stands for is built
/// from; none for an action that is no such statement or that means a
/// unit that is not there.
#[verifier::ext_equal]
pub enum Bookkeeping {
    /// The bookkeeping table is created.
    Create,
    /// The row of this value is asked for.
    Query(Seq<char>),
    /// The row of this value is inserted.
    Insert(Seq<char>),
    /// The row of this value is deleted.
    Delete(Seq<char>),
}

/// The bookkeeping that an action asks for.
pub open spec fn bookkeeping_of<E>(names: Seq<Seq<char>>, action: Action<E>) -> Option<Bookkeeping> {
    match action {
        Action::EnsureTable => Some(Bookkeeping::Create),
        Action::CheckLock => Some(Bookkeeping::Query(lock_row())),
        Action::AcquireLock => Some(Bookkeeping::Insert(lock_row())),
        Action::CheckApplied(unit) => if unit < names.len() {
            Some(Bookkeeping::Query(names[unit as int]))
        } else {
            None
        },
        Action::Record(unit) => if unit < names.len() {
            Some(Bookkeeping::Insert(names[unit as int]))
        } else {
            None
        },
        Action::ReleaseLock => Some(Bookkeeping::Delete(lock_row())),
        Action::Apply(_) => None,
        Action::Rollback(_) => None,
        Action::Finish(_) => None,
    }
}

/// The statement that a backend makes of a piece of bookkeeping.
pub open spec fn bookkeeping_built(backend: DbBackend, bookkeeping: Bookkeeping) -> Statement {
    match bookkeeping {
        Bookkeeping::Create => create_table_built(backend, migrations_table()),
        Bookkeeping::Query(value) => select_built(backend, version_query(value)),
        Bookkeeping::Insert(value) => insert_built(backend, version_insertion(value)),
        Bookkeeping::Delete(value) => delete_built(backend, version_deletion(value)),
    }
}

/// No unit's question is the question for the lock.
///
/// In a run the bookkeeping that asks whether a unit was applied is
/// never the one that asks for the lock row, and the bookkeeping that
/// records a unit is never the one that inserts the lock row: they are
/// about different values.
pub proof fn lemma_no_unit_passes_for_the_lock<E>(m: Machine<E>, unit: usize)
    requires
        m.wf(),
        unit < m.names.len(),
    ensures
        bookkeeping_of(m.names, Action::<E>::CheckApplied(unit)) != bookkeeping_of(
            m.names,
            Action::<E>::CheckLock,
        ),
        bookkeeping_of(m.names, Action::<E>::Record(unit)) != bookkeeping_of(
            m.names,
            Action::<E>::AcquireLock,
        ),
        m.names[unit as int] != lock_row(),
{
    lemma_first_reserved(m.names);
}

/// The run that starts with the given names: it waits for the table.
pub open spec fn starts<E>(names: Seq<Seq<char>>, m: Machine<E>) -> bool {
    &&& m.names == names
    &&& m.wf()
    &&& m.phase == Phase::<E>::EnsuringTable
}

/// A run over named migration units.
pub struct Migrator<E> {
    names: Vec<String>,
    order: Vec<usize>,
    phase: Phase<E>,
}

impl<E> Migrator<E> {
    /// The run as contracts see it.
    pub closed spec fn view(&self) -> Machine<E> {
        Machine { names: self.names.deep_view(), order: self.order@, phase: self.phase }
    }

    /// Starts a run over the units of the given names, in whatever order
    /// they are handed in, and asks for the bookkeeping table.
    ///
    /// A unit that goes by the value of the lock row is refused: the
    /// question whether it was applied would be the question whether the
    /// table is locked. The first such unit is named in the error, and
    /// no run is started.
    pub fn new(names: Vec<String>) -> (r: Result<(Migrator<E>, Action<E>), MigrationError<E>>)
        ensures
            match first_reserved(names.deep_view()) {
                Some(place) => r == Err::<(Migrator<E>, Action<E>), MigrationError<E>>(
                    MigrationError::ReservedName(place as usize),
                ),
                None => r is Ok && starts(names.deep_view(), r->Ok_0.0@) && r->Ok_0.1
                    == Action::<E>::EnsureTable,
            },
    {
        let reserved = MIGRATIONS_TABLE_LOCK_ROW_VERSION.to_owned();
        let ghost all = names.deep_view();
        let mut i: usize = 0;
        while i < names.len()
            invariant
                i <= names.len(),
                all == names.deep_view(),
                all.len() == names.len(),
                reserved@ == lock_row(),
                forall|j: int| 0 <= j < i ==> all[j] != lock_row(),
            decreases names.len() - i,
        {
            assert(all[i as int] == names[i as int]@);
            if names[i] == reserved {
                proof {
                    assert(is_first_reserved(all, i as int));
                    lemma_first_reserved(all);
                    let place = first_reserved(all)->Some_0;
                    if place < i {
                        assert(all[place] != lock_row());
                    }
                }
                return Err(MigrationError::ReservedName(i));
            }
            i += 1;
        }
        proof {
            lemma_first_reserved(all);
        }
        let order = sort_order(&names);
        assert(order@.len() == order.len());
        Ok((Migrator { names, order, phase: Phase::EnsuringTable }, Action::EnsureTable))
    }

    /// How many units the run is over.
    pub fn len(&self) -> (n: usize)
        ensures
            n == self@.names.len(),
    {
        self.names.len()
    }

    /// The name of a unit; none if there is no such unit.
    pub fn name(&self, unit: usize) -> (r: Option<&str>)
        ensures
            unit >= self@.names.len() ==> r is None,
            unit < self@.names.len() ==> r is Some && r->Some_0@ == self@.names[unit as int],
    {
        if unit < self.names.len() {
            let name = self.names[unit].as_str();
            assert(self.names.deep_view()[unit as int] == self.names[unit as int]@);
            Some(name)
        } else {
            None
        }
    }

    /// The units in the order in which the run takes them.
    pub fn order(&self) -> (r: &Vec<usize>)
        ensures
            r@ == self@.order,
    {
        &self.order
    }

    /// The bookkeeping statement that `action` stands for, in the
    /// dialect of `backend`: what the backend makes of
    /// [`bookkeeping_of`] the action. Applying a unit and rolling it back
    /// are the unit's own business.
    pub fn statement(&self, backend: DbBackend, action: &Action<E>) -> (r: Option<Statement>)
        ensures
            r is Some <==> bookkeeping_of(self@.names, *action) is Some,
            r matches Some(statement) ==> statement == bookkeeping_built(
                backend,
                bookkeeping_of(self@.names, *action)->Some_0,
            ),
    {
        match action {
            Action::EnsureTable => Some(init(backend)),
            Action::CheckLock => Some(get_version(backend, MIGRATIONS_TABLE_LOCK_ROW_VERSION)),
            Action::AcquireLock => Some(
                insert_migration(backend, MIGRATIONS_TABLE_LOCK_ROW_VERSION),
            ),
            Action::CheckApplied(unit) => match self.name(*unit) {
                Some(name) => Some(get_version(backend, name)),
                None => None,
            },
            Action::Record(unit) => match self.name(*unit) {
                Some(name) => Some(insert_migration(backend, name)),
                None => None,
            },
            Action::ReleaseLock => Some(unlock(backend)),
            Action::Apply(_) => None,
            Action::Rollback(_) => None,
            Action::Finish(_) => None,
        }
    }

    /// Whether the run is over.
    pub fn is_finished(&self) -> (b: bool)
        ensures
            b == (self@.phase is Finished),
    {
        match self.phase {
            Phase::Finished => true,
            _ => false,
        }
    }

    /// The run as it turns to the unit at place `k`.
    fn turn_to(names: Vec<String>, order: Vec<usize>, k: usize) -> (r: (Migrator<E>, Option<Action<E>>))
        requires
            k <= order.len(),
        ensures
            (r.0@, r.1) == (Machine::<E> {
                names: names.deep_view(),
                order: order@,
                phase: Phase::Finished,
            }).turn_to(k as int),
    {
        if k < order.len() {
            let unit = order[k];
            (Migrator { names, order, phase: Phase::Checking(k) }, Some(Action::CheckApplied(unit)))
        } else {
            (Migrator { names, order, phase: Phase::Releasing(Ok(())) }, Some(Action::ReleaseLock))
        }
    }

    /// Takes the outcome of the last action and gives the next action:
    /// exactly what [`Machine::next`] says. Once the run is over there is
    /// no next action and nothing changes.
    pub fn step(self, reply: Result<bool, E>) -> (r: (Migrator<E>, Option<Action<E>>))
        requires
            self@.wf(),
        ensures
            (r.0@, r.1) == self@.next(reply),
            r.0@.wf(),
    {
        let Migrator { names, order, phase } = self;
        match phase {
            Phase::EnsuringTable => match reply {
                Ok(_) => (
                    Migrator { names, order, phase: Phase::CheckingLock },
                    Some(Action::CheckLock),
                ),
                Err(e) => (
                    Migrator { names, order, phase: Phase::Finished },
                    Some(Action::Finish(Err(MigrationError::Database(e)))),
                ),
            },
            Phase::CheckingLock => match reply {
                Ok(true) => (
                    Migrator { names, order, phase: Phase::Finished },
                    Some(Action::Finish(Err(MigrationError::Locked))),
                ),
                Ok(false) => (
                    Migrator { names, order, phase: Phase::AcquiringLock },
                    Some(Action::AcquireLock),
                ),
                Err(e) => (
                    Migrator { names, order, phase: Phase::Finished },
                    Some(Action::Finish(Err(MigrationError::Database(e)))),
                ),
            },
            Phase::AcquiringLock => match reply {
                Ok(_) => Self::turn_to(names, order, 0),
                Err(e) => (
                    Migrator { names, order, phase: Phase::Finished },
                    Some(Action::Finish(Err(MigrationError::Database(e)))),
                ),
            },
            Phase::Checking(k) => match reply {
                Ok(true) => Self::turn_to(names, order, k + 1),
                Ok(false) => {
                    let unit = order[k];
                    (Migrator { names, order, phase: Phase::Applying(k) }, Some(Action::Apply(unit)))
                },
                Err(e) => (
                    Migrator {
                        names,
                        order,
                        phase: Phase::Releasing(Err(MigrationError::Database(e))),
                    },
                    Some(Action::ReleaseLock),
                ),
            },
            Phase::Applying(k) => {
                let unit = order[k];
                match reply {
                    Ok(_) => (
                        Migrator { names, order, phase: Phase::Recording(k) },
                        Some(Action::Record(unit)),
                    ),
                    Err(e) => (
                        Migrator { names, order, phase: Phase::RollingBack(k, e) },
                        Some(Action::Rollback(unit)),
                    ),
                }
            },
            Phase::Recording(k) => match reply {
                Ok(_) => Self::turn_to(names, order, k + 1),
                Err(e) => (
                    Migrator {
                        names,
                        order,
                        phase: Phase::Releasing(Err(MigrationError::Database(e))),
                    },
                    Some(Action::ReleaseLock),
                ),
            },
            Phase::RollingBack(_, apply_error) => match reply {
                Ok(_) => (
                    Migrator {
                        names,
                        order,
                        phase: Phase::Releasing(Err(MigrationError::Apply(apply_error))),
                    },
                    Some(Action::ReleaseLock),
                ),
                Err(e) => (
                    Migrator {
                        names,
                        order,
                        phase: Phase::Releasing(Err(MigrationError::Rollback(e))),
                    },
                    Some(Action::ReleaseLock),
                ),
            },
            Phase::Releasing(outcome) => match reply {
                Ok(_) => (
                    Migrator { names, order, phase: Phase::Finished },
                    Some(Action::Finish(outcome)),
                ),
                Err(e) => (
                    Migrator { names, order, phase: Phase::Finished },
                    Some(Action::Finish(Err(MigrationError::Database(e)))),
                ),
            },
            Phase::Finished => (Migrator { names, order, phase: Phase::Finished }, None),
        }
    }
}

} // verus!
