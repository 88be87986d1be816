//! A run that counts versions, as a state machine.
//!
//! Here there are no named units. One step function is called with the
//! version that the bookkeeping table holds, or with none on a fresh
//! database. It takes the database one version further and says so, or
//! says that nothing is left to do. The run calls it until nothing is.
//! There is no rollback: a step that fails ends the run as it is.
//!
//! Like [`crate::migrator::Migrator`] the machine only names what is to
//! be done and hears how it went. How versions are kept in the table is
//! the driver's business.

use crate::error::MigrationError;
use vstd::prelude::*;

verus! {

/// What stands in the version column of the row that marks a run in
/// progress. It is no version.
pub const VERSION_LOCK_ROW: i64 = -1;

/// Whether `version` is the highest of `rows`, the lock row left aside;
/// none is the highest where no other row is there.
pub open spec fn is_latest(rows: Seq<i64>, version: Option<i64>) -> bool {
    match version {
        None => forall|i: int| 0 <= i < rows.len() ==> rows[i] == VERSION_LOCK_ROW,
        Some(v) => {
            &&& v != VERSION_LOCK_ROW
            &&& rows.contains(v)
            &&& forall|i: int| 0 <= i < rows.len() && rows[i] != VERSION_LOCK_ROW ==> rows[i] <= v
        },
    }
}

/// The version that a table with the given rows stands at: the highest
/// that is recorded, the lock row left aside, and none for a table that
/// holds nothing else.
pub fn latest_version(rows: &Vec<i64>) -> (version: Option<i64>)
    ensures
        is_latest(rows@, version),
{
    let mut latest: Option<i64> = None;
    let mut i: usize = 0;
    while i < rows.len()
        invariant
            i <= rows.len(),
            is_latest(rows@.take(i as int), latest),
        decreases rows.len() - i,
    {
        let row = rows[i];
        let ghost seen = rows@.take(i as int);
        let ghost more = rows@.take(i + 1);
        proof {
            assert(more.drop_last() =~= seen);
            assert(more[i as int] == row);
            assert forall|j: int| 0 <= j < seen.len() implies seen[j] == more[j] by {}
        }
        if row != VERSION_LOCK_ROW {
            let higher = match latest {
                None => true,
                Some(v) => v < row,
            };
            if higher {
                latest = Some(row);
            } else {
                proof {
                    let v = latest->Some_0;
                    let at = choose|j: int| 0 <= j < seen.len() && seen[j] == v;
                    assert(more[at] == v);
                }
            }
        } else {
            proof {
                if latest is Some {
                    let v = latest->Some_0;
                    let at = choose|j: int| 0 <= j < seen.len() && seen[j] == v;
                    assert(more[at] == v);
                }
            }
        }
        i += 1;
    }
    proof {
        assert(rows@.take(i as int) =~= rows@);
    }
    latest
}

/// What the step function said.
#[derive(Clone, Copy, Debug, PartialEq, Eq, Structural)]
pub enum StepOutcome {
    /// One step was taken; there may be more.
    Complete,
    /// The database is up to date.
    NotRequired,
    /// Anything else: the function knows no step for the version.
    Unrecognized,
}

/// What the driver of a version-counted run is to do next.
#[derive(Debug)]
pub enum VersionAction<E> {
    /// Create the bookkeeping table if it does not exist.
    EnsureTable,
    /// Ask the bookkeeping table for the lock row.
    CheckLock,
    /// Insert the lock row.
    AcquireLock,
    /// Ask the bookkeeping table for its highest version, the lock row
    /// left aside.
    ReadVersion,
    /// Call the step function with this version.
    Step(Option<i64>),
    /// Insert a row for a new version.
    RecordVersion,
    /// Delete the lock row.
    ReleaseLock,
    /// Stop: the run has ended as given.
    Finish(Result<(), MigrationError<E>>),
}

/// How an action went, where it did not fail.
#[derive(Clone, Copy, Debug, PartialEq, Eq, Structural)]
pub enum VersionReply {
    /// The statement was executed.
    Done,
    /// Whether the row asked for was found.
    Found(bool),
    /// The highest version in the table, if it holds any.
    Version(Option<i64>),
    /// What the step function said.
    Stepped(StepOutcome),
}

/// Where a version-counted run stands: which action it waits to hear of.
#[derive(Debug)]
pub enum VersionPhase<E> {
    /// Waiting for the bookkeeping table to be there.
    EnsuringTable,
    /// Waiting to hear whether the lock row is there.
    CheckingLock,
    /// Waiting for the lock row to be inserted.
    AcquiringLock,
    /// Waiting to hear the table's version.
    ReadingVersion,
    /// Waiting for the step function, which was called with this version.
    Stepping(Option<i64>),
    /// Waiting for the new version to be recorded.
    Recording,
    /// Waiting for the lock row to be deleted; the run's work ended as given.
    Releasing(Result<(), MigrationError<E>>),
    /// The run is over.
    Finished,
}

impl<E> VersionPhase<E> {
    /// Whether a reply answers the action that the phase waits for. A
    /// run that is over waits for nothing.
    pub open spec fn hears(self, reply: VersionReply) -> bool {
        match self {
            VersionPhase::CheckingLock => reply is Found,
            VersionPhase::ReadingVersion => reply is Version,
            VersionPhase::Stepping(_) => reply is Stepped,
            VersionPhase::Finished => false,
            _ => reply is Done,
        }
    }

    /// Giving the lock back with the work ended as given.
    pub open spec fn release(outcome: Result<(), MigrationError<E>>) -> (
        VersionPhase<E>,
        Option<VersionAction<E>>,
    ) {
        (VersionPhase::Releasing(outcome), Some(VersionAction::ReleaseLock))
    }

    /// Ending the run as given.
    pub open spec fn end(outcome: Result<(), MigrationError<E>>) -> (
        VersionPhase<E>,
        Option<VersionAction<E>>,
    ) {
        (VersionPhase::Finished, Some(VersionAction::Finish(outcome)))
    }

    /// The phase after the run has heard how its last action went, and
    /// the action that it asks for next. Where the run is over, or the
    /// reply does not answer what was asked, nothing changes and there
    /// is no action.
    ///
    /// - The table is ensured, then the lock is asked for. If the lock
    ///   row is there the run ends at once with [`MigrationError::Locked`].
    /// - With the lock taken, the version is read and the step function
    ///   called with it. If it says that a step was taken, a version is
    ///   recorded and the version read anew. If it says that nothing is
    ///   required, the work has ended well. If it says anything else,
    ///   the work has ended with [`MigrationError::UnrecognizedVersion`].
    /// - However the work ended, the lock is given back last.
    /// - A failure before the lock was taken ends the run at once; a
    ///   later one ends the work.
    pub open spec fn next(self, reply: Result<VersionReply, E>) -> (
        VersionPhase<E>,
        Option<VersionAction<E>>,
    ) {
        match reply {
            Err(e) => match self {
                VersionPhase::EnsuringTable | VersionPhase::CheckingLock | VersionPhase::AcquiringLock
                | VersionPhase::Releasing(_) => Self::end(Err(MigrationError::Database(e))),
                VersionPhase::ReadingVersion | VersionPhase::Recording => Self::release(
                    Err(MigrationError::Database(e)),
                ),
                VersionPhase::Stepping(_) => Self::release(Err(MigrationError::Step(e))),
                VersionPhase::Finished => (self, None),
            },
            Ok(reply) => match (self, reply) {
                (VersionPhase::EnsuringTable, VersionReply::Done) => (
                    VersionPhase::CheckingLock,
                    Some(VersionAction::CheckLock),
                ),
                (VersionPhase::CheckingLock, VersionReply::Found(true)) => Self::end(
                    Err(MigrationError::Locked),
                ),
                (VersionPhase::CheckingLock, VersionReply::Found(false)) => (
                    VersionPhase::AcquiringLock,
                    Some(VersionAction::AcquireLock),
                ),
                (VersionPhase::AcquiringLock, VersionReply::Done) => (
                    VersionPhase::ReadingVersion,
                    Some(VersionAction::ReadVersion),
                ),
                (VersionPhase::ReadingVersion, VersionReply::Version(version)) => (
                    VersionPhase::Stepping(version),
                    Some(VersionAction::Step(version)),
                ),
                (VersionPhase::Stepping(_), VersionReply::Stepped(StepOutcome::Complete)) => (
                    VersionPhase::Recording,
                    Some(VersionAction::RecordVersion),
                ),
                (VersionPhase::Stepping(_), VersionReply::Stepped(StepOutcome::NotRequired)) =>
                    Self::release(Ok(())),
                (
                    VersionPhase::Stepping(version),
                    VersionReply::Stepped(StepOutcome::Unrecognized),
                ) => Self::release(Err(MigrationError::UnrecognizedVersion(version))),
                (VersionPhase::Recording, VersionReply::Done) => (
                    VersionPhase::ReadingVersion,
                    Some(VersionAction::ReadVersion),
                ),
                (VersionPhase::Releasing(outcome), VersionReply::Done) => Self::end(outcome),
                _ => (self, None),
            },
        }
    }
}

/// A run that is not over goes on exactly if it hears of a failure or
/// the reply answers what it asked.
pub proof fn lemma_goes_on_if_heard<E>(phase: VersionPhase<E>, reply: Result<VersionReply, E>)
    ensures
        phase.next(reply).1 is Some <==> !(phase is Finished) && (reply matches Ok(answer)
            ==> phase.hears(answer)),
        phase.next(reply).1 is None ==> phase.next(reply).0 == phase,
{
}

/// A version-counted run.
pub struct VersionMigrator<E> {
    phase: VersionPhase<E>,
}

impl<E> VersionMigrator<E> {
    /// Where the run stands.
    pub closed spec fn view(&self) -> VersionPhase<E> {
        self.phase
    }

    /// Starts a run and asks for the bookkeeping table.
    pub fn new() -> (r: (VersionMigrator<E>, VersionAction<E>))
        ensures
            r.0@ == VersionPhase::<E>::EnsuringTable,
            r.1 == VersionAction::<E>::EnsureTable,
    {
        (VersionMigrator { phase: VersionPhase::EnsuringTable }, VersionAction::EnsureTable)
    }

    /// Whether the run is over.
    pub fn is_finished(&self) -> (b: bool)
        ensures
            b == (self@ is Finished),
    {
        match self.phase {
            VersionPhase::Finished => true,
            _ => false,
        }
    }

    /// The run as it gives the lock back.
    fn release(outcome: Result<(), MigrationError<E>>) -> (r: (
        VersionMigrator<E>,
        Option<VersionAction<E>>,
    ))
        ensures
            (r.0@, r.1) == VersionPhase::<E>::release(outcome),
    {
        (VersionMigrator { phase: VersionPhase::Releasing(outcome) }, Some(VersionAction::ReleaseLock))
    }

    /// The run as it ends.
    fn end(outcome: Result<(), MigrationError<E>>) -> (r: (
        VersionMigrator<E>,
        Option<VersionAction<E>>,
    ))
        ensures
            (r.0@, r.1) == VersionPhase::<E>::end(outcome),
    {
        (VersionMigrator { phase: VersionPhase::Finished }, Some(VersionAction::Finish(outcome)))
    }

    /// Takes the outcome of the last action and gives the next action:
    /// exactly what [`VersionPhase::next`] says.
    pub fn step(self, reply: Result<VersionReply, E>) -> (r: (
        VersionMigrator<E>,
        Option<VersionAction<E>>,
    ))
        ensures
            (r.0@, r.1) == self@.next(reply),
    {
        let phase = self.phase;
        match reply {
            Err(e) => match phase {
                VersionPhase::EnsuringTable => Self::end(Err(MigrationError::Database(e))),
                VersionPhase::CheckingLock => Self::end(Err(MigrationError::Database(e))),
                VersionPhase::AcquiringLock => Self::end(Err(MigrationError::Database(e))),
                VersionPhase::Releasing(_) => Self::end(Err(MigrationError::Database(e))),
                VersionPhase::ReadingVersion => Self::release(Err(MigrationError::Database(e))),
                VersionPhase::Recording => Self::release(Err(MigrationError::Database(e))),
                VersionPhase::Stepping(_) => Self::release(Err(MigrationError::Step(e))),
                VersionPhase::Finished => (VersionMigrator { phase: VersionPhase::Finished }, None),
            },
            Ok(reply) => match phase {
                VersionPhase::EnsuringTable => match reply {
                    VersionReply::Done => (
                        VersionMigrator { phase: VersionPhase::CheckingLock },
                        Some(VersionAction::CheckLock),
                    ),
                    _ => (VersionMigrator { phase: VersionPhase::EnsuringTable }, None),
                },
                VersionPhase::CheckingLock => match reply {
                    VersionReply::Found(true) => Self::end(Err(MigrationError::Locked)),
                    VersionReply::Found(false) => (
                        VersionMigrator { phase: VersionPhase::AcquiringLock },
                        Some(VersionAction::AcquireLock),
                    ),
                    _ => (VersionMigrator { phase: VersionPhase::CheckingLock }, None),
                },
                VersionPhase::AcquiringLock => match reply {
                    VersionReply::Done => (
                        VersionMigrator { phase: VersionPhase::ReadingVersion },
                        Some(VersionAction::ReadVersion),
                    ),
                    _ => (VersionMigrator { phase: VersionPhase::AcquiringLock }, None),
                },
                VersionPhase::ReadingVersion => match reply {
                    VersionReply::Version(version) => (
                        VersionMigrator { phase: VersionPhase::Stepping(version) },
                        Some(VersionAction::Step(version)),
                    ),
                    _ => (VersionMigrator { phase: VersionPhase::ReadingVersion }, None),
                },
                VersionPhase::Stepping(version) => match reply {
                    VersionReply::Stepped(StepOutcome::Complete) => (
                        VersionMigrator { phase: VersionPhase::Recording },
                        Some(VersionAction::RecordVersion),
                    ),
                    VersionReply::Stepped(StepOutcome::NotRequired) => Self::release(Ok(())),
                    VersionReply::Stepped(StepOutcome::Unrecognized) => Self::release(
                        Err(MigrationError::UnrecognizedVersion(version)),
                    ),
                    _ => (VersionMigrator { phase: VersionPhase::Stepping(version) }, None),
                },
                VersionPhase::Recording => match reply {
                    VersionReply::Done => (
                        VersionMigrator { phase: VersionPhase::ReadingVersion },
                        Some(VersionAction::ReadVersion),
                    ),
                    _ => (VersionMigrator { phase: VersionPhase::Recording }, None),
                },
                VersionPhase::Releasing(outcome) => match reply {
                    VersionReply::Done => Self::end(outcome),
                    _ => (VersionMigrator { phase: VersionPhase::Releasing(outcome) }, None),
                },
                VersionPhase::Finished => (VersionMigrator { phase: VersionPhase::Finished }, None),
            },
        }
    }
}

/// The database of a version-counted run and what has happened to it.
#[verifier::ext_equal]
pub struct VersionWorld {
    /// Whether the bookkeeping table exists.
    pub table: bool,
    /// Whether the lock row is there.
    pub locked: bool,
    /// The highest version in the table, if it holds any.
    pub version: Option<i64>,
    /// The versions that the step function was called with, in order.
    pub steps: Seq<Option<i64>>,
    /// How many versions were recorded.
    pub recorded: nat,
}

/// How the surroundings of a version-counted run behave.
pub struct Steps<E> {
    /// What the step function does when called with a version.
    pub step: spec_fn(Option<i64>) -> Result<StepOutcome, E>,
    /// The version that the table gives to the row recorded after a
    /// given version.
    pub successor: spec_fn(Option<i64>) -> i64,
}

/// What an action does to the world, and the reply it gets, where every
/// statement does what it says and none fails.
pub open spec fn version_answer<E>(world: VersionWorld, action: VersionAction<E>, steps: Steps<E>) -> (
    VersionWorld,
    Result<VersionReply, E>,
) {
    match action {
        VersionAction::EnsureTable => (VersionWorld { table: true, ..world }, Ok(VersionReply::Done)),
        VersionAction::CheckLock => (world, Ok(VersionReply::Found(world.locked))),
        VersionAction::AcquireLock => (
            VersionWorld { locked: true, ..world },
            Ok(VersionReply::Done),
        ),
        VersionAction::ReadVersion => (world, Ok(VersionReply::Version(world.version))),
        VersionAction::Step(version) => (
            VersionWorld { steps: world.steps.push(version), ..world },
            match (steps.step)(version) {
                Ok(outcome) => Ok(VersionReply::Stepped(outcome)),
                Err(e) => Err(e),
            },
        ),
        VersionAction::RecordVersion => (
            VersionWorld {
                version: Some((steps.successor)(world.version)),
                recorded: world.recorded + 1,
                ..world
            },
            Ok(VersionReply::Done),
        ),
        VersionAction::ReleaseLock => (
            VersionWorld { locked: false, ..world },
            Ok(VersionReply::Done),
        ),
        VersionAction::Finish(_) => (world, Ok(VersionReply::Done)),
    }
}

/// The world after the run has gone on from `action` for at most
/// `patience` actions, and how the run ended; nothing if it had not
/// ended by then. A step function that never says that nothing is
/// required keeps a run going for ever.
pub open spec fn version_run_from<E>(
    phase: VersionPhase<E>,
    action: VersionAction<E>,
    world: VersionWorld,
    steps: Steps<E>,
    patience: nat,
) -> Option<(VersionWorld, Result<(), MigrationError<E>>)>
    decreases patience,
{
    match action {
        VersionAction::Finish(outcome) => Some((world, outcome)),
        _ => if patience == 0 {
            None
        } else {
            let (after, reply) = version_answer(world, action, steps);
            match phase.next(reply) {
                (then, Some(next)) => version_run_from(then, next, after, steps, (patience - 1) as nat),
                (_, None) => None,
            }
        },
    }
}

/// The world after a whole version-counted run of at most `patience`
/// actions, and how the run ended.
pub open spec fn version_run<E>(world: VersionWorld, steps: Steps<E>, patience: nat) -> Option<
    (VersionWorld, Result<(), MigrationError<E>>),
> {
    version_run_from(VersionPhase::EnsuringTable, VersionAction::EnsureTable, world, steps, patience)
}

/// Where nothing is required, the step function is called once and
/// nothing is recorded.
///
/// On a database that is not locked and whose version the step function
/// answers with [`StepOutcome::NotRequired`], a run ends well after six
/// actions. It has called the step function exactly once, with that
/// version; it has recorded no version and left the version as it was;
/// and the lock row is not there afterwards.
pub proof fn lemma_not_required_stops<E>(world: VersionWorld, steps: Steps<E>, patience: nat)
    requires
        !world.locked,
        (steps.step)(world.version) == Ok::<StepOutcome, E>(StepOutcome::NotRequired),
        patience >= 6,
    ensures
        version_run(world, steps, patience) == Some(
            (
                VersionWorld { table: true, steps: world.steps.push(world.version), ..world },
                Ok::<(), MigrationError<E>>(()),
            ),
        ),
        ({
            let (after, outcome) = version_run(world, steps, patience)->Some_0;
            &&& outcome is Ok
            &&& after.steps.len() == world.steps.len() + 1
            &&& after.steps.last() == world.version
            &&& after.recorded == world.recorded
            &&& after.version == world.version
            &&& !after.locked
        }),
{
    reveal_with_fuel(version_run_from, 8);
}

/// The step function is not called again once it has said that nothing
/// is required, and no version is recorded on that answer: whatever the
/// version it was called with, the run asks for the lock row to be
/// deleted next, and then ends well.
pub proof fn lemma_not_required_ends_the_work<E>(version: Option<i64>)
    ensures
        ({
            let stepping = VersionPhase::<E>::Stepping(version);
            let (releasing, asked) = stepping.next(
                Ok(VersionReply::Stepped(StepOutcome::NotRequired)),
            );
            let (ended, last) = releasing.next(Ok(VersionReply::Done));
            &&& asked == Some(VersionAction::<E>::ReleaseLock)
            &&& last == Some(VersionAction::<E>::Finish(Ok(())))
            &&& ended is Finished
        }),
{
}

/// A version-counted run that finds the lock row does nothing: it ends
/// with [`MigrationError::Locked`] without calling the step function.
pub proof fn lemma_locked_version_run_does_nothing<E>(
    world: VersionWorld,
    steps: Steps<E>,
    patience: nat,
)
    requires
        world.locked,
        patience >= 2,
    ensures
        version_run(world, steps, patience) == Some(
            (
                VersionWorld { table: true, ..world },
                Err::<(), MigrationError<E>>(MigrationError::Locked),
            ),
        ),
{
    reveal_with_fuel(version_run_from, 4);
}

} // verus!
