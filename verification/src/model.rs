//! What a run does to a database that answers truthfully, and what holds
//! of every such run.
//!
//! Nothing here is executed. The world below is the bookkeeping table as
//! a set of rows, together with a record of which units were applied and
//! rolled back. A run is the machine of [`crate::migrator`] driven
//! against that world until it stops.

use crate::error::MigrationError;
use crate::migrator::{lemma_first_reserved, lock_row, starts, Action, Machine, Phase};
use crate::order::{lemma_runs_before_ascends, name_lt, runs_before};
use vstd::prelude::*;

verus! {

/// The database and what has happened to it.
#[verifier::ext_equal]
pub struct World {
    /// Whether the bookkeeping table exists.
    pub table: bool,
    /// The values in the bookkeeping table.
    pub rows: Set<Seq<char>>,
    /// The units that were applied, in the order of the attempts, whether
    /// or not the attempt succeeded.
    pub applied: Seq<usize>,
    /// The units that were rolled back, in order.
    pub rolled_back: Seq<usize>,
}

impl World {
    /// Whether the lock row is there.
    pub open spec fn locked(self) -> bool {
        self.rows.contains(lock_row())
    }

    /// The same world with other rows.
    pub open spec fn with_rows(self, rows: Set<Seq<char>>) -> World {
        World { rows, ..self }
    }
}

/// How the units of a run behave: for each unit, whether its apply and
/// its rollback succeed, and with which error they fail.
pub struct Units<E> {
    /// The outcome of applying a unit.
    pub apply: spec_fn(usize) -> Result<(), E>,
    /// The outcome of rolling a unit back.
    pub rollback: spec_fn(usize) -> Result<(), E>,
}

/// The reply that stands for an outcome.
pub open spec fn reply_of<E>(outcome: Result<(), E>) -> Result<bool, E> {
    match outcome {
        Ok(_) => Ok(false),
        Err(e) => Err(e),
    }
}

/// What an action does to the world, and the reply it gets, where every
/// statement does what it says and none fails.
pub open spec fn answer<E>(world: World, action: Action<E>, names: Seq<Seq<char>>, units: Units<E>) -> (
    World,
    Result<bool, E>,
) {
    match action {
        Action::EnsureTable => (World { table: true, ..world }, Ok(false)),
        Action::CheckLock => (world, Ok(world.locked())),
        Action::AcquireLock => (world.with_rows(world.rows.insert(lock_row())), Ok(false)),
        Action::CheckApplied(unit) => (world, Ok(world.rows.contains(names[unit as int]))),
        Action::Apply(unit) => (
            World { applied: world.applied.push(unit), ..world },
            reply_of((units.apply)(unit)),
        ),
        Action::Record(unit) => (
            world.with_rows(world.rows.insert(names[unit as int])),
            Ok(false),
        ),
        Action::Rollback(unit) => (
            World { rolled_back: world.rolled_back.push(unit), ..world },
            reply_of((units.rollback)(unit)),
        ),
        Action::ReleaseLock => (world.with_rows(world.rows.remove(lock_row())), Ok(false)),
        Action::Finish(_) => (world, Ok(false)),
    }
}

impl<E> Machine<E> {
    /// A bound on the number of actions that the run may still ask for.
    pub open spec fn rank(self) -> nat {
        let n = self.order.len();
        match self.phase {
            Phase::EnsuringTable => 4 * n + 4,
            Phase::CheckingLock => 4 * n + 3,
            Phase::AcquiringLock => 4 * n + 2,
            Phase::Checking(k) => (4 * (n - k) + 1) as nat,
            Phase::Applying(k) => (4 * (n - k)) as nat,
            Phase::Recording(k) => (4 * (n - k) - 1) as nat,
            Phase::RollingBack(k, _) => (4 * (n - k) - 1) as nat,
            Phase::Releasing(_) => 1,
            Phase::Finished => 0,
        }
    }
}

/// Every reply brings a run that is not over nearer to its end.
pub proof fn lemma_rank_decreases<E>(m: Machine<E>, reply: Result<bool, E>)
    requires
        m.wf(),
        !(m.phase is Finished),
    ensures
        m.next(reply).0.wf(),
        m.next(reply).0.rank() < m.rank(),
        m.next(reply).1 is Some,
{
}

/// The world after the run has gone on from `action` until it stopped,
/// and how the run ended.
pub open spec fn run_from<E>(m: Machine<E>, action: Action<E>, world: World, units: Units<E>) -> (
    World,
    Result<(), MigrationError<E>>,
)
    decreases m.rank(),
    when m.wf()
{
    match action {
        Action::Finish(outcome) => (world, outcome),
        _ => {
            let (after, reply) = answer(world, action, m.names, units);
            let (m2, next) = m.next(reply);
            proof {
                if !(m.phase is Finished) {
                    lemma_rank_decreases(m, reply);
                }
            }
            match next {
                Some(a) => run_from(m2, a, after, units),
                None => (after, Ok(())),
            }
        },
    }
}

/// The world after a whole run, and how the run ended.
pub open spec fn run<E>(m: Machine<E>, world: World, units: Units<E>) -> (
    World,
    Result<(), MigrationError<E>>,
) {
    run_from(m, Action::EnsureTable, world, units)
}

/// What the units from place `k` of the run order on do to a world, and
/// how their work ends.
///
/// A unit whose name is among the rows is passed over. Any other is
/// applied; if that succeeds its name joins the rows and the next unit
/// has its turn. If it fails the unit is rolled back and the work is
/// over: with the unit's error if the rollback succeeded, with the
/// rollback's if not.
pub open spec fn work<E>(m: Machine<E>, k: int, world: World, units: Units<E>) -> (
    World,
    Result<(), MigrationError<E>>,
)
    decreases m.order.len() - k,
{
    if k < 0 || k >= m.order.len() {
        (world, Ok(()))
    } else {
        let unit = m.order[k];
        let name = m.names[unit as int];
        if world.rows.contains(name) {
            work(m, k + 1, world, units)
        } else {
            let tried = World { applied: world.applied.push(unit), ..world };
            match (units.apply)(unit) {
                Ok(_) => work(m, k + 1, tried.with_rows(tried.rows.insert(name)), units),
                Err(e) => {
                    let undone = World { rolled_back: tried.rolled_back.push(unit), ..tried };
                    match (units.rollback)(unit) {
                        Ok(_) => (undone, Err(MigrationError::Apply(e))),
                        Err(e2) => (undone, Err(MigrationError::Rollback(e2))),
                    }
                },
            }
        }
    }
}

/// A whole run, said directly: the table is there afterwards; a run that
/// finds the lock row does nothing more; any other does its work between
/// inserting the lock row and deleting it.
pub open spec fn run_directly<E>(m: Machine<E>, world: World, units: Units<E>) -> (
    World,
    Result<(), MigrationError<E>>,
) {
    let ensured = World { table: true, ..world };
    if world.locked() {
        (ensured, Err(MigrationError::Locked))
    } else {
        let (worked, outcome) = work(m, 0, ensured.with_rows(ensured.rows.insert(lock_row())), units);
        (worked.with_rows(worked.rows.remove(lock_row())), outcome)
    }
}

/// From the turn of the unit at place `k` on, the machine does the work
/// of the remaining units and then deletes the lock row.
proof fn lemma_turn_to<E>(m: Machine<E>, k: int, world: World, units: Units<E>)
    requires
        m.wf(),
        !(m.phase is Finished),
        0 <= k <= m.order.len(),
    ensures
        ({
            let (m2, action) = m.turn_to(k);
            let (worked, outcome) = work(m, k, world, units);
            run_from(m2, action->Some_0, world, units) == (
                worked.with_rows(worked.rows.remove(lock_row())),
                outcome,
            )
        }),
    decreases m.order.len() - k,
{
    reveal_with_fuel(run_from, 6);
    let (m2, action) = m.turn_to(k);
    assert(m2.wf());
    if k < m.order.len() {
        let unit = m.order[k];
        let name = m.names[unit as int];
        let checking = m.at(Phase::Checking(k as usize));
        assert(m2 == checking);
        assert(checking.turn_to(k + 1) == m.turn_to(k + 1));
        if world.rows.contains(name) {
            lemma_turn_to(m, k + 1, world, units);
        } else {
            let tried = World { applied: world.applied.push(unit), ..world };
            let applying = m.at(Phase::Applying(k as usize));
            assert(applying.wf());
            match (units.apply)(unit) {
                Ok(_) => {
                    let recording = m.at(Phase::Recording(k as usize));
                    assert(recording.wf());
                    assert(recording.turn_to(k + 1) == m.turn_to(k + 1));
                    lemma_turn_to(m, k + 1, tried.with_rows(tried.rows.insert(name)), units);
                },
                Err(e) => {
                    let rolling = m.at(Phase::RollingBack(k as usize, e));
                    assert(rolling.wf());
                },
            }
        }
    }
}

/// Driving the machine against a truthful database is the run that
/// [`run_directly`] describes.
pub proof fn lemma_run_is_direct<E>(m: Machine<E>, world: World, units: Units<E>)
    requires
        starts(m.names, m),
    ensures
        run(m, world, units) == run_directly(m, world, units),
{
    reveal_with_fuel(run_from, 5);
    let ensured = World { table: true, ..world };
    assert(m.wf());
    let checking = m.at(Phase::CheckingLock);
    assert(checking.wf());
    if !world.locked() {
        let acquiring = m.at(Phase::AcquiringLock);
        assert(acquiring.wf());
        assert(acquiring.turn_to(0) == m.turn_to(0));
        lemma_turn_to(m, 0, ensured.with_rows(ensured.rows.insert(lock_row())), units);
    }
}

/// Whether `later` is what `before` became by having more units applied.
pub open spec fn grew_from(later: World, before: World) -> bool {
    &&& before.applied.len() <= later.applied.len()
    &&& later.applied.take(before.applied.len() as int) == before.applied
}

/// Work keeps the table, loses no row and forgets no unit that was applied.
proof fn lemma_work_keeps<E>(m: Machine<E>, k: int, world: World, units: Units<E>)
    requires
        m.wf(),
        0 <= k <= m.order.len(),
    ensures
        ({
            let (after, outcome) = work(m, k, world, units);
            &&& after.table == world.table
            &&& world.rows.subset_of(after.rows)
            &&& grew_from(after, world)
            &&& !(outcome matches Err(MigrationError::Locked))
        }),
    decreases m.order.len() - k,
{
    if k < m.order.len() {
        let unit = m.order[k];
        let name = m.names[unit as int];
        if world.rows.contains(name) {
            lemma_work_keeps(m, k + 1, world, units);
        } else {
            let tried = World { applied: world.applied.push(unit), ..world };
            assert(tried.applied.take(world.applied.len() as int) =~= world.applied);
            match (units.apply)(unit) {
                Ok(_) => {
                    let recorded = tried.with_rows(tried.rows.insert(name));
                    lemma_work_keeps(m, k + 1, recorded, units);
                    let after = work(m, k + 1, recorded, units).0;
                    assert(after.applied.take(world.applied.len() as int) =~= after.applied.take(
                        recorded.applied.len() as int,
                    ).take(world.applied.len() as int));
                },
                Err(e) => {},
            }
        } 
    } else {
        assert(world.applied.take(world.applied.len() as int) =~= world.applied);
    }
}

/// After work that ended well, every unit from place `k` on is among the
/// rows, nothing was rolled back, and every unit that was applied
/// succeeded.
proof fn lemma_work_done<E>(m: Machine<E>, k: int, world: World, units: Units<E>)
    requires
        m.wf(),
        0 <= k <= m.order.len(),
        work(m, k, world, units).1 is Ok,
    ensures
        ({
            let after = work(m, k, world, units).0;
            &&& forall|j: int| k <= j < m.order.len() ==> after.rows.contains(#[trigger] m.names[m.order[j] as int])
            &&& after.rolled_back == world.rolled_back
            &&& forall|a: int| world.applied.len() <= a < after.applied.len() ==> (units.apply)(#[trigger] after.applied[a]) is Ok
        }),
    decreases m.order.len() - k,
{
    if k < m.order.len() {
        let unit = m.order[k];
        let name = m.names[unit as int];
        if world.rows.contains(name) {
            lemma_work_done(m, k + 1, world, units);
            lemma_work_keeps(m, k + 1, world, units);
        } else {
            let tried = World { applied: world.applied.push(unit), ..world };
            let recorded = tried.with_rows(tried.rows.insert(name));
            lemma_work_done(m, k + 1, recorded, units);
            lemma_work_keeps(m, k + 1, recorded, units);
            let after = work(m, k + 1, recorded, units).0;
            assert(after.rows.contains(name));
            assert forall|a: int| world.applied.len() <= a < after.applied.len() implies (units.apply)(#[trigger] after.applied[a]) is Ok by {
                if a == world.applied.len() {
                    assert(after.applied.take(recorded.applied.len() as int)[a] == recorded.applied[a]);
                }
            }
        }
    }
}

/// Where every unit from place `k` on is among the rows, there is no work.
proof fn lemma_no_work<E>(m: Machine<E>, k: int, world: World, units: Units<E>)
    requires
        m.wf(),
        0 <= k <= m.order.len(),
        forall|j: int| k <= j < m.order.len() ==> world.rows.contains(#[trigger] m.names[m.order[j] as int]),
    ensures
        work(m, k, world, units) == (world, Ok::<(), MigrationError<E>>(())),
    decreases m.order.len() - k,
{
    if k < m.order.len() {
        assert(world.rows.contains(m.names[m.order[k] as int]));
        lemma_no_work(m, k + 1, world, units);
    }
}

/// After work that failed, the unit applied last is the one that failed,
/// it is the one unit that was rolled back, and every unit applied
/// before it succeeded.
proof fn lemma_work_failed<E>(m: Machine<E>, k: int, world: World, units: Units<E>)
    requires
        m.wf(),
        0 <= k <= m.order.len(),
        work(m, k, world, units).1 is Err,
    ensures
        ({
            let (after, outcome) = work(m, k, world, units);
            let last = after.applied.last();
            &&& world.applied.len() < after.applied.len()
            &&& after.rolled_back == world.rolled_back.push(last)
            &&& forall|a: int| world.applied.len() <= a < after.applied.len() - 1 ==> (units.apply)(#[trigger] after.applied[a]) is Ok
            &&& match outcome {
                Err(MigrationError::Apply(e)) => (units.apply)(last) == Err::<(), E>(e) && (units.rollback)(last) is Ok,
                Err(MigrationError::Rollback(e)) => (units.apply)(last) is Err && (units.rollback)(last) == Err::<(), E>(e),
                _ => false,
            }
        }),
    decreases m.order.len() - k,
{
    if k < m.order.len() {
        let unit = m.order[k];
        let name = m.names[unit as int];
        if world.rows.contains(name) {
            lemma_work_failed(m, k + 1, world, units);
        } else {
            let tried = World { applied: world.applied.push(unit), ..world };
            match (units.apply)(unit) {
                Ok(_) => {
                    let recorded = tried.with_rows(tried.rows.insert(name));
                    lemma_work_failed(m, k + 1, recorded, units);
                    lemma_work_keeps(m, k + 1, recorded, units);
                    let after = work(m, k + 1, recorded, units).0;
                    assert forall|a: int| world.applied.len() <= a < after.applied.len() - 1 implies (units.apply)(#[trigger] after.applied[a]) is Ok by {
                        if a == world.applied.len() {
                            assert(after.applied.take(recorded.applied.len() as int)[a] == recorded.applied[a]);
                        }
                    }
                },
                Err(e) => {},
            }
        }
    }
}

/// Whether `unit` stands in the run order at place `k` or later.
pub open spec fn placed_from(order: Seq<usize>, k: int, unit: usize) -> bool {
    exists|p: int| k <= p < order.len() && order[p] == unit
}

/// The units that work applies stand at place `k` or later, and each runs
/// before those applied after it.
proof fn lemma_work_in_order<E>(m: Machine<E>, k: int, world: World, units: Units<E>)
    requires
        m.wf(),
        0 <= k <= m.order.len(),
    ensures
        ({
            let after = work(m, k, world, units).0;
            &&& forall|a: int| world.applied.len() <= a < after.applied.len() ==> placed_from(m.order, k, #[trigger] after.applied[a])
            &&& forall|a: int, b: int| world.applied.len() <= a < b < after.applied.len() ==> runs_before(
                m.names,
                #[trigger] after.applied[a] as int,
                #[trigger] after.applied[b] as int,
            )
        }),
    decreases m.order.len() - k,
{
    if k < m.order.len() {
        let unit = m.order[k];
        let name = m.names[unit as int];
        if world.rows.contains(name) {
            lemma_work_in_order(m, k + 1, world, units);
            let after = work(m, k + 1, world, units).0;
            assert forall|a: int| world.applied.len() <= a < after.applied.len() implies placed_from(m.order, k, #[trigger] after.applied[a]) by {
                assert(placed_from(m.order, k + 1, after.applied[a]));
                let p = choose|p: int| k + 1 <= p < m.order.len() && m.order[p] == after.applied[a];
                assert(k <= p < m.order.len() && m.order[p] == after.applied[a]);
            }
        } else {
            let tried = World { applied: world.applied.push(unit), ..world };
            match (units.apply)(unit) {
                Ok(_) => {
                    let recorded = tried.with_rows(tried.rows.insert(name));
                    lemma_work_in_order(m, k + 1, recorded, units);
                    lemma_work_keeps(m, k + 1, recorded, units);
                    let after = work(m, k + 1, recorded, units).0;
                    let first = world.applied.len() as int;
                    assert(after.applied.take(recorded.applied.len() as int)[first] == recorded.applied[first]);
                    assert(after.applied[first] == unit);
                    assert forall|a: int| first <= a < after.applied.len() implies placed_from(m.order, k, #[trigger] after.applied[a]) by {
                        if a == first {
                            assert(k <= k < m.order.len() && m.order[k] == after.applied[a]);
                        } else {
                            assert(placed_from(m.order, k + 1, after.applied[a]));
                            let p = choose|p: int| k + 1 <= p < m.order.len() && m.order[p] == after.applied[a];
                            assert(k <= p < m.order.len() && m.order[p] == after.applied[a]);
                        }
                    }
                    assert forall|a: int, b: int| first <= a < b < after.applied.len() implies runs_before(
                        m.names,
                        #[trigger] after.applied[a] as int,
                        #[trigger] after.applied[b] as int,
                    ) by {
                        if a == first {
                            assert(placed_from(m.order, k + 1, after.applied[b]));
                            let p = choose|p: int| k + 1 <= p < m.order.len() && m.order[p] == after.applied[b];
                            assert(runs_before(m.names, m.order[k] as int, m.order[p] as int));
                        }
                    }
                },
                Err(e) => {
                    let undone = World { rolled_back: tried.rolled_back.push(unit), ..tried };
                    assert forall|a: int| world.applied.len() <= a < undone.applied.len() implies placed_from(m.order, k, #[trigger] undone.applied[a]) by {
                        assert(k <= k < m.order.len() && m.order[k] == undone.applied[a]);
                    }
                },
            }
        }
    }
}

/// Whether `name` is the name of a unit that was applied with success
/// after the world `before` and up to the world `later`.
pub open spec fn newly_applied<E>(
    names: Seq<Seq<char>>,
    units: Units<E>,
    before: World,
    later: World,
    name: Seq<char>,
) -> bool {
    exists|a: int|
        before.applied.len() <= a < later.applied.len() && names[#[trigger] later.applied[a] as int]
            == name && (units.apply)(later.applied[a]) is Ok
}

/// Work adds to the rows the names of the units that it applied with
/// success, and no other. None of them is the lock row's value.
proof fn lemma_work_records<E>(m: Machine<E>, k: int, world: World, units: Units<E>)
    requires
        m.wf(),
        0 <= k <= m.order.len(),
        world.locked(),
    ensures
        ({
            let after = work(m, k, world, units).0;
            forall|name: Seq<char>|
                after.rows.contains(name) <==> world.rows.contains(name) || (name != lock_row()
                    && newly_applied(m.names, units, world, after, name))
        }),
    decreases m.order.len() - k,
{
    let after = work(m, k, world, units).0;
    if k < m.order.len() {
        let unit = m.order[k];
        let name = m.names[unit as int];
        if world.rows.contains(name) {
            lemma_work_records(m, k + 1, world, units);
        } else {
            let tried = World { applied: world.applied.push(unit), ..world };
            let first = world.applied.len() as int;
            match (units.apply)(unit) {
                Ok(_) => {
                    let recorded = tried.with_rows(tried.rows.insert(name));
                    lemma_work_records(m, k + 1, recorded, units);
                    lemma_work_keeps(m, k + 1, recorded, units);
                    assert(after.applied.take(recorded.applied.len() as int)[first]
                        == recorded.applied[first]);
                    assert(after.applied[first] == unit);
                    assert forall|other: Seq<char>|
                        after.rows.contains(other) <==> world.rows.contains(other) || (other
                            != lock_row() && newly_applied(m.names, units, world, after, other)) by {
                        if newly_applied(m.names, units, recorded, after, other) {
                            let a = choose|a: int|
                                recorded.applied.len() <= a < after.applied.len() && m.names[
                                #[trigger] after.applied[a] as int] == other && (units.apply)(
                                    after.applied[a],
                                ) is Ok;
                            assert(world.applied.len() <= a < after.applied.len() && m.names[
                            after.applied[a] as int] == other);
                        }
                        if other == name {
                            assert(world.applied.len() <= first < after.applied.len() && m.names[
                            after.applied[first] as int] == other);
                        }
                        if newly_applied(m.names, units, world, after, other) {
                            let a = choose|a: int|
                                world.applied.len() <= a < after.applied.len() && m.names[
                                #[trigger] after.applied[a] as int] == other && (units.apply)(
                                    after.applied[a],
                                ) is Ok;
                            if a > first {
                                assert(recorded.applied.len() <= a < after.applied.len()
                                    && m.names[after.applied[a] as int] == other);
                            }
                        }
                    }
                },
                Err(e) => {
                    assert forall|other: Seq<char>|
                        newly_applied(m.names, units, world, after, other) implies false by {
                        let a = choose|a: int|
                            world.applied.len() <= a < after.applied.len() && m.names[
                            #[trigger] after.applied[a] as int] == other && (units.apply)(
                                after.applied[a],
                            ) is Ok;
                        assert(after.applied[a] == unit);
                    }
                },
            }
        }
    } else {
        assert forall|other: Seq<char>|
            newly_applied(m.names, units, world, after, other) implies false by {}
    }
}

/// The rows tell which migrations were applied.
///
/// After a run on a database that was not locked, the bookkeeping table
/// holds what it held before and the name of every unit that the run
/// applied with success, and nothing else: not the name of a unit that
/// failed, and not the lock row.
pub proof fn lemma_rows_tell_what_was_applied<E>(m: Machine<E>, world: World, units: Units<E>)
    requires
        starts(m.names, m),
        !world.locked(),
    ensures
        ({
            let after = run(m, world, units).0;
            forall|name: Seq<char>|
                after.rows.contains(name) <==> world.rows.contains(name) || newly_applied(
                    m.names,
                    units,
                    world,
                    after,
                    name,
                )
        }),
{
    lemma_run_is_direct(m, world, units);
    let ensured = World { table: true, ..world };
    let locked = ensured.with_rows(ensured.rows.insert(lock_row()));
    let worked = work(m, 0, locked, units).0;
    let after = run(m, world, units).0;
    lemma_work_records(m, 0, locked, units);
    assert forall|name: Seq<char>|
        after.rows.contains(name) <==> world.rows.contains(name) || newly_applied(
            m.names,
            units,
            world,
            after,
            name,
        ) by {
        if newly_applied(m.names, units, locked, worked, name) {
            let a = choose|a: int|
                locked.applied.len() <= a < worked.applied.len() && m.names[
                #[trigger] worked.applied[a] as int] == name && (units.apply)(worked.applied[a]) is Ok;
            assert(world.applied.len() <= a < after.applied.len() && m.names[after.applied[a] as int]
                == name);
        }
        if newly_applied(m.names, units, world, after, name) {
            let a = choose|a: int|
                world.applied.len() <= a < after.applied.len() && m.names[
                #[trigger] after.applied[a] as int] == name && (units.apply)(after.applied[a]) is Ok;
            assert(locked.applied.len() <= a < worked.applied.len() && m.names[
            worked.applied[a] as int] == name);
            lemma_applied_were_missing(m, 0, locked, units, a);
        }
    }
}

/// A unit that work applies was not among the rows when work began.
proof fn lemma_applied_were_missing<E>(m: Machine<E>, k: int, world: World, units: Units<E>, a: int)
    requires
        m.wf(),
        0 <= k <= m.order.len(),
        world.applied.len() <= a < work(m, k, world, units).0.applied.len(),
    ensures
        !world.rows.contains(m.names[work(m, k, world, units).0.applied[a] as int]),
    decreases m.order.len() - k,
{
    if k < m.order.len() {
        let unit = m.order[k];
        let name = m.names[unit as int];
        if world.rows.contains(name) {
            lemma_applied_were_missing(m, k + 1, world, units, a);
        } else {
            let tried = World { applied: world.applied.push(unit), ..world };
            match (units.apply)(unit) {
                Ok(_) => {
                    let recorded = tried.with_rows(tried.rows.insert(name));
                    lemma_work_keeps(m, k + 1, recorded, units);
                    let after = work(m, k + 1, recorded, units).0;
                    if a == world.applied.len() {
                        assert(after.applied.take(recorded.applied.len() as int)[a]
                            == recorded.applied[a]);
                    } else {
                        lemma_applied_were_missing(m, k + 1, recorded, units, a);
                    }
                },
                Err(e) => {},
            }
        }
    }
}

/// A second run applies nothing.
///
/// If a run over some units has ended well on a database that was not
/// locked, a further run over the same units on the database as the
/// first one left it ends well too and leaves everything as it found
/// it: no unit is applied, none rolled back, no row added or deleted.
/// How the units would behave the second time does not matter.
pub proof fn lemma_second_run_applies_nothing<E>(
    m: Machine<E>,
    world: World,
    first: Units<E>,
    second: Units<E>,
)
    requires
        starts(m.names, m),
        !world.locked(),
        run(m, world, first).1 is Ok,
    ensures
        run(m, run(m, world, first).0, second) == (
            run(m, world, first).0,
            Ok::<(), MigrationError<E>>(()),
        ),
{
    lemma_run_is_direct(m, world, first);
    let ensured = World { table: true, ..world };
    let locked = ensured.with_rows(ensured.rows.insert(lock_row()));
    let (worked, outcome) = work(m, 0, locked, first);
    lemma_work_done(m, 0, locked, first);
    lemma_work_keeps(m, 0, locked, first);
    let left = worked.with_rows(worked.rows.remove(lock_row()));
    assert(run(m, world, first).0 == left);
    lemma_run_is_direct(m, left, second);
    let again = World { table: true, ..left };
    assert(again == left);
    assert(worked.rows.contains(lock_row()));
    assert(left.rows.insert(lock_row()) =~= worked.rows);
    assert(again.with_rows(again.rows.insert(lock_row())) == worked);
    lemma_no_work(m, 0, worked, second);
}

/// Units are applied in the order of their names.
///
/// Whatever the order in which the units were handed in, each unit that
/// a run applies runs before every unit that the run applies after it:
/// its name is the smaller of the two, or the names are the same and it
/// was handed in first. So the names of the units applied never go down.
pub proof fn lemma_applied_in_name_order<E>(m: Machine<E>, world: World, units: Units<E>)
    requires
        starts(m.names, m),
    ensures
        ({
            let after = run(m, world, units).0;
            &&& grew_from(after, world)
            &&& forall|a: int, b: int|
                world.applied.len() <= a < b < after.applied.len() ==> runs_before(
                    m.names,
                    #[trigger] after.applied[a] as int,
                    #[trigger] after.applied[b] as int,
                )
            &&& forall|a: int, b: int|
                world.applied.len() <= a < b < after.applied.len() ==> !name_lt(
                    m.names[#[trigger] after.applied[b] as int],
                    m.names[#[trigger] after.applied[a] as int],
                )
        }),
{
    lemma_run_is_direct(m, world, units);
    let ensured = World { table: true, ..world };
    if world.locked() {
        assert(ensured.applied.take(world.applied.len() as int) =~= world.applied);
    } else {
        let locked = ensured.with_rows(ensured.rows.insert(lock_row()));
        lemma_work_keeps(m, 0, locked, units);
        lemma_work_in_order(m, 0, locked, units);
        let after = run(m, world, units).0;
        assert forall|a: int, b: int| world.applied.len() <= a < b < after.applied.len() implies !name_lt(
            m.names[#[trigger] after.applied[b] as int],
            m.names[#[trigger] after.applied[a] as int],
        ) by {
            lemma_runs_before_ascends(m.names, after.applied[a] as int, after.applied[b] as int);
        }
    }
}

/// A run that finds the lock row does nothing.
///
/// It ends with [`MigrationError::Locked`]. No unit is applied or rolled
/// back and no row is added or deleted, the lock row least of all; only
/// the bookkeeping table is sure to exist afterwards.
pub proof fn lemma_locked_run_does_nothing<E>(m: Machine<E>, world: World, units: Units<E>)
    requires
        starts(m.names, m),
        world.locked(),
    ensures
        run(m, world, units) == (
            World { table: true, ..world },
            Err::<(), MigrationError<E>>(MigrationError::Locked),
        ),
{
    lemma_run_is_direct(m, world, units);
}

/// A unit that fails to apply is rolled back, and the run stops there.
///
/// A run on a database that was not locked ends in one of three ways.
/// It ends well: then every unit that it applied succeeded and none was
/// rolled back. Or it ends with [`MigrationError::Apply`]: then the unit
/// applied last failed with that very error and its rollback succeeded.
/// Or it ends with [`MigrationError::Rollback`]: then the unit applied
/// last failed and its rollback failed with that very error. In the two
/// last cases the failed unit is the only one rolled back, every unit
/// applied before it succeeded, and no unit was applied after it.
pub proof fn lemma_failed_apply_is_rolled_back<E>(m: Machine<E>, world: World, units: Units<E>)
    requires
        starts(m.names, m),
        !world.locked(),
    ensures
        ({
            let (after, outcome) = run(m, world, units);
            let last = after.applied.last();
            &&& grew_from(after, world)
            &&& match outcome {
                Ok(_) => {
                    &&& after.rolled_back == world.rolled_back
                    &&& forall|a: int|
                        world.applied.len() <= a < after.applied.len() ==> (units.apply)(
                            #[trigger] after.applied[a],
                        ) is Ok
                },
                Err(error) => {
                    &&& world.applied.len() < after.applied.len()
                    &&& after.rolled_back == world.rolled_back.push(last)
                    &&& forall|a: int|
                        world.applied.len() <= a < after.applied.len() - 1 ==> (units.apply)(
                            #[trigger] after.applied[a],
                        ) is Ok
                    &&& match error {
                        MigrationError::Apply(e) => (units.apply)(last) == Err::<(), E>(e) && (
                        units.rollback)(last) is Ok,
                        MigrationError::Rollback(e) => (units.apply)(last) is Err && (
                        units.rollback)(last) == Err::<(), E>(e),
                        _ => false,
                    }
                },
            }
        }),
{
    lemma_run_is_direct(m, world, units);
    let ensured = World { table: true, ..world };
    let locked = ensured.with_rows(ensured.rows.insert(lock_row()));
    lemma_work_keeps(m, 0, locked, units);
    if work(m, 0, locked, units).1 is Ok {
        lemma_work_done(m, 0, locked, units);
    } else {
        lemma_work_failed(m, 0, locked, units);
    }
}

/// The lock is given back, however the run ends.
///
/// After a run on a database that was not locked the lock row is not
/// there, whether the run ended well or not, and so no later run is
/// turned away at the lock.
pub proof fn lemma_lock_is_released<E>(
    m: Machine<E>,
    world: World,
    units: Units<E>,
    later: Machine<E>,
    later_units: Units<E>,
)
    requires
        starts(m.names, m),
        starts(later.names, later),
        !world.locked(),
    ensures
        !run(m, world, units).0.locked(),
        !(run(later, run(m, world, units).0, later_units).1 matches Err(MigrationError::Locked)),
{
    lemma_run_is_direct(m, world, units);
    let after = run(m, world, units).0;
    lemma_run_is_direct(later, after, later_units);
    let ensured = World { table: true, ..after };
    lemma_work_keeps(later, 0, ensured.with_rows(ensured.rows.insert(lock_row())), later_units);
}

/// Where every unit applies, work ends well.
proof fn lemma_work_succeeds<E>(m: Machine<E>, k: int, world: World, units: Units<E>)
    requires
        m.wf(),
        0 <= k <= m.order.len(),
        forall|unit: usize| (#[trigger] (units.apply)(unit)) is Ok,
    ensures
        work(m, k, world, units).1 is Ok,
    decreases m.order.len() - k,
{
    if k < m.order.len() {
        let unit = m.order[k];
        let name = m.names[unit as int];
        assert((units.apply)(unit) is Ok);
        if world.rows.contains(name) {
            lemma_work_succeeds(m, k + 1, world, units);
        } else {
            let tried = World { applied: world.applied.push(unit), ..world };
            lemma_work_succeeds(m, k + 1, tried.with_rows(tried.rows.insert(name)), units);
        }
    }
}

/// After a run, failed or not, the next run can do all its work.
///
/// Take a run on a database that was not locked, however it ended, and
/// after it a run all of whose units apply. The later run is not turned
/// away at the lock. It ends well, the name of each of its units is
/// among the rows afterwards, and the lock row is not.
pub proof fn lemma_run_after_a_failure<E>(
    m: Machine<E>,
    world: World,
    units: Units<E>,
    later: Machine<E>,
    later_units: Units<E>,
)
    requires
        starts(m.names, m),
        starts(later.names, later),
        !world.locked(),
        forall|unit: usize| (#[trigger] (later_units.apply)(unit)) is Ok,
    ensures
        ({
            let (end, outcome) = run(later, run(m, world, units).0, later_units);
            &&& outcome is Ok
            &&& !end.locked()
            &&& forall|i: int| 0 <= i < later.names.len() ==> end.rows.contains(#[trigger] later.names[i])
        }),
{
    lemma_lock_is_released(m, world, units, later, later_units);
    let after = run(m, world, units).0;
    lemma_run_is_direct(later, after, later_units);
    let ensured = World { table: true, ..after };
    let locked = ensured.with_rows(ensured.rows.insert(lock_row()));
    lemma_work_succeeds(later, 0, locked, later_units);
    lemma_work_done(later, 0, locked, later_units);
    lemma_first_reserved(later.names);
    let worked = work(later, 0, locked, later_units).0;
    assert forall|i: int| 0 <= i < later.names.len() implies worked.rows.contains(
        #[trigger] later.names[i],
    ) by {
        assert(later.order.contains(i as usize));
        let place = choose|place: int| 0 <= place < later.order.len() && later.order[place] == i as usize;
        assert(worked.rows.contains(later.names[later.order[place] as int]));
    }
}

/// Whether a run in this phase holds the lock and has not yet asked to
/// give it back.
pub open spec fn works_under_lock<E>(phase: Phase<E>) -> bool {
    phase is Checking || phase is Applying || phase is Recording || phase is RollingBack
}

/// The lock is given back before the run ends, whatever is replied.
///
/// This holds of every reply, failures of the bookkeeping among them.
/// A run that works under the lock never ends on a reply: it goes on
/// working or asks for the lock row to be deleted. It asks for that
/// exactly when it stops working. And a run ends only where it has not
/// taken the lock, or on the reply to that request.
pub proof fn lemma_lock_is_given_back_first<E>(m: Machine<E>, reply: Result<bool, E>)
    requires
        m.wf(),
    ensures
        ({
            let (then, action) = m.next(reply);
            &&& works_under_lock(m.phase) ==> !(action matches Some(Action::Finish(_)))
                && (works_under_lock(then.phase) || then.phase is Releasing)
            &&& then.phase is Releasing ==> action == Some(Action::<E>::ReleaseLock)
            &&& action == Some(Action::<E>::ReleaseLock) ==> then.phase is Releasing && (
            works_under_lock(m.phase) || m.phase is AcquiringLock)
            &&& action matches Some(Action::Finish(_)) ==> m.phase is EnsuringTable || m.phase
                is CheckingLock || (m.phase is AcquiringLock && reply is Err) || m.phase
                is Releasing
            &&& action == Some(Action::<E>::AcquireLock) ==> m.phase is CheckingLock && reply
                == Ok::<bool, E>(false)
            &&& works_under_lock(then.phase) ==> works_under_lock(m.phase) || (m.phase
                is AcquiringLock && reply is Ok)
        }),
{
}

} // verus!
