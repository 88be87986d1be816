use sea_migrations::error::MigrationError;
use sea_migrations::migrator::{Action, Migrator};
use sea_orm::{DbBackend, Value};
use std::collections::BTreeSet;

/// A database that answers truthfully, and units that fail on request.
struct World {
    rows: BTreeSet<String>,
    applied: Vec<String>,
    rolled_back: Vec<String>,
    actions: usize,
    bad_apply: Vec<&'static str>,
    bad_rollback: Vec<&'static str>,
}

fn world() -> World {
    World {
        rows: BTreeSet::new(),
        applied: vec![],
        rolled_back: vec![],
        actions: 0,
        bad_apply: vec![],
        bad_rollback: vec![],
    }
}

fn names(list: &[&str]) -> Vec<String> {
    list.iter().map(|s| s.to_string()).collect()
}

fn run(world: &mut World, list: &[&str]) -> Result<(), MigrationError<String>> {
    let (mut machine, mut action) = match Migrator::<String>::new(names(list)) {
        Ok(started) => started,
        Err(e) => return Err(e),
    };
    loop {
        world.actions += 1;
        let reply = match action {
            Action::EnsureTable => Ok(false),
            Action::CheckLock => Ok(world.rows.contains("_lock")),
            Action::AcquireLock => {
                world.rows.insert("_lock".to_string());
                Ok(false)
            }
            Action::CheckApplied(unit) => Ok(world.rows.contains(list[unit])),
            Action::Apply(unit) => {
                world.applied.push(list[unit].to_string());
                if world.bad_apply.contains(&list[unit]) {
                    Err(format!("apply {}", list[unit]))
                } else {
                    Ok(false)
                }
            }
            Action::Record(unit) => {
                world.rows.insert(list[unit].to_string());
                Ok(false)
            }
            Action::Rollback(unit) => {
                world.rolled_back.push(list[unit].to_string());
                if world.bad_rollback.contains(&list[unit]) {
                    Err(format!("rollback {}", list[unit]))
                } else {
                    Ok(false)
                }
            }
            Action::ReleaseLock => {
                world.rows.remove("_lock");
                Ok(false)
            }
            Action::Finish(outcome) => {
                assert!(machine.is_finished());
                return outcome;
            }
        };
        let (next, asked) = machine.step(reply);
        machine = next;
        action = asked.unwrap();
    }
}

fn script(list: &[&str], replies: Vec<Result<bool, String>>) -> Vec<String> {
    let (mut machine, first) = Migrator::<String>::new(names(list)).unwrap();
    let mut seen = vec![format!("{:?}", first)];
    for reply in replies {
        let (next, asked) = machine.step(reply);
        machine = next;
        seen.push(format!("{:?}", asked));
    }
    seen
}

#[test]
fn applies_in_name_order() {
    for list in [["M2", "M1", "M3"], ["M3", "M2", "M1"], ["M1", "M3", "M2"]] {
        let mut w = world();
        assert!(run(&mut w, &list).is_ok());
        assert_eq!(w.applied, vec!["M1", "M2", "M3"]);
        assert!(w.rolled_back.is_empty());
        let rows: Vec<&str> = w.rows.iter().map(|s| s.as_str()).collect();
        assert_eq!(rows, vec!["M1", "M2", "M3"]);
    }
}

#[test]
fn second_run_applies_nothing() {
    let mut w = world();
    assert!(run(&mut w, &["M2", "M1", "M3"]).is_ok());
    assert_eq!(w.applied.len(), 3);
    let rows = w.rows.clone();
    w.bad_apply = vec!["M1", "M2", "M3"];
    assert!(run(&mut w, &["M2", "M1", "M3"]).is_ok());
    assert_eq!(w.applied.len(), 3);
    assert!(w.rolled_back.is_empty());
    assert_eq!(w.rows, rows);
}

#[test]
fn a_unit_added_between_runs_is_applied_alone() {
    let mut w = world();
    assert!(run(&mut w, &["M1", "M3"]).is_ok());
    assert!(run(&mut w, &["M3", "M2", "M1"]).is_ok());
    assert_eq!(w.applied, vec!["M1", "M3", "M2"]);
}

#[test]
fn locked_run_does_nothing() {
    let mut w = world();
    w.rows.insert("_lock".to_string());
    let r = run(&mut w, &["M1", "M2"]);
    assert!(matches!(r, Err(MigrationError::Locked)));
    assert!(r.unwrap_err().is_locked());
    assert!(w.applied.is_empty());
    assert!(w.rolled_back.is_empty());
    assert_eq!(w.rows.len(), 1);
    assert!(w.rows.contains("_lock"));
    assert_eq!(w.actions, 3);
}

#[test]
fn failed_apply_is_rolled_back_and_reported() {
    let mut w = world();
    w.bad_apply = vec!["M2"];
    let r = run(&mut w, &["M3", "M2", "M1"]);
    assert!(matches!(r, Err(MigrationError::Apply(ref e)) if e == "apply M2"));
    assert_eq!(w.applied, vec!["M1", "M2"]);
    assert_eq!(w.rolled_back, vec!["M2"]);
    let rows: Vec<&str> = w.rows.iter().map(|s| s.as_str()).collect();
    assert_eq!(rows, vec!["M1"]);
}

#[test]
fn failed_rollback_is_reported_in_place_of_the_apply() {
    let mut w = world();
    w.bad_apply = vec!["M1"];
    w.bad_rollback = vec!["M1"];
    let r = run(&mut w, &["M1", "M2"]);
    assert!(matches!(r, Err(MigrationError::Rollback(ref e)) if e == "rollback M1"));
    assert_eq!(w.applied, vec!["M1"]);
    assert_eq!(w.rolled_back, vec!["M1"]);
    assert!(w.rows.is_empty());
}

#[test]
fn lock_is_released_after_a_failure() {
    let mut w = world();
    w.bad_apply = vec!["M2"];
    assert!(run(&mut w, &["M1", "M2", "M3"]).is_err());
    assert!(!w.rows.contains("_lock"));
    w.bad_apply = vec![];
    assert!(run(&mut w, &["M1", "M2", "M3"]).is_ok());
    assert_eq!(w.applied, vec!["M1", "M2", "M2", "M3"]);
    assert!(!w.rows.contains("_lock"));
}

#[test]
fn a_unit_named_like_the_lock_row_is_refused() {
    let mut w = world();
    let r = run(&mut w, &["M1", "_lock", "M0", "_lock"]);
    assert!(matches!(r, Err(MigrationError::ReservedName(1))));
    assert!(w.applied.is_empty());
    assert!(w.rows.is_empty());
    assert_eq!(w.actions, 0);
    assert!(matches!(
        Migrator::<String>::new(names(&["_lock"])),
        Err(MigrationError::ReservedName(0))
    ));
    assert!(Migrator::<String>::new(names(&["_lock2", "lock", "_loc", ""])).is_ok());
}

#[test]
fn a_run_after_a_failed_one_does_all_its_work() {
    let mut w = world();
    w.bad_apply = vec!["M1"];
    w.bad_rollback = vec!["M1"];
    assert!(run(&mut w, &["M2", "M1"]).is_err());
    w.bad_apply = vec![];
    w.bad_rollback = vec![];
    assert!(run(&mut w, &["M3", "M1", "M2"]).is_ok());
    let rows: Vec<&str> = w.rows.iter().map(|s| s.as_str()).collect();
    assert_eq!(rows, vec!["M1", "M2", "M3"]);
}

#[test]
fn run_without_units() {
    let mut w = world();
    assert!(run(&mut w, &[]).is_ok());
    assert_eq!(w.actions, 5);
    assert!(w.rows.is_empty());
}

#[test]
fn the_whole_script_of_a_good_run() {
    let seen = script(
        &["b", "a"],
        vec![
            Ok(false),
            Ok(false),
            Ok(false),
            Ok(false),
            Ok(false),
            Ok(false),
            Ok(true),
            Ok(false),
            Ok(false),
        ],
    );
    assert_eq!(
        seen,
        vec![
            "EnsureTable",
            "Some(CheckLock)",
            "Some(AcquireLock)",
            "Some(CheckApplied(1))",
            "Some(Apply(1))",
            "Some(Record(1))",
            "Some(CheckApplied(0))",
            "Some(ReleaseLock)",
            "Some(Finish(Ok(())))",
            "None",
        ]
    );
}

#[test]
fn a_failure_before_the_lock_ends_the_run_at_once() {
    assert_eq!(
        script(&["a"], vec![Err("no table".to_string())]),
        vec!["EnsureTable", "Some(Finish(Err(Database(\"no table\"))))"]
    );
    assert_eq!(
        script(&["a"], vec![Ok(false), Err("no answer".to_string())]),
        vec!["EnsureTable", "Some(CheckLock)", "Some(Finish(Err(Database(\"no answer\"))))"]
    );
    assert_eq!(
        script(&["a"], vec![Ok(true), Ok(false), Err("no insert".to_string())]),
        vec![
            "EnsureTable",
            "Some(CheckLock)",
            "Some(AcquireLock)",
            "Some(Finish(Err(Database(\"no insert\"))))"
        ]
    );
}

#[test]
fn a_failure_under_the_lock_gives_the_lock_back_first() {
    let lookup = script(
        &["a"],
        vec![Ok(false), Ok(false), Ok(false), Err("lookup".to_string()), Ok(false)],
    );
    assert_eq!(lookup[4], "Some(ReleaseLock)");
    assert_eq!(lookup[5], "Some(Finish(Err(Database(\"lookup\"))))");
    let record = script(
        &["a"],
        vec![
            Ok(false),
            Ok(false),
            Ok(false),
            Ok(false),
            Ok(false),
            Err("record".to_string()),
            Ok(false),
        ],
    );
    assert_eq!(record[5], "Some(Record(0))");
    assert_eq!(record[6], "Some(ReleaseLock)");
    assert_eq!(record[7], "Some(Finish(Err(Database(\"record\"))))");
}

#[test]
fn a_failed_release_is_what_the_run_reports() {
    let seen = script(
        &[],
        vec![Ok(false), Ok(false), Ok(false), Err("stuck".to_string())],
    );
    assert_eq!(seen[3], "Some(ReleaseLock)");
    assert_eq!(seen[4], "Some(Finish(Err(Database(\"stuck\"))))");
    let seen = script(
        &["a"],
        vec![
            Ok(false),
            Ok(false),
            Ok(false),
            Ok(false),
            Err("apply".to_string()),
            Ok(false),
            Err("stuck".to_string()),
        ],
    );
    assert_eq!(seen[5], "Some(Rollback(0))");
    assert_eq!(seen[6], "Some(ReleaseLock)");
    assert_eq!(seen[7], "Some(Finish(Err(Database(\"stuck\"))))");
}

#[test]
fn machine_knows_its_units() {
    let (machine, _) = Migrator::<String>::new(names(&["M2", "M1", "M3"])).unwrap();
    assert_eq!(machine.len(), 3);
    assert_eq!(machine.name(0), Some("M2"));
    assert_eq!(machine.name(2), Some("M3"));
    assert_eq!(machine.name(3), None);
    assert_eq!(machine.order(), &vec![1, 0, 2]);
    assert!(!machine.is_finished());
}

#[test]
fn statements_of_actions() {
    let (machine, first) = Migrator::<String>::new(names(&["M2", "M1"])).unwrap();
    let sql = |action: &Action<String>| {
        machine.statement(DbBackend::Sqlite, action).map(|s| {
            let values = s.values.map(|v| v.0).unwrap_or_default();
            let mut strings = vec![];
            for value in values {
                match value {
                    Value::String(Some(string)) => strings.push(*string),
                    other => panic!("bound to {:?}", other),
                }
            }
            (s.sql, strings)
        })
    };
    assert_eq!(
        sql(&first),
        Some((
            "CREATE TABLE IF NOT EXISTS `_sea_migrations` ( `version` text NOT NULL PRIMARY KEY )"
                .to_string(),
            vec![]
        ))
    );
    let select = "SELECT `version` FROM `_sea_migrations` WHERE `version` = ?".to_string();
    let insert = "INSERT INTO `_sea_migrations` (`version`) VALUES (?)".to_string();
    let delete = "DELETE FROM `_sea_migrations` WHERE `version` = ?".to_string();
    assert_eq!(sql(&Action::CheckLock), Some((select.clone(), vec!["_lock".to_string()])));
    assert_eq!(sql(&Action::AcquireLock), Some((insert.clone(), vec!["_lock".to_string()])));
    assert_eq!(sql(&Action::CheckApplied(1)), Some((select.clone(), vec!["M1".to_string()])));
    assert_eq!(sql(&Action::Record(0)), Some((insert.clone(), vec!["M2".to_string()])));
    assert_eq!(sql(&Action::ReleaseLock), Some((delete, vec!["_lock".to_string()])));
    assert_eq!(sql(&Action::CheckApplied(2)), None);
    assert_eq!(sql(&Action::Record(7)), None);
    assert_eq!(sql(&Action::Apply(0)), None);
    assert_eq!(sql(&Action::Rollback(0)), None);
    assert_eq!(sql(&Action::Finish(Ok(()))), None);
}

#[test]
fn lock_message() {
    assert_eq!(
        MigrationError::<String>::lock_message(),
        "Migrations table is locked! Please try again later!"
    );
    assert!(!MigrationError::Database("x".to_string()).is_locked());
}
