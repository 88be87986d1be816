use sea_migrations::migrations_table::{
    get_version, init, insert_migration, lock, unlock, Locked, MIGRATIONS_TABLE_LOCK_ROW_VERSION,
    MIGRATIONS_TABLE_NAME, MIGRATIONS_TABLE_VERSION_COLUMN,
};
use sea_orm::{DbBackend, Value, Values};

fn bound(value: &str) -> Option<Values> {
    Some(Values(vec![Value::from(value)]))
}

#[test]
fn names_of_the_table() {
    assert_eq!(MIGRATIONS_TABLE_NAME, "_sea_migrations");
    assert_eq!(MIGRATIONS_TABLE_VERSION_COLUMN, "version");
    assert_eq!(MIGRATIONS_TABLE_LOCK_ROW_VERSION, "_lock");
}

#[test]
fn init_creates_the_table_if_it_is_not_there() {
    let s = init(DbBackend::Sqlite);
    assert_eq!(s.sql, "CREATE TABLE IF NOT EXISTS `_sea_migrations` ( `version` text NOT NULL PRIMARY KEY )");
    assert_eq!(s.values, None);
    assert_eq!(s.db_backend, DbBackend::Sqlite);
    assert_eq!(
        init(DbBackend::Postgres).sql,
        "CREATE TABLE IF NOT EXISTS \"_sea_migrations\" ( \"version\" varchar NOT NULL PRIMARY KEY )"
    );
    assert_eq!(
        init(DbBackend::MySql).sql,
        "CREATE TABLE IF NOT EXISTS `_sea_migrations` ( `version` varchar(255) NOT NULL PRIMARY KEY )"
    );
}

#[test]
fn get_version_asks_for_one_row() {
    let s = get_version(DbBackend::Sqlite, "M20210101020202DoAThing");
    assert_eq!(s.sql, "SELECT `version` FROM `_sea_migrations` WHERE `version` = ?");
    assert_eq!(s.values, bound("M20210101020202DoAThing"));
    let s = get_version(DbBackend::Postgres, "it's");
    assert_eq!(s.sql, "SELECT \"version\" FROM \"_sea_migrations\" WHERE \"version\" = $1");
    assert_eq!(s.values, bound("it's"));
    let s = get_version(DbBackend::MySql, "");
    assert_eq!(s.sql, "SELECT `version` FROM `_sea_migrations` WHERE `version` = ?");
    assert_eq!(s.values, bound(""));
}

#[test]
fn insert_migration_inserts_one_row() {
    let s = insert_migration(DbBackend::Sqlite, "M1");
    assert_eq!(s.sql, "INSERT INTO `_sea_migrations` (`version`) VALUES (?)");
    assert_eq!(s.values, bound("M1"));
    let s = insert_migration(DbBackend::Postgres, "M1");
    assert_eq!(s.sql, "INSERT INTO \"_sea_migrations\" (\"version\") VALUES ($1)");
    assert_eq!(s.values, bound("M1"));
}

#[test]
fn lock_is_refused_when_the_row_is_there() {
    assert!(matches!(lock(DbBackend::Sqlite, true), Err(Locked)));
    assert!(matches!(lock(DbBackend::Postgres, true), Err(Locked)));
}

#[test]
fn lock_inserts_the_lock_row() {
    let s = lock(DbBackend::Sqlite, false).unwrap();
    assert_eq!(s.sql, "INSERT INTO `_sea_migrations` (`version`) VALUES (?)");
    assert_eq!(s.values, bound("_lock"));
}

#[test]
fn unlock_deletes_the_lock_row() {
    let s = unlock(DbBackend::Sqlite);
    assert_eq!(s.sql, "DELETE FROM `_sea_migrations` WHERE `version` = ?");
    assert_eq!(s.values, bound("_lock"));
    let s = unlock(DbBackend::Postgres);
    assert_eq!(s.sql, "DELETE FROM \"_sea_migrations\" WHERE \"version\" = $1");
    assert_eq!(s.values, bound("_lock"));
}
