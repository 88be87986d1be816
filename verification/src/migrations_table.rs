//! The bookkeeping table: one row for each migration that was applied,
//! and one row more while a run is in progress.
//!
//! The row that marks a run in progress is a lock in good faith only. It
//! is looked for and inserted in two statements, with no transaction
//! around them. It never expires: a run that dies before it has deleted
//! the row leaves the table locked until somebody deletes the row by
//! hand. And once a unit has begun to apply, the run cannot be called
//! off before that unit has ended one way or the other.

use crate::ddl::{
    build_create_table, build_delete, build_insert, build_select, column_equals, column_new,
    column_not_null, column_primary_key, create_table_built, delete_and_where, delete_built,
    delete_from_table, delete_new, insert_built, insert_column, insert_into_table, insert_new,
    insert_value, select_and_where, select_built, select_column, select_from, select_new,
    select_view, insert_view, delete_view, string_column_type, string_type, table_col,
    table_if_not_exists, table_new, table_view, ColumnView, ConditionView, DeleteView,
    InsertView, Keyword, SelectView, TableView,
};
use sea_orm::{DbBackend, Statement};
use vstd::prelude::*;

verus! {

/// The name of the bookkeeping table.
pub const MIGRATIONS_TABLE_NAME: &'static str = "_sea_migrations";

/// The name of the table's only column, which holds migration names.
pub const MIGRATIONS_TABLE_VERSION_COLUMN: &'static str = "version";

/// What the column holds in the row that marks a run in progress. No
/// migration can go by this name: it would pass for applied while a run
/// holds the lock, and so a run over such a unit is refused at its start.
pub const MIGRATIONS_TABLE_LOCK_ROW_VERSION: &'static str = "_lock";

/// A run was turned away because the lock row is there.
#[derive(Clone, Copy, Debug, PartialEq, Eq, Structural)]
pub struct Locked;

/// The bookkeeping table: a single string column that is the primary key
/// and never NULL, created only if the table is not there.
pub open spec fn migrations_table() -> TableView {
    TableView {
        name: MIGRATIONS_TABLE_NAME@,
        if_not_exists: true,
        columns: seq![
            ColumnView {
                name: MIGRATIONS_TABLE_VERSION_COLUMN@,
                col_type: string_type(None),
                keywords: seq![Keyword::NotNull, Keyword::PrimaryKey],
            },
        ],
        foreign_keys: Seq::empty(),
    }
}

/// The query for the row of `version`: the version column of the rows
/// of the bookkeeping table whose version is `version`.
pub open spec fn version_query(version: Seq<char>) -> SelectView {
    SelectView {
        columns: seq![MIGRATIONS_TABLE_VERSION_COLUMN@],
        table: Some(MIGRATIONS_TABLE_NAME@),
        conditions: seq![ConditionView { column: MIGRATIONS_TABLE_VERSION_COLUMN@, value: version }],
    }
}

/// The insertion of the row of `version`: one row into the bookkeeping
/// table, with `version` in the version column.
pub open spec fn version_insertion(version: Seq<char>) -> InsertView {
    InsertView {
        table: Some(MIGRATIONS_TABLE_NAME@),
        columns: seq![MIGRATIONS_TABLE_VERSION_COLUMN@],
        rows: seq![seq![version]],
    }
}

/// The deletion of the row of `version`: of the rows of the bookkeeping
/// table whose version is `version`.
pub open spec fn version_deletion(version: Seq<char>) -> DeleteView {
    DeleteView {
        table: Some(MIGRATIONS_TABLE_NAME@),
        conditions: seq![ConditionView { column: MIGRATIONS_TABLE_VERSION_COLUMN@, value: version }],
    }
}

/// The statement that creates the bookkeeping table if it does not
/// exist. It is safe at the start of every run.
pub fn init(backend: DbBackend) -> (statement: Statement)
    ensures
        statement == create_table_built(backend, migrations_table()),
{
    let mut table = table_new(MIGRATIONS_TABLE_NAME);
    table_if_not_exists(&mut table);
    let col_type = string_column_type(None);
    let mut version = column_new(MIGRATIONS_TABLE_VERSION_COLUMN, &col_type);
    column_not_null(&mut version);
    column_primary_key(&mut version);
    proof {
        let keywords = seq![Keyword::NotNull, Keyword::PrimaryKey];
        assert(Seq::<Keyword>::empty().push(Keyword::NotNull).push(Keyword::PrimaryKey)
            =~= keywords);
        assert(!keywords.contains(Keyword::AutoIncrement)) by {
            if keywords.contains(Keyword::AutoIncrement) {
                let i = choose|i: int|
                    0 <= i < keywords.len() && keywords[i] == Keyword::AutoIncrement;
                assert(keywords[i] == Keyword::AutoIncrement);
            }
        }
    }
    table_col(&mut table, version);
    proof {
        assert(table_view(table) =~= migrations_table());
    }
    build_create_table(backend, &table)
}

/// The statement that asks for the row of `version`. A row comes back
/// exactly if a migration of that name was applied; with the lock row's
/// value, exactly if a run is in progress.
pub fn get_version(backend: DbBackend, version: &str) -> (statement: Statement)
    ensures
        statement == select_built(backend, version_query(version@)),
{
    let mut query = select_new();
    select_column(&mut query, MIGRATIONS_TABLE_VERSION_COLUMN);
    select_and_where(&mut query, column_equals(MIGRATIONS_TABLE_VERSION_COLUMN, version));
    select_from(&mut query, MIGRATIONS_TABLE_NAME);
    proof {
        assert(select_view(query) =~= version_query(version@));
    }
    build_select(backend, &query)
}

/// The statement that records `version` as applied. It is for the moment
/// right after the migration's apply has succeeded.
pub fn insert_migration(backend: DbBackend, version: &str) -> (statement: Statement)
    ensures
        statement == insert_built(backend, version_insertion(version@)),
{
    let mut insertion = insert_new();
    insert_into_table(&mut insertion, MIGRATIONS_TABLE_NAME);
    insert_column(&mut insertion, MIGRATIONS_TABLE_VERSION_COLUMN);
    insert_value(&mut insertion, version);
    proof {
        assert(insert_view(insertion) =~= version_insertion(version@));
    }
    build_insert(backend, &insertion)
}

/// Takes the lock, given whether the lock row was found: the statement
/// that inserts the row if it was not, and a refusal if it was. There is
/// no waiting; whether to try again is the caller's choice.
///
/// Looking for the row and inserting it are two statements. Two runs that
/// both look before either inserts will both go on to insert; the table's
/// primary key then lets only one of the two inserts succeed.
pub fn lock(backend: DbBackend, found: bool) -> (r: Result<Statement, Locked>)
    ensures
        found ==> r == Err::<Statement, Locked>(Locked),
        !found ==> r == Ok::<Statement, Locked>(
            insert_built(backend, version_insertion(MIGRATIONS_TABLE_LOCK_ROW_VERSION@)),
        ),
{
    if found {
        Err(Locked)
    } else {
        Ok(insert_migration(backend, MIGRATIONS_TABLE_LOCK_ROW_VERSION))
    }
}

/// The statement that gives the lock back by deleting the lock row,
/// whether or not the row is there. It is to run at the end of every run
/// that took the lock, failed or not.
pub fn unlock(backend: DbBackend) -> (statement: Statement)
    ensures
        statement == delete_built(backend, version_deletion(MIGRATIONS_TABLE_LOCK_ROW_VERSION@)),
{
    let mut deletion = delete_new();
    delete_from_table(&mut deletion, MIGRATIONS_TABLE_NAME);
    delete_and_where(
        &mut deletion,
        column_equals(MIGRATIONS_TABLE_VERSION_COLUMN, MIGRATIONS_TABLE_LOCK_ROW_VERSION),
    );
    proof {
        assert(delete_view(deletion) =~= version_deletion(MIGRATIONS_TABLE_LOCK_ROW_VERSION@));
    }
    build_delete(backend, &deletion)
}

} // verus!
