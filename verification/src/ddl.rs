//! The statement builders of `sea_query`, as far as the library uses them.
//!
//! Everything in this file is taken on trust: each function calls one
//! builder and says in its contract what that builder's source shows.
//! What a builder holds is spoken of through the views below; what a
//! backend makes of a builder, text and bound values, only through a
//! name for it.
//!
//! A view says all that matters of a builder that was made and filled
//! by the functions of this file. The library has no builder from
//! anywhere else, and none of these functions is public.

use sea_orm::sea_query::{
    Alias, ColumnDef, ConditionalStatement, DeleteStatement, Expr, ForeignKey, ForeignKeyAction,
    ForeignKeyCreateStatement, InsertStatement, Query, SelectStatement, SimpleExpr, Table,
    TableAlterStatement, TableCreateStatement, TableDropStatement,
};
use sea_orm::{ColumnType, DbBackend, Statement};
use vstd::prelude::*;

verus! {

/// `sea_orm::ColumnType`: the SQL type of a column, carried through.
#[verifier::external_type_specification]
#[verifier::external_body]
pub struct ExColumnType(ColumnType);

/// `sea_orm::DbBackend`: MySQL, Postgres or SQLite.
#[verifier::external_type_specification]
#[verifier::external_body]
pub struct ExDbBackend(DbBackend);

/// `sea_query::ForeignKeyAction`: what a foreign key does on delete or
/// update, carried through.
#[verifier::external_type_specification]
#[verifier::external_body]
pub struct ExForeignKeyAction(ForeignKeyAction);

/// `sea_query::ColumnDef`: a column's name, type and keywords.
#[verifier::external_type_specification]
#[verifier::external_body]
pub struct ExColumnDef(ColumnDef);

/// `sea_query::ForeignKeyCreateStatement`: a foreign key under construction.
#[verifier::external_type_specification]
#[verifier::external_body]
pub struct ExForeignKeyCreateStatement(ForeignKeyCreateStatement);

/// `sea_query::TableCreateStatement`: a table under construction.
#[verifier::external_type_specification]
#[verifier::external_body]
pub struct ExTableCreateStatement(TableCreateStatement);

/// `sea_query::TableDropStatement`: the dropping of a table.
#[verifier::external_type_specification]
#[verifier::external_body]
pub struct ExTableDropStatement(TableDropStatement);

/// `sea_query::TableAlterStatement`: a change to a table.
#[verifier::external_type_specification]
#[verifier::external_body]
pub struct ExTableAlterStatement(TableAlterStatement);

/// `sea_query::SimpleExpr`: an expression, here always a condition.
#[verifier::external_type_specification]
#[verifier::external_body]
pub struct ExSimpleExpr(SimpleExpr);

/// `sea_query::SelectStatement`: a query under construction.
#[verifier::external_type_specification]
#[verifier::external_body]
pub struct ExSelectStatement(SelectStatement);

/// `sea_query::InsertStatement`: an insertion under construction.
#[verifier::external_type_specification]
#[verifier::external_body]
pub struct ExInsertStatement(InsertStatement);

/// `sea_query::DeleteStatement`: a deletion under construction.
#[verifier::external_type_specification]
#[verifier::external_body]
pub struct ExDeleteStatement(DeleteStatement);

/// `sea_orm::Statement`: a statement as a connection takes it, with its
/// text, its bound values and its backend.
#[verifier::external_type_specification]
#[verifier::external_body]
pub struct ExStatement(Statement);

/// A keyword of a column definition.
#[derive(Clone, Copy, Debug, PartialEq, Eq, Structural)]
pub enum Keyword {
    /// `NOT NULL`
    NotNull,
    /// `UNIQUE`
    UniqueKey,
    /// `PRIMARY KEY`
    PrimaryKey,
    /// The backend's way of counting up.
    AutoIncrement,
}

/// What a column definition holds.
#[verifier::ext_equal]
pub struct ColumnView {
    /// The column's name.
    pub name: Seq<char>,
    /// The type it was made with.
    pub col_type: ColumnType,
    /// Its keywords, in the order they were added.
    pub keywords: Seq<Keyword>,
}

impl ColumnView {
    /// The same column with one more keyword at the end.
    pub open spec fn with(self, keyword: Keyword) -> ColumnView {
        ColumnView { keywords: self.keywords.push(keyword), ..self }
    }

    /// Whether the column counts up only where its type is the integer
    /// type. Postgres has no statement for the other case.
    pub open spec fn counts_integers_only(self) -> bool {
        self.keywords.contains(Keyword::AutoIncrement) ==> is_integer_type(self.col_type)
    }
}

/// What a foreign key under construction holds.
#[verifier::ext_equal]
pub struct ForeignKeyView {
    /// The referring table.
    pub from_tbl: Seq<char>,
    /// The referring column.
    pub from_col: Seq<char>,
    /// The table referred to.
    pub to_tbl: Seq<char>,
    /// The column referred to.
    pub to_col: Seq<char>,
    /// The action on delete, if one was set.
    pub on_delete: Option<ForeignKeyAction>,
    /// The action on update, if one was set.
    pub on_update: Option<ForeignKeyAction>,
}

/// What a table under construction holds.
#[verifier::ext_equal]
pub struct TableView {
    /// The table's name.
    pub name: Seq<char>,
    /// Whether the statement is to pass over a table that exists.
    pub if_not_exists: bool,
    /// The columns, in the order they were added.
    pub columns: Seq<ColumnView>,
    /// The foreign keys, in the order they were added.
    pub foreign_keys: Seq<ForeignKeyView>,
}

/// What the dropping of a table holds.
#[verifier::ext_equal]
pub struct DropView {
    /// The table's name.
    pub name: Seq<char>,
    /// Whether the statement is to pass over a table that is not there.
    pub if_exists: bool,
}

/// What is to change in a table.
#[verifier::ext_equal]
pub enum Change {
    /// A column is added.
    AddColumn(ColumnView),
    /// The column of this name is dropped.
    DropColumn(Seq<char>),
}

/// What a change to a table holds.
#[verifier::ext_equal]
pub struct AlterView {
    /// The table's name.
    pub name: Seq<char>,
    /// The change, once one was set.
    pub change: Option<Change>,
}

impl AlterView {
    /// Whether the backend's builder has a statement for the change: a
    /// change is set, SQLite is not asked to drop a column, and a column
    /// that is added counts up only where it is an integer.
    pub open spec fn can_be_built(self, backend: DbBackend) -> bool {
        match self.change {
            None => false,
            Some(Change::AddColumn(column)) => column.counts_integers_only(),
            Some(Change::DropColumn(_)) => !is_sqlite(backend),
        }
    }
}

/// A condition: that a column equals a string.
#[verifier::ext_equal]
pub struct ConditionView {
    /// The column's name.
    pub column: Seq<char>,
    /// The string.
    pub value: Seq<char>,
}

/// What a query under construction holds.
#[verifier::ext_equal]
pub struct SelectView {
    /// The columns asked for, in the order they were added.
    pub columns: Seq<Seq<char>>,
    /// The table that is asked, once it was set.
    pub table: Option<Seq<char>>,
    /// The conditions that a row must meet, in the order they were added.
    pub conditions: Seq<ConditionView>,
}

/// What an insertion under construction holds.
#[verifier::ext_equal]
pub struct InsertView {
    /// The table's name, once it was set.
    pub table: Option<Seq<char>>,
    /// The columns that are given values.
    pub columns: Seq<Seq<char>>,
    /// The rows, each with one string for each column, in the order they
    /// were added.
    pub rows: Seq<Seq<Seq<char>>>,
}

/// What a deletion under construction holds.
#[verifier::ext_equal]
pub struct DeleteView {
    /// The table's name, once it was set.
    pub table: Option<Seq<char>>,
    /// The conditions that a row must meet, in the order they were added.
    pub conditions: Seq<ConditionView>,
}

impl TableView {
    /// Whether every column counts up only where it is an integer.
    pub open spec fn counts_integers_only(self) -> bool {
        forall|i: int| 0 <= i < self.columns.len() ==> (#[trigger] self.columns[i]).counts_integers_only()
    }
}

/// Whether a column type is `ColumnType::Integer`.
pub uninterp spec fn is_integer_type(col_type: ColumnType) -> bool;

/// `ColumnType::String` of the given length.
pub uninterp spec fn string_type(length: Option<u32>) -> ColumnType;

/// Whether a backend is `DbBackend::Sqlite`.
pub uninterp spec fn is_sqlite(backend: DbBackend) -> bool;

/// What a `ColumnDef` holds.
pub uninterp spec fn column_view(column: ColumnDef) -> ColumnView;

/// What a `ForeignKeyCreateStatement` holds.
pub uninterp spec fn foreign_key_view(key: ForeignKeyCreateStatement) -> ForeignKeyView;

/// What a `TableCreateStatement` holds.
pub uninterp spec fn table_view(table: TableCreateStatement) -> TableView;

/// What a `TableDropStatement` holds.
pub uninterp spec fn drop_view(table: TableDropStatement) -> DropView;

/// What a `TableAlterStatement` holds.
pub uninterp spec fn alter_view(table: TableAlterStatement) -> AlterView;

/// What a `SimpleExpr` says, where it is a condition.
pub uninterp spec fn condition_view(condition: SimpleExpr) -> ConditionView;

/// What a `SelectStatement` holds.
pub uninterp spec fn select_view(query: SelectStatement) -> SelectView;

/// What an `InsertStatement` holds.
pub uninterp spec fn insert_view(insertion: InsertStatement) -> InsertView;

/// What a `DeleteStatement` holds.
pub uninterp spec fn delete_view(deletion: DeleteStatement) -> DeleteView;

/// The statement by which a backend creates a table.
pub uninterp spec fn create_table_built(backend: DbBackend, table: TableView) -> Statement;

/// The statement by which a backend drops a table.
pub uninterp spec fn drop_table_built(backend: DbBackend, table: DropView) -> Statement;

/// The statement by which a backend changes a table.
pub uninterp spec fn alter_table_built(backend: DbBackend, table: AlterView) -> Statement;

/// The statement by which a backend asks a query, with the strings of
/// the conditions bound to it.
pub uninterp spec fn select_built(backend: DbBackend, query: SelectView) -> Statement;

/// The statement by which a backend inserts rows, with the strings of
/// the rows bound to it.
pub uninterp spec fn insert_built(backend: DbBackend, insertion: InsertView) -> Statement;

/// The statement by which a backend deletes rows, with the strings of
/// the conditions bound to it.
pub uninterp spec fn delete_built(backend: DbBackend, deletion: DeleteView) -> Statement;

/// `ColumnType`'s `==` against `ColumnType::Integer`.
#[verifier::external_body]
pub(crate) fn column_type_is_integer(col_type: &ColumnType) -> (b: bool)
    ensures
        b == is_integer_type(*col_type),
{
    *col_type == ColumnType::Integer
}

/// The variant `ColumnType::String` with its length.
#[verifier::external_body]
pub(crate) fn string_column_type(length: Option<u32>) -> (col_type: ColumnType)
    ensures
        col_type == string_type(length),
{
    ColumnType::String(length)
}

/// `DbBackend`'s `==` against `DbBackend::Sqlite`.
#[verifier::external_body]
pub(crate) fn backend_is_sqlite(backend: DbBackend) -> (b: bool)
    ensures
        b == is_sqlite(backend),
{
    backend == DbBackend::Sqlite
}

/// `ColumnDef::new_with_type` on an `Alias`: a column of that name and
/// type without keywords. The type goes through `sea_orm`'s conversion
/// into `sea_query`'s column types, which loses nothing.
#[verifier::external_body]
pub(crate) fn column_new(name: &str, col_type: &ColumnType) -> (column: ColumnDef)
    ensures
        column_view(column) == (ColumnView {
            name: name@,
            col_type: *col_type,
            keywords: Seq::empty(),
        }),
{
    ColumnDef::new_with_type(Alias::new(name), col_type.clone().into())
}

/// `ColumnDef::not_null`: pushes the keyword, touches nothing else.
#[verifier::external_body]
pub(crate) fn column_not_null(column: &mut ColumnDef)
    ensures
        column_view(*final(column)) == column_view(*old(column)).with(Keyword::NotNull),
{
    column.not_null();
}

/// `ColumnDef::unique_key`: pushes the keyword, touches nothing else.
#[verifier::external_body]
pub(crate) fn column_unique_key(column: &mut ColumnDef)
    ensures
        column_view(*final(column)) == column_view(*old(column)).with(Keyword::UniqueKey),
{
    column.unique_key();
}

/// `ColumnDef::primary_key`: pushes the keyword, touches nothing else.
#[verifier::external_body]
pub(crate) fn column_primary_key(column: &mut ColumnDef)
    ensures
        column_view(*final(column)) == column_view(*old(column)).with(Keyword::PrimaryKey),
{
    column.primary_key();
}

/// `ColumnDef::auto_increment`: pushes the keyword, touches nothing else.
#[verifier::external_body]
pub(crate) fn column_auto_increment(column: &mut ColumnDef)
    ensures
        column_view(*final(column)) == column_view(*old(column)).with(Keyword::AutoIncrement),
{
    column.auto_increment();
}

/// `ForeignKey::create`, then `from` and `to` on aliases: a key from one
/// column to another, with no action set.
#[verifier::external_body]
pub(crate) fn foreign_key_new(from_tbl: &str, from_col: &str, to_tbl: &str, to_col: &str) -> (key:
    ForeignKeyCreateStatement)
    ensures
        foreign_key_view(key) == (ForeignKeyView {
            from_tbl: from_tbl@,
            from_col: from_col@,
            to_tbl: to_tbl@,
            to_col: to_col@,
            on_delete: None,
            on_update: None,
        }),
{
    ForeignKey::create()
        .from(Alias::new(from_tbl), Alias::new(from_col))
        .to(Alias::new(to_tbl), Alias::new(to_col))
        .to_owned()
}

/// `ForeignKeyCreateStatement::on_delete`: sets the action on delete.
#[verifier::external_body]
pub(crate) fn foreign_key_on_delete(key: &mut ForeignKeyCreateStatement, action: ForeignKeyAction)
    ensures
        foreign_key_view(*final(key)) == (ForeignKeyView {
            on_delete: Some(action),
            ..foreign_key_view(*old(key))
        }),
{
    key.on_delete(action);
}

/// `ForeignKeyCreateStatement::on_update`: sets the action on update.
#[verifier::external_body]
pub(crate) fn foreign_key_on_update(key: &mut ForeignKeyCreateStatement, action: ForeignKeyAction)
    ensures
        foreign_key_view(*final(key)) == (ForeignKeyView {
            on_update: Some(action),
            ..foreign_key_view(*old(key))
        }),
{
    key.on_update(action);
}

/// `Table::create`, then `table` on an alias: an empty table of that name.
#[verifier::external_body]
pub(crate) fn table_new(name: &str) -> (table: TableCreateStatement)
    ensures
        table_view(table) == (TableView {
            name: name@,
            if_not_exists: false,
            columns: Seq::empty(),
            foreign_keys: Seq::empty(),
        }),
{
    Table::create().table(Alias::new(name)).to_owned()
}

/// `TableCreateStatement::if_not_exists`: sets the flag.
#[verifier::external_body]
pub(crate) fn table_if_not_exists(table: &mut TableCreateStatement)
    ensures
        table_view(*final(table)) == (TableView {
            if_not_exists: true,
            ..table_view(*old(table))
        }),
{
    table.if_not_exists();
}

/// `TableCreateStatement::col`: the column becomes the table's last.
#[verifier::external_body]
pub(crate) fn table_col(table: &mut TableCreateStatement, column: ColumnDef)
    ensures
        table_view(*final(table)) == (TableView {
            columns: table_view(*old(table)).columns.push(column_view(column)),
            ..table_view(*old(table))
        }),
{
    let mut column = column;
    table.col(&mut column);
}

/// `TableCreateStatement::foreign_key`: the key becomes the table's last.
#[verifier::external_body]
pub(crate) fn table_foreign_key(table: &mut TableCreateStatement, key: ForeignKeyCreateStatement)
    ensures
        table_view(*final(table)) == (TableView {
            foreign_keys: table_view(*old(table)).foreign_keys.push(foreign_key_view(key)),
            ..table_view(*old(table))
        }),
{
    let mut key = key;
    table.foreign_key(&mut key);
}

/// `Table::drop`, then `table` on an alias: the dropping of that table.
#[verifier::external_body]
pub(crate) fn drop_new(name: &str) -> (table: TableDropStatement)
    ensures
        drop_view(table) == (DropView { name: name@, if_exists: false }),
{
    Table::drop().table(Alias::new(name)).to_owned()
}

/// `TableDropStatement::if_exists`: sets the flag.
#[verifier::external_body]
pub(crate) fn drop_if_exists(table: &mut TableDropStatement)
    ensures
        drop_view(*final(table)) == (DropView { if_exists: true, ..drop_view(*old(table)) }),
{
    table.if_exists();
}

/// `Table::alter`, then `table` on an alias: a change to that table,
/// not yet said.
#[verifier::external_body]
pub(crate) fn alter_new(name: &str) -> (table: TableAlterStatement)
    ensures
        alter_view(table) == (AlterView { name: name@, change: None }),
{
    Table::alter().table(Alias::new(name)).to_owned()
}

/// `TableAlterStatement::add_column`: the change is to add the column.
#[verifier::external_body]
pub(crate) fn alter_add_column(table: &mut TableAlterStatement, column: ColumnDef)
    ensures
        alter_view(*final(table)) == (AlterView {
            change: Some(Change::AddColumn(column_view(column))),
            ..alter_view(*old(table))
        }),
{
    let mut column = column;
    table.add_column(&mut column);
}

/// `TableAlterStatement::drop_column` on an alias: the change is to drop
/// the column of that name.
#[verifier::external_body]
pub(crate) fn alter_drop_column(table: &mut TableAlterStatement, column: &str)
    ensures
        alter_view(*final(table)) == (AlterView {
            change: Some(Change::DropColumn(column@)),
            ..alter_view(*old(table))
        }),
{
    table.drop_column(Alias::new(column));
}

/// `Expr::col` on an alias, then `eq` with a string: the condition that
/// the column equals the string.
#[verifier::external_body]
pub(crate) fn column_equals(column: &str, value: &str) -> (condition: SimpleExpr)
    ensures
        condition_view(condition) == (ConditionView { column: column@, value: value@ }),
{
    Expr::col(Alias::new(column)).eq(value)
}

/// `Query::select`: a query that holds nothing yet.
#[verifier::external_body]
pub(crate) fn select_new() -> (query: SelectStatement)
    ensures
        select_view(query) == (SelectView {
            columns: Seq::empty(),
            table: None,
            conditions: Seq::empty(),
        }),
{
    Query::select()
}

/// `SelectStatement::column` on an alias: one more column is asked for.
#[verifier::external_body]
pub(crate) fn select_column(query: &mut SelectStatement, column: &str)
    ensures
        select_view(*final(query)) == (SelectView {
            columns: select_view(*old(query)).columns.push(column@),
            ..select_view(*old(query))
        }),
{
    query.column(Alias::new(column));
}

/// `SelectStatement::from` on an alias: sets the table that is asked.
#[verifier::external_body]
pub(crate) fn select_from(query: &mut SelectStatement, table: &str)
    ensures
        select_view(*final(query)) == (SelectView {
            table: Some(table@),
            ..select_view(*old(query))
        }),
{
    query.from(Alias::new(table));
}

/// `and_where` of a `SelectStatement`: one more condition is to be met.
#[verifier::external_body]
pub(crate) fn select_and_where(query: &mut SelectStatement, condition: SimpleExpr)
    ensures
        select_view(*final(query)) == (SelectView {
            conditions: select_view(*old(query)).conditions.push(condition_view(condition)),
            ..select_view(*old(query))
        }),
{
    query.and_where(condition);
}

/// `Query::insert`: an insertion that holds nothing yet.
#[verifier::external_body]
pub(crate) fn insert_new() -> (insertion: InsertStatement)
    ensures
        insert_view(insertion) == (InsertView {
            table: None,
            columns: Seq::empty(),
            rows: Seq::empty(),
        }),
{
    Query::insert()
}

/// `InsertStatement::into_table` on an alias: sets the table.
#[verifier::external_body]
pub(crate) fn insert_into_table(insertion: &mut InsertStatement, table: &str)
    ensures
        insert_view(*final(insertion)) == (InsertView {
            table: Some(table@),
            ..insert_view(*old(insertion))
        }),
{
    insertion.into_table(Alias::new(table));
}

/// `InsertStatement::columns` on one alias: that column alone is given
/// values.
#[verifier::external_body]
pub(crate) fn insert_column(insertion: &mut InsertStatement, column: &str)
    ensures
        insert_view(*final(insertion)) == (InsertView {
            columns: seq![column@],
            ..insert_view(*old(insertion))
        }),
{
    insertion.columns(vec![Alias::new(column)]);
}

/// `InsertStatement::values_panic` on one string: one more row. It stops
/// where the values are not as many as the columns, so exactly one
/// column is asked for.
#[verifier::external_body]
pub(crate) fn insert_value(insertion: &mut InsertStatement, value: &str)
    requires
        insert_view(*old(insertion)).columns.len() == 1,
    ensures
        insert_view(*final(insertion)) == (InsertView {
            rows: insert_view(*old(insertion)).rows.push(seq![value@]),
            ..insert_view(*old(insertion))
        }),
{
    insertion.values_panic(vec![value.into()]);
}

/// `Query::delete`: a deletion that holds nothing yet.
#[verifier::external_body]
pub(crate) fn delete_new() -> (deletion: DeleteStatement)
    ensures
        delete_view(deletion) == (DeleteView { table: None, conditions: Seq::empty() }),
{
    Query::delete()
}

/// `DeleteStatement::from_table` on an alias: sets the table.
#[verifier::external_body]
pub(crate) fn delete_from_table(deletion: &mut DeleteStatement, table: &str)
    ensures
        delete_view(*final(deletion)) == (DeleteView {
            table: Some(table@),
            ..delete_view(*old(deletion))
        }),
{
    deletion.from_table(Alias::new(table));
}

/// `and_where` of a `DeleteStatement`: one more condition is to be met.
#[verifier::external_body]
pub(crate) fn delete_and_where(deletion: &mut DeleteStatement, condition: SimpleExpr)
    ensures
        delete_view(*final(deletion)) == (DeleteView {
            conditions: delete_view(*old(deletion)).conditions.push(condition_view(condition)),
            ..delete_view(*old(deletion))
        }),
{
    deletion.and_where(condition);
}

/// `DbBackend::build` on a `TableCreateStatement`. A column that counts
/// up without being an integer is left out: the Postgres builder stops
/// on it.
#[verifier::external_body]
pub(crate) fn build_create_table(backend: DbBackend, table: &TableCreateStatement) -> (built: Statement)
    requires
        table_view(*table).counts_integers_only(),
    ensures
        built == create_table_built(backend, table_view(*table)),
{
    backend.build(table)
}

/// `DbBackend::build` on a `TableDropStatement`.
#[verifier::external_body]
pub(crate) fn build_drop_table(backend: DbBackend, table: &TableDropStatement) -> (built: Statement)
    ensures
        built == drop_table_built(backend, drop_view(*table)),
{
    backend.build(table)
}

/// `DbBackend::build` on a `TableAlterStatement`. Left out is what a
/// builder stops on: a statement without a change, the dropping of a
/// column on SQLite, and a new column that counts up without being an
/// integer, which Postgres cannot say.
#[verifier::external_body]
pub(crate) fn build_alter_table(backend: DbBackend, table: &TableAlterStatement) -> (built: Statement)
    requires
        alter_view(*table).can_be_built(backend),
    ensures
        built == alter_table_built(backend, alter_view(*table)),
{
    backend.build(table)
}

/// `DbBackend::build` on a `SelectStatement`.
#[verifier::external_body]
pub(crate) fn build_select(backend: DbBackend, query: &SelectStatement) -> (built: Statement)
    ensures
        built == select_built(backend, select_view(*query)),
{
    backend.build(query)
}

/// `DbBackend::build` on an `InsertStatement`.
#[verifier::external_body]
pub(crate) fn build_insert(backend: DbBackend, insertion: &InsertStatement) -> (built: Statement)
    ensures
        built == insert_built(backend, insert_view(*insertion)),
{
    backend.build(insertion)
}

/// `DbBackend::build` on a `DeleteStatement`.
#[verifier::external_body]
pub(crate) fn build_delete(backend: DbBackend, deletion: &DeleteStatement) -> (built: Statement)
    ensures
        built == delete_built(backend, delete_view(*deletion)),
{
    backend.build(deletion)
}

} // verus!
