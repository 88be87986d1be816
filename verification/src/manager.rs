//! The statements that change a table: create, drop, add a column, drop a
//! column.

use crate::ddl::{
    alter_add_column, alter_drop_column, alter_new, alter_table_built, backend_is_sqlite,
    build_alter_table, build_create_table, build_drop_table, column_view, create_table_built,
    drop_if_exists, drop_new, drop_table_built, is_integer_type, is_sqlite, table_col,
    table_foreign_key, table_if_not_exists, table_new, table_view, AlterView, Change, ColumnView,
    DropView, ForeignKeyView, TableView,
};
use crate::entity::{ColumnMeta, EntityMeta, RelationMeta, RelationShape};
use crate::error::SynthesisError;
use crate::seaorm_integration::{
    column_definition, foreign_key_definition, get_column_def, get_column_foreign_key_def,
    lemma_counts_integers,
};
use sea_orm::sea_query::TableCreateStatement;
use sea_orm::{DbBackend, Statement};
use vstd::prelude::*;

verus! {

/// The definitions of the given columns, in order.
pub open spec fn column_definitions(columns: Seq<ColumnMeta>) -> Seq<ColumnView> {
    Seq::new(
        columns.len(),
        |i: int| column_definition(columns[i], is_integer_type(columns[i].col_type)),
    )
}

/// The foreign keys of the given relations, in order.
///
/// Every relation must give one; the first that does not decides the
/// error. No relation is passed over.
pub open spec fn foreign_keys(relations: Seq<RelationMeta>) -> Result<
    Seq<ForeignKeyView>,
    SynthesisError,
>
    decreases relations.len(),
{
    if relations.len() == 0 {
        Ok(Seq::empty())
    } else {
        match foreign_keys(relations.drop_last()) {
            Err(e) => Err(e),
            Ok(keys) => match foreign_key_definition(relations.last()) {
                Err(e) => Err(e),
                Ok(key) => Ok(keys.push(key)),
            },
        }
    }
}

/// Whether one of the columns asks for a plain index.
pub open spec fn any_indexed(columns: Seq<ColumnMeta>) -> bool {
    exists|i: int| 0 <= i < columns.len() && (#[trigger] columns[i]).indexed
}

/// The table that an entity stands for: created only if it does not
/// exist, with every column and with the foreign key of every relation.
/// An indexed column is refused before any relation is looked at, and
/// a relation that gives no key is refused, never left out.
pub open spec fn table_definition(entity: EntityMeta) -> Result<TableView, SynthesisError> {
    if any_indexed(entity.columns@) {
        Err(SynthesisError::IndexedColumn)
    } else {
        match foreign_keys(entity.relations@) {
            Err(e) => Err(e),
            Ok(keys) => Ok(
                TableView {
                    name: entity.table_name@,
                    if_not_exists: true,
                    columns: column_definitions(entity.columns@),
                    foreign_keys: keys,
                },
            ),
        }
    }
}

/// The change that adds a column to an entity's table, with the
/// definition that [`column_definition`] gives the column.
pub open spec fn column_added(entity: EntityMeta, column: ColumnMeta) -> AlterView {
    AlterView {
        name: entity.table_name@,
        change: Some(
            Change::AddColumn(column_definition(column, is_integer_type(column.col_type))),
        ),
    }
}

/// The change that drops a column from an entity's table.
pub open spec fn column_dropped(entity: EntityMeta, column: ColumnMeta) -> AlterView {
    AlterView { name: entity.table_name@, change: Some(Change::DropColumn(column.name@)) }
}

/// The dropping of an entity's table: only if the table exists.
pub open spec fn table_drop(entity: EntityMeta) -> DropView {
    DropView { name: entity.table_name@, if_exists: true }
}

/// The statement that creates an entity's table, or why there is none:
/// exactly what [`table_definition`] says.
pub fn create_table_statement(entity: &EntityMeta) -> (r: Result<
    TableCreateStatement,
    SynthesisError,
>)
    ensures
        table_definition(*entity) is Ok <==> r is Ok,
        r matches Ok(table) ==> table_definition(*entity) == Ok::<TableView, SynthesisError>(
            table_view(table),
        ) && table_view(table).counts_integers_only(),
        r matches Err(e) ==> table_definition(*entity) == Err::<TableView, SynthesisError>(e),
{
    let mut table = table_new(entity.table_name.as_str());
    table_if_not_exists(&mut table);
    let mut i: usize = 0;
    proof {
        assert(column_definitions(entity.columns@.take(0)) =~= Seq::empty());
    }
    while i < entity.columns.len()
        invariant
            i <= entity.columns.len(),
            !any_indexed(entity.columns@.take(i as int)),
            table_view(table) == (TableView {
                name: entity.table_name@,
                if_not_exists: true,
                columns: column_definitions(entity.columns@.take(i as int)),
                foreign_keys: Seq::empty(),
            }),
            table_view(table).counts_integers_only(),
        decreases entity.columns.len() - i,
    {
        let column = &entity.columns[i];
        let ghost before = entity.columns@.take(i as int);
        let ghost after = entity.columns@.take(i + 1);
        match get_column_def(column) {
            Ok(def) => {
                proof {
                    lemma_counts_integers(*column, is_integer_type(column.col_type));
                    assert(after.drop_last() =~= before);
                    assert(column_definitions(after) =~= column_definitions(before).push(
                        column_view(def),
                    ));
                    assert forall|j: int| 0 <= j < after.len() implies !(#[trigger] after[j]).indexed by {
                        if j < i {
                            assert(before[j] == after[j]);
                        }
                    }
                }
                table_col(&mut table, def);
            },
            Err(e) => {
                proof {
                    assert(entity.columns@[i as int].indexed);
                }
                return Err(e);
            },
        }
        i += 1;
    }
    proof {
        assert(entity.columns@.take(i as int) =~= entity.columns@);
    }
    let mut k: usize = 0;
    while k < entity.relations.len()
        invariant
            k <= entity.relations.len(),
            !any_indexed(entity.columns@),
            foreign_keys(entity.relations@.take(k as int)) is Ok,
            table_view(table) == (TableView {
                name: entity.table_name@,
                if_not_exists: true,
                columns: column_definitions(entity.columns@),
                foreign_keys: foreign_keys(entity.relations@.take(k as int))->Ok_0,
            }),
            table_view(table).counts_integers_only(),
        decreases entity.relations.len() - k,
    {
        let relation = &entity.relations[k];
        let ghost after = entity.relations@.take(k + 1);
        proof {
            assert(after.drop_last() =~= entity.relations@.take(k as int));
            assert(after.last() == *relation);
        }
        match get_column_foreign_key_def(relation) {
            Ok(key) => {
                table_foreign_key(&mut table, key);
            },
            Err(e) => {
                proof {
                    lemma_foreign_keys_stay_failed(entity.relations@, k + 1);
                }
                return Err(e);
            },
        }
        k += 1;
    }
    proof {
        assert(entity.relations@.take(k as int) =~= entity.relations@);
    }
    Ok(table)
}

/// Once a prefix of the relations fails, the whole list fails the same way.
proof fn lemma_foreign_keys_stay_failed(relations: Seq<RelationMeta>, n: int)
    requires
        0 <= n <= relations.len(),
        foreign_keys(relations.take(n)) is Err,
    ensures
        foreign_keys(relations) == foreign_keys(relations.take(n)),
    decreases relations.len() - n,
{
    if n == relations.len() {
        assert(relations.take(n) =~= relations);
    } else {
        assert(relations.take(n + 1).drop_last() =~= relations.take(n));
        lemma_foreign_keys_stay_failed(relations, n + 1);
    }
}

/// No table is created over a relation that gives no key: where an
/// entity has a relation of another shape than belongs-to, the entity
/// is refused.
pub proof fn lemma_no_relation_is_passed_over(entity: EntityMeta, i: int)
    requires
        0 <= i < entity.relations@.len(),
        entity.relations@[i].spec_shape() != RelationShape::BelongsTo,
    ensures
        table_definition(entity) is Err,
{
    let relations = entity.relations@;
    assert(relations.take(i + 1).drop_last() =~= relations.take(i));
    assert(relations.take(i + 1).last() == relations[i]);
    assert(foreign_keys(relations.take(i + 1)) is Err);
    lemma_foreign_keys_stay_failed(relations, i + 1);
}

/// Builds the statements of migrations for one database backend.
pub struct MigrationManager {
    /// The backend whose dialect the statements are written in.
    pub backend: DbBackend,
}

impl MigrationManager {
    /// A manager for the given backend.
    pub fn new(backend: DbBackend) -> (mg: Self)
        ensures
            mg.backend == backend,
    {
        MigrationManager { backend }
    }

    /// The statement that creates the entity's table if it does not
    /// exist.
    ///
    /// Fails exactly where [`table_definition`] does, and gives what the
    /// backend makes of that definition otherwise.
    pub fn create_table(&self, entity: &EntityMeta) -> (r: Result<Statement, SynthesisError>)
        ensures
            table_definition(*entity) is Ok <==> r is Ok,
            r matches Ok(statement) ==> statement == create_table_built(
                self.backend,
                table_definition(*entity)->Ok_0,
            ),
            r matches Err(e) ==> table_definition(*entity) == Err::<TableView, SynthesisError>(e),
    {
        match create_table_statement(entity) {
            Ok(table) => Ok(build_create_table(self.backend, &table)),
            Err(e) => Err(e),
        }
    }

    /// The statement that drops the entity's table, with all its rows,
    /// if the table exists.
    pub fn drop_table(&self, entity: &EntityMeta) -> (statement: Statement)
        ensures
            statement == drop_table_built(self.backend, table_drop(*entity)),
    {
        let mut table = drop_new(entity.table_name.as_str());
        drop_if_exists(&mut table);
        build_drop_table(self.backend, &table)
    }

    /// The statement that adds `column` to the entity's table.
    ///
    /// An indexed column is refused; any other is added with the
    /// definition that [`column_definition`] gives it.
    pub fn add_column(&self, entity: &EntityMeta, column: &ColumnMeta) -> (r: Result<
        Statement,
        SynthesisError,
    >)
        ensures
            column.indexed ==> r == Err::<Statement, SynthesisError>(SynthesisError::IndexedColumn),
            !column.indexed ==> r == Ok::<Statement, SynthesisError>(
                alter_table_built(self.backend, column_added(*entity, *column)),
            ),
    {
        match get_column_def(column) {
            Ok(def) => {
                proof {
                    lemma_counts_integers(*column, is_integer_type(column.col_type));
                }
                let mut table = alter_new(entity.table_name.as_str());
                alter_add_column(&mut table, def);
                Ok(build_alter_table(self.backend, &table))
            },
            Err(e) => Err(e),
        }
    }

    /// The statement that drops `column`, with all it holds, from the
    /// entity's table. SQLite has no such statement and is refused.
    pub fn drop_column(&self, entity: &EntityMeta, column: &ColumnMeta) -> (r: Result<
        Statement,
        SynthesisError,
    >)
        ensures
            is_sqlite(self.backend) ==> r == Err::<Statement, SynthesisError>(
                SynthesisError::UnsupportedByBackend,
            ),
            !is_sqlite(self.backend) ==> r == Ok::<Statement, SynthesisError>(
                alter_table_built(self.backend, column_dropped(*entity, *column)),
            ),
    {
        if backend_is_sqlite(self.backend) {
            Err(SynthesisError::UnsupportedByBackend)
        } else {
            let mut table = alter_new(entity.table_name.as_str());
            alter_drop_column(&mut table, column.name.as_str());
            Ok(build_alter_table(self.backend, &table))
        }
    }
}

} // verus!
