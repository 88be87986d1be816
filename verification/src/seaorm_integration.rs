//! From entity metadata to column and foreign-key definitions.

use crate::ddl::{
    column_auto_increment, column_new, column_not_null, column_primary_key, column_type_is_integer,
    column_unique_key, column_view, foreign_key_new, foreign_key_on_delete, foreign_key_on_update,
    foreign_key_view, is_integer_type, ColumnView, ForeignKeyView, Keyword,
};
use crate::entity::{ColumnMeta, RelationMeta, RelationShape, TableRef, TableRefKind};
use crate::error::SynthesisError;
use sea_orm::sea_query::{ColumnDef, ForeignKeyCreateStatement};
use vstd::prelude::*;

verus! {

/// Whether a column calls for a keyword. `integer` says whether the
/// column's type is the integer type.
pub open spec fn calls_for(column: ColumnMeta, integer: bool, keyword: Keyword) -> bool {
    match keyword {
        Keyword::NotNull => !column.null,
        Keyword::UniqueKey => column.unique,
        Keyword::PrimaryKey => column.primary_key,
        Keyword::AutoIncrement => column.primary_key && column.auto_increment && integer,
    }
}

/// The keyword alone if the column calls for it, and nothing if not.
pub open spec fn if_called_for(column: ColumnMeta, integer: bool, keyword: Keyword) -> Seq<Keyword> {
    if calls_for(column, integer, keyword) {
        seq![keyword]
    } else {
        Seq::empty()
    }
}

/// The definition of a column: its name, its type, and of the four
/// keywords those that it calls for, in the order `NOT NULL`, `UNIQUE`,
/// `PRIMARY KEY`, counting up.
pub open spec fn column_definition(column: ColumnMeta, integer: bool) -> ColumnView {
    ColumnView {
        name: column.name@,
        col_type: column.col_type,
        keywords: if_called_for(column, integer, Keyword::NotNull) + if_called_for(
            column,
            integer,
            Keyword::UniqueKey,
        ) + if_called_for(column, integer, Keyword::PrimaryKey) + if_called_for(
            column,
            integer,
            Keyword::AutoIncrement,
        ),
    }
}

/// The definition of `column`, given whether its type is the integer type.
///
/// An indexed column is refused. Otherwise the definition is exactly
/// what [`column_definition`] says.
pub fn build_column_def(column: &ColumnMeta, integer: bool) -> (r: Result<ColumnDef, SynthesisError>)
    ensures
        column.indexed ==> r == Err::<ColumnDef, SynthesisError>(SynthesisError::IndexedColumn),
        !column.indexed ==> r is Ok && column_view(r->Ok_0) == column_definition(*column, integer),
{
    if column.indexed {
        return Err(SynthesisError::IndexedColumn);
    }
    let mut def = column_new(column.name.as_str(), &column.col_type);
    if !column.null {
        column_not_null(&mut def);
    }
    if column.unique {
        column_unique_key(&mut def);
    }
    if column.primary_key {
        column_primary_key(&mut def);
        if column.auto_increment && integer {
            column_auto_increment(&mut def);
        }
    }
    assert(column_view(def).keywords =~= column_definition(*column, integer).keywords);
    Ok(def)
}

/// A definition holds a keyword exactly if the column calls for it.
///
/// So the key column of a self-counting integer key that is not
/// nullable is `NOT NULL`, `PRIMARY KEY` and counts up; a nullable
/// column is never `NOT NULL`; and only an integer counts up.
pub proof fn lemma_keyword_held(column: ColumnMeta, integer: bool, keyword: Keyword)
    ensures
        column_definition(column, integer).keywords.contains(keyword) <==> calls_for(
            column,
            integer,
            keyword,
        ),
{
    let a = if_called_for(column, integer, Keyword::NotNull);
    let b = if_called_for(column, integer, Keyword::UniqueKey);
    let c = if_called_for(column, integer, Keyword::PrimaryKey);
    let d = if_called_for(column, integer, Keyword::AutoIncrement);
    let all = a + b + c + d;
    assert(all == column_definition(column, integer).keywords);
    if all.contains(keyword) {
        let i = choose|i: int| 0 <= i < all.len() && all[i] == keyword;
        assert(all[i] == keyword);
    }
    if calls_for(column, integer, keyword) {
        let i: int = match keyword {
            Keyword::NotNull => 0,
            Keyword::UniqueKey => a.len() as int,
            Keyword::PrimaryKey => (a.len() + b.len()) as int,
            Keyword::AutoIncrement => (a.len() + b.len() + c.len()) as int,
        };
        assert(all[i] == keyword);
    }
}

/// A definition counts up only where the column is an integer.
pub proof fn lemma_counts_integers(column: ColumnMeta, integer: bool)
    ensures
        column_definition(column, integer).keywords.contains(Keyword::AutoIncrement) ==> integer,
{
    lemma_keyword_held(column, integer, Keyword::AutoIncrement);
}

/// A relation has a foreign key only if the entity's own rows refer to
/// one row each: any other shape is refused by its name, whatever else
/// the relation holds.
pub proof fn lemma_only_belongs_to_gives_a_key(relation: RelationMeta)
    ensures
        foreign_key_definition(relation) is Ok ==> relation.spec_shape()
            == RelationShape::BelongsTo,
        relation.spec_shape() != RelationShape::BelongsTo ==> foreign_key_definition(relation)
            == Err::<ForeignKeyView, SynthesisError>(
            SynthesisError::UnsupportedRelation(relation.spec_shape()),
        ),
        relation.is_owner ==> foreign_key_definition(relation) is Err,
{
}

/// The definition of `column`.
///
/// An indexed column is refused. Otherwise the definition holds the
/// column's name and type, `NOT NULL` unless the column is nullable,
/// `UNIQUE` if it is unique, `PRIMARY KEY` if it belongs to the key, and
/// counts up only if it belongs to a self-counting key and is an integer.
pub fn get_column_def(column: &ColumnMeta) -> (r: Result<ColumnDef, SynthesisError>)
    ensures
        column.indexed ==> r == Err::<ColumnDef, SynthesisError>(SynthesisError::IndexedColumn),
        !column.indexed ==> r is Ok && column_view(r->Ok_0) == column_definition(
            *column,
            is_integer_type(column.col_type),
        ),
{
    let integer = column_type_is_integer(&column.col_type);
    build_column_def(column, integer)
}

/// The name under which a table reference can stand in a foreign key:
/// the table's own, where the reference is nothing but that.
pub open spec fn table_alias(table_ref: TableRef) -> Result<Seq<char>, SynthesisError> {
    match table_ref {
        TableRef::Table(name) => Ok(name@),
        TableRef::SchemaTable(_, _) => Err(
            SynthesisError::UnsupportedTableRef(TableRefKind::SchemaTable),
        ),
        TableRef::TableAlias(_, _) => Err(
            SynthesisError::UnsupportedTableRef(TableRefKind::TableAlias),
        ),
        TableRef::SchemaTableAlias(_, _, _) => Err(
            SynthesisError::UnsupportedTableRef(TableRefKind::SchemaTableAlias),
        ),
        TableRef::SubQuery(_) => Err(SynthesisError::UnsupportedTableRef(TableRefKind::SubQuery)),
    }
}

/// The table's name, if `table_ref` is a bare table; which other kind of
/// reference it is, if not.
pub fn table_ref_to_alias<'a>(table_ref: &'a TableRef) -> (r: Result<&'a str, SynthesisError>)
    ensures
        table_alias(*table_ref) is Ok <==> r is Ok,
        r matches Ok(name) ==> table_alias(*table_ref) == Ok::<Seq<char>, SynthesisError>(name@),
        r matches Err(e) ==> table_alias(*table_ref) == Err::<Seq<char>, SynthesisError>(e),
{
    match table_ref {
        TableRef::Table(name) => Ok(name.as_str()),
        TableRef::SchemaTable(_, _) => Err(
            SynthesisError::UnsupportedTableRef(TableRefKind::SchemaTable),
        ),
        TableRef::TableAlias(_, _) => Err(
            SynthesisError::UnsupportedTableRef(TableRefKind::TableAlias),
        ),
        TableRef::SchemaTableAlias(_, _, _) => Err(
            SynthesisError::UnsupportedTableRef(TableRefKind::SchemaTableAlias),
        ),
        TableRef::SubQuery(_) => Err(SynthesisError::UnsupportedTableRef(TableRefKind::SubQuery)),
    }
}

/// The foreign key that a relation stands for.
///
/// Only a relation by which the entity's own rows refer to one row each
/// gives a key, and only between tables referred to by their bare names.
/// The relation's shape is looked at first, then the referring table,
/// then the table referred to.
pub open spec fn foreign_key_definition(relation: RelationMeta) -> Result<
    ForeignKeyView,
    SynthesisError,
> {
    if relation.spec_shape() != RelationShape::BelongsTo {
        Err(SynthesisError::UnsupportedRelation(relation.spec_shape()))
    } else {
        match (table_alias(relation.from_tbl), table_alias(relation.to_tbl)) {
            (Err(e), _) => Err(e),
            (Ok(_), Err(e)) => Err(e),
            (Ok(from_tbl), Ok(to_tbl)) => Ok(
                ForeignKeyView {
                    from_tbl,
                    from_col: relation.from_col@,
                    to_tbl,
                    to_col: relation.to_col@,
                    on_delete: relation.on_delete,
                    on_update: relation.on_update,
                },
            ),
        }
    }
}

/// The foreign key of `relation`, or why it has none: exactly what
/// [`foreign_key_definition`] says.
pub fn get_column_foreign_key_def(relation: &RelationMeta) -> (r: Result<
    ForeignKeyCreateStatement,
    SynthesisError,
>)
    ensures
        foreign_key_definition(*relation) is Ok <==> r is Ok,
        r matches Ok(key) ==> foreign_key_definition(*relation) == Ok::<
            ForeignKeyView,
            SynthesisError,
        >(foreign_key_view(key)),
        r matches Err(e) ==> foreign_key_definition(*relation) == Err::<
            ForeignKeyView,
            SynthesisError,
        >(e),
{
    match relation.shape() {
        RelationShape::BelongsTo => {
            let from_tbl = match table_ref_to_alias(&relation.from_tbl) {
                Ok(name) => name,
                Err(e) => {
                    return Err(e);
                },
            };
            let to_tbl = match table_ref_to_alias(&relation.to_tbl) {
                Ok(name) => name,
                Err(e) => {
                    return Err(e);
                },
            };
            let mut key = foreign_key_new(
                from_tbl,
                relation.from_col.as_str(),
                to_tbl,
                relation.to_col.as_str(),
            );
            if let Some(action) = relation.on_delete {
                foreign_key_on_delete(&mut key, action);
            }
            if let Some(action) = relation.on_update {
                foreign_key_on_update(&mut key, action);
            }
            Ok(key)
        },
        other => Err(SynthesisError::UnsupportedRelation(other)),
    }
}

} // verus!
