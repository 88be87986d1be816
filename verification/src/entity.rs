//! What the library needs to know of an entity: its table, its columns and
//! its relations, as plain values.

use sea_orm::sea_query::ForeignKeyAction;
use sea_orm::ColumnType;
use vstd::prelude::*;

verus! {

/// How many rows a relation reaches on the other side.
#[derive(Clone, Copy, Debug, PartialEq, Eq, Structural)]
pub enum RelationType {
    /// At most one row on the other side.
    HasOne,
    /// Any number of rows on the other side.
    HasMany,
}

/// The shape of a relation: how many rows it reaches, and on which side
/// the referring column stands.
#[derive(Clone, Copy, Debug, PartialEq, Eq, Structural)]
pub enum RelationShape {
    /// The entity's own rows refer to one row each on the other side.
    /// This is the one shape that gives a foreign key.
    BelongsTo,
    /// The entity is referred to, by at most one row.
    HasOne,
    /// The entity is referred to, by any number of rows.
    HasMany,
    /// The entity's own rows refer to any number of rows on the other side.
    BelongsToMany,
}

impl RelationShape {
    /// The shape of a relation of the given type, owned by the entity
    /// that declares it or not.
    pub open spec fn spec_of(rel_type: RelationType, is_owner: bool) -> RelationShape {
        match (rel_type, is_owner) {
            (RelationType::HasOne, false) => RelationShape::BelongsTo,
            (RelationType::HasOne, true) => RelationShape::HasOne,
            (RelationType::HasMany, true) => RelationShape::HasMany,
            (RelationType::HasMany, false) => RelationShape::BelongsToMany,
        }
    }

    /// The shape of a relation of the given type, owned by the entity
    /// that declares it or not.
    pub fn of(rel_type: RelationType, is_owner: bool) -> (shape: RelationShape)
        ensures
            shape == Self::spec_of(rel_type, is_owner),
    {
        match rel_type {
            RelationType::HasOne => if is_owner {
                RelationShape::HasOne
            } else {
                RelationShape::BelongsTo
            },
            RelationType::HasMany => if is_owner {
                RelationShape::HasMany
            } else {
                RelationShape::BelongsToMany
            },
        }
    }

    /// The shape's name as a sequence of characters.
    pub open spec fn spec_name(self) -> Seq<char> {
        match self {
            RelationShape::BelongsTo => "BelongsTo"@,
            RelationShape::HasOne => "HasOne"@,
            RelationShape::HasMany => "HasMany"@,
            RelationShape::BelongsToMany => "BelongsToMany"@,
        }
    }

    /// The shape's name, for messages.
    pub fn name(&self) -> (s: &'static str)
        ensures
            s@ == self.spec_name(),
    {
        match self {
            RelationShape::BelongsTo => "BelongsTo",
            RelationShape::HasOne => "HasOne",
            RelationShape::HasMany => "HasMany",
            RelationShape::BelongsToMany => "BelongsToMany",
        }
    }
}

/// The ways to refer to a table other than by its bare name.
#[derive(Clone, Copy, Debug, PartialEq, Eq, Structural)]
pub enum TableRefKind {
    /// Schema and table.
    SchemaTable,
    /// Table and alias.
    TableAlias,
    /// Schema, table and alias.
    SchemaTableAlias,
    /// A subquery under an alias.
    SubQuery,
}

impl TableRefKind {
    /// The kind's name as a sequence of characters.
    pub open spec fn spec_name(self) -> Seq<char> {
        match self {
            TableRefKind::SchemaTable => "SchemaTable"@,
            TableRefKind::TableAlias => "TableAlias"@,
            TableRefKind::SchemaTableAlias => "SchemaTableAlias"@,
            TableRefKind::SubQuery => "SubQuery"@,
        }
    }

    /// The kind's name, for messages.
    pub fn name(&self) -> (s: &'static str)
        ensures
            s@ == self.spec_name(),
    {
        match self {
            TableRefKind::SchemaTable => "SchemaTable",
            TableRefKind::TableAlias => "TableAlias",
            TableRefKind::SchemaTableAlias => "SchemaTableAlias",
            TableRefKind::SubQuery => "SubQuery",
        }
    }
}

/// A reference to a table.
#[derive(Debug)]
pub enum TableRef {
    /// The table's bare name.
    Table(String),
    /// Schema, then table.
    SchemaTable(String, String),
    /// Table, then alias.
    TableAlias(String, String),
    /// Schema, table, then alias.
    SchemaTableAlias(String, String, String),
    /// A subquery, of which only the alias is kept.
    SubQuery(String),
}

/// One column of an entity.
#[derive(Debug)]
pub struct ColumnMeta {
    /// The column's name in the table.
    pub name: String,
    /// Its SQL type.
    pub col_type: ColumnType,
    /// Whether it may hold NULL.
    pub null: bool,
    /// Whether its values are unique.
    pub unique: bool,
    /// Whether a plain index is asked for.
    pub indexed: bool,
    /// Whether it belongs to the primary key.
    pub primary_key: bool,
    /// Whether the entity's primary key counts up by itself.
    pub auto_increment: bool,
}

/// One relation of an entity.
#[derive(Debug)]
pub struct RelationMeta {
    /// How many rows the relation reaches.
    pub rel_type: RelationType,
    /// The table that holds the referring column.
    pub from_tbl: TableRef,
    /// The table referred to.
    pub to_tbl: TableRef,
    /// The referring column.
    pub from_col: String,
    /// The column referred to.
    pub to_col: String,
    /// Whether the declaring entity is the side referred to.
    pub is_owner: bool,
    /// What happens to referring rows on delete, if anything is asked.
    pub on_delete: Option<ForeignKeyAction>,
    /// What happens to referring rows on update, if anything is asked.
    pub on_update: Option<ForeignKeyAction>,
}

/// An entity: a table with its columns and relations.
#[derive(Debug)]
pub struct EntityMeta {
    /// The table's name.
    pub table_name: String,
    /// The columns, in declaration order.
    pub columns: Vec<ColumnMeta>,
    /// The relations, in declaration order.
    pub relations: Vec<RelationMeta>,
}

impl RelationMeta {
    /// The relation's shape.
    pub open spec fn spec_shape(self) -> RelationShape {
        RelationShape::spec_of(self.rel_type, self.is_owner)
    }

    /// The relation's shape.
    pub fn shape(&self) -> (shape: RelationShape)
        ensures
            shape == self.spec_shape(),
    {
        RelationShape::of(self.rel_type, self.is_owner)
    }
}

} // verus!
