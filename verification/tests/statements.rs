use sea_migrations::entity::{
    ColumnMeta, EntityMeta, RelationMeta, RelationShape, RelationType, TableRef,
};
use sea_migrations::error::SynthesisError;
use sea_migrations::manager::{create_table_statement, MigrationManager};
use sea_orm::sea_query::ForeignKeyAction;
use sea_orm::{ColumnType, DbBackend};

fn column(name: &str, col_type: ColumnType) -> ColumnMeta {
    ColumnMeta {
        name: name.to_string(),
        col_type,
        null: false,
        unique: false,
        indexed: false,
        primary_key: false,
        auto_increment: true,
    }
}

fn belongs_to_tax_info() -> RelationMeta {
    RelationMeta {
        rel_type: RelationType::HasOne,
        from_tbl: TableRef::Table("customer".to_string()),
        to_tbl: TableRef::Table("tax_info".to_string()),
        from_col: "tax_info_id".to_string(),
        to_col: "id".to_string(),
        is_owner: false,
        on_delete: Some(ForeignKeyAction::Cascade),
        on_update: Some(ForeignKeyAction::Cascade),
    }
}

fn customer() -> EntityMeta {
    let mut id = column("id", ColumnType::Integer);
    id.primary_key = true;
    let mut notes = column("notes", ColumnType::Text);
    notes.null = true;
    EntityMeta {
        table_name: "customer".to_string(),
        columns: vec![
            id,
            column("name", ColumnType::String(None)),
            notes,
            column("tax_info_id", ColumnType::Integer),
        ],
        relations: vec![belongs_to_tax_info()],
    }
}

#[test]
fn create_table_sqlite() {
    let mg = MigrationManager::new(DbBackend::Sqlite);
    assert_eq!(
        mg.create_table(&customer()).unwrap().sql,
        "CREATE TABLE IF NOT EXISTS `customer` ( `id` integer NOT NULL PRIMARY KEY AUTOINCREMENT, `name` text NOT NULL, `notes` text, `tax_info_id` integer NOT NULL, FOREIGN KEY (`tax_info_id`) REFERENCES `tax_info` (`id`) ON DELETE CASCADE ON UPDATE CASCADE )"
    );
}

#[test]
fn create_table_postgres() {
    let mg = MigrationManager::new(DbBackend::Postgres);
    assert_eq!(
        mg.create_table(&customer()).unwrap().sql,
        "CREATE TABLE IF NOT EXISTS \"customer\" ( \"id\" serial NOT NULL PRIMARY KEY, \"name\" varchar NOT NULL, \"notes\" text, \"tax_info_id\" integer NOT NULL, FOREIGN KEY (\"tax_info_id\") REFERENCES \"tax_info\" (\"id\") ON DELETE CASCADE ON UPDATE CASCADE )"
    );
}

#[test]
fn create_table_mysql() {
    let mg = MigrationManager::new(DbBackend::MySql);
    assert_eq!(
        mg.create_table(&customer()).unwrap().sql,
        "CREATE TABLE IF NOT EXISTS `customer` ( `id` int NOT NULL PRIMARY KEY AUTO_INCREMENT, `name` varchar(255) NOT NULL, `notes` text, `tax_info_id` int NOT NULL, CONSTRAINT FOREIGN KEY (`tax_info_id`) REFERENCES `tax_info` (`id`) ON DELETE CASCADE ON UPDATE CASCADE )"
    );
}

#[test]
fn create_table_without_columns() {
    let mg = MigrationManager::new(DbBackend::Sqlite);
    let empty = EntityMeta { table_name: "empty".to_string(), columns: vec![], relations: vec![] };
    assert_eq!(mg.create_table(&empty).unwrap().sql, "CREATE TABLE IF NOT EXISTS `empty` ( )");
}

#[test]
fn create_table_passes_over_no_relation() {
    let mg = MigrationManager::new(DbBackend::Sqlite);
    let mut tax_info = EntityMeta {
        table_name: "tax_info".to_string(),
        columns: vec![column("id", ColumnType::Integer)],
        relations: vec![],
    };
    assert_eq!(
        mg.create_table(&tax_info).unwrap().sql,
        "CREATE TABLE IF NOT EXISTS `tax_info` ( `id` integer NOT NULL )"
    );
    let mut has_many = belongs_to_tax_info();
    has_many.rel_type = RelationType::HasMany;
    has_many.is_owner = true;
    tax_info.relations = vec![has_many];
    assert_eq!(
        mg.create_table(&tax_info),
        Err(SynthesisError::UnsupportedRelation(RelationShape::HasMany))
    );
    let mut has_one = belongs_to_tax_info();
    has_one.is_owner = true;
    tax_info.relations = vec![has_one];
    assert_eq!(
        mg.create_table(&tax_info),
        Err(SynthesisError::UnsupportedRelation(RelationShape::HasOne))
    );
    assert!(create_table_statement(&tax_info).is_err());
}

#[test]
fn create_table_refuses_an_owned_relation_after_a_key() {
    let mg = MigrationManager::new(DbBackend::Sqlite);
    let mut entity = customer();
    let mut has_one = belongs_to_tax_info();
    has_one.is_owner = true;
    entity.relations.push(has_one);
    assert_eq!(
        mg.create_table(&entity),
        Err(SynthesisError::UnsupportedRelation(RelationShape::HasOne))
    );
}

#[test]
fn create_table_keeps_the_order_of_keys() {
    let mg = MigrationManager::new(DbBackend::Sqlite);
    let mut first = belongs_to_tax_info();
    first.on_delete = None;
    first.on_update = None;
    let mut second = belongs_to_tax_info();
    second.from_col = "other_id".to_string();
    second.to_tbl = TableRef::Table("other".to_string());
    second.on_delete = Some(ForeignKeyAction::SetNull);
    second.on_update = None;
    let entity = EntityMeta {
        table_name: "customer".to_string(),
        columns: vec![column("tax_info_id", ColumnType::Integer), column("other_id", ColumnType::BigInteger)],
        relations: vec![first, second],
    };
    assert_eq!(
        mg.create_table(&entity).unwrap().sql,
        "CREATE TABLE IF NOT EXISTS `customer` ( `tax_info_id` integer NOT NULL, `other_id` integer NOT NULL, FOREIGN KEY (`tax_info_id`) REFERENCES `tax_info` (`id`), FOREIGN KEY (`other_id`) REFERENCES `other` (`id`) ON DELETE SET NULL )"
    );
}

#[test]
fn create_table_refuses_an_indexed_column_first() {
    let mg = MigrationManager::new(DbBackend::Sqlite);
    let mut entity = customer();
    entity.columns[2].indexed = true;
    entity.relations[0].rel_type = RelationType::HasMany;
    assert_eq!(mg.create_table(&entity), Err(SynthesisError::IndexedColumn));
}

#[test]
fn create_table_refuses_a_relation_to_many() {
    let mg = MigrationManager::new(DbBackend::Sqlite);
    let mut entity = customer();
    entity.relations[0].rel_type = RelationType::HasMany;
    assert_eq!(
        mg.create_table(&entity),
        Err(SynthesisError::UnsupportedRelation(RelationShape::BelongsToMany))
    );
    assert!(create_table_statement(&entity).is_err());
}

#[test]
fn create_table_reports_the_first_relation_that_fails() {
    let mg = MigrationManager::new(DbBackend::Sqlite);
    let mut entity = customer();
    let mut aliased = belongs_to_tax_info();
    aliased.to_tbl = TableRef::TableAlias("tax_info".to_string(), "t".to_string());
    let mut to_many = belongs_to_tax_info();
    to_many.rel_type = RelationType::HasMany;
    entity.relations = vec![belongs_to_tax_info(), aliased, to_many];
    assert_eq!(
        mg.create_table(&entity),
        Err(SynthesisError::UnsupportedTableRef(sea_migrations::entity::TableRefKind::TableAlias))
    );
}

#[test]
fn create_table_statement_holds_columns_and_keys() {
    let table = create_table_statement(&customer()).unwrap();
    assert_eq!(table.get_columns().len(), 4);
    assert_eq!(table.get_columns()[3].get_column_name(), "tax_info_id");
    assert_eq!(table.get_foreign_key_create_stmts().len(), 1);
}

#[test]
fn drop_table_if_exists() {
    assert_eq!(
        MigrationManager::new(DbBackend::Sqlite).drop_table(&customer()).sql,
        "DROP TABLE IF EXISTS `customer`"
    );
    assert_eq!(
        MigrationManager::new(DbBackend::Postgres).drop_table(&customer()).sql,
        "DROP TABLE IF EXISTS \"customer\""
    );
    assert_eq!(
        MigrationManager::new(DbBackend::MySql).drop_table(&customer()).sql,
        "DROP TABLE IF EXISTS `customer`"
    );
}

#[test]
fn add_column_sqlite() {
    let mg = MigrationManager::new(DbBackend::Sqlite);
    let some_value = column("some_value", ColumnType::String(None));
    assert_eq!(
        mg.add_column(&customer(), &some_value).unwrap().sql,
        "ALTER TABLE `customer` ADD COLUMN `some_value` text NOT NULL"
    );
}

#[test]
fn add_column_postgres_nullable_unique() {
    let mg = MigrationManager::new(DbBackend::Postgres);
    let mut code = column("code", ColumnType::String(Some(8)));
    code.null = true;
    code.unique = true;
    assert_eq!(
        mg.add_column(&customer(), &code).unwrap().sql,
        "ALTER TABLE \"customer\" ADD COLUMN \"code\" varchar(8) UNIQUE"
    );
}

#[test]
fn add_column_refuses_an_indexed_column() {
    let mg = MigrationManager::new(DbBackend::MySql);
    let mut some_value = column("some_value", ColumnType::String(None));
    some_value.indexed = true;
    assert_eq!(mg.add_column(&customer(), &some_value), Err(SynthesisError::IndexedColumn));
}

#[test]
fn drop_column_sqlite_is_refused() {
    let mg = MigrationManager::new(DbBackend::Sqlite);
    let some_value = column("some_value", ColumnType::String(None));
    assert_eq!(
        mg.drop_column(&customer(), &some_value),
        Err(SynthesisError::UnsupportedByBackend)
    );
}

#[test]
fn drop_column_postgres_and_mysql() {
    let some_value = column("some_value", ColumnType::String(None));
    assert_eq!(
        MigrationManager::new(DbBackend::Postgres).drop_column(&customer(), &some_value).unwrap().sql,
        "ALTER TABLE \"customer\" DROP COLUMN \"some_value\""
    );
    assert_eq!(
        MigrationManager::new(DbBackend::MySql).drop_column(&customer(), &some_value).unwrap().sql,
        "ALTER TABLE `customer` DROP COLUMN `some_value`"
    );
}

#[test]
fn drop_column_ignores_the_index_flag() {
    let mut some_value = column("some_value", ColumnType::String(None));
    some_value.indexed = true;
    assert_eq!(
        MigrationManager::new(DbBackend::MySql).drop_column(&customer(), &some_value).unwrap().sql,
        "ALTER TABLE `customer` DROP COLUMN `some_value`"
    );
}

#[test]
fn manager_keeps_its_backend() {
    assert_eq!(MigrationManager::new(DbBackend::Postgres).backend, DbBackend::Postgres);
}

#[test]
fn table_statements_bind_nothing_and_know_their_backend() {
    let built = MigrationManager::new(DbBackend::Postgres).create_table(&customer()).unwrap();
    assert_eq!(built.values, None);
    assert_eq!(built.db_backend, DbBackend::Postgres);
    let built = MigrationManager::new(DbBackend::MySql).drop_table(&customer());
    assert_eq!(built.values, None);
    assert_eq!(built.db_backend, DbBackend::MySql);
}
