use sea_migrations::entity::{
    ColumnMeta, EntityMeta, RelationMeta, RelationShape, RelationType, TableRef,
};
use sea_migrations::error::SynthesisError;
use sea_migrations::example::{M20210101020202DoAThing, M20210105020202DoAThingAgain};
use sea_migrations::migrator::{Action, Migrator};
use sea_migrations::{MigrationManager, MigrationName, MigratorTrait};
use sea_orm::sea_query::ForeignKeyAction;
use sea_orm::{ColumnType, DbBackend, Statement};

fn texts(statements: Vec<Statement>) -> Vec<String> {
    statements.into_iter().map(|s| s.sql).collect()
}

fn column(name: &str, col_type: ColumnType) -> ColumnMeta {
    ColumnMeta {
        name: name.to_string(),
        col_type,
        null: false,
        unique: false,
        indexed: false,
        primary_key: false,
        auto_increment: true,
    }
}

fn key(name: &str) -> ColumnMeta {
    let mut id = column(name, ColumnType::Integer);
    id.primary_key = true;
    id
}

fn customer() -> EntityMeta {
    let mut notes = column("notes", ColumnType::Text);
    notes.null = true;
    EntityMeta {
        table_name: "customer".to_string(),
        columns: vec![
            key("id"),
            column("name", ColumnType::String(None)),
            notes,
            column("tax_info_id", ColumnType::Integer),
        ],
        relations: vec![RelationMeta {
            rel_type: RelationType::HasOne,
            from_tbl: TableRef::Table("customer".to_string()),
            to_tbl: TableRef::Table("tax_info".to_string()),
            from_col: "tax_info_id".to_string(),
            to_col: "id".to_string(),
            is_owner: false,
            on_delete: Some(ForeignKeyAction::Cascade),
            on_update: Some(ForeignKeyAction::Cascade),
        }],
    }
}

fn tax_info() -> EntityMeta {
    EntityMeta { table_name: "tax_info".to_string(), columns: vec![key("id")], relations: vec![] }
}

fn first() -> M20210101020202DoAThing {
    M20210101020202DoAThing { customer: customer(), tax_info: tax_info() }
}

fn second() -> M20210105020202DoAThingAgain {
    M20210105020202DoAThingAgain {
        customer: customer(),
        some_value: column("some_value", ColumnType::String(None)),
    }
}

#[test]
fn names_of_the_examples() {
    assert_eq!(first().name(), "M20210101020202DoAThing");
    assert_eq!(second().name(), "M20210105020202DoAThingAgain");
}

#[test]
fn first_example_creates_two_tables() {
    let mg = MigrationManager::new(DbBackend::Sqlite);
    assert_eq!(
        texts(first().up(&mg).unwrap()),
        vec![
            "CREATE TABLE IF NOT EXISTS `customer` ( `id` integer NOT NULL PRIMARY KEY AUTOINCREMENT, `name` text NOT NULL, `notes` text, `tax_info_id` integer NOT NULL, FOREIGN KEY (`tax_info_id`) REFERENCES `tax_info` (`id`) ON DELETE CASCADE ON UPDATE CASCADE )",
            "CREATE TABLE IF NOT EXISTS `tax_info` ( `id` integer NOT NULL PRIMARY KEY AUTOINCREMENT )",
        ]
    );
}

#[test]
fn first_example_drops_two_tables() {
    let mg = MigrationManager::new(DbBackend::Sqlite);
    assert_eq!(
        texts(first().down(&mg).unwrap()),
        vec!["DROP TABLE IF EXISTS `customer`", "DROP TABLE IF EXISTS `tax_info`"]
    );
}

#[test]
fn first_example_fails_where_a_table_does() {
    let mg = MigrationManager::new(DbBackend::Sqlite);
    let mut unit = first();
    unit.tax_info.columns[0].indexed = true;
    assert_eq!(unit.up(&mg), Err(SynthesisError::IndexedColumn));
    unit.customer.relations[0].rel_type = RelationType::HasMany;
    assert_eq!(
        unit.up(&mg),
        Err(SynthesisError::UnsupportedRelation(RelationShape::BelongsToMany))
    );
    assert!(unit.down(&mg).is_ok());
}

#[test]
fn second_example_adds_a_column() {
    let mg = MigrationManager::new(DbBackend::Sqlite);
    assert_eq!(
        texts(second().up(&mg).unwrap()),
        vec!["ALTER TABLE `customer` ADD COLUMN `some_value` text NOT NULL"]
    );
    let mut unit = second();
    unit.some_value.indexed = true;
    assert_eq!(unit.up(&mg), Err(SynthesisError::IndexedColumn));
}

#[test]
fn second_example_drops_the_column_where_it_can() {
    assert_eq!(
        second().down(&MigrationManager::new(DbBackend::Sqlite)),
        Err(SynthesisError::UnsupportedByBackend)
    );
    assert_eq!(
        texts(second().down(&MigrationManager::new(DbBackend::MySql)).unwrap()),
        vec!["ALTER TABLE `customer` DROP COLUMN `some_value`"]
    );
}

#[test]
fn examples_run_in_the_order_of_their_dates() {
    let units: Vec<Box<dyn MigratorTrait>> = vec![Box::new(second()), Box::new(first())];
    let names: Vec<String> = units.iter().map(|u| u.name().to_string()).collect();
    let (mut machine, mut action) = Migrator::<String>::new(names).unwrap();
    let mut applied = vec![];
    loop {
        let reply = match action {
            Action::Apply(unit) => {
                applied.push(units[unit].name());
                Ok(false)
            }
            Action::Finish(outcome) => {
                assert!(outcome.is_ok());
                break;
            }
            _ => Ok(false),
        };
        let (next, asked) = machine.step(reply);
        machine = next;
        action = asked.unwrap();
    }
    assert_eq!(applied, vec!["M20210101020202DoAThing", "M20210105020202DoAThingAgain"]);
}
