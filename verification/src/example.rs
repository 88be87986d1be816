//! Two migrations of a small shop: the first creates the tables of
//! customers and of their tax records, the second adds a column to the
//! customers.

use crate::ddl::{alter_table_built, create_table_built, drop_table_built, is_sqlite};
use crate::entity::{ColumnMeta, EntityMeta};
use crate::error::SynthesisError;
use crate::manager::{
    column_added, column_dropped, table_definition, table_drop, MigrationManager,
};
use crate::migration::{MigrationName, MigratorTrait};
use sea_orm::Statement;
use vstd::prelude::*;

verus! {

/// Creates the customer table and the tax record table.
pub struct M20210101020202DoAThing {
    /// The customers.
    pub customer: EntityMeta,
    /// Their tax records.
    pub tax_info: EntityMeta,
}

impl MigrationName for M20210101020202DoAThing {
    fn name(&self) -> (s: &'static str)
        ensures
            s@ == "M20210101020202DoAThing"@,
    {
        "M20210101020202DoAThing"
    }
}

impl MigratorTrait for M20210101020202DoAThing {
    /// Creates the customer table, then the tax record table.
    fn up(&self, mg: &MigrationManager) -> (r: Result<Vec<Statement>, SynthesisError>)
        ensures
            match (table_definition(self.customer), table_definition(self.tax_info)) {
                (Err(e), _) => r == Err::<Vec<Statement>, SynthesisError>(e),
                (Ok(_), Err(e)) => r == Err::<Vec<Statement>, SynthesisError>(e),
                (Ok(customer), Ok(tax_info)) => r is Ok && r->Ok_0@ == seq![
                    create_table_built(mg.backend, customer),
                    create_table_built(mg.backend, tax_info),
                ],
            },
    {
        let mut statements: Vec<Statement> = Vec::new();
        match mg.create_table(&self.customer) {
            Ok(sql) => statements.push(sql),
            Err(e) => {
                return Err(e);
            },
        }
        match mg.create_table(&self.tax_info) {
            Ok(sql) => statements.push(sql),
            Err(e) => {
                return Err(e);
            },
        }
        proof {
            assert(statements@ =~= seq![statements[0], statements[1]]);
        }
        Ok(statements)
    }

    /// Drops the customer table, then the tax record table.
    fn down(&self, mg: &MigrationManager) -> (r: Result<Vec<Statement>, SynthesisError>)
        ensures
            r is Ok,
            r->Ok_0@ == seq![
                drop_table_built(mg.backend, table_drop(self.customer)),
                drop_table_built(mg.backend, table_drop(self.tax_info)),
            ],
    {
        let mut statements: Vec<Statement> = Vec::new();
        statements.push(mg.drop_table(&self.customer));
        statements.push(mg.drop_table(&self.tax_info));
        proof {
            assert(statements@ =~= seq![statements[0], statements[1]]);
        }
        Ok(statements)
    }
}

/// Adds a column to the customer table.
pub struct M20210105020202DoAThingAgain {
    /// The customers.
    pub customer: EntityMeta,
    /// The column that is new.
    pub some_value: ColumnMeta,
}

impl MigrationName for M20210105020202DoAThingAgain {
    fn name(&self) -> (s: &'static str)
        ensures
            s@ == "M20210105020202DoAThingAgain"@,
    {
        "M20210105020202DoAThingAgain"
    }
}

impl MigratorTrait for M20210105020202DoAThingAgain {
    /// Adds the column.
    fn up(&self, mg: &MigrationManager) -> (r: Result<Vec<Statement>, SynthesisError>)
        ensures
            self.some_value.indexed ==> r == Err::<Vec<Statement>, SynthesisError>(
                SynthesisError::IndexedColumn,
            ),
            !self.some_value.indexed ==> r is Ok && r->Ok_0@ == seq![
                alter_table_built(mg.backend, column_added(self.customer, self.some_value)),
            ],
    {
        let mut statements: Vec<Statement> = Vec::new();
        match mg.add_column(&self.customer, &self.some_value) {
            Ok(sql) => statements.push(sql),
            Err(e) => {
                return Err(e);
            },
        }
        proof {
            assert(statements@ =~= seq![statements[0]]);
        }
        Ok(statements)
    }

    /// Drops the column again, where the backend can.
    fn down(&self, mg: &MigrationManager) -> (r: Result<Vec<Statement>, SynthesisError>)
        ensures
            is_sqlite(mg.backend) ==> r == Err::<Vec<Statement>, SynthesisError>(
                SynthesisError::UnsupportedByBackend,
            ),
            !is_sqlite(mg.backend) ==> r is Ok && r->Ok_0@ == seq![
                alter_table_built(mg.backend, column_dropped(self.customer, self.some_value)),
            ],
    {
        let mut statements: Vec<Statement> = Vec::new();
        match mg.drop_column(&self.customer, &self.some_value) {
            Ok(sql) => statements.push(sql),
            Err(e) => {
                return Err(e);
            },
        }
        proof {
            assert(statements@ =~= seq![statements[0]]);
        }
        Ok(statements)
    }
}

} // verus!
