//! The PostgreSQL dialect.

use vstd::prelude::*;

use crate::compiler::{compile_schema, compile_view, plan_spec};
use crate::data_type::{db_type_name, opt_str_view, DataType, POSTGRES_NAME};
use crate::engine::DatabaseEngine;
use crate::error::CompileError;
use crate::migration_plan::MigrationPlan;
use crate::schema::Schema;

verus! {

#[derive(Debug, Default, Clone, Copy)]
pub struct PostgresEngine;

impl PostgresEngine {
    pub fn name() -> (r: &'static str)
        ensures
            r@ == POSTGRES_NAME@,
    {
        POSTGRES_NAME
    }

    pub fn map_type(&self, data_type: DataType) -> (r: Option<&'static str>)
        ensures
            opt_str_view(r) == db_type_name(data_type, POSTGRES_NAME@),
    {
        data_type.to_db_type(POSTGRES_NAME)
    }

    /// Compiles `schema` into PostgreSQL DDL: every table first, then every
    /// relationship as a foreign key.
    pub fn generate_migration_plan(&self, schema: &Schema) -> (r: Result<MigrationPlan, CompileError>)
        ensures
            compile_view(r) == plan_spec(schema@, POSTGRES_NAME@),
    {
        compile_schema(POSTGRES_NAME, schema)
    }
}

impl DatabaseEngine for PostgresEngine {
    fn name() -> &'static str {
        PostgresEngine::name()
    }

    fn map_type(&self, data_type: DataType) -> Option<&'static str> {
        PostgresEngine::map_type(self, data_type)
    }

    fn generate_migration_plan(&self, schema: &Schema) -> Result<MigrationPlan, CompileError> {
        PostgresEngine::generate_migration_plan(self, schema)
    }
}

} // verus!
