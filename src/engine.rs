//! The capability that each SQL dialect implements.

use vstd::prelude::*;

use crate::data_type::DataType;
use crate::error::CompileError;
use crate::migration_plan::MigrationPlan;
use crate::schema::Schema;

verus! {

/// A target database dialect: its name, its names for the logical data types,
/// and the migration plan it compiles a schema into.
pub trait DatabaseEngine {
    /// Stable name of the dialect.
    fn name() -> &'static str;

    /// Native name of `data_type` in this dialect, if it has one.
    fn map_type(&self, data_type: DataType) -> Option<&'static str>;

    /// The ordered DDL steps that create `schema` in this dialect.
    fn generate_migration_plan(&self, schema: &Schema) -> Result<MigrationPlan, CompileError>;
}

} // verus!
