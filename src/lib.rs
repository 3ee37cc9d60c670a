//! In-memory database schema model with validated edits, a compiler that turns
//! a schema into an ordered plan of DDL statements, and the persisted (binary
//! Ion) form of schema entities.

mod text;

pub mod error;

pub mod column;
pub mod data_type;
pub mod relationship;
pub mod schema;
pub mod table;

pub mod compiler;
pub mod engine;
pub mod migration_plan;
pub mod postgres_engine;

pub mod api_code;

pub mod codec;
pub mod column_dto;
pub mod ion;
pub mod relationship_dto;
pub mod schema_dto;
pub mod table_dto;
