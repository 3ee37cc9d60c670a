//! The encode capability of the persisted entities.

use vstd::prelude::*;

use crate::column_dto::ColumnDTO;
use crate::relationship_dto::RelationshipDTO;
use crate::schema_dto::SchemaDTO;
use crate::table_dto::TableDTO;

verus! {

/// An entity that can be written as bytes.
pub trait Encoder {
    fn encode(&self) -> Vec<u8>;
}

impl Encoder for ColumnDTO {
    fn encode(&self) -> Vec<u8> {
        ColumnDTO::encode(self)
    }
}

impl Encoder for RelationshipDTO {
    fn encode(&self) -> Vec<u8> {
        RelationshipDTO::encode(self)
    }
}

impl Encoder for TableDTO {
    fn encode(&self) -> Vec<u8> {
        TableDTO::encode(self)
    }
}

impl Encoder for SchemaDTO {
    fn encode(&self) -> Vec<u8> {
        SchemaDTO::encode(self)
    }
}

} // verus!
