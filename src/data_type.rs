//! Logical column types and their native names in each supported dialect.

use vstd::prelude::*;

use crate::text::str_eq;

verus! {

/// Name under which the PostgreSQL dialect is registered.
pub const POSTGRES_NAME: &'static str = "PostgreSQL";

/// Name under which the Oracle dialect is registered.
pub const ORACLE_NAME: &'static str = "oracle";

/// The closed set of logical column types.
#[derive(Debug, Clone, Copy, PartialEq, Eq, Structural)]
pub enum DataType {
    Integer,
    Float,
    String,
    Boolean,
    Date,
}

/// Native type name of `t` in the dialect called `db`, if that dialect is known.
pub open spec fn db_type_name(t: DataType, db: Seq<char>) -> Option<Seq<char>> {
    if db == POSTGRES_NAME@ {
        Some(
            match t {
                DataType::Integer => "INTEGER"@,
                DataType::Float => "DOUBLE PRECISION"@,
                DataType::String => "TEXT"@,
                DataType::Boolean => "BOOLEAN"@,
                DataType::Date => "DATE"@,
            },
        )
    } else if db == ORACLE_NAME@ {
        Some(
            match t {
                DataType::Integer => "NUMBER"@,
                DataType::Float => "FLOAT"@,
                DataType::String => "VARCHAR2"@,
                DataType::Boolean => "NUMBER(1)"@,
                DataType::Date => "DATE"@,
            },
        )
    } else {
        None
    }
}

/// `db` names a dialect whose type names are known.
pub open spec fn known_engine(db: Seq<char>) -> bool {
    db == POSTGRES_NAME@ || db == ORACLE_NAME@
}

/// Whether `db` names a dialect whose type names are known.
pub fn is_known_engine(db: &str) -> (r: bool)
    ensures
        r == known_engine(db@),
{
    str_eq(db, POSTGRES_NAME) || str_eq(db, ORACLE_NAME)
}

/// View of an optional static string.
pub open spec fn opt_str_view(o: Option<&'static str>) -> Option<Seq<char>> {
    match o {
        Some(s) => Some(s@),
        None => None,
    }
}

impl DataType {
    /// Every data type, in declaration order.
    pub open spec fn all_spec() -> Seq<DataType> {
        seq![DataType::Integer, DataType::Float, DataType::String, DataType::Boolean, DataType::Date]
    }

    /// All data types, in declaration order.
    pub fn iter() -> (r: Vec<DataType>)
        ensures
            r@ == Self::all_spec(),
    {
        let r = vec![DataType::Integer, DataType::Float, DataType::String, DataType::Boolean, DataType::Date];
        assert(r@ =~= Self::all_spec());
        r
    }

    /// Native type name of this type in the dialect called `db`; `None` for an
    /// unknown dialect.
    pub fn to_db_type(&self, db: &str) -> (r: Option<&'static str>)
        ensures
            opt_str_view(r) == db_type_name(*self, db@),
    {
        if str_eq(db, POSTGRES_NAME) {
            Some(
                match self {
                    DataType::Integer => "INTEGER",
                    DataType::Float => "DOUBLE PRECISION",
                    DataType::String => "TEXT",
                    DataType::Boolean => "BOOLEAN",
                    DataType::Date => "DATE",
                },
            )
        } else if str_eq(db, ORACLE_NAME) {
            Some(
                match self {
                    DataType::Integer => "NUMBER",
                    DataType::Float => "FLOAT",
                    DataType::String => "VARCHAR2",
                    DataType::Boolean => "NUMBER(1)",
                    DataType::Date => "DATE",
                },
            )
        } else {
            None
        }
    }
}

} // verus!
