//! Error kinds of the schema model and of the migration compiler.

use vstd::prelude::*;
use vstd::string::StringExecFns;

verus! {

/// Why a schema edit or lookup was refused. Each kind carries the identity of
/// the offending entity.
#[derive(Debug, Clone)]
pub enum SchemaError {
    DuplicateTable(String),
    DuplicateColumn { table: String, column: String },
    DuplicateRelationship(String),
    TableNotFound(String),
    ColumnNotFound { table: String, column: String },
    RelationshipNotFound(String),
    MissingEndpointTable(String),
    MissingEndpointColumn { table: String, column: String },
    SelfReferenceInvalid(String),
    TypeMismatch(String),
    TypeChangeBlocked { table: String, column: String },
    RelationshipBlocksDelete { table: String, column: String },
}

/// Mathematical value of a [`SchemaError`].
pub enum SchemaErrorView {
    DuplicateTable(Seq<char>),
    DuplicateColumn { table: Seq<char>, column: Seq<char> },
    DuplicateRelationship(Seq<char>),
    TableNotFound(Seq<char>),
    ColumnNotFound { table: Seq<char>, column: Seq<char> },
    RelationshipNotFound(Seq<char>),
    MissingEndpointTable(Seq<char>),
    MissingEndpointColumn { table: Seq<char>, column: Seq<char> },
    SelfReferenceInvalid(Seq<char>),
    TypeMismatch(Seq<char>),
    TypeChangeBlocked { table: Seq<char>, column: Seq<char> },
    RelationshipBlocksDelete { table: Seq<char>, column: Seq<char> },
}

impl View for SchemaError {
    type V = SchemaErrorView;

    open spec fn view(&self) -> SchemaErrorView {
        match self {
            SchemaError::DuplicateTable(t) => SchemaErrorView::DuplicateTable(t@),
            SchemaError::DuplicateColumn { table, column } => SchemaErrorView::DuplicateColumn {
                table: table@,
                column: column@,
            },
            SchemaError::DuplicateRelationship(c) => SchemaErrorView::DuplicateRelationship(c@),
            SchemaError::TableNotFound(t) => SchemaErrorView::TableNotFound(t@),
            SchemaError::ColumnNotFound { table, column } => SchemaErrorView::ColumnNotFound {
                table: table@,
                column: column@,
            },
            SchemaError::RelationshipNotFound(c) => SchemaErrorView::RelationshipNotFound(c@),
            SchemaError::MissingEndpointTable(t) => SchemaErrorView::MissingEndpointTable(t@),
            SchemaError::MissingEndpointColumn { table, column } =>
                SchemaErrorView::MissingEndpointColumn { table: table@, column: column@ },
            SchemaError::SelfReferenceInvalid(c) => SchemaErrorView::SelfReferenceInvalid(c@),
            SchemaError::TypeMismatch(c) => SchemaErrorView::TypeMismatch(c@),
            SchemaError::TypeChangeBlocked { table, column } => SchemaErrorView::TypeChangeBlocked {
                table: table@,
                column: column@,
            },
            SchemaError::RelationshipBlocksDelete { table, column } =>
                SchemaErrorView::RelationshipBlocksDelete { table: table@, column: column@ },
        }
    }
}

/// The error of a schema operation's result, if it failed.
pub open spec fn schema_err<T>(r: Result<T, SchemaError>) -> Option<SchemaErrorView> {
    match r {
        Ok(_) => None,
        Err(e) => Some(e@),
    }
}

/// Why a schema could not be compiled into a migration plan.
#[derive(Debug, Clone)]
pub enum CompileError {
    UnknownEngine(String),
    TypeMappingUnsupported { table: String, column: String },
    EmptyTableRejected(String),
}

/// Mathematical value of a [`CompileError`].
pub enum CompileErrorView {
    UnknownEngine(Seq<char>),
    TypeMappingUnsupported { table: Seq<char>, column: Seq<char> },
    EmptyTableRejected(Seq<char>),
}

impl View for CompileError {
    type V = CompileErrorView;

    open spec fn view(&self) -> CompileErrorView {
        match self {
            CompileError::TypeMappingUnsupported { table, column } =>
                CompileErrorView::TypeMappingUnsupported { table: table@, column: column@ },
            CompileError::EmptyTableRejected(t) => CompileErrorView::EmptyTableRejected(t@),
            CompileError::UnknownEngine(e) => CompileErrorView::UnknownEngine(e@),
        }
    }
}

/// Errors of the whole core, by component.
#[derive(Debug, Clone)]
pub enum CoreError {
    DatabaseError(String),
    SchemaValidationError(SchemaError),
    MigrationError(CompileError),
}

/// `a + b + c` on character sequences.
pub open spec fn join3(a: Seq<char>, b: Seq<char>, c: Seq<char>) -> Seq<char> {
    a + b + c
}

/// `a + b + c + d + e` on character sequences.
pub open spec fn join5(
    a: Seq<char>,
    b: Seq<char>,
    c: Seq<char>,
    d: Seq<char>,
    e: Seq<char>,
) -> Seq<char> {
    a + b + c + d + e
}

fn cat3(a: &str, b: &str, c: &str) -> (r: String)
    ensures
        r@ == join3(a@, b@, c@),
{
    let mut s = String::from_str(a);
    s.append(b);
    s.append(c);
    s
}

fn cat5(a: &str, b: &str, c: &str, d: &str, e: &str) -> (r: String)
    ensures
        r@ == join5(a@, b@, c@, d@, e@),
{
    let mut s = String::from_str(a);
    s.append(b);
    s.append(c);
    s.append(d);
    s.append(e);
    s
}

impl SchemaError {
    /// The human-readable message of this error.
    pub open spec fn message(self) -> Seq<char> {
        match self {
            SchemaError::DuplicateTable(t) => join3(
                "Table with name "@,
                t@,
                " already exists"@,
            ),
            SchemaError::DuplicateColumn { table, column } => join5(
                "Column "@,
                column@,
                " already exists in table "@,
                table@,
                ""@,
            ),
            SchemaError::DuplicateRelationship(c) => join3(
                "Relationship with code "@,
                c@,
                " already exists"@,
            ),
            SchemaError::TableNotFound(t) => join3("Table with name "@, t@, " doesn't exist"@),
            SchemaError::ColumnNotFound { table, column } => join5(
                "Column "@,
                column@,
                " doesn't exist in table "@,
                table@,
                ""@,
            ),
            SchemaError::RelationshipNotFound(c) => join3(
                "Relationship with code "@,
                c@,
                " doesn't exist"@,
            ),
            SchemaError::MissingEndpointTable(t) => join3(
                "Relationship endpoint table "@,
                t@,
                " must be defined"@,
            ),
            SchemaError::MissingEndpointColumn { table, column } => join5(
                "Relationship endpoint column "@,
                table@,
                "."@,
                column@,
                " must be defined"@,
            ),
            SchemaError::SelfReferenceInvalid(c) => join3(
                "Relationship "@,
                c@,
                " can't reference the column it starts from"@,
            ),
            SchemaError::TypeMismatch(c) => join3(
                "Relationship "@,
                c@,
                " joins columns of different data types"@,
            ),
            SchemaError::TypeChangeBlocked { table, column } => join5(
                "Column "@,
                table@,
                "."@,
                column@,
                " is referenced by a relationship; its data type can't change"@,
            ),
            SchemaError::RelationshipBlocksDelete { table, column } => join5(
                "Column "@,
                table@,
                "."@,
                column@,
                " is referenced by a relationship and can't be deleted"@,
            ),
        }
    }

    /// The human-readable message of this error.
    pub fn to_string(&self) -> (r: String)
        ensures
            r@ == self.message(),
    {
        match self {
            SchemaError::DuplicateTable(t) => cat3("Table with name ", t.as_str(), " already exists"),
            SchemaError::DuplicateColumn { table, column } => cat5(
                "Column ",
                column.as_str(),
                " already exists in table ",
                table.as_str(),
                "",
            ),
            SchemaError::DuplicateRelationship(c) => cat3(
                "Relationship with code ",
                c.as_str(),
                " already exists",
            ),
            SchemaError::TableNotFound(t) => cat3("Table with name ", t.as_str(), " doesn't exist"),
            SchemaError::ColumnNotFound { table, column } => cat5(
                "Column ",
                column.as_str(),
                " doesn't exist in table ",
                table.as_str(),
                "",
            ),
            SchemaError::RelationshipNotFound(c) => cat3(
                "Relationship with code ",
                c.as_str(),
                " doesn't exist",
            ),
            SchemaError::MissingEndpointTable(t) => cat3(
                "Relationship endpoint table ",
                t.as_str(),
                " must be defined",
            ),
            SchemaError::MissingEndpointColumn { table, column } => cat5(
                "Relationship endpoint column ",
                table.as_str(),
                ".",
                column.as_str(),
                " must be defined",
            ),
            SchemaError::SelfReferenceInvalid(c) => cat3(
                "Relationship ",
                c.as_str(),
                " can't reference the column it starts from",
            ),
            SchemaError::TypeMismatch(c) => cat3(
                "Relationship ",
                c.as_str(),
                " joins columns of different data types",
            ),
            SchemaError::TypeChangeBlocked { table, column } => cat5(
                "Column ",
                table.as_str(),
                ".",
                column.as_str(),
                " is referenced by a relationship; its data type can't change",
            ),
            SchemaError::RelationshipBlocksDelete { table, column } => cat5(
                "Column ",
                table.as_str(),
                ".",
                column.as_str(),
                " is referenced by a relationship and can't be deleted",
            ),
        }
    }
}

} // verus!
