use thorn::api_code::{normalize_name, transform_to_api_code, ApiCodeType};
use thorn::column::Column;
use thorn::column_dto::ColumnDTO;
use thorn::compiler::compile_schema;
use thorn::data_type::DataType;
use thorn::error::{CompileError, SchemaError};
use thorn::migration_plan::MigrationStep;
use thorn::postgres_engine::PostgresEngine;
use thorn::relationship::{Relationship, RelationshipType};
use thorn::relationship_dto::RelationshipDTO;
use thorn::schema::Schema;
use thorn::schema_dto::SchemaDTO;
use thorn::table::Table;
use thorn::table_dto::TableDTO;

fn users_and_orders() -> Schema {
    let mut schema = Schema::new();
    schema.add_table("users").unwrap();
    schema.add_table("orders").unwrap();
    schema
        .add_column("users", Column::new("id", DataType::Integer, true, false, false))
        .unwrap();
    schema
        .add_column("orders", Column::new("user_id", DataType::Integer, false, true, false))
        .unwrap();
    schema
}

fn users_to_orders(kind: RelationshipType) -> Relationship {
    Relationship::new("users", "id", "orders", "user_id", kind)
}

#[test]
fn duplicate_table_leaves_tables_unchanged() {
    let mut schema = users_and_orders();
    let err = schema.add_table("users").unwrap_err();
    assert!(matches!(err, SchemaError::DuplicateTable(ref n) if n == "users"));
    assert_eq!(schema.get_tables().len(), 2);
    assert_eq!(schema.get_tables()[0].get_columns().len(), 1);
}

#[test]
fn missing_end_table_is_rejected() {
    let mut schema = users_and_orders();
    let rel = Relationship::new("users", "id", "invoices", "user_id", RelationshipType::OneToMany);
    let err = schema.add_relation(rel).unwrap_err();
    assert!(matches!(err, SchemaError::MissingEndpointTable(ref n) if n == "invoices"));
    assert!(schema.get_relationships().is_empty());
}

#[test]
fn missing_end_column_is_rejected() {
    let mut schema = users_and_orders();
    let rel = Relationship::new("users", "id", "orders", "customer_id", RelationshipType::OneToMany);
    let err = schema.add_relation(rel).unwrap_err();
    assert!(matches!(
        err,
        SchemaError::MissingEndpointColumn { ref table, ref column } if table == "orders" && column == "customer_id"
    ));
    assert!(schema.get_relationships().is_empty());
}

#[test]
fn type_mismatch_is_rejected_on_add() {
    let mut schema = users_and_orders();
    schema
        .add_column("orders", Column::new("note", DataType::String, false, false, true))
        .unwrap();
    let rel = Relationship::new("users", "id", "orders", "note", RelationshipType::OneToOne);
    let err = schema.add_relation(rel).unwrap_err();
    assert!(matches!(err, SchemaError::TypeMismatch(ref c) if c == "users_id_orders_note"));
    assert!(schema.get_relationships().is_empty());
}

#[test]
fn duplicate_relationship_names_its_code() {
    let mut schema = users_and_orders();
    schema.add_relation(users_to_orders(RelationshipType::OneToOne)).unwrap();
    let err = schema.add_relation(users_to_orders(RelationshipType::ManyToMany)).unwrap_err();
    assert!(matches!(err, SchemaError::DuplicateRelationship(ref c) if c == "users_id_orders_user_id"));
}

#[test]
fn referenced_column_deletes_only_after_its_relationship() {
    let mut schema = users_and_orders();
    schema.add_relation(users_to_orders(RelationshipType::OneToMany)).unwrap();
    let err = schema.delete_column("orders", "user_id").unwrap_err();
    assert!(matches!(err, SchemaError::RelationshipBlocksDelete { .. }));
    assert_eq!(schema.get_tables()[1].get_columns().len(), 1);
    schema.delete_relation("users_id_orders_user_id").unwrap();
    let removed = schema.delete_column("orders", "user_id").unwrap();
    assert_eq!(removed.get_name(), "user_id");
    assert!(schema.get_tables()[1].get_columns().is_empty());
}

#[test]
fn delete_column_reports_missing_entities() {
    let mut schema = users_and_orders();
    assert!(matches!(schema.delete_column("nope", "id"), Err(SchemaError::TableNotFound(_))));
    assert!(matches!(
        schema.delete_column("users", "nope"),
        Err(SchemaError::ColumnNotFound { .. })
    ));
}

#[test]
fn remove_table_cascades_to_relationships() {
    let mut schema = users_and_orders();
    schema.add_table("products").unwrap();
    schema
        .add_column("products", Column::new("id", DataType::Integer, true, false, false))
        .unwrap();
    schema
        .add_column("orders", Column::new("product_id", DataType::Integer, false, true, false))
        .unwrap();
    schema.add_relation(users_to_orders(RelationshipType::OneToMany)).unwrap();
    schema
        .add_relation(Relationship::new("products", "id", "orders", "product_id", RelationshipType::OneToMany))
        .unwrap();
    let removed = schema.remove_table("users").unwrap();
    assert_eq!(removed.get_name(), "users");
    assert_eq!(schema.get_tables().len(), 2);
    assert!(schema.get_table("users").is_err());
    assert_eq!(schema.get_relationships().len(), 1);
    assert_eq!(schema.get_relationships()[0].get_from_table(), "products");
    assert!(matches!(schema.remove_table("users"), Err(SchemaError::TableNotFound(_))));
}

#[test]
fn duplicate_column_is_rejected() {
    let mut schema = users_and_orders();
    let err = schema
        .add_column("users", Column::new("id", DataType::String, false, false, false))
        .unwrap_err();
    assert!(matches!(err, SchemaError::DuplicateColumn { ref table, ref column } if table == "users" && column == "id"));
    assert_eq!(schema.get_table("users").unwrap().get_columns()[0].get_data_type(), DataType::Integer);
}

#[test]
fn update_column_keeps_position_and_guards_type() {
    let mut schema = users_and_orders();
    schema
        .add_column("users", Column::new("name", DataType::String, false, false, true))
        .unwrap();
    schema
        .update_column("users", Column::new("id", DataType::Integer, true, false, true))
        .unwrap();
    let users = schema.get_table("users").unwrap();
    assert_eq!(users.get_columns()[0].get_name(), "id");
    assert!(users.get_columns()[0].is_nullable());
    schema.add_relation(users_to_orders(RelationshipType::OneToOne)).unwrap();
    let err = schema
        .update_column("users", Column::new("id", DataType::String, true, false, false))
        .unwrap_err();
    assert!(matches!(err, SchemaError::TypeChangeBlocked { .. }));
    assert!(matches!(
        schema.update_column("users", Column::new("age", DataType::Integer, false, false, false)),
        Err(SchemaError::ColumnNotFound { .. })
    ));
    schema
        .update_column("users", Column::new("name", DataType::Date, false, false, false))
        .unwrap();
    assert_eq!(schema.get_table("users").unwrap().get_columns()[1].get_data_type(), DataType::Date);
}

#[test]
fn update_relation_keeps_code_and_changes_cardinality() {
    let mut schema = users_and_orders();
    schema.add_relation(users_to_orders(RelationshipType::OneToMany)).unwrap();
    let code = "users_id_orders_user_id";
    let updated = schema.update_relation(&users_to_orders(RelationshipType::ManyToMany)).unwrap();
    assert_eq!(updated.get_code(), code);
    let found = schema.get_relationship_with_code(code).unwrap();
    assert_eq!(*found.get_relationship_type(), RelationshipType::ManyToMany);
    assert_eq!(schema.get_relationships().len(), 1);
}

#[test]
fn update_relation_errors() {
    let mut schema = users_and_orders();
    let missing = schema.update_relation(&users_to_orders(RelationshipType::OneToOne)).unwrap_err();
    assert!(matches!(missing, SchemaError::RelationshipNotFound(_)));
    schema
        .add_relation(Relationship::new("users", "id", "users", "id", RelationshipType::OneToOne))
        .unwrap();
    let selfref = schema
        .update_relation(&Relationship::new("users", "id", "users", "id", RelationshipType::OneToMany))
        .unwrap_err();
    assert!(matches!(selfref, SchemaError::SelfReferenceInvalid(_)));
}

#[test]
fn relationship_lookups() {
    let mut schema = users_and_orders();
    schema.add_relation(users_to_orders(RelationshipType::OneToOne)).unwrap();
    let tables = schema.get_tables_for_relationships("users_id_orders_user_id").unwrap();
    assert_eq!(tables.len(), 2);
    assert_eq!(tables[0].get_name(), "users");
    assert_eq!(tables[1].get_name(), "orders");
    assert!(schema.get_tables_for_relationships("x").is_err());
    assert!(matches!(
        schema.get_relationships_for_table("ghost"),
        Err(SchemaError::TableNotFound(_))
    ));
    let users: &Table = schema.get_table("users").unwrap();
    assert_eq!(users.get_relationships(&schema).len(), 1);
    assert!(matches!(schema.delete_relation("x"), Err(SchemaError::RelationshipNotFound(_))));
}

#[test]
fn relationship_code_and_setters() {
    let mut rel = users_to_orders(RelationshipType::OneToOne);
    assert_eq!(rel.get_code(), "users_id_orders_user_id");
    rel.set_to_table("invoices");
    rel.set_to_column("buyer");
    rel.set_from_column("pk");
    rel.set_from_table("people");
    assert_eq!(rel.get_code(), "people_pk_invoices_buyer");
    let same_ends = Relationship::new("people", "pk", "invoices", "buyer", RelationshipType::ManyToMany);
    assert_eq!(rel, same_ends);
}

#[test]
fn error_messages() {
    let e = SchemaError::ColumnNotFound { table: "users".to_string(), column: "age".to_string() };
    assert_eq!(e.to_string(), "Column age doesn't exist in table users");
    let e = SchemaError::RelationshipNotFound("abc".to_string());
    assert_eq!(e.to_string(), "Relationship with code abc doesn't exist");
}

#[test]
fn compile_two_tables_and_relationship_in_order() {
    let mut schema = users_and_orders();
    schema.add_relation(users_to_orders(RelationshipType::OneToOne)).unwrap();
    let plan = PostgresEngine.generate_migration_plan(&schema).unwrap();
    let steps = plan.get_steps();
    assert_eq!(steps.len(), 3);
    assert!(matches!(&steps[0], MigrationStep::CreateTable { name, .. } if name == "users"));
    assert!(matches!(&steps[1], MigrationStep::CreateTable { name, .. } if name == "orders"));
    match &steps[2] {
        MigrationStep::AddRelationship { relationship, .. } => {
            assert_eq!(relationship.get_from_table(), "users");
            assert_eq!(relationship.get_from_column(), "id");
            assert_eq!(relationship.get_to_table(), "orders");
            assert_eq!(relationship.get_to_column(), "user_id");
        },
        _ => panic!("expected a relationship step"),
    }
    let sql = plan.get_sql();
    assert_eq!(sql.matches("CREATE TABLE users").count(), 1);
    assert!(sql.find("CREATE TABLE users").unwrap() < sql.find("ALTER TABLE").unwrap());
    assert_eq!(
        sql,
        "CREATE TABLE users (\n    id INTEGER PRIMARY KEY\n);\n\
         CREATE TABLE orders (\n    user_id INTEGER\n);\n\
         ALTER TABLE orders ADD CONSTRAINT orders_user_id_fk FOREIGN KEY (user_id) REFERENCES users (id);\n"
    );
}

#[test]
fn compile_joins_columns_with_separator() {
    let mut schema = Schema::new();
    schema.add_table("t").unwrap();
    schema.add_column("t", Column::new("a", DataType::Float, false, false, false)).unwrap();
    schema.add_column("t", Column::new("b", DataType::Boolean, true, false, false)).unwrap();
    schema.add_column("t", Column::new("c", DataType::Date, false, false, true)).unwrap();
    let plan = PostgresEngine.generate_migration_plan(&schema).unwrap();
    assert_eq!(
        plan.get_steps()[0].get_sql_script(),
        "CREATE TABLE t (\n    a DOUBLE PRECISION,\n    b BOOLEAN PRIMARY KEY,\n    c DATE\n);\n"
    );
}

#[test]
fn compile_rejects_empty_table() {
    let mut schema = Schema::new();
    schema.add_table("t").unwrap();
    let err = PostgresEngine.generate_migration_plan(&schema).unwrap_err();
    assert!(matches!(err, CompileError::EmptyTableRejected(ref n) if n == "t"));
}

#[test]
fn compile_rejects_unknown_dialect() {
    let schema = users_and_orders();
    let err = compile_schema("sqlite", &schema).unwrap_err();
    assert!(matches!(err, CompileError::UnknownEngine(ref e) if e == "sqlite"));
    let oracle = compile_schema("oracle", &schema).unwrap();
    assert!(oracle.get_sql().contains("id NUMBER PRIMARY KEY"));
}

#[test]
fn type_names_per_dialect() {
    assert_eq!(DataType::Float.to_db_type("PostgreSQL"), Some("DOUBLE PRECISION"));
    assert_eq!(DataType::String.to_db_type("PostgreSQL"), Some("TEXT"));
    assert_eq!(DataType::Boolean.to_db_type("oracle"), Some("NUMBER(1)"));
    assert_eq!(DataType::String.to_db_type("oracle"), Some("VARCHAR2"));
    assert_eq!(DataType::Date.to_db_type("mysql"), None);
    assert_eq!(PostgresEngine::name(), "PostgreSQL");
    assert_eq!(PostgresEngine.map_type(DataType::Integer), Some("INTEGER"));
}

#[test]
fn api_code_handles_unicode_space_and_case() {
    assert_eq!(normalize_name("\t a\u{3000}b \n"), "a_b");
    assert_eq!(transform_to_api_code("straße plan", ApiCodeType::Column), "COL_STRASSE_PLAN");
    assert_eq!(ApiCodeType::Table.prefix(), "TBL_");
}

#[test]
fn column_accessors_write_through() {
    let mut c = Column::default();
    *c.get_name_mut() = "flag".to_string();
    *c.get_data_type_mut() = DataType::Boolean;
    *c.is_primary_key_mut() = true;
    *c.is_foreign_key_mut() = true;
    *c.is_nullable_mut() = true;
    assert_eq!(c.get_name(), "flag");
    assert_eq!(c.get_data_type(), DataType::Boolean);
    assert!(c.is_primary_key() && c.is_foreign_key() && c.is_nullable());
}

#[test]
fn table_column_edits() {
    let mut t = Table::new("t");
    t.add_column(Column::new("a", DataType::Integer, false, false, false)).unwrap();
    assert!(matches!(
        t.add_column(Column::new("a", DataType::Date, false, false, false)),
        Err(SchemaError::DuplicateColumn { .. })
    ));
    t.udpate_column(Column::new("a", DataType::Date, false, false, false)).unwrap();
    assert_eq!(t.get_column("a").unwrap().get_data_type(), DataType::Date);
    assert!(t.get_column("b").is_err());
    t.set_name("u");
    assert_eq!(t.get_name(), "u");
}

#[test]
fn empty_dtos_round_trip() {
    let table = TableDTO::new(String::new(), vec![], vec![], true, String::new());
    let bytes = table.encode();
    assert!(!bytes.is_empty());
    assert_eq!(TableDTO::decode(&bytes).unwrap(), table);
    let schema = SchemaDTO::new(vec![], 255);
    assert_eq!(SchemaDTO::decode(&schema.encode()).unwrap(), schema);
}

#[test]
fn encodings_differ_by_value() {
    let rel = RelationshipDTO::new("a".to_string(), "b".to_string(), "c".to_string(), "d".to_string(), 2);
    let bytes = rel.encode();
    assert_eq!(RelationshipDTO::decode(&bytes).unwrap(), rel);
    let col = ColumnDTO::new("x".to_string(), "TEXT".to_string(), false, true, "C".to_string());
    let other = ColumnDTO::new("x".to_string(), "TEXT".to_string(), true, true, "C".to_string());
    let col_bytes = col.encode();
    assert_ne!(col_bytes, bytes);
    assert_ne!(col_bytes, other.encode());
    assert_eq!(ColumnDTO::decode(&col_bytes).unwrap(), col);
    assert_eq!(ColumnDTO::decode(&other.encode()).unwrap(), other);
}

fn colliding_schema() -> Schema {
    let mut schema = Schema::new();
    for (t, c) in [("a_b", "c"), ("a", "b_c"), ("d", "e")] {
        schema.add_table(t).unwrap();
        schema.add_column(t, Column::new(c, DataType::Integer, false, false, false)).unwrap();
    }
    schema
}

#[test]
fn relationships_with_colliding_codes_are_distinct() {
    let mut schema = colliding_schema();
    let first = Relationship::new("a_b", "c", "d", "e", RelationshipType::OneToOne);
    let second = Relationship::new("a", "b_c", "d", "e", RelationshipType::OneToMany);
    assert_eq!(first.get_code(), second.get_code());
    schema.add_relation(first).unwrap();
    schema.add_relation(second).unwrap();
    assert_eq!(schema.get_relationships().len(), 2);
    let found = schema.get_relationship_with_code("a_b_c_d_e").unwrap();
    assert_eq!(found.get_from_table(), "a_b");
    let again = Relationship::new("a", "b_c", "d", "e", RelationshipType::ManyToMany);
    assert!(matches!(schema.add_relation(again), Err(SchemaError::DuplicateRelationship(_))));
    let updated = schema
        .update_relation(&Relationship::new("a", "b_c", "d", "e", RelationshipType::ManyToMany))
        .unwrap();
    assert_eq!(updated.get_from_table(), "a");
    assert_eq!(schema.get_relationships()[0].get_from_table(), "a_b");
    assert_eq!(*schema.get_relationships()[1].get_relationship_type(), RelationshipType::ManyToMany);
    let deleted = schema.delete_relation("a_b_c_d_e").unwrap();
    assert_eq!(deleted.get_from_table(), "a_b");
    assert_eq!(schema.get_relationship_with_code("a_b_c_d_e").unwrap().get_from_table(), "a");
}
