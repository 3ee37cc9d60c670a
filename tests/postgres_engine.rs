use thorn::column::Column;
use thorn::data_type;
use thorn::postgres_engine::PostgresEngine;
use thorn::relationship::{Relationship, RelationshipType};
use thorn::schema::Schema;

#[test]
fn test_2_tables_with_column_in_each() {
    let mut schema = Schema::new();
    schema.add_table("users").unwrap();
    schema.add_table("orders").unwrap();

    schema
        .add_column("users", Column::new("id", data_type::DataType::Integer, true, false, false))
        .unwrap();
    schema
        .add_column("orders", Column::new("user_id", data_type::DataType::Integer, false, true, false))
        .unwrap();

    let postgres_engine = PostgresEngine;
    let res = postgres_engine.generate_migration_plan(&mut schema);
    assert!(res.is_ok());
    let plan = res.unwrap();
    let sql = plan.get_sql();
    println!("{}", sql);
}

#[test]
fn test_2_tables_with_column_in_each_1_relation() {
    let mut schema = Schema::new();
    schema.add_table("users").unwrap();
    schema.add_table("orders").unwrap();

    schema
        .add_column("users", Column::new("id", data_type::DataType::Integer, true, false, false))
        .unwrap();
    schema
        .add_column("orders", Column::new("user_id", data_type::DataType::Integer, false, true, false))
        .unwrap();

    let relationship = Relationship::new("users", "id", "orders", "user_id", RelationshipType::OneToOne);
    schema.add_relation(relationship).unwrap();

    let postgres_engine = PostgresEngine;
    let res = postgres_engine.generate_migration_plan(&mut schema);
    assert!(res.is_ok());
    let plan = res.unwrap();
    let sql = plan.get_sql();
    println!("{}", sql);
}

#[test]
fn test_2_tables_multiple_columns_in_each_1_relation() {
    let mut schema = Schema::new();
    schema.add_table("users").unwrap();
    schema.add_table("orders").unwrap();

    schema
        .add_column("users", Column::new("id", data_type::DataType::Integer, true, false, false))
        .unwrap();
    schema
        .add_column("users", Column::new("Username", data_type::DataType::String, false, false, false))
        .unwrap();
    schema
        .add_column("orders", Column::new("id", data_type::DataType::Integer, true, false, false))
        .unwrap();
    schema
        .add_column("orders", Column::new("user_id", data_type::DataType::Integer, false, true, false))
        .unwrap();

    let relationship = Relationship::new("users", "id", "orders", "user_id", RelationshipType::OneToOne);
    schema.add_relation(relationship).unwrap();

    let postgres_engine = PostgresEngine;
    let res = postgres_engine.generate_migration_plan(&mut schema);
    assert!(res.is_ok());
    let plan = res.unwrap();
    let sql = plan.get_sql();
    println!("{}", sql);
}
