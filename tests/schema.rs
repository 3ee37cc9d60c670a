use thorn::column::Column;
use thorn::data_type;
use thorn::relationship::{self, Relationship};
use thorn::schema::Schema;

#[test]
fn test_create_empty_schema() {
    let schema = Schema::new();
    assert!(schema.get_tables().is_empty());
    assert!(schema.get_relationships().is_empty());
}

#[test]
fn test_add_table() {
    let mut schema = Schema::new();
    let table_name = "users";
    assert!(schema.add_table(table_name).is_ok());
    assert_eq!(schema.get_tables().len(), 1);
    assert_eq!(schema.get_tables()[0].get_name(), table_name);
}

#[test]
fn test_add_duplicate_table() {
    let mut schema = Schema::new();
    let table_name = "users";
    schema.add_table(table_name).unwrap();
    let result = schema.add_table(table_name);
    assert!(result.is_err());
    assert_eq!(
        result.unwrap_err().to_string(),
        format!("Table with name {} already exists", table_name)
    );
}

#[test]
fn test_remove_table() {
    let mut schema = Schema::new();
    let table_name = "users";
    schema.add_table(table_name).unwrap();
    let removed_table = schema.remove_table(table_name).unwrap();
    assert_eq!(removed_table.get_name(), table_name);
    assert!(schema.get_tables().is_empty());
}

#[test]
fn test_remove_nonexistent_table() {
    let mut schema = Schema::new();
    let result = schema.remove_table("nonexistent");
    assert!(result.is_err());
}

#[test]
fn test_add_relationship() {
    let mut schema = Schema::new();
    schema.add_table("users").unwrap();
    schema.add_table("orders").unwrap();

    schema
        .add_column("users", Column::new("id", data_type::DataType::Integer, true, false, false))
        .unwrap();
    schema
        .add_column("orders", Column::new("user_id", data_type::DataType::Integer, false, true, false))
        .unwrap();

    let relationship = Relationship::new(
        "users",
        "id",
        "orders",
        "user_id",
        relationship::RelationshipType::OneToMany,
    );
    assert!(schema.add_relation(relationship).is_ok());
    assert_eq!(schema.get_relationships().len(), 1);
}

#[test]
fn test_add_relationship_err() {
    let mut schema = Schema::new();
    schema.add_table("users").unwrap();
    schema.add_table("orders").unwrap();

    let relationship = Relationship::new(
        "users",
        "id",
        "orders",
        "user_id",
        relationship::RelationshipType::OneToMany,
    );
    assert!(schema.add_relation(relationship).is_err());
    assert_eq!(schema.get_relationships().len(), 0);
}

#[test]
fn test_add_duplicate_relationship() {
    let mut schema = Schema::new();
    schema.add_table("users").unwrap();
    schema.add_table("orders").unwrap();

    schema
        .add_column("users", Column::new("id", data_type::DataType::Integer, true, false, false))
        .unwrap();
    schema
        .add_column("orders", Column::new("user_id", data_type::DataType::Integer, false, true, false))
        .unwrap();

    let relationship = Relationship::new(
        "users",
        "id",
        "orders",
        "user_id",
        relationship::RelationshipType::OneToMany,
    );
    schema.add_relation(relationship.clone()).unwrap();
    let result = schema.add_relation(relationship);
    assert!(result.is_err());
    assert_eq!(schema.get_relationships().len(), 1);
}

#[test]
fn test_get_relationship_with_code() {
    let mut schema = Schema::new();
    schema.add_table("users").unwrap();
    schema.add_table("orders").unwrap();

    schema
        .add_column("users", Column::new("id", data_type::DataType::Integer, true, false, false))
        .unwrap();
    schema
        .add_column("orders", Column::new("user_id", data_type::DataType::Integer, false, true, false))
        .unwrap();

    let relationship = Relationship::new(
        "users",
        "id",
        "orders",
        "user_id",
        relationship::RelationshipType::OneToMany,
    );
    let code = relationship.get_code().to_owned();
    schema.add_relation(relationship).unwrap();
    let retrieved_relationship = schema.get_relationship_with_code(&code).unwrap();
    assert_eq!(retrieved_relationship.get_code(), code);
}

#[test]
fn test_get_relationship_for_nonexistent_code() {
    let schema = Schema::new();
    let result = schema.get_relationship_with_code("nonexistent");
    assert!(result.is_err());
}

#[test]
fn test_get_relationships_for_table() {
    let mut schema = Schema::new();
    schema.add_table("users").unwrap();
    schema.add_table("orders").unwrap();
    schema.add_table("products").unwrap();

    schema
        .add_column("users", Column::new("id", data_type::DataType::Integer, true, false, false))
        .unwrap();
    schema
        .add_column("orders", Column::new("user_id", data_type::DataType::Integer, false, true, false))
        .unwrap();
    schema
        .add_column("orders", Column::new("product_id", data_type::DataType::Integer, false, true, false))
        .unwrap();
    schema
        .add_column("products", Column::new("id", data_type::DataType::Integer, true, false, false))
        .unwrap();

    let rel1 = Relationship::new("users", "id", "orders", "user_id", relationship::RelationshipType::OneToOne);
    let rel2 = Relationship::new(
        "orders",
        "product_id",
        "products",
        "id",
        relationship::RelationshipType::OneToMany,
    );
    schema.add_relation(rel1).unwrap();
    schema.add_relation(rel2).unwrap();
    let relationships = schema.get_relationships_for_table("orders").unwrap();
    assert_eq!(relationships.len(), 2);
}

#[test]
fn test_update_relation() {
    let mut schema = Schema::new();

    schema.add_table("users").unwrap();
    schema.add_table("orders").unwrap();

    schema
        .add_column("users", Column::new("id", data_type::DataType::Integer, true, false, false))
        .unwrap();
    schema
        .add_column("orders", Column::new("user_id", data_type::DataType::Integer, false, true, false))
        .unwrap();

    let initial_relationship = Relationship::new(
        "users",
        "id",
        "orders",
        "user_id",
        relationship::RelationshipType::OneToMany,
    );
    let initial_code = initial_relationship.get_code().to_string();
    schema.add_relation(initial_relationship).unwrap();

    let mut updated_relationship = schema.get_relationship_with_code(&initial_code).unwrap().clone();
    updated_relationship.set_relationship_type(relationship::RelationshipType::OneToOne);

    let result = schema.update_relation(&updated_relationship);
    assert!(result.is_ok());
    let updated_relation_code = result.unwrap().get_code().to_owned();

    let updated = schema.get_relationship_with_code(&updated_relation_code).unwrap();
    assert_eq!(*updated, updated_relationship);
}

#[test]
fn test_delete_relationship() {
    let mut schema = Schema::new();
    schema.add_table("users").unwrap();
    schema.add_table("orders").unwrap();

    schema
        .add_column("users", Column::new("id", data_type::DataType::Integer, true, false, false))
        .unwrap();
    schema
        .add_column("orders", Column::new("user_id", data_type::DataType::Integer, false, true, false))
        .unwrap();

    let relationship = Relationship::new(
        "users",
        "id",
        "orders",
        "user_id",
        relationship::RelationshipType::OneToOne,
    );
    let code = relationship.get_code().to_owned();
    schema.add_relation(relationship).unwrap();
    let deleted_relationship = schema.delete_relation(&code).unwrap();
    assert_eq!(deleted_relationship.get_code(), code);
    assert!(schema.get_relationship_with_code(&code).is_err());
}
