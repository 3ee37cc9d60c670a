use thorn::column_dto::ColumnDTO;
use thorn::relationship_dto::RelationshipDTO;
use thorn::schema_dto::SchemaDTO;
use thorn::table_dto::TableDTO;

#[test]
fn test_column_dto_encoding_and_decoding() {
    const NAME: &str = "column_name";
    const DATA_TYPE: &str = "VARCHAR";
    const IS_PRIMARY_KEY: bool = true;
    const IS_NULLABLE: bool = false;
    const API_CODE: &str = "API_CODE";

    let column = ColumnDTO::new(
        NAME.to_string(),
        DATA_TYPE.to_string(),
        IS_PRIMARY_KEY,
        IS_NULLABLE,
        API_CODE.to_string(),
    );

    let encoded = column.encode();
    let decoded = ColumnDTO::decode(&encoded).unwrap();

    assert_eq!(column, decoded);
}

#[test]
fn test_column_dto_fields() {
    const NAME: &str = "column_name";
    const DATA_TYPE: &str = "VARCHAR";
    const IS_PRIMARY_KEY: bool = true;
    const IS_NULLABLE: bool = false;
    const API_CODE: &str = "API_CODE";

    let column = ColumnDTO::new(
        NAME.to_string(),
        DATA_TYPE.to_string(),
        IS_PRIMARY_KEY,
        IS_NULLABLE,
        API_CODE.to_string(),
    );

    assert_eq!(column.get_name(), NAME);
    assert_eq!(column.get_data_type(), DATA_TYPE);
    assert_eq!(column.is_primary_key(), IS_PRIMARY_KEY);
    assert_eq!(column.is_nullable(), IS_NULLABLE);
    assert_eq!(column.get_api_code(), API_CODE);
}

#[test]
fn test_relationship_dto_encoding_and_decoding() {
    const FROM_TABLE: &str = "users";
    const FROM_COLUMN: &str = "id";
    const TO_TABLE: &str = "orders";
    const TO_COLUMN: &str = "user_id";
    const RELATIONSHIP_TYPE: u8 = 1;

    let relationship = RelationshipDTO::new(
        FROM_TABLE.to_string(),
        FROM_COLUMN.to_string(),
        TO_TABLE.to_string(),
        TO_COLUMN.to_string(),
        RELATIONSHIP_TYPE,
    );

    let encoded = relationship.encode();
    let decoded = RelationshipDTO::decode(&encoded).unwrap();

    assert_eq!(relationship, decoded);
}

#[test]
fn test_relationship_dto_fields() {
    const FROM_TABLE: &str = "users";
    const FROM_COLUMN: &str = "id";
    const TO_TABLE: &str = "orders";
    const TO_COLUMN: &str = "user_id";
    const RELATIONSHIP_TYPE: u8 = 0;

    let relationship = RelationshipDTO::new(
        FROM_TABLE.to_string(),
        FROM_COLUMN.to_string(),
        TO_TABLE.to_string(),
        TO_COLUMN.to_string(),
        RELATIONSHIP_TYPE,
    );

    assert_eq!(relationship.get_from_table(), FROM_TABLE);
    assert_eq!(relationship.get_from_column(), FROM_COLUMN);
    assert_eq!(relationship.get_to_table(), TO_TABLE);
    assert_eq!(relationship.get_to_column(), TO_COLUMN);
    assert_eq!(relationship.get_relationship_type(), RELATIONSHIP_TYPE);
}

#[test]
fn test_schema_dto_encoding_and_decoding() {
    const VERSION: u8 = 1;

    let column = ColumnDTO::new(
        "id".to_string(),
        "INTEGER".to_string(),
        true,
        false,
        "COLUMN_API_CODE".to_string(),
    );
    let relationship = RelationshipDTO::new(
        "users".to_string(),
        "id".to_string(),
        "orders".to_string(),
        "user_id".to_string(),
        1,
    );
    let table = TableDTO::new(
        "users".to_string(),
        vec![column],
        vec![relationship],
        false,
        "TABLE_API_CODE".to_string(),
    );

    let schema = SchemaDTO::new(vec![table], VERSION);

    let encoded = schema.encode();
    let decoded = SchemaDTO::decode(&encoded).unwrap();

    assert_eq!(schema, decoded);
}

#[test]
fn test_schema_dto_fields() {
    const VERSION: u8 = 1;

    let column = ColumnDTO::new(
        "id".to_string(),
        "INTEGER".to_string(),
        true,
        false,
        "COLUMN_API_CODE".to_string(),
    );
    let relationship = RelationshipDTO::new(
        "users".to_string(),
        "id".to_string(),
        "orders".to_string(),
        "user_id".to_string(),
        1,
    );
    let table = TableDTO::new(
        "users".to_string(),
        vec![column.clone()],
        vec![relationship.clone()],
        false,
        "TABLE_API_CODE".to_string(),
    );

    let schema = SchemaDTO::new(vec![table.clone()], VERSION);

    assert_eq!(schema.get_tables(), &vec![table]);
    assert_eq!(schema.get_version(), VERSION);
}

#[test]
fn test_table_dto_encoding_and_decoding() {
    const TABLE_NAME: &str = "users";
    const API_CODE: &str = "API_CODE";

    let column = ColumnDTO::new(
        "id".to_string(),
        "INTEGER".to_string(),
        true,
        false,
        "COLUMN_API_CODE".to_string(),
    );
    let relationship = RelationshipDTO::new(
        "users".to_string(),
        "id".to_string(),
        "orders".to_string(),
        "user_id".to_string(),
        1,
    );

    let table = TableDTO::new(
        TABLE_NAME.to_string(),
        vec![column],
        vec![relationship],
        false,
        API_CODE.to_string(),
    );

    let encoded = table.encode();
    let decoded = TableDTO::decode(&encoded).unwrap();

    assert_eq!(table, decoded);
}

#[test]
fn test_table_dto_fields() {
    const TABLE_NAME: &str = "users";
    const API_CODE: &str = "API_CODE";

    let column = ColumnDTO::new(
        "id".to_string(),
        "INTEGER".to_string(),
        true,
        false,
        "COLUMN_API_CODE".to_string(),
    );
    let relationship = RelationshipDTO::new(
        "users".to_string(),
        "id".to_string(),
        "orders".to_string(),
        "user_id".to_string(),
        1,
    );

    let table = TableDTO::new(
        TABLE_NAME.to_string(),
        vec![column.clone()],
        vec![relationship.clone()],
        false,
        API_CODE.to_string(),
    );

    assert_eq!(table.get_name(), TABLE_NAME);
    assert_eq!(table.get_columns(), &vec![column]);
    assert_eq!(table.get_relationships(), &vec![relationship]);
    assert!(!table.is_saved_with_error());
    assert_eq!(table.get_api_code(), API_CODE);
}
