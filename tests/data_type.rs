use thorn::data_type::DataType;

#[test]
fn test_iterate() {
    for (index, enum_value) in DataType::iter().into_iter().enumerate() {
        assert_eq!(index, enum_value as usize);
    }
}
