use table_editor::{
    cast_value, create_board, create_user, delete_dataset, get_user, parse_integer, signed_text,
    unsigned_text, Board, Cell, DataType, TableError, ToAnyValue, User,
};

#[test]
fn integer_texts() {
    assert_eq!(signed_text(-42), "-42");
    assert_eq!(signed_text(0), "0");
    assert_eq!(signed_text(i64::MIN), "-9223372036854775808");
    assert_eq!(unsigned_text(u64::MAX), "18446744073709551615");
}

#[test]
fn integer_parsing() {
    assert_eq!(parse_integer("007"), Some(7));
    assert_eq!(parse_integer("-15"), Some(-15));
    assert_eq!(parse_integer("18446744073709551616"), Some(18446744073709551616));
    assert_eq!(parse_integer("18446744073709551617"), None);
    assert_eq!(parse_integer("+5"), None);
    assert_eq!(parse_integer("-"), None);
    assert_eq!(parse_integer(""), None);
    assert_eq!(parse_integer("1 2"), None);
}

#[test]
fn value_casts() {
    assert_eq!(cast_value(&Cell::Utf8("255".to_string()), DataType::UInt8), Some(Cell::UInt8(255)));
    assert_eq!(cast_value(&Cell::Utf8("256".to_string()), DataType::UInt8), None);
    assert_eq!(cast_value(&Cell::Int32(-1), DataType::UInt32), None);
    assert_eq!(cast_value(&Cell::Int8(3), DataType::Boolean), Some(Cell::Boolean(true)));
    assert_eq!(cast_value(&Cell::Utf8("false".to_string()), DataType::Boolean), Some(Cell::Boolean(false)));
    assert_eq!(cast_value(&Cell::Null, DataType::Date), Some(Cell::Null));
    assert_eq!(cast_value(&Cell::Date(3), DataType::Utf8), Some(Cell::Utf8("1970-01-04".to_string())));
    assert_eq!(cast_value(&Cell::Date(-1), DataType::Int16), Some(Cell::Int16(-1)));
    assert_eq!(cast_value(&Cell::Int32(1), DataType::Float64), None);
    assert_eq!(cast_value(&Cell::UInt64(u64::MAX), DataType::Utf8), Some(Cell::Utf8("18446744073709551615".to_string())));
}

#[test]
fn plain_values_to_cells() {
    assert_eq!(5i32.to_any_value(), Cell::Int32(5));
    assert_eq!(true.to_any_value(), Cell::Boolean(true));
    assert_eq!("hi".to_any_value(), Cell::Utf8("hi".to_string()));
    assert_eq!(7u16.to_any_value(), Cell::UInt16(7));
}

#[test]
fn status_codes() {
    assert_eq!(TableError::ColumnNotFound.status_code(), 404);
    assert_eq!(TableError::RowNotFound.status_code(), 404);
    assert_eq!(TableError::DuplicateName.status_code(), 404);
    assert_eq!(TableError::ShapeMismatch.status_code(), 400);
    assert_eq!(TableError::TypeMismatch.status_code(), 400);
    assert_eq!(TableError::CastError.status_code(), 500);
    assert_eq!(TableError::IoError.status_code(), 500);
}

#[test]
fn record_replies() {
    let u = User { id: None, name: "Ada".to_string() };
    let r = create_user(u.clone());
    assert_eq!(r.status, "success");
    assert_eq!(r.data, u);
    let g = get_user("abc".to_string());
    assert_eq!(g.data.id, Some("abc".to_string()));
    assert_eq!(g.data.name, "John Doe");
    let b = Board { id: None, name: "b".to_string(), user_id: None };
    assert_eq!(create_board(b.clone()).data, b);
    assert_eq!(delete_dataset().message, "Dataset deleted");
}
