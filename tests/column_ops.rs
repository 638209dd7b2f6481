use table_editor::{
    add_column_with_values, add_data_to_column, add_null_column, add_null_column_of_type,
    cast_column, cast_column_to_type, delete_column, parse_type_name, rename_column, Cell, Column,
    DataType, Table, TableError,
};

fn text(s: &str) -> Cell {
    Cell::Utf8(s.to_string())
}

fn column(name: &str, dtype: DataType, cells: Vec<Cell>) -> Column {
    Column { name: name.to_string(), dtype, cells }
}

fn sample() -> Table {
    Table::from_columns(
        3,
        vec![
            column("id", DataType::Int32, vec![Cell::Int32(1), Cell::Int32(2), Cell::Int32(3)]),
            column("name", DataType::Utf8, vec![text("a"), text("b"), Cell::Null]),
        ],
    )
    .unwrap()
}

fn names(t: &Table) -> Vec<String> {
    t.columns.iter().map(|c| c.name.clone()).collect()
}

#[test]
fn delete_absent_column_fails() {
    assert_eq!(delete_column(sample(), "missing"), Err(TableError::ColumnNotFound));
}

#[test]
fn delete_present_column_keeps_rows() {
    let t = delete_column(sample(), "id").unwrap();
    assert_eq!(names(&t), vec!["name".to_string()]);
    assert_eq!(t.height, 3);
    assert!(!t.has_column("id"));
    assert_eq!(t.columns[0], sample().columns[1]);
}

#[test]
fn rename_then_rename_back_restores_table() {
    let t = rename_column(sample(), "id", "key").unwrap();
    assert_eq!(names(&t), vec!["key".to_string(), "name".to_string()]);
    let back = rename_column(t, "key", "id").unwrap();
    assert_eq!(back, sample());
}

#[test]
fn rename_missing_column_fails() {
    assert_eq!(rename_column(sample(), "nope", "x"), Err(TableError::ColumnNotFound));
}

#[test]
fn rename_onto_existing_name_fails() {
    assert_eq!(rename_column(sample(), "id", "name"), Err(TableError::DuplicateName));
}

#[test]
fn add_null_integer_column() {
    let t = add_null_column(sample(), "x", "integer").unwrap();
    assert_eq!(t.columns.len(), 3);
    let x = &t.columns[2];
    assert_eq!(x.name, "x");
    assert_eq!(x.dtype, DataType::Int32);
    assert_eq!(x.cells, vec![Cell::Null, Cell::Null, Cell::Null]);
}

#[test]
fn add_null_column_reads_type_in_any_case() {
    let t = add_null_column(sample(), "flag", "BooLEAN").unwrap();
    assert_eq!(t.columns[2].dtype, DataType::Boolean);
    let t = add_null_column(sample(), "big", "INTEGER64").unwrap();
    assert_eq!(t.columns[2].dtype, DataType::Int64);
}

#[test]
fn add_null_column_unknown_type_is_text() {
    let t = add_null_column(sample(), "x", "decimal").unwrap();
    assert_eq!(t.columns[2].dtype, DataType::Utf8);
}

#[test]
fn add_null_column_existing_name_fails() {
    assert_eq!(add_null_column(sample(), "name", "string"), Err(TableError::DuplicateName));
}

#[test]
fn add_null_column_of_type_on_empty_table() {
    let t = add_null_column_of_type(Table::empty(), "x", DataType::Float64).unwrap();
    assert_eq!(t.columns[0].cells.len(), 0);
    assert_eq!(t.columns[0].dtype, DataType::Float64);
}

#[test]
fn parse_type_names() {
    assert_eq!(parse_type_name("String"), Some(DataType::Utf8));
    assert_eq!(parse_type_name("integer"), Some(DataType::Int32));
    assert_eq!(parse_type_name("FLOAT"), Some(DataType::Float32));
    assert_eq!(parse_type_name("float64"), Some(DataType::Float64));
    assert_eq!(parse_type_name("int"), None);
}

#[test]
fn cast_numeric_text_to_int_and_back() {
    let t = Table::from_columns(
        3,
        vec![column("n", DataType::Utf8, vec![text("12"), text("-7"), Cell::Null])],
    )
    .unwrap();
    let ints = cast_column(t.clone(), "n", "integer").unwrap();
    assert_eq!(ints.columns[0].dtype, DataType::Int32);
    assert_eq!(ints.columns[0].cells, vec![Cell::Int32(12), Cell::Int32(-7), Cell::Null]);
    let back = cast_column(ints, "n", "string").unwrap();
    assert_eq!(back, t);
}

#[test]
fn cast_non_numeric_text_fails() {
    let t = Table::from_columns(1, vec![column("n", DataType::Utf8, vec![text("abc")])]).unwrap();
    assert_eq!(cast_column(t, "n", "integer"), Err(TableError::CastError));
}

#[test]
fn cast_out_of_range_fails() {
    let t = Table::from_columns(1, vec![column("n", DataType::Utf8, vec![text("2147483648")])]).unwrap();
    assert_eq!(cast_column(t.clone(), "n", "integer"), Err(TableError::CastError));
    let wide = cast_column(t, "n", "integer64").unwrap();
    assert_eq!(wide.columns[0].cells, vec![Cell::Int64(2147483648)]);
}

#[test]
fn cast_unknown_type_leaves_table() {
    assert_eq!(cast_column(sample(), "id", "decimal"), Ok(sample()));
}

#[test]
fn cast_missing_column_fails() {
    assert_eq!(cast_column(sample(), "nope", "string"), Err(TableError::ColumnNotFound));
}

#[test]
fn cast_int_and_bool_to_text() {
    let t = cast_column(sample(), "id", "STRING").unwrap();
    assert_eq!(t.columns[0].cells, vec![text("1"), text("2"), text("3")]);
    let b = Table::from_columns(
        2,
        vec![column("b", DataType::Boolean, vec![Cell::Boolean(true), Cell::Boolean(false)])],
    )
    .unwrap();
    let s = cast_column_to_type(b.clone(), "b", DataType::Utf8).unwrap();
    assert_eq!(s.columns[0].cells, vec![text("true"), text("false")]);
    let n = cast_column_to_type(b, "b", DataType::Int64).unwrap();
    assert_eq!(n.columns[0].cells, vec![Cell::Int64(1), Cell::Int64(0)]);
}

#[test]
fn cast_to_or_from_float_is_unsupported() {
    assert_eq!(cast_column(sample(), "id", "float64"), Err(TableError::UnsupportedType));
    let f = Table::from_columns(1, vec![column("f", DataType::Float64, vec![Cell::Float64(0)])]).unwrap();
    assert_eq!(cast_column(f.clone(), "f", "integer"), Err(TableError::UnsupportedType));
    assert_eq!(cast_column(f.clone(), "f", "float64"), Ok(f));
}

#[test]
fn cast_date_column() {
    let d = Table::from_columns(
        3,
        vec![column("d", DataType::Date, vec![Cell::Date(0), Cell::Date(19000), Cell::Null])],
    )
    .unwrap();
    let n = cast_column(d.clone(), "d", "integer").unwrap();
    assert_eq!(n.columns[0].dtype, DataType::Int32);
    assert_eq!(n.columns[0].cells, vec![Cell::Int32(0), Cell::Int32(19000), Cell::Null]);
    let w = cast_column(d.clone(), "d", "integer64").unwrap();
    assert_eq!(w.columns[0].cells, vec![Cell::Int64(0), Cell::Int64(19000), Cell::Null]);
    let s = cast_column(d, "d", "string").unwrap();
    assert_eq!(s.columns[0].cells, vec![text("1970-01-01"), text("2022-01-08"), Cell::Null]);
}

#[test]
fn cast_far_date_to_text_fails() {
    let d = Table::from_columns(1, vec![column("d", DataType::Date, vec![Cell::Date(2_147_000_000)])]).unwrap();
    assert_eq!(cast_column(d.clone(), "d", "string"), Err(TableError::CastError));
    assert_eq!(cast_column(d, "d", "integer64").unwrap().columns[0].cells, vec![Cell::Int64(2_147_000_000)]);
    let edge = Table::from_columns(1, vec![column("d", DataType::Date, vec![Cell::Date(2_146_764_484)])]).unwrap();
    assert_eq!(cast_column(edge, "d", "string"), Err(TableError::CastError));
}

#[test]
fn cast_bytes_column() {
    let b = Table::from_columns(
        2,
        vec![column("b", DataType::Binary, vec![Cell::Binary(b"42".to_vec()), Cell::Binary(vec![0xc3, 0xa9])])],
    )
    .unwrap();
    let s = cast_column(b.clone(), "b", "string").unwrap();
    assert_eq!(s.columns[0].cells, vec![text("42"), text("\u{e9}")]);
    assert_eq!(cast_column(b, "b", "integer"), Err(TableError::CastError));
    let n = Table::from_columns(1, vec![column("b", DataType::Binary, vec![Cell::Binary(b"-8".to_vec())])]).unwrap();
    assert_eq!(cast_column(n, "b", "integer").unwrap().columns[0].cells, vec![Cell::Int32(-8)]);
    let bad = Table::from_columns(1, vec![column("b", DataType::Binary, vec![Cell::Binary(vec![0xff])])]).unwrap();
    assert_eq!(cast_column(bad, "b", "string"), Err(TableError::CastError));
}

#[test]
fn add_data_appends_value_and_nulls() {
    let t = add_data_to_column(sample(), "name", text("d")).unwrap();
    assert_eq!(t.height, 4);
    assert_eq!(t.columns[0].cells[3], Cell::Null);
    assert_eq!(t.columns[1].cells[3], text("d"));
}

#[test]
fn add_data_to_missing_column_fails() {
    assert_eq!(add_data_to_column(sample(), "zzz", text("d")), Err(TableError::ColumnNotFound));
}

#[test]
fn add_data_of_wrong_type_fails() {
    assert_eq!(add_data_to_column(sample(), "id", text("d")), Err(TableError::TypeMismatch));
}

#[test]
fn add_column_with_values_pads_with_nulls() {
    let t = add_column_with_values(sample(), "score", vec![Cell::Null, Cell::Int64(5)]).unwrap();
    let c = &t.columns[2];
    assert_eq!(c.name, "score");
    assert_eq!(c.dtype, DataType::Int64);
    assert_eq!(c.cells, vec![Cell::Null, Cell::Int64(5), Cell::Null]);
}

#[test]
fn add_column_with_too_many_values_fails() {
    let vals = vec![Cell::Int32(1), Cell::Int32(2), Cell::Int32(3), Cell::Int32(4)];
    assert_eq!(add_column_with_values(sample(), "x", vals), Err(TableError::ShapeMismatch));
}

#[test]
fn add_column_with_mixed_values_fails() {
    let vals = vec![Cell::Int32(1), text("two")];
    assert_eq!(add_column_with_values(sample(), "x", vals), Err(TableError::TypeMismatch));
}

#[test]
fn add_column_with_values_replaces_same_name() {
    let t = add_column_with_values(sample(), "id", vec![text("p"), text("q"), text("r")]).unwrap();
    assert_eq!(names(&t), vec!["id".to_string(), "name".to_string()]);
    assert_eq!(t.columns[0].dtype, DataType::Utf8);
    assert_eq!(t.columns[0].cells, vec![text("p"), text("q"), text("r")]);
}

#[test]
fn from_columns_checks_invariant() {
    let short = vec![column("a", DataType::Int32, vec![Cell::Int32(1)])];
    assert_eq!(Table::from_columns(2, short), Err(TableError::ShapeMismatch));
    let wrong = vec![column("a", DataType::Int32, vec![text("x")])];
    assert_eq!(Table::from_columns(1, wrong), Err(TableError::TypeMismatch));
    let twice = vec![
        column("a", DataType::Int32, vec![Cell::Int32(1)]),
        column("a", DataType::Utf8, vec![Cell::Null]),
    ];
    assert_eq!(Table::from_columns(1, twice), Err(TableError::DuplicateName));
}
