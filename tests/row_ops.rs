use table_editor::{
    add_null_column, add_row, delete_row, update_row, update_row_counter, Cell, Column, DataType,
    Table, TableError,
};

fn text(s: &str) -> Cell {
    Cell::Utf8(s.to_string())
}

fn sample() -> Table {
    Table::from_columns(
        3,
        vec![
            Column {
                name: "id".to_string(),
                dtype: DataType::Int32,
                cells: vec![Cell::Int32(10), Cell::Int32(20), Cell::Int32(30)],
            },
            Column {
                name: "name".to_string(),
                dtype: DataType::Utf8,
                cells: vec![text("a"), text("b"), text("c")],
            },
        ],
    )
    .unwrap()
}

fn row(t: &Table, i: usize) -> Vec<Cell> {
    t.columns.iter().map(|c| c.cells[i].clone()).collect()
}

#[test]
fn add_row_of_wrong_width_fails() {
    assert_eq!(add_row(sample(), vec![Cell::Int32(1)]), Err(TableError::ShapeMismatch));
    let long = vec![Cell::Int32(1), text("x"), Cell::Null];
    assert_eq!(add_row(sample(), long), Err(TableError::ShapeMismatch));
    assert_eq!(add_row(sample(), vec![]), Err(TableError::ShapeMismatch));
}

#[test]
fn add_row_to_full_table_fails() {
    let full = Table::from_columns(usize::MAX, vec![]).unwrap();
    assert_eq!(add_row(full.clone(), vec![]), Err(TableError::ShapeMismatch));
    assert_eq!(add_row(full, vec![Cell::Null]), Err(TableError::ShapeMismatch));
}

#[test]
fn add_row_of_wrong_type_fails() {
    assert_eq!(add_row(sample(), vec![text("x"), text("y")]), Err(TableError::TypeMismatch));
}

#[test]
fn add_row_appends_at_end() {
    let t = add_row(sample(), vec![Cell::Int32(40), Cell::Null]).unwrap();
    assert_eq!(t.height, 4);
    assert_eq!(row(&t, 3), vec![Cell::Int32(40), Cell::Null]);
    assert_eq!(row(&t, 0), row(&sample(), 0));
}

#[test]
fn delete_row_out_of_range_fails() {
    assert_eq!(delete_row(sample(), 3), Err(TableError::RowNotFound));
}

#[test]
fn delete_then_add_moves_row_to_end() {
    let before = sample();
    let deleted = delete_row(before.clone(), 0).unwrap();
    let t = add_row(deleted, row(&before, 0)).unwrap();
    assert_eq!(t.height, 3);
    assert_eq!(row(&t, 0), row(&before, 1));
    assert_eq!(row(&t, 1), row(&before, 2));
    assert_eq!(row(&t, 2), row(&before, 0));
    assert_ne!(t, before);
}

#[test]
fn update_row_replaces_only_that_row() {
    let t = update_row(sample(), 1, vec![Cell::Int32(99), Cell::Null]).unwrap();
    assert_eq!(t.height, 3);
    assert_eq!(row(&t, 1), vec![Cell::Int32(99), Cell::Null]);
    assert_eq!(row(&t, 0), row(&sample(), 0));
    assert_eq!(row(&t, 2), row(&sample(), 2));
}

#[test]
fn update_row_errors() {
    assert_eq!(update_row(sample(), 5, vec![Cell::Null, Cell::Null]), Err(TableError::RowNotFound));
    assert_eq!(update_row(sample(), 0, vec![Cell::Null]), Err(TableError::ShapeMismatch));
    assert_eq!(
        update_row(sample(), 0, vec![Cell::Boolean(true), Cell::Null]),
        Err(TableError::TypeMismatch)
    );
}

#[test]
fn row_counter_numbers_rows_in_front() {
    let t = update_row_counter(sample()).unwrap();
    assert_eq!(t.columns[0].name, "row_index");
    assert_eq!(t.columns[0].dtype, DataType::Int32);
    assert_eq!(t.columns[0].cells, vec![Cell::Int32(0), Cell::Int32(1), Cell::Int32(2)]);
    assert_eq!(t.columns[1..].to_vec(), sample().columns);
}

#[test]
fn row_counter_twice_equals_once() {
    let once = update_row_counter(sample()).unwrap();
    let twice = update_row_counter(once.clone()).unwrap();
    assert_eq!(twice, once);
}

#[test]
fn row_counter_replaces_stale_counter() {
    let stale = Table::from_columns(
        2,
        vec![
            Column {
                name: "v".to_string(),
                dtype: DataType::Boolean,
                cells: vec![Cell::Boolean(true), Cell::Boolean(false)],
            },
            Column {
                name: "row_index".to_string(),
                dtype: DataType::Int32,
                cells: vec![Cell::Int32(7), Cell::Int32(7)],
            },
        ],
    )
    .unwrap();
    let t = update_row_counter(stale).unwrap();
    assert_eq!(t.columns.len(), 2);
    assert_eq!(t.columns[0].cells, vec![Cell::Int32(0), Cell::Int32(1)]);
    assert_eq!(t.columns[1].name, "v");
}

#[test]
fn null_column_then_delete_row_keeps_order() {
    let t = add_null_column(sample(), "flag", "boolean").unwrap();
    assert_eq!(t.columns.len(), 3);
    assert_eq!(t.columns[2].dtype, DataType::Boolean);
    assert_eq!(t.columns[2].cells, vec![Cell::Null, Cell::Null, Cell::Null]);
    let t = delete_row(t, 1).unwrap();
    assert_eq!(t.height, 2);
    assert_eq!(row(&t, 0), vec![Cell::Int32(10), text("a"), Cell::Null]);
    assert_eq!(row(&t, 1), vec![Cell::Int32(30), text("c"), Cell::Null]);
}
