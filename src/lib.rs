//! An editable table: typed, named columns of equal length, with the
//! column and row operations that transform it, each proved against a
//! model of the table.

pub mod cast;
pub mod columns;
pub mod decimal;
pub mod error;
pub mod laws;
pub mod records;
pub mod rows;
pub mod table;
pub mod types;
pub mod value;

pub use error::TableError;
pub use table::{Column, ColumnV, Table, TableV};
pub use value::{Cell, CellV, DataType, ToAnyValue};
pub use cast::{cast_column, cast_column_to_type, cast_value};
pub use columns::{
    add_column_with_values, add_data_to_column, add_null_column, add_null_column_of_type,
    delete_column, rename_column,
};
pub use decimal::{parse_integer, signed_text, unsigned_text};
pub use records::{
    create_board, create_dataset, create_user, delete_board, delete_dataset, delete_user,
    get_board, get_dataset, get_user, update_board, update_dataset, update_user,
    AddDataRequestBody, Board, BoardResponse, Dataset, DatasetResponse, GenericResponse,
    RenameColumnRequestBody, User, UserResponse,
};
pub use rows::{add_row, delete_row, update_row, update_row_counter};
pub use types::{parse_type_name, type_for_lowercase_name};
