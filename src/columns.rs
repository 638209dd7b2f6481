use crate::error::TableError;
use crate::table::{null_cells, table_result, Column, ColumnV, Table, TableV};
use crate::types::{lower_of, parse_type_name, type_for_name};
use crate::rows::{add_row, add_row_result};
use crate::value::{cells_view, Cell, CellV, DataType};
use vstd::prelude::*;

verus! {

/// `t` without the column called `name`.
pub open spec fn delete_column_result(t: TableV, name: Seq<char>) -> Result<TableV, TableError> {
    if !t.has_column(name) {
        Err(TableError::ColumnNotFound)
    } else {
        Ok(TableV { height: t.height, columns: t.columns.remove(t.column_index(name)) })
    }
}

/// `t` with the column called `old_name` called `new_name`, in place.
pub open spec fn rename_column_result(t: TableV, old_name: Seq<char>, new_name: Seq<char>) -> Result<
    TableV,
    TableError,
> {
    if !t.has_column(old_name) {
        Err(TableError::ColumnNotFound)
    } else if t.has_column(new_name) {
        Err(TableError::DuplicateName)
    } else {
        let j = t.column_index(old_name);
        Ok(
            TableV {
                height: t.height,
                columns: t.columns.update(j, ColumnV { name: new_name, ..t.columns[j] }),
            },
        )
    }
}

/// `t` with a last column `name` of type `dtype` that holds only nulls.
pub open spec fn add_null_column_result(t: TableV, name: Seq<char>, dtype: DataType) -> Result<
    TableV,
    TableError,
> {
    if t.has_column(name) {
        Err(TableError::DuplicateName)
    } else {
        Ok(
            TableV {
                height: t.height,
                columns: t.columns.push(ColumnV { name, dtype, cells: null_cells(t.height) }),
            },
        )
    }
}

/// The type of a new null column: the named one, or text where the name is
/// not known.
pub open spec fn null_column_type(name_of_type: Seq<char>) -> DataType {
    match type_for_name(lower_of(name_of_type)) {
        Some(t) => t,
        None => DataType::Utf8,
    }
}

/// Removes the column called `column_name`; the other columns and the
/// rows keep their order.
pub fn delete_column(table: Table, column_name: &str) -> (r: Result<Table, TableError>)
    requires
        table@.wf(),
    ensures
        table_result(r) == delete_column_result(table@, column_name@),
        r is Ok ==> r->Ok_0@.wf(),
{
    let mut table = table;
    match table.find_column(column_name) {
        None => Err(TableError::ColumnNotFound),
        Some(j) => {
            let ghost t = table@;
            table.columns.remove(j);
            proof {
                assert(table@.columns =~= t.columns.remove(j as int));
                assert(table@.wf()) by {
                    assert forall|a: int| 0 <= a < table@.columns.len() implies
                        (#[trigger] table@.columns[a]).fits_height(table@.height) by {
                        if a < j {
                            assert(table@.columns[a] == t.columns[a]);
                        } else {
                            assert(table@.columns[a] == t.columns[a + 1]);
                        }
                    }
                    assert forall|a: int, b: int|
                        0 <= a < table@.columns.len() && 0 <= b < table@.columns.len() && a != b
                        implies (#[trigger] table@.columns[a]).name != (#[trigger] table@.columns[b]).name by {
                        let a1 = if a < j { a } else { a + 1 };
                        let b1 = if b < j { b } else { b + 1 };
                        assert(table@.columns[a] == t.columns[a1]);
                        assert(table@.columns[b] == t.columns[b1]);
                    }
                }
            }
            Ok(table)
        },
    }
}

/// Gives the column called `column_name` the name `new_column_name`; its
/// place and its cells stay as they were.
pub fn rename_column(table: Table, column_name: &str, new_column_name: &str) -> (r: Result<
    Table,
    TableError,
>)
    requires
        table@.wf(),
    ensures
        table_result(r) == rename_column_result(table@, column_name@, new_column_name@),
        r is Ok ==> r->Ok_0@.wf(),
{
    let mut table = table;
    match table.find_column(column_name) {
        None => Err(TableError::ColumnNotFound),
        Some(j) => {
            if table.has_column(new_column_name) {
                return Err(TableError::DuplicateName);
            }
            let ghost t = table@;
            let mut col = table.columns.remove(j);
            col.name = new_column_name.to_owned();
            table.columns.insert(j, col);
            proof {
                let expect = t.columns.update(j as int, ColumnV { name: new_column_name@, ..t.columns[j as int] });
                assert(table@.columns =~= expect);
                assert forall|a: int| 0 <= a < t.columns.len() && a != j implies
                    (#[trigger] t.columns[a]).name != new_column_name@ by {
                    if t.columns[a].name == new_column_name@ {
                        assert(t.has_column(new_column_name@));
                    }
                }
                assert(table@.wf()) by {
                    assert forall|a: int| 0 <= a < table@.columns.len() implies
                        (#[trigger] table@.columns[a]).fits_height(table@.height) by {
                        assert(t.columns[a].fits_height(t.height));
                    }
                    assert forall|a: int, b: int|
                        0 <= a < table@.columns.len() && 0 <= b < table@.columns.len() && a != b
                        implies (#[trigger] table@.columns[a]).name != (#[trigger] table@.columns[b]).name by {
                        assert(t.columns[a].name != t.columns[b].name);
                    }
                }
            }
            Ok(table)
        },
    }
}

/// Appends a column `column_name` of type `dtype` that holds a null in
/// every row.
pub fn add_null_column_of_type(table: Table, column_name: &str, dtype: DataType) -> (r: Result<Table, TableError>)
    requires
        table@.wf(),
    ensures
        table_result(r) == add_null_column_result(table@, column_name@, dtype),
        r is Ok ==> r->Ok_0@.wf(),
{
    let mut table = table;
    if table.has_column(column_name) {
        return Err(TableError::DuplicateName);
    }
    let ghost t = table@;
    let col = Column::nulls(column_name.to_owned(), dtype, table.height);
    table.columns.push(col);
    proof {
        let c = ColumnV { name: column_name@, dtype, cells: null_cells(t.height) };
        assert(table@.columns =~= t.columns.push(c));
        assert forall|a: int| 0 <= a < t.columns.len() implies (#[trigger] t.columns[a]).name
            != column_name@ by {
            if t.columns[a].name == column_name@ {
                assert(t.has_column(column_name@));
            }
        }
        assert(table@.wf()) by {
            assert forall|a: int| 0 <= a < table@.columns.len() implies
                (#[trigger] table@.columns[a]).fits_height(table@.height) by {
                if a < t.columns.len() {
                    assert(t.columns[a].fits_height(t.height));
                } else {
                    assert(table@.columns[a] == c);
                    assert forall|r: int| 0 <= r < c.cells.len() implies (#[trigger] c.cells[r]).fits(
                        dtype,
                    ) by {
                        assert(c.cells[r] is Null);
                    }
                }
            }
            assert forall|a: int, b: int|
                0 <= a < table@.columns.len() && 0 <= b < table@.columns.len() && a != b
                implies (#[trigger] table@.columns[a]).name != (#[trigger] table@.columns[b]).name by {
                if a < t.columns.len() && b < t.columns.len() {
                    assert(t.columns[a].name != t.columns[b].name);
                }
            }
        }
    }
    Ok(table)
}

/// Appends a column `column_name` of nulls, one per row, whose type is
/// named by `column_type` in any letter case ("string", "integer",
/// "integer64", "float", "float64", "boolean"); a name not among these
/// gives a text column.
pub fn add_null_column(table: Table, column_name: &str, column_type: &str) -> (r: Result<
    Table,
    TableError,
>)
    requires
        table@.wf(),
    ensures
        table_result(r) == add_null_column_result(
            table@,
            column_name@,
            null_column_type(column_type@),
        ),
        r is Ok ==> r->Ok_0@.wf(),
{
    let dtype = match parse_type_name(column_type) {
        Some(t) => t,
        None => DataType::Utf8,
    };
    add_null_column_of_type(table, column_name, dtype)
}

/// `t` with one row more: `v` in the column called `name`, null in every
/// other column; a table whose row count is already the largest that a
/// `usize` holds takes no more rows.
pub open spec fn add_data_to_column_result(t: TableV, name: Seq<char>, v: CellV) -> Result<
    TableV,
    TableError,
> {
    if !t.has_column(name) {
        Err(TableError::ColumnNotFound)
    } else {
        let j = t.column_index(name);
        if !v.fits(t.columns[j].dtype) {
            Err(TableError::TypeMismatch)
        } else if t.height >= usize::MAX {
            Err(TableError::ShapeMismatch)
        } else {
            Ok(
                TableV {
                    height: t.height + 1,
                    columns: Seq::new(
                        t.width(),
                        |a: int|
                            ColumnV {
                                cells: t.columns[a].cells.push(
                                    if a == j {
                                        v
                                    } else {
                                        CellV::Null
                                    },
                                ),
                                ..t.columns[a]
                            },
                    ),
                },
            )
        }
    }
}

/// The type of the first value that is not null; `Null` where there is none.
pub open spec fn first_type(vals: Seq<CellV>) -> DataType
    decreases vals.len(),
{
    if vals.len() == 0 {
        DataType::Null
    } else if !(vals[0] is Null) {
        vals[0].data_type()
    } else {
        first_type(vals.drop_first())
    }
}

/// The column `name` made of `vals`, padded with nulls to `h` cells, and
/// typed by its first value that is not null.
pub open spec fn padded_column(name: Seq<char>, vals: Seq<CellV>, h: nat) -> ColumnV {
    ColumnV { name, dtype: first_type(vals), cells: vals + null_cells((h - vals.len()) as nat) }
}

/// `t` with the column `name` made of `vals`: in place of the column of
/// that name where there is one, else at the end.
pub open spec fn add_column_with_values_result(t: TableV, name: Seq<char>, vals: Seq<CellV>) -> Result<
    TableV,
    TableError,
> {
    if vals.len() > t.height {
        Err(TableError::ShapeMismatch)
    } else if !(forall|k: int| 0 <= k < vals.len() ==> (#[trigger] vals[k]).fits(first_type(vals))) {
        Err(TableError::TypeMismatch)
    } else {
        let c = padded_column(name, vals, t.height);
        if t.has_column(name) {
            Ok(TableV { height: t.height, columns: t.columns.update(t.column_index(name), c) })
        } else {
            Ok(TableV { height: t.height, columns: t.columns.push(c) })
        }
    }
}

/// Appends one row that holds `data` in the column called `column_name`
/// and null in every other column, whatever that column's type: every
/// column of a table admits null.
pub fn add_data_to_column(table: Table, column_name: &str, data: Cell) -> (r: Result<
    Table,
    TableError,
>)
    requires
        table@.wf(),
    ensures
        table_result(r) == add_data_to_column_result(table@, column_name@, data@),
        r is Ok ==> r->Ok_0@.wf(),
{
    let ghost t = table@;
    let j = match table.find_column(column_name) {
        None => {
            return Err(TableError::ColumnNotFound);
        },
        Some(j) => j,
    };
    if !data.fits(table.columns[j].dtype) {
        return Err(TableError::TypeMismatch);
    }
    let ghost v = data@;
    let mut vals: Vec<Cell> = Vec::new();
    let mut a: usize = 0;
    while a < table.columns.len()
        invariant
            a <= table.columns.len(),
            vals.len() == a,
            forall|k: int| 0 <= k < a ==> (#[trigger] vals@[k]) is Null,
        decreases table.columns.len() - a,
    {
        vals.push(Cell::Null);
        a = a + 1;
    }
    vals.remove(j);
    vals.insert(j, data);
    let ghost row = Seq::new(t.width(), |a: int| if a == j { v } else { CellV::Null });
    proof {
        assert(cells_view(vals@) =~= row);
        assert(t.row_fits(row));
    }
    let r = add_row(table, vals);
    proof {
        if let Ok(nt) = add_row_result(t, row) {
            let expect = add_data_to_column_result(t, column_name@, v)->Ok_0;
            assert(nt.columns =~= expect.columns);
        }
    }
    r
}

fn first_type_of(vals: &Vec<Cell>) -> (r: DataType)
    ensures
        r == first_type(cells_view(vals@)),
{
    let ghost vs = cells_view(vals@);
    assert(vs.subrange(0, vs.len() as int) =~= vs);
    let mut k: usize = 0;
    while k < vals.len()
        invariant
            k <= vals.len(),
            vs == cells_view(vals@),
            first_type(vs) == first_type(vs.subrange(k as int, vs.len() as int)),
        decreases vals.len() - k,
    {
        let ghost rest = vs.subrange(k as int, vs.len() as int);
        if !vals[k].is_null() {
            return vals[k].data_type();
        }
        proof {
            assert(rest.drop_first() =~= vs.subrange(k + 1, vs.len() as int));
        }
        k = k + 1;
    }
    proof {
        assert(vs.subrange(k as int, vs.len() as int) =~= Seq::<CellV>::empty());
    }
    DataType::Null
}

/// Sets the column `column_name` to `values`, padded with nulls to the
/// table's height and typed by its first value that is not null: in place
/// of the column of that name where there is one, else at the end. More
/// values than rows give `ShapeMismatch`; values of more than one type give
/// `TypeMismatch`.
pub fn add_column_with_values(table: Table, column_name: &str, values: Vec<Cell>) -> (r: Result<
    Table,
    TableError,
>)
    requires
        table@.wf(),
    ensures
        table_result(r) == add_column_with_values_result(table@, column_name@, cells_view(values@)),
        r is Ok ==> r->Ok_0@.wf(),
{
    let ghost t = table@;
    let ghost vs = cells_view(values@);
    if values.len() > table.height {
        return Err(TableError::ShapeMismatch);
    }
    let dtype = first_type_of(&values);
    let mut k: usize = 0;
    while k < values.len()
        invariant
            k <= values.len(),
            vs == cells_view(values@),
            dtype == first_type(vs),
            t == table@,
            vs.len() <= t.height,
            forall|m: int| 0 <= m < k ==> (#[trigger] vs[m]).fits(dtype),
        decreases values.len() - k,
    {
        if !values[k].fits(dtype) {
            proof {
                assert(!vs[k as int].fits(dtype));
            }
            return Err(TableError::TypeMismatch);
        }
        k = k + 1;
    }
    let mut cells = values;
    let height = table.height;
    while cells.len() < height
        invariant
            vs.len() <= cells.len() <= height,
            forall|m: int| 0 <= m < vs.len() ==> (#[trigger] cells@[m])@ == vs[m],
            forall|m: int| vs.len() <= m < cells.len() ==> (#[trigger] cells@[m]) is Null,
        decreases height - cells.len(),
    {
        cells.push(Cell::Null);
    }
    let col = Column { name: column_name.to_owned(), dtype, cells };
    let ghost c = padded_column(column_name@, vs, t.height);
    proof {
        assert(col@.cells =~= c.cells);
        assert(col@ == c);
        assert(c.fits_height(t.height)) by {
            assert forall|r: int| 0 <= r < c.cells.len() implies (#[trigger] c.cells[r]).fits(c.dtype) by {
                if r < vs.len() {
                    assert(c.cells[r] == vs[r]);
                }
            }
        }
    }
    let mut table = table;
    match table.find_column(column_name) {
        Some(j) => {
            table.columns.remove(j);
            table.columns.insert(j, col);
            proof {
                assert(table@.columns =~= t.columns.update(j as int, c));
                assert(table@.wf()) by {
                    assert forall|a: int| 0 <= a < table@.columns.len() implies
                        (#[trigger] table@.columns[a]).fits_height(table@.height) by {
                        if a != j {
                            assert(t.columns[a].fits_height(t.height));
                        }
                    }
                    assert forall|a: int, b: int|
                        0 <= a < table@.columns.len() && 0 <= b < table@.columns.len() && a != b
                        implies (#[trigger] table@.columns[a]).name != (#[trigger] table@.columns[b]).name by {
                        assert(t.columns[a].name != t.columns[b].name);
                        assert(t.columns[j as int].name == column_name@);
                    }
                }
            }
        },
        None => {
            table.columns.push(col);
            proof {
                assert(table@.columns =~= t.columns.push(c));
                assert forall|a: int| 0 <= a < t.columns.len() implies (#[trigger] t.columns[a]).name
                    != column_name@ by {
                    if t.columns[a].name == column_name@ {
                        assert(t.has_column(column_name@));
                    }
                }
                assert(table@.wf()) by {
                    assert forall|a: int| 0 <= a < table@.columns.len() implies
                        (#[trigger] table@.columns[a]).fits_height(table@.height) by {
                        if a < t.columns.len() {
                            assert(t.columns[a].fits_height(t.height));
                        }
                    }
                    assert forall|a: int, b: int|
                        0 <= a < table@.columns.len() && 0 <= b < table@.columns.len() && a != b
                        implies (#[trigger] table@.columns[a]).name != (#[trigger] table@.columns[b]).name by {
                        if a < t.columns.len() && b < t.columns.len() {
                            assert(t.columns[a].name != t.columns[b].name);
                        }
                    }
                }
            }
        },
    }
    Ok(table)
}

} // verus!
