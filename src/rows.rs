use crate::columns::delete_column;
use crate::error::TableError;
use crate::table::{table_result, Column, ColumnV, Table, TableV};
use crate::value::{cells_view, Cell, CellV, DataType};
use vstd::prelude::*;

verus! {

/// `t` with the row `vals` added at the end; a table whose row count is
/// already the largest that a `usize` holds takes no more rows.
pub open spec fn add_row_result(t: TableV, vals: Seq<CellV>) -> Result<TableV, TableError> {
    if vals.len() != t.width() {
        Err(TableError::ShapeMismatch)
    } else if !t.row_fits(vals) {
        Err(TableError::TypeMismatch)
    } else if t.height >= usize::MAX {
        Err(TableError::ShapeMismatch)
    } else {
        Ok(
            TableV {
                height: t.height + 1,
                columns: Seq::new(
                    t.width(),
                    |j: int| ColumnV { cells: t.columns[j].cells.push(vals[j]), ..t.columns[j] },
                ),
            },
        )
    }
}

/// `t` without row `i`; the other rows keep their order.
pub open spec fn delete_row_result(t: TableV, i: int) -> Result<TableV, TableError> {
    if i < 0 || i >= t.height {
        Err(TableError::RowNotFound)
    } else {
        Ok(
            TableV {
                height: (t.height - 1) as nat,
                columns: t.columns.map_values(|c: ColumnV| ColumnV { cells: c.cells.remove(i), ..c }),
            },
        )
    }
}

/// `t` with row `i` replaced by `vals`.
pub open spec fn update_row_result(t: TableV, i: int, vals: Seq<CellV>) -> Result<TableV, TableError> {
    if i < 0 || i >= t.height {
        Err(TableError::RowNotFound)
    } else if vals.len() != t.width() {
        Err(TableError::ShapeMismatch)
    } else if !t.row_fits(vals) {
        Err(TableError::TypeMismatch)
    } else {
        Ok(
            TableV {
                height: t.height,
                columns: Seq::new(
                    t.width(),
                    |j: int| ColumnV { cells: t.columns[j].cells.update(i, vals[j]), ..t.columns[j] },
                ),
            },
        )
    }
}

/// Appends the row `new_row_values`, one value per column in column order,
/// each of them null or of its column's type.
pub fn add_row(table: Table, new_row_values: Vec<Cell>) -> (r: Result<Table, TableError>)
    requires
        table@.wf(),
    ensures
        table_result(r) == add_row_result(table@, cells_view(new_row_values@)),
        r is Ok ==> r->Ok_0@.wf(),
{
    let ghost t = table@;
    let ghost vals = cells_view(new_row_values@);
    if new_row_values.len() != table.columns.len() {
        return Err(TableError::ShapeMismatch);
    }
    let mut j: usize = 0;
    while j < new_row_values.len()
        invariant
            j <= new_row_values.len(),
            new_row_values.len() == table.columns.len(),
            vals == cells_view(new_row_values@),
            t == table@,
            forall|k: int| 0 <= k < j ==> (#[trigger] vals[k]).fits(t.columns[k].dtype),
        decreases new_row_values.len() - j,
    {
        if !new_row_values[j].fits(table.columns[j].dtype) {
            proof {
                assert(!vals[j as int].fits(t.columns[j as int].dtype));
                assert(!t.row_fits(vals));
            }
            return Err(TableError::TypeMismatch);
        }
        j = j + 1;
    }
    if table.height == usize::MAX {
        return Err(TableError::ShapeMismatch);
    }
    let ghost expect = Seq::new(
        t.width(),
        |j: int| ColumnV { cells: t.columns[j].cells.push(vals[j]), ..t.columns[j] },
    );
    let height = table.height;
    let mut rest = table.columns;
    let mut vs = new_row_values;
    let mut out: Vec<Column> = Vec::new();
    while rest.len() > 0
        invariant
            out.len() + rest.len() == t.columns.len(),
            vs.len() == rest.len(),
            expect == Seq::new(
                t.width(),
                |j: int| ColumnV { cells: t.columns[j].cells.push(vals[j]), ..t.columns[j] },
            ),
            forall|a: int| 0 <= a < rest.len() ==> (#[trigger] rest@[a])@ == t.columns[out.len() + a],
            forall|a: int| 0 <= a < vs.len() ==> (#[trigger] vs@[a])@ == vals[out.len() + a],
            forall|a: int| 0 <= a < out.len() ==> (#[trigger] out@[a])@ == expect[a],
        decreases rest.len(),
    {
        let ghost rest_before = rest@;
        let mut col = rest.remove(0);
        let v = vs.remove(0);
        proof {
            assert(col@ == t.columns[out.len() as int]);
            assert(v@ == vals[out.len() as int]);
        }
        col.cells.push(v);
        proof {
            assert(col@.cells =~= t.columns[out.len() as int].cells.push(vals[out.len() as int]));
        }
        out.push(col);
        proof {
            assert(out@[out.len() - 1]@ == expect[out.len() - 1]);
            assert forall|a: int| 0 <= a < rest.len() implies (#[trigger] rest@[a])@ == t.columns[out.len() + a] by {
                assert(rest@[a] == rest_before[a + 1]);
            }
        }
    }
    let result = Table { height: height + 1, columns: out };
    proof {
        assert(result@.columns =~= expect);
        assert(result@.wf()) by {
            assert forall|a: int| 0 <= a < expect.len() implies
                (#[trigger] expect[a]).fits_height(result@.height) by {
                assert(t.columns[a].fits_height(t.height));
                assert forall|r: int| 0 <= r < expect[a].cells.len() implies
                    (#[trigger] expect[a].cells[r]).fits(expect[a].dtype) by {
                    if r < t.height {
                        assert(expect[a].cells[r] == t.columns[a].cells[r]);
                    }
                }
            }
            assert forall|a: int, b: int|
                0 <= a < expect.len() && 0 <= b < expect.len() && a != b
                implies (#[trigger] expect[a]).name != (#[trigger] expect[b]).name by {
                assert(t.columns[a].name != t.columns[b].name);
            }
        }
    }
    Ok(result)
}

/// Removes row `row_index`; the rows after it move up one place and keep
/// their order.
pub fn delete_row(table: Table, row_index: u32) -> (r: Result<Table, TableError>)
    requires
        table@.wf(),
    ensures
        table_result(r) == delete_row_result(table@, row_index as int),
        r is Ok ==> r->Ok_0@.wf(),
{
    let ghost t = table@;
    if row_index as usize >= table.height {
        return Err(TableError::RowNotFound);
    }
    let i = row_index as usize;
    let ghost expect = t.columns.map_values(|c: ColumnV| ColumnV { cells: c.cells.remove(i as int), ..c });
    let height = table.height;
    let mut rest = table.columns;
    let mut out: Vec<Column> = Vec::new();
    while rest.len() > 0
        invariant
            out.len() + rest.len() == t.columns.len(),
            i < height == t.height,
            t.wf(),
            expect == t.columns.map_values(|c: ColumnV| ColumnV { cells: c.cells.remove(i as int), ..c }),
            forall|a: int| 0 <= a < rest.len() ==> (#[trigger] rest@[a])@ == t.columns[out.len() + a],
            forall|a: int| 0 <= a < out.len() ==> (#[trigger] out@[a])@ == expect[a],
        decreases rest.len(),
    {
        let ghost rest_before = rest@;
        let mut col = rest.remove(0);
        proof {
            assert(col@ == t.columns[out.len() as int]);
            assert(t.columns[out.len() as int].fits_height(t.height));
        }
        col.cells.remove(i);
        proof {
            assert(col@.cells =~= t.columns[out.len() as int].cells.remove(i as int));
        }
        out.push(col);
        proof {
            assert(out@[out.len() - 1]@ == expect[out.len() - 1]);
            assert forall|a: int| 0 <= a < rest.len() implies (#[trigger] rest@[a])@ == t.columns[out.len() + a] by {
                assert(rest@[a] == rest_before[a + 1]);
            }
        }
    }
    let result = Table { height: height - 1, columns: out };
    proof {
        assert(result@.columns =~= expect);
        assert(result@.wf()) by {
            assert forall|a: int| 0 <= a < expect.len() implies
                (#[trigger] expect[a]).fits_height(result@.height) by {
                assert(t.columns[a].fits_height(t.height));
                assert forall|r: int| 0 <= r < expect[a].cells.len() implies
                    (#[trigger] expect[a].cells[r]).fits(expect[a].dtype) by {
                    if r < i {
                        assert(expect[a].cells[r] == t.columns[a].cells[r]);
                    } else {
                        assert(expect[a].cells[r] == t.columns[a].cells[r + 1]);
                    }
                }
            }
            assert forall|a: int, b: int|
                0 <= a < expect.len() && 0 <= b < expect.len() && a != b
                implies (#[trigger] expect[a]).name != (#[trigger] expect[b]).name by {
                assert(t.columns[a].name != t.columns[b].name);
            }
        }
    }
    Ok(result)
}

/// Replaces row `row_index` by `new_row_values`, one value per column in
/// column order, each of them null or of its column's type; every other
/// row stays as it was, in its place.
pub fn update_row(table: Table, row_index: u32, new_row_values: Vec<Cell>) -> (r: Result<
    Table,
    TableError,
>)
    requires
        table@.wf(),
    ensures
        table_result(r) == update_row_result(table@, row_index as int, cells_view(new_row_values@)),
        r is Ok ==> r->Ok_0@.wf(),
{
    let ghost t = table@;
    let ghost vals = cells_view(new_row_values@);
    if row_index as usize >= table.height {
        return Err(TableError::RowNotFound);
    }
    let i = row_index as usize;
    if new_row_values.len() != table.columns.len() {
        return Err(TableError::ShapeMismatch);
    }
    let mut j: usize = 0;
    while j < new_row_values.len()
        invariant
            j <= new_row_values.len(),
            new_row_values.len() == table.columns.len(),
            vals == cells_view(new_row_values@),
            t == table@,
            (row_index as int) < t.height,
            forall|k: int| 0 <= k < j ==> (#[trigger] vals[k]).fits(t.columns[k].dtype),
        decreases new_row_values.len() - j,
    {
        if !new_row_values[j].fits(table.columns[j].dtype) {
            proof {
                assert(!vals[j as int].fits(t.columns[j as int].dtype));
                assert(!t.row_fits(vals));
            }
            return Err(TableError::TypeMismatch);
        }
        j = j + 1;
    }
    let ghost expect = Seq::new(
        t.width(),
        |j: int| ColumnV { cells: t.columns[j].cells.update(i as int, vals[j]), ..t.columns[j] },
    );
    let height = table.height;
    let mut rest = table.columns;
    let mut vs = new_row_values;
    let mut out: Vec<Column> = Vec::new();
    while rest.len() > 0
        invariant
            out.len() + rest.len() == t.columns.len(),
            vs.len() == rest.len(),
            i < height == t.height,
            t.wf(),
            vals.len() == t.columns.len(),
            expect == Seq::new(
                t.width(),
                |j: int| ColumnV { cells: t.columns[j].cells.update(i as int, vals[j]), ..t.columns[j] },
            ),
            forall|a: int| 0 <= a < rest.len() ==> (#[trigger] rest@[a])@ == t.columns[out.len() + a],
            forall|a: int| 0 <= a < vs.len() ==> (#[trigger] vs@[a])@ == vals[out.len() + a],
            forall|a: int| 0 <= a < out.len() ==> (#[trigger] out@[a])@ == expect[a],
        decreases rest.len(),
    {
        let ghost rest_before = rest@;
        let mut col = rest.remove(0);
        let v = vs.remove(0);
        proof {
            assert(col@ == t.columns[out.len() as int]);
            assert(t.columns[out.len() as int].fits_height(t.height));
            assert(v@ == vals[out.len() as int]);
        }
        col.cells.remove(i);
        col.cells.insert(i, v);
        proof {
            assert(col@.cells =~= t.columns[out.len() as int].cells.update(i as int, vals[out.len() as int]));
        }
        out.push(col);
        proof {
            assert(out@[out.len() - 1]@ == expect[out.len() - 1]);
            assert forall|a: int| 0 <= a < rest.len() implies (#[trigger] rest@[a])@ == t.columns[out.len() + a] by {
                assert(rest@[a] == rest_before[a + 1]);
            }
        }
    }
    let result = Table { height, columns: out };
    proof {
        assert(result@.columns =~= expect);
        assert(result@.wf()) by {
            assert forall|a: int| 0 <= a < expect.len() implies
                (#[trigger] expect[a]).fits_height(result@.height) by {
                assert(t.columns[a].fits_height(t.height));
                assert forall|r: int| 0 <= r < expect[a].cells.len() implies
                    (#[trigger] expect[a].cells[r]).fits(expect[a].dtype) by {
                    if r != i {
                        assert(expect[a].cells[r] == t.columns[a].cells[r]);
                    }
                }
            }
            assert forall|a: int, b: int|
                0 <= a < expect.len() && 0 <= b < expect.len() && a != b
                implies (#[trigger] expect[a]).name != (#[trigger] expect[b]).name by {
                assert(t.columns[a].name != t.columns[b].name);
            }
        }
    }
    Ok(result)
}

/// The counter column of a table of `h` rows: "row_index", typed `Int32`,
/// holding 0, 1, ..., h - 1.
pub open spec fn counter_column(h: nat) -> ColumnV {
    ColumnV {
        name: "row_index"@,
        dtype: DataType::Int32,
        cells: Seq::new(h, |i: int| CellV::Int32(i as i32)),
    }
}

/// The columns of `t` other than one called "row_index".
pub open spec fn without_counter(t: TableV) -> Seq<ColumnV> {
    if t.has_column("row_index"@) {
        t.columns.remove(t.column_index("row_index"@))
    } else {
        t.columns
    }
}

/// `t` with a fresh counter column in front, in place of any earlier one;
/// a cast error where a row's ordinal does not fit an `Int32`.
pub open spec fn update_row_counter_result(t: TableV) -> Result<TableV, TableError> {
    if t.height > 0x8000_0000 {
        Err(TableError::CastError)
    } else {
        Ok(TableV { height: t.height, columns: seq![counter_column(t.height)] + without_counter(t) })
    }
}

/// Puts in front a column "row_index" of type `Int32` that numbers the
/// rows from 0, after dropping any column of that name.
pub fn update_row_counter(table: Table) -> (r: Result<Table, TableError>)
    requires
        table@.wf(),
    ensures
        table_result(r) == update_row_counter_result(table@),
        r is Ok ==> r->Ok_0@.wf(),
{
    let ghost t = table@;
    let height = table.height;
    if height > 0x8000_0000 {
        return Err(TableError::CastError);
    }
    let mut table = if table.has_column("row_index") {
        match delete_column(table, "row_index") {
            Ok(rest) => rest,
            Err(e) => {
                return Err(e);
            },
        }
    } else {
        table
    };
    let ghost base = table@;
    assert(base.columns == without_counter(t));
    let mut cells: Vec<Cell> = Vec::new();
    let mut i: usize = 0;
    while i < height
        invariant
            i <= height <= 0x8000_0000,
            cells.len() == i,
            forall|k: int| 0 <= k < i ==> (#[trigger] cells@[k])@ == CellV::Int32(k as i32),
        decreases height - i,
    {
        cells.push(Cell::Int32(i as i32));
        i = i + 1;
    }
    let col = Column { name: "row_index".to_owned(), dtype: DataType::Int32, cells };
    proof {
        assert(col@.cells =~= counter_column(height as nat).cells);
        assert(col@ == counter_column(height as nat));
    }
    table.columns.insert(0, col);
    proof {
        let c = counter_column(t.height);
        assert(table@.columns =~= seq![c] + base.columns);
        assert forall|a: int| 0 <= a < base.columns.len() implies (#[trigger] base.columns[a]).name
            != "row_index"@ by {
            if base.columns[a].name == "row_index"@ {
                if t.has_column("row_index"@) {
                    let j = t.column_index("row_index"@);
                    let a1 = if a < j { a } else { a + 1 };
                    assert(base.columns[a] == t.columns[a1]);
                    assert(t.columns[j].name == "row_index"@);
                } else {
                    assert(base.columns[a] == t.columns[a]);
                }
            }
        }
        assert(table@.wf()) by {
            assert forall|a: int| 0 <= a < table@.columns.len() implies
                (#[trigger] table@.columns[a]).fits_height(table@.height) by {
                if a > 0 {
                    assert(table@.columns[a] == base.columns[a - 1]);
                }
            }
            assert forall|a: int, b: int|
                0 <= a < table@.columns.len() && 0 <= b < table@.columns.len() && a != b
                implies (#[trigger] table@.columns[a]).name != (#[trigger] table@.columns[b]).name by {
                if a > 0 && b > 0 {
                    assert(base.columns[a - 1].name != base.columns[b - 1].name);
                } else if a == 0 {
                    assert(table@.columns[b] == base.columns[b - 1]);
                } else {
                    assert(table@.columns[a] == base.columns[a - 1]);
                }
            }
        }
    }
    Ok(table)
}

} // verus!
