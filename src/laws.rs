//! Properties that relate the operations to one another, stated over the
//! same models that the operations' own contracts use.
use crate::cast::{cast_cell, cast_column_to, column_castable, cast_column_cells};
use crate::columns::{add_null_column_result, delete_column_result, rename_column_result};
use crate::decimal::{int_text, lemma_parse_int_text};
use crate::error::TableError;
use crate::rows::{
    add_row_result, delete_row_result, update_row_counter_result, update_row_result, without_counter,
};
use crate::table::{lemma_column_index, ColumnV, TableV};
use crate::value::{CellV, DataType};
use vstd::prelude::*;

verus! {

/// Deleting a column that is absent fails with `ColumnNotFound`; deleting
/// one that is present leaves a table without it and with as many rows.
pub proof fn law_delete_column(t: TableV, name: Seq<char>)
    requires
        t.wf(),
    ensures
        !t.has_column(name) ==> delete_column_result(t, name) == Err::<TableV, TableError>(
            TableError::ColumnNotFound,
        ),
        t.has_column(name) ==> ({
            let r = delete_column_result(t, name);
            &&& r is Ok
            &&& !r->Ok_0.has_column(name)
            &&& r->Ok_0.height == t.height
            &&& r->Ok_0.width() + 1 == t.width()
        }),
{
    if t.has_column(name) {
        let j = t.column_index(name);
        let rest = t.columns.remove(j);
        if exists|a: int| 0 <= a < rest.len() && (#[trigger] rest[a]).name == name {
            let a = choose|a: int| 0 <= a < rest.len() && (#[trigger] rest[a]).name == name;
            let a1 = if a < j { a } else { a + 1 };
            assert(rest[a] == t.columns[a1]);
        }
    }
}

/// Renaming a column to a name that is not taken, then back, gives the
/// table back: the same columns, in the same order, with the same cells.
pub proof fn law_rename_round_trip(t: TableV, a: Seq<char>, b: Seq<char>)
    requires
        t.wf(),
        t.has_column(a),
        !t.has_column(b),
    ensures
        rename_column_result(t, a, b) is Ok,
        rename_column_result(rename_column_result(t, a, b)->Ok_0, b, a) == Ok::<TableV, TableError>(t),
{
    let j = t.column_index(a);
    let t1 = rename_column_result(t, a, b)->Ok_0;
    assert(t1.columns[j].name == b);
    assert forall|x: int, y: int|
        0 <= x < t1.columns.len() && 0 <= y < t1.columns.len() && x != y
        implies (#[trigger] t1.columns[x]).name != (#[trigger] t1.columns[y]).name by {
        if x != j && y != j {
            assert(t.columns[x].name != t.columns[y].name);
        } else if x == j {
            assert(t.columns[y] == t1.columns[y]);
            if t.columns[y].name == b {
                assert(t.has_column(b));
            }
        } else {
            assert(t.columns[x] == t1.columns[x]);
            if t.columns[x].name == b {
                assert(t.has_column(b));
            }
        }
    }
    lemma_column_index(t1, b, j);
    if t1.has_column(a) {
        let k = choose|k: int| 0 <= k < t1.columns.len() && (#[trigger] t1.columns[k]).name == a;
        assert(t.columns[k].name == a);
        assert(t.columns[j].name == a);
    }
    let t2 = rename_column_result(t1, b, a)->Ok_0;
    assert(t2.columns =~= t.columns);
}

/// A new null column, whatever type it is given, is the last column, under
/// its name, with one null for each row.
pub proof fn law_add_null_column(t: TableV, name: Seq<char>, dtype: DataType)
    requires
        t.wf(),
        !t.has_column(name),
    ensures
        ({
            let r = add_null_column_result(t, name, dtype);
            &&& r is Ok
            &&& r->Ok_0.width() == t.width() + 1
            &&& r->Ok_0.columns.last().name == name
            &&& r->Ok_0.columns.last().cells.len() == t.height
            &&& forall|i: int|
                0 <= i < t.height ==> (#[trigger] r->Ok_0.columns.last().cells[i]) is Null
        }),
{
}

/// Every cell is null or the canonical decimal text of an `i32`.
pub open spec fn holds_int32_texts(c: ColumnV) -> bool {
    forall|r: int|
        0 <= r < c.cells.len() ==> (#[trigger] c.cells[r]) is Null || exists|i: int|
            i32::MIN <= i <= i32::MAX && c.cells[r] == CellV::Utf8(int_text(i))
}

/// Casting a text column whose texts are canonical decimal numbers in the
/// range of `i32` to `Int32`, then back to `Utf8`, gives the table back.
pub proof fn law_cast_text_int_round_trip(t: TableV, name: Seq<char>)
    requires
        t.wf(),
        t.has_column(name),
        t.columns[t.column_index(name)].dtype == DataType::Utf8,
        holds_int32_texts(t.columns[t.column_index(name)]),
    ensures
        cast_column_to(t, name, DataType::Int32) is Ok,
        cast_column_to(cast_column_to(t, name, DataType::Int32)->Ok_0, name, DataType::Utf8) == Ok::<
            TableV,
            TableError,
        >(t),
{
    let j = t.column_index(name);
    let c = t.columns[j];
    assert forall|r: int| 0 <= r < c.cells.len() implies {
        &&& (#[trigger] cast_cell(c.cells[r], DataType::Int32)) is Some
        &&& cast_cell(cast_cell(c.cells[r], DataType::Int32)->0, DataType::Utf8) == Some(c.cells[r])
    } by {
        if !(c.cells[r] is Null) {
            let i = choose|i: int| i32::MIN <= i <= i32::MAX && c.cells[r] == CellV::Utf8(int_text(i));
            lemma_parse_int_text(i);
        }
    }
    assert(column_castable(c, DataType::Int32));
    let t1 = cast_column_to(t, name, DataType::Int32)->Ok_0;
    let c1 = cast_column_cells(c, DataType::Int32);
    assert(t1.columns[j] == c1);
    assert forall|x: int, y: int|
        0 <= x < t1.columns.len() && 0 <= y < t1.columns.len() && x != y
        implies (#[trigger] t1.columns[x]).name != (#[trigger] t1.columns[y]).name by {
        assert(t.columns[x].name != t.columns[y].name);
    }
    lemma_column_index(t1, name, j);
    assert(column_castable(c1, DataType::Utf8));
    let c2 = cast_column_cells(c1, DataType::Utf8);
    assert(c2.cells =~= c.cells);
    let t2 = cast_column_to(t1, name, DataType::Utf8)->Ok_0;
    assert(t2.columns =~= t.columns);
}

/// A row whose number of values differs from the number of columns is
/// refused with `ShapeMismatch`, whatever the values are.
pub proof fn law_add_row_shape(t: TableV, vals: Seq<CellV>)
    requires
        vals.len() != t.width(),
    ensures
        add_row_result(t, vals) == Err::<TableV, TableError>(TableError::ShapeMismatch),
{
}

/// Deleting a row and adding its values back moves that row to the end:
/// each column holds its cells without the row, then the row's cell. There
/// is no insertion at a position but through `update_row`.
pub proof fn law_delete_then_add_row(t: TableV, i: int)
    requires
        t.wf(),
        0 <= i < t.height,
    ensures
        delete_row_result(t, i) is Ok,
        ({
            let r = add_row_result(delete_row_result(t, i)->Ok_0, t.row(i));
            &&& r is Ok
            &&& r->Ok_0.height == t.height
            &&& r->Ok_0.width() == t.width()
            &&& forall|j: int|
                0 <= j < t.width() ==> (#[trigger] r->Ok_0.columns[j]).cells == t.columns[j].cells.remove(
                    i,
                ).push(t.columns[j].cells[i])
        }),
{
    let t1 = delete_row_result(t, i)->Ok_0;
    let row = t.row(i);
    assert forall|j: int| 0 <= j < row.len() implies (#[trigger] row[j]).fits(t1.columns[j].dtype) by {
        assert(t.columns[j].fits_height(t.height));
    }
}

/// Updating row `i` with values that fit leaves every other row as it was
/// and puts the values in row `i`; the columns keep their names and types.
pub proof fn law_update_row(t: TableV, i: int, vals: Seq<CellV>)
    requires
        t.wf(),
        0 <= i < t.height,
        vals.len() == t.width(),
        t.row_fits(vals),
    ensures
        ({
            let r = update_row_result(t, i, vals);
            &&& r is Ok
            &&& r->Ok_0.height == t.height
            &&& r->Ok_0.width() == t.width()
            &&& r->Ok_0.row(i) == vals
            &&& forall|k: int| 0 <= k < t.height && k != i ==> #[trigger] r->Ok_0.row(k) == t.row(k)
            &&& forall|j: int|
                0 <= j < t.width() ==> (#[trigger] r->Ok_0.columns[j]).name == t.columns[j].name
                    && r->Ok_0.columns[j].dtype == t.columns[j].dtype
        }),
{
    let t1 = update_row_result(t, i, vals)->Ok_0;
    assert(t1.row(i) =~= vals);
    assert forall|k: int| 0 <= k < t.height && k != i implies #[trigger] t1.row(k) == t.row(k) by {
        assert(t1.row(k) =~= t.row(k));
    }
}

/// The columns that the counter column joins carry distinct names, none
/// of them "row_index".
proof fn lemma_without_counter(t: TableV)
    requires
        t.wf(),
    ensures
        forall|a: int|
            0 <= a < without_counter(t).len() ==> (#[trigger] without_counter(t)[a]).name
                != "row_index"@,
        forall|a: int, b: int|
            0 <= a < without_counter(t).len() && 0 <= b < without_counter(t).len() && a != b
                ==> (#[trigger] without_counter(t)[a]).name != (#[trigger] without_counter(t)[b]).name,
{
    let base = without_counter(t);
    if t.has_column("row_index"@) {
        let j = t.column_index("row_index"@);
        assert forall|a: int| 0 <= a < base.len() implies (#[trigger] base[a]).name != "row_index"@ by {
            let a1 = if a < j { a } else { a + 1 };
            assert(base[a] == t.columns[a1]);
        }
        assert forall|a: int, b: int|
            0 <= a < base.len() && 0 <= b < base.len() && a != b
            implies (#[trigger] base[a]).name != (#[trigger] base[b]).name by {
            let a1 = if a < j { a } else { a + 1 };
            let b1 = if b < j { b } else { b + 1 };
            assert(base[a] == t.columns[a1]);
            assert(base[b] == t.columns[b1]);
        }
    } else {
        assert forall|a: int| 0 <= a < base.len() implies (#[trigger] base[a]).name != "row_index"@ by {
            if base[a].name == "row_index"@ {
                assert(t.has_column("row_index"@));
            }
        }
    }
}

/// Refreshing the row counter twice gives the same table as once.
pub proof fn law_row_counter_idempotent(t: TableV)
    requires
        t.wf(),
        t.height <= 0x8000_0000,
    ensures
        update_row_counter_result(t) is Ok,
        update_row_counter_result(update_row_counter_result(t)->Ok_0) == update_row_counter_result(t),
{
    let t1 = update_row_counter_result(t)->Ok_0;
    let base = without_counter(t);
    lemma_without_counter(t);
    assert(t1.columns[0].name == "row_index"@);
    assert forall|a: int, b: int|
        0 <= a < t1.columns.len() && 0 <= b < t1.columns.len() && a != b
        implies (#[trigger] t1.columns[a]).name != (#[trigger] t1.columns[b]).name by {
        if a > 0 && b > 0 {
            assert(t1.columns[a] == base[a - 1]);
            assert(t1.columns[b] == base[b - 1]);
        } else if a == 0 {
            assert(t1.columns[b] == base[b - 1]);
        } else {
            assert(t1.columns[a] == base[a - 1]);
        }
    }
    lemma_column_index(t1, "row_index"@, 0);
    assert(without_counter(t1) =~= base);
    assert(update_row_counter_result(t1)->Ok_0.columns =~= t1.columns);
}

} // verus!
