use crate::decimal::{int_text, parse_int_text, parse_integer, signed_text, unsigned_text};
use crate::error::TableError;
use crate::table::{table_result, Column, ColumnV, Table, TableV};
use crate::types::{lower_of, parse_type_name, type_for_name};
use crate::value::{Cell, CellV, DataType};
use polars::export::arrow::temporal_conversions::date32_to_date_opt;
use vstd::prelude::*;
use vstd::utf8::{decode_utf8, valid_utf8};

verus! {

/// The text that polars makes of a date, `days` after 1970-01-01, when it
/// casts the date to text; none where the date lies outside the calendar.
pub uninterp spec fn date_text_of(days: int) -> Option<Seq<char>>;

/// The largest day number that polars' arrow can turn into a calendar date:
/// it adds the 719 163 days from 0001-01-01 to 1970-01-01 in `i32`.
pub const MAX_DATE_DAYS: i32 = 2_146_764_484;

/// Relies on `date32_to_date_opt` of polars' arrow and on chrono's
/// formatting with "%Y-%m-%d": the two steps by which polars casts a date to
/// text. The result depends on the day number alone; it is `None` where
/// chrono's calendar does not reach the day. Above `MAX_DATE_DAYS` the
/// first step overflows.
#[verifier::external_body]
fn date_text(days: i32) -> (r: Option<String>)
    requires
        days <= MAX_DATE_DAYS,
    ensures
        (match r {
            Some(s) => date_text_of(days as int) == Some(s@),
            None => date_text_of(days as int) is None,
        }),
{
    match date32_to_date_opt(days) {
        Some(date) => Some(date.format("%Y-%m-%d").to_string()),
        None => None,
    }
}

/// The text that `b` encodes, where `b` is valid UTF-8.
pub open spec fn text_of_bytes(b: Seq<u8>) -> Option<Seq<char>> {
    if valid_utf8(b) {
        Some(decode_utf8(b))
    } else {
        None
    }
}

/// Relies on `String::from_utf8`: it fails exactly on bytes that are not
/// valid UTF-8, and otherwise holds the text they encode.
#[verifier::external_body]
fn text_from_bytes(b: &Vec<u8>) -> (r: Option<String>)
    ensures
        r is Some <==> valid_utf8(b@),
        r is Some ==> r->0@ == decode_utf8(b@),
{
    String::from_utf8(b.clone()).ok()
}

/// The integer that a value stands for when it is cast to a number: an
/// integer itself, 1 or 0 for a boolean, and its day number for a date.
pub open spec fn int_of(v: CellV) -> Option<int> {
    match v {
        CellV::Int8(x) => Some(x as int),
        CellV::Int16(x) => Some(x as int),
        CellV::Int32(x) => Some(x as int),
        CellV::Int64(x) => Some(x as int),
        CellV::UInt8(x) => Some(x as int),
        CellV::UInt16(x) => Some(x as int),
        CellV::UInt32(x) => Some(x as int),
        CellV::UInt64(x) => Some(x as int),
        CellV::Boolean(b) => Some(if b { 1int } else { 0int }),
        CellV::Date(d) => Some(d as int),
        _ => None,
    }
}

/// The integer `i` as a value of the integer type `t`, where it is in range.
pub open spec fn int_cell(i: int, t: DataType) -> Option<CellV> {
    match t {
        DataType::Int8 => if i8::MIN <= i <= i8::MAX { Some(CellV::Int8(i as i8)) } else { None },
        DataType::Int16 => if i16::MIN <= i <= i16::MAX { Some(CellV::Int16(i as i16)) } else { None },
        DataType::Int32 => if i32::MIN <= i <= i32::MAX { Some(CellV::Int32(i as i32)) } else { None },
        DataType::Int64 => if i64::MIN <= i <= i64::MAX { Some(CellV::Int64(i as i64)) } else { None },
        DataType::UInt8 => if 0 <= i <= u8::MAX { Some(CellV::UInt8(i as u8)) } else { None },
        DataType::UInt16 => if 0 <= i <= u16::MAX { Some(CellV::UInt16(i as u16)) } else { None },
        DataType::UInt32 => if 0 <= i <= u32::MAX { Some(CellV::UInt32(i as u32)) } else { None },
        DataType::UInt64 => if 0 <= i <= u64::MAX { Some(CellV::UInt64(i as u64)) } else { None },
        _ => None,
    }
}

pub open spec fn is_integer_type(t: DataType) -> bool {
    t is Int8 || t is Int16 || t is Int32 || t is Int64 || t is UInt8 || t is UInt16
        || t is UInt32 || t is UInt64
}

pub open spec fn is_float_type(t: DataType) -> bool {
    t is Float32 || t is Float64
}

/// The integer of type `t` that a text spells in decimal, where it spells
/// one that `t` holds.
pub open spec fn int_cell_of_text(s: Seq<char>, t: DataType) -> Option<CellV> {
    match parse_int_text(s) {
        Some(i) => int_cell(i, t),
        None => None,
    }
}

/// A value converted to type `t`, or `None` where `t` cannot represent it
/// or where the conversion is not one this library makes.
///
/// Null stays null and a value already of type `t` stays as it is. An
/// integer, a boolean or a date (its day number) becomes an integer of any
/// width that holds it; text, and bytes that are valid UTF-8, become one
/// where they spell such an integer in decimal. An integer becomes its
/// canonical decimal text, a boolean "true" or "false", a date the text that
/// polars writes for it (none beyond `MAX_DATE_DAYS`), and bytes the text
/// they encode as UTF-8. A nonzero integer or day number is true, and the
/// texts "true" and "false" are booleans. Conversions to or from floating point are not made here; the
/// cast of a column reports them as `UnsupportedType`.
pub open spec fn cast_cell(v: CellV, t: DataType) -> Option<CellV> {
    if v is Null {
        Some(CellV::Null)
    } else if v.data_type() == t {
        Some(v)
    } else if is_integer_type(t) {
        match v {
            CellV::Utf8(s) => int_cell_of_text(s, t),
            CellV::Binary(b) => match text_of_bytes(b) {
                Some(s) => int_cell_of_text(s, t),
                None => None,
            },
            _ => match int_of(v) {
                Some(i) => int_cell(i, t),
                None => None,
            },
        }
    } else if t is Utf8 {
        match v {
            CellV::Boolean(b) => Some(CellV::Utf8(if b { "true"@ } else { "false"@ })),
            CellV::Date(d) => if d > MAX_DATE_DAYS {
                None
            } else {
                match date_text_of(d as int) {
                    Some(s) => Some(CellV::Utf8(s)),
                    None => None,
                }
            },
            CellV::Binary(b) => match text_of_bytes(b) {
                Some(s) => Some(CellV::Utf8(s)),
                None => None,
            },
            _ => match int_of(v) {
                Some(i) => Some(CellV::Utf8(int_text(i))),
                None => None,
            },
        }
    } else if t is Boolean {
        match v {
            CellV::Utf8(s) => if s == "true"@ {
                Some(CellV::Boolean(true))
            } else if s == "false"@ {
                Some(CellV::Boolean(false))
            } else {
                None
            },
            _ => match int_of(v) {
                Some(i) => Some(CellV::Boolean(i != 0)),
                None => None,
            },
        }
    } else {
        None
    }
}

/// A cast between a floating-point type and another type: such a cast
/// needs floating-point arithmetic, which this library does not do.
pub open spec fn cast_needs_float(from: DataType, to: DataType) -> bool {
    from != to && (is_float_type(from) || is_float_type(to))
}

/// Every cell of the column can be cast to `t`.
pub open spec fn column_castable(c: ColumnV, t: DataType) -> bool {
    forall|r: int| 0 <= r < c.cells.len() ==> (#[trigger] cast_cell(c.cells[r], t)) is Some
}

/// The column with every cell cast to `t`.
pub open spec fn cast_column_cells(c: ColumnV, t: DataType) -> ColumnV {
    ColumnV { name: c.name, dtype: t, cells: c.cells.map_values(|v: CellV| cast_cell(v, t)->0) }
}

/// `t` with the column `name` cast to type `ty`.
pub open spec fn cast_column_to(t: TableV, name: Seq<char>, ty: DataType) -> Result<TableV, TableError> {
    if !t.has_column(name) {
        Err(TableError::ColumnNotFound)
    } else {
        let j = t.column_index(name);
        if cast_needs_float(t.columns[j].dtype, ty) {
            Err(TableError::UnsupportedType)
        } else if column_castable(t.columns[j], ty) {
            Ok(TableV { height: t.height, columns: t.columns.update(j, cast_column_cells(t.columns[j], ty)) })
        } else {
            Err(TableError::CastError)
        }
    }
}

/// `t` with the column `name` cast to the type that `name_of_type` names
/// in any letter case; a name of no known type leaves the table as it is.
pub open spec fn cast_column_result(t: TableV, name: Seq<char>, name_of_type: Seq<char>) -> Result<
    TableV,
    TableError,
> {
    if !t.has_column(name) {
        Err(TableError::ColumnNotFound)
    } else {
        match type_for_name(lower_of(name_of_type)) {
            None => Ok(t),
            Some(ty) => cast_column_to(t, name, ty),
        }
    }
}

fn int_of_cell(c: &Cell) -> (r: Option<i128>)
    ensures
        r is Some <==> int_of(c@) is Some,
        r is Some ==> r->0 as int == int_of(c@)->0,
{
    match c {
        Cell::Int8(x) => Some(*x as i128),
        Cell::Int16(x) => Some(*x as i128),
        Cell::Int32(x) => Some(*x as i128),
        Cell::Int64(x) => Some(*x as i128),
        Cell::UInt8(x) => Some(*x as i128),
        Cell::UInt16(x) => Some(*x as i128),
        Cell::UInt32(x) => Some(*x as i128),
        Cell::UInt64(x) => Some(*x as i128),
        Cell::Boolean(b) => Some(if *b { 1 } else { 0 }),
        Cell::Date(d) => Some(*d as i128),
        _ => None,
    }
}

fn int_to_cell(i: i128, t: DataType) -> (r: Option<Cell>)
    ensures
        r is Some <==> int_cell(i as int, t) is Some,
        r is Some ==> r->0@ == int_cell(i as int, t)->0,
{
    match t {
        DataType::Int8 => if i8::MIN as i128 <= i && i <= i8::MAX as i128 { Some(Cell::Int8(i as i8)) } else { None },
        DataType::Int16 => if i16::MIN as i128 <= i && i <= i16::MAX as i128 { Some(Cell::Int16(i as i16)) } else { None },
        DataType::Int32 => if i32::MIN as i128 <= i && i <= i32::MAX as i128 { Some(Cell::Int32(i as i32)) } else { None },
        DataType::Int64 => if i64::MIN as i128 <= i && i <= i64::MAX as i128 { Some(Cell::Int64(i as i64)) } else { None },
        DataType::UInt8 => if 0 <= i && i <= u8::MAX as i128 { Some(Cell::UInt8(i as u8)) } else { None },
        DataType::UInt16 => if 0 <= i && i <= u16::MAX as i128 { Some(Cell::UInt16(i as u16)) } else { None },
        DataType::UInt32 => if 0 <= i && i <= u32::MAX as i128 { Some(Cell::UInt32(i as u32)) } else { None },
        DataType::UInt64 => if 0 <= i && i <= u64::MAX as i128 { Some(Cell::UInt64(i as u64)) } else { None },
        _ => None,
    }
}

fn int_of_text(s: &str, t: DataType) -> (r: Option<Cell>)
    ensures
        r is Some <==> int_cell_of_text(s@, t) is Some,
        r is Some ==> r->0@ == int_cell_of_text(s@, t)->0,
{
    match parse_integer(s) {
        Some(i) => int_to_cell(i, t),
        None => None,
    }
}

fn integer_text(i: i128) -> (r: String)
    requires
        i64::MIN <= i <= u64::MAX,
    ensures
        r@ == int_text(i as int),
{
    if i < 0 {
        signed_text(i as i64)
    } else {
        unsigned_text(i as u64)
    }
}

/// Converts one value to type `t`, where `t` can represent it.
pub fn cast_value(c: &Cell, t: DataType) -> (r: Option<Cell>)
    ensures
        r is Some <==> cast_cell(c@, t) is Some,
        r is Some ==> r->0@ == cast_cell(c@, t)->0,
{
    if c.is_null() {
        return Some(Cell::Null);
    }
    let tag = c.data_type();
    if tag == t {
        return match c {
            Cell::Utf8(s) => Some(Cell::Utf8(s.clone())),
            Cell::Binary(b) => Some(Cell::Binary(b.clone())),
            Cell::Int8(x) => Some(Cell::Int8(*x)),
            Cell::Int16(x) => Some(Cell::Int16(*x)),
            Cell::Int32(x) => Some(Cell::Int32(*x)),
            Cell::Int64(x) => Some(Cell::Int64(*x)),
            Cell::UInt8(x) => Some(Cell::UInt8(*x)),
            Cell::UInt16(x) => Some(Cell::UInt16(*x)),
            Cell::UInt32(x) => Some(Cell::UInt32(*x)),
            Cell::UInt64(x) => Some(Cell::UInt64(*x)),
            Cell::Float32(x) => Some(Cell::Float32(*x)),
            Cell::Float64(x) => Some(Cell::Float64(*x)),
            Cell::Boolean(x) => Some(Cell::Boolean(*x)),
            Cell::Date(x) => Some(Cell::Date(*x)),
            Cell::Null => Some(Cell::Null),
        };
    }
    let integer_target = match t {
        DataType::Int8 | DataType::Int16 | DataType::Int32 | DataType::Int64 | DataType::UInt8
        | DataType::UInt16 | DataType::UInt32 | DataType::UInt64 => true,
        _ => false,
    };
    if integer_target {
        match c {
            Cell::Utf8(s) => int_of_text(s.as_str(), t),
            Cell::Binary(b) => match text_from_bytes(b) {
                Some(s) => int_of_text(s.as_str(), t),
                None => None,
            },
            _ => match int_of_cell(c) {
                Some(i) => int_to_cell(i, t),
                None => None,
            },
        }
    } else if t == DataType::Utf8 {
        match c {
            Cell::Boolean(b) => Some(Cell::Utf8(if *b { "true".to_owned() } else { "false".to_owned() })),
            Cell::Date(d) => if *d > MAX_DATE_DAYS {
                None
            } else {
                match date_text(*d) {
                    Some(s) => Some(Cell::Utf8(s)),
                    None => None,
                }
            },
            Cell::Binary(b) => match text_from_bytes(b) {
                Some(s) => Some(Cell::Utf8(s)),
                None => None,
            },
            _ => match int_of_cell(c) {
                Some(i) => Some(Cell::Utf8(integer_text(i))),
                None => None,
            },
        }
    } else if t == DataType::Boolean {
        match c {
            Cell::Utf8(s) => if *s == "true".to_owned() {
                Some(Cell::Boolean(true))
            } else if *s == "false".to_owned() {
                Some(Cell::Boolean(false))
            } else {
                None
            },
            _ => match int_of_cell(c) {
                Some(i) => Some(Cell::Boolean(i != 0)),
                None => None,
            },
        }
    } else {
        None
    }
}

/// A value cast to `t` fits a column of type `t`.
pub proof fn lemma_cast_fits(v: CellV, t: DataType)
    requires
        cast_cell(v, t) is Some,
    ensures
        cast_cell(v, t)->0.fits(t),
{
}

/// The cells of `col`, each cast to `t`, where every one of them can be.
fn cast_cells(col: &Column, ty: DataType) -> (r: Option<Vec<Cell>>)
    ensures
        r is Some <==> column_castable(col@, ty),
        r is Some ==> r->0@.map_values(|v: Cell| v@) == cast_column_cells(col@, ty).cells,
{
    let ghost c = col@;
    let mut cells: Vec<Cell> = Vec::new();
    let mut i: usize = 0;
    while i < col.cells.len()
        invariant
            i <= col.cells.len(),
            c == col@,
            cells.len() == i,
            forall|r: int| 0 <= r < i ==> (#[trigger] cast_cell(c.cells[r], ty)) is Some,
            forall|r: int| 0 <= r < i ==> (#[trigger] cells@[r])@ == cast_cell(c.cells[r], ty)->0,
        decreases col.cells.len() - i,
    {
        match cast_value(&col.cells[i], ty) {
            None => {
                proof {
                    assert(cast_cell(c.cells[i as int], ty) is None);
                }
                return None;
            },
            Some(v) => {
                cells.push(v);
            },
        }
        i = i + 1;
    }
    assert(cells@.map_values(|v: Cell| v@) =~= cast_column_cells(c, ty).cells);
    Some(cells)
}

/// Casts every cell of the column called `column_name` to `ty`, which
/// becomes the column's type; a value that `ty` cannot represent fails the
/// whole cast with `CastError`. A cast to or from a floating-point type
/// needs floating-point arithmetic and is refused with `UnsupportedType`.
pub fn cast_column_to_type(table: Table, column_name: &str, ty: DataType) -> (r: Result<
    Table,
    TableError,
>)
    requires
        table@.wf(),
    ensures
        table_result(r) == cast_column_to(table@, column_name@, ty),
        r is Ok ==> r->Ok_0@.wf(),
{
    let mut table = table;
    let j = match table.find_column(column_name) {
        None => {
            return Err(TableError::ColumnNotFound);
        },
        Some(j) => j,
    };
    let from = table.columns[j].dtype;
    let from_float = from == DataType::Float32 || from == DataType::Float64;
    let to_float = ty == DataType::Float32 || ty == DataType::Float64;
    if from != ty && (from_float || to_float) {
        return Err(TableError::UnsupportedType);
    }
    let ghost t = table@;
    let col = table.columns.remove(j);
    let ghost c = col@;
    assert(c == t.columns[j as int]);
    let cells = match cast_cells(&col, ty) {
        None => {
            return Err(TableError::CastError);
        },
        Some(cells) => cells,
    };
    let new_col = Column { name: col.name, dtype: ty, cells };
    table.columns.insert(j, new_col);
    proof {
        let nc = cast_column_cells(c, ty);
        assert(new_col@.cells =~= nc.cells);
        assert(table@.columns =~= t.columns.update(j as int, nc));
        assert(table@.wf()) by {
            assert forall|a: int| 0 <= a < table@.columns.len() implies
                (#[trigger] table@.columns[a]).fits_height(table@.height) by {
                if a == j {
                    assert forall|r: int| 0 <= r < nc.cells.len() implies (#[trigger] nc.cells[r]).fits(ty) by {
                        lemma_cast_fits(c.cells[r], ty);
                    }
                } else {
                    assert(t.columns[a].fits_height(t.height));
                }
            }
            assert forall|a: int, b: int|
                0 <= a < table@.columns.len() && 0 <= b < table@.columns.len() && a != b
                implies (#[trigger] table@.columns[a]).name != (#[trigger] table@.columns[b]).name by {
                assert(t.columns[a].name != t.columns[b].name);
            }
        }
    }
    Ok(table)
}

/// Casts every cell of the column called `column_name` to the type that
/// `new_type` names in any letter case ("string", "integer", "integer64",
/// "float", "float64", "boolean"), which becomes the column's type. A name
/// of no known type leaves the table as it is; a value that the target
/// type cannot represent fails the whole cast with `CastError`, and a cast
/// to or from a floating-point type is refused with `UnsupportedType`.
pub fn cast_column(table: Table, column_name: &str, new_type: &str) -> (r: Result<Table, TableError>)
    requires
        table@.wf(),
    ensures
        table_result(r) == cast_column_result(table@, column_name@, new_type@),
        r is Ok ==> r->Ok_0@.wf(),
{
    if !table.has_column(column_name) {
        return Err(TableError::ColumnNotFound);
    }
    match parse_type_name(new_type) {
        None => Ok(table),
        Some(ty) => cast_column_to_type(table, column_name, ty),
    }
}

} // verus!
