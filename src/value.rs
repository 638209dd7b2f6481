use vstd::prelude::*;

verus! {

/// The declared type of a column.
#[derive(Clone, Copy, Debug, PartialEq, Eq, Structural, Hash)]
pub enum DataType {
    Int8,
    Int16,
    Int32,
    Int64,
    UInt8,
    UInt16,
    UInt32,
    UInt64,
    Float32,
    Float64,
    Boolean,
    Utf8,
    Binary,
    Date,
    Null,
}

/// One value of a table, or the null marker.
///
/// Floating-point values are carried as their IEEE-754 bit patterns: the
/// table moves them about but never computes with them. A date is a number
/// of days since 1970-01-01.
#[derive(Clone, Debug, PartialEq)]
pub enum Cell {
    Null,
    Int8(i8),
    Int16(i16),
    Int32(i32),
    Int64(i64),
    UInt8(u8),
    UInt16(u16),
    UInt32(u32),
    UInt64(u64),
    Float32(u32),
    Float64(u64),
    Boolean(bool),
    Utf8(String),
    Binary(Vec<u8>),
    Date(i32),
}

/// What a `Cell` holds, with text and bytes seen as sequences.
pub enum CellV {
    Null,
    Int8(i8),
    Int16(i16),
    Int32(i32),
    Int64(i64),
    UInt8(u8),
    UInt16(u16),
    UInt32(u32),
    UInt64(u64),
    Float32(u32),
    Float64(u64),
    Boolean(bool),
    Utf8(Seq<char>),
    Binary(Seq<u8>),
    Date(i32),
}

impl CellV {
    /// The type that the value is tagged with; `Null` for the null marker.
    pub open spec fn data_type(self) -> DataType {
        match self {
            CellV::Null => DataType::Null,
            CellV::Int8(_) => DataType::Int8,
            CellV::Int16(_) => DataType::Int16,
            CellV::Int32(_) => DataType::Int32,
            CellV::Int64(_) => DataType::Int64,
            CellV::UInt8(_) => DataType::UInt8,
            CellV::UInt16(_) => DataType::UInt16,
            CellV::UInt32(_) => DataType::UInt32,
            CellV::UInt64(_) => DataType::UInt64,
            CellV::Float32(_) => DataType::Float32,
            CellV::Float64(_) => DataType::Float64,
            CellV::Boolean(_) => DataType::Boolean,
            CellV::Utf8(_) => DataType::Utf8,
            CellV::Binary(_) => DataType::Binary,
            CellV::Date(_) => DataType::Date,
        }
    }

    /// The value may stand in a column declared with type `t`: it is null,
    /// or tagged with `t`.
    pub open spec fn fits(self, t: DataType) -> bool {
        self is Null || self.data_type() == t
    }
}

impl View for Cell {
    type V = CellV;

    open spec fn view(&self) -> CellV {
        match self {
            Cell::Null => CellV::Null,
            Cell::Int8(v) => CellV::Int8(*v),
            Cell::Int16(v) => CellV::Int16(*v),
            Cell::Int32(v) => CellV::Int32(*v),
            Cell::Int64(v) => CellV::Int64(*v),
            Cell::UInt8(v) => CellV::UInt8(*v),
            Cell::UInt16(v) => CellV::UInt16(*v),
            Cell::UInt32(v) => CellV::UInt32(*v),
            Cell::UInt64(v) => CellV::UInt64(*v),
            Cell::Float32(v) => CellV::Float32(*v),
            Cell::Float64(v) => CellV::Float64(*v),
            Cell::Boolean(v) => CellV::Boolean(*v),
            Cell::Utf8(s) => CellV::Utf8(s@),
            Cell::Binary(b) => CellV::Binary(b@),
            Cell::Date(d) => CellV::Date(*d),
        }
    }
}

impl Cell {
    pub fn data_type(&self) -> (r: DataType)
        ensures
            r == self@.data_type(),
    {
        match self {
            Cell::Null => DataType::Null,
            Cell::Int8(_) => DataType::Int8,
            Cell::Int16(_) => DataType::Int16,
            Cell::Int32(_) => DataType::Int32,
            Cell::Int64(_) => DataType::Int64,
            Cell::UInt8(_) => DataType::UInt8,
            Cell::UInt16(_) => DataType::UInt16,
            Cell::UInt32(_) => DataType::UInt32,
            Cell::UInt64(_) => DataType::UInt64,
            Cell::Float32(_) => DataType::Float32,
            Cell::Float64(_) => DataType::Float64,
            Cell::Boolean(_) => DataType::Boolean,
            Cell::Utf8(_) => DataType::Utf8,
            Cell::Binary(_) => DataType::Binary,
            Cell::Date(_) => DataType::Date,
        }
    }

    pub fn is_null(&self) -> (r: bool)
        ensures
            r == (self@ is Null),
    {
        match self {
            Cell::Null => true,
            _ => false,
        }
    }

    /// Whether the value may stand in a column declared with type `t`.
    pub fn fits(&self, t: DataType) -> (r: bool)
        ensures
            r == self@.fits(t),
    {
        self.is_null() || self.data_type() == t
    }
}

/// Conversion of a plain Rust value into the cell that holds it.
pub trait ToAnyValue {
    fn to_any_value(&self) -> Cell;
}

impl ToAnyValue for i8 {
    fn to_any_value(&self) -> (r: Cell)
        ensures
            r@ == CellV::Int8(*self),
    {
        Cell::Int8(*self)
    }
}

impl ToAnyValue for i16 {
    fn to_any_value(&self) -> (r: Cell)
        ensures
            r@ == CellV::Int16(*self),
    {
        Cell::Int16(*self)
    }
}

impl ToAnyValue for i32 {
    fn to_any_value(&self) -> (r: Cell)
        ensures
            r@ == CellV::Int32(*self),
    {
        Cell::Int32(*self)
    }
}

impl ToAnyValue for i64 {
    fn to_any_value(&self) -> (r: Cell)
        ensures
            r@ == CellV::Int64(*self),
    {
        Cell::Int64(*self)
    }
}

impl ToAnyValue for u8 {
    fn to_any_value(&self) -> (r: Cell)
        ensures
            r@ == CellV::UInt8(*self),
    {
        Cell::UInt8(*self)
    }
}

impl ToAnyValue for u16 {
    fn to_any_value(&self) -> (r: Cell)
        ensures
            r@ == CellV::UInt16(*self),
    {
        Cell::UInt16(*self)
    }
}

impl ToAnyValue for u32 {
    fn to_any_value(&self) -> (r: Cell)
        ensures
            r@ == CellV::UInt32(*self),
    {
        Cell::UInt32(*self)
    }
}

impl ToAnyValue for u64 {
    fn to_any_value(&self) -> (r: Cell)
        ensures
            r@ == CellV::UInt64(*self),
    {
        Cell::UInt64(*self)
    }
}

impl ToAnyValue for bool {
    fn to_any_value(&self) -> (r: Cell)
        ensures
            r@ == CellV::Boolean(*self),
    {
        Cell::Boolean(*self)
    }
}

impl ToAnyValue for String {
    fn to_any_value(&self) -> (r: Cell)
        ensures
            r@ == CellV::Utf8(self@),
    {
        Cell::Utf8(self.clone())
    }
}

impl<'a> ToAnyValue for &'a str {
    fn to_any_value(&self) -> (r: Cell)
        ensures
            r@ == CellV::Utf8((*self)@),
    {
        Cell::Utf8((*self).to_owned())
    }
}

} // verus!

verus! {

/// What a sequence of cells holds.
pub open spec fn cells_view(v: Seq<Cell>) -> Seq<CellV> {
    v.map_values(|c: Cell| c@)
}

} // verus!
