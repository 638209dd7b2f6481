use crate::error::TableError;
use crate::value::{Cell, CellV, DataType};
use vstd::prelude::*;

verus! {

/// A named column of cells that share one declared type.
#[derive(Clone, Debug, PartialEq)]
pub struct Column {
    pub name: String,
    pub dtype: DataType,
    pub cells: Vec<Cell>,
}

pub struct ColumnV {
    pub name: Seq<char>,
    pub dtype: DataType,
    pub cells: Seq<CellV>,
}

/// Columns of equal length; `height` is that length, the number of rows.
#[derive(Clone, Debug, PartialEq)]
pub struct Table {
    pub height: usize,
    pub columns: Vec<Column>,
}

pub struct TableV {
    pub height: nat,
    pub columns: Seq<ColumnV>,
}

impl View for Column {
    type V = ColumnV;

    open spec fn view(&self) -> ColumnV {
        ColumnV { name: self.name@, dtype: self.dtype, cells: self.cells@.map_values(|c: Cell| c@) }
    }
}

impl View for Table {
    type V = TableV;

    open spec fn view(&self) -> TableV {
        TableV {
            height: self.height as nat,
            columns: self.columns@.map_values(|c: Column| c@),
        }
    }
}

/// A column of `h` nulls, all of one declared type.
pub open spec fn null_cells(h: nat) -> Seq<CellV> {
    Seq::new(h, |i: int| CellV::Null)
}

impl ColumnV {
    /// Every cell conforms to the declared type.
    pub open spec fn cells_fit(self) -> bool {
        forall|r: int| 0 <= r < self.cells.len() ==> (#[trigger] self.cells[r]).fits(self.dtype)
    }

    /// The column may stand in a table of `h` rows.
    pub open spec fn fits_height(self, h: nat) -> bool {
        self.cells.len() == h && self.cells_fit()
    }
}

impl TableV {
    pub open spec fn width(self) -> nat {
        self.columns.len()
    }

    pub open spec fn names_unique(self) -> bool {
        forall|j: int, k: int|
            0 <= j < self.columns.len() && 0 <= k < self.columns.len() && j != k
                ==> (#[trigger] self.columns[j]).name != (#[trigger] self.columns[k]).name
    }

    /// The table's invariant: every column has `height` cells, each of
    /// them fitting the column's type, and no two columns share a name;
    /// `height` is a `usize`.
    pub open spec fn wf(self) -> bool {
        &&& self.height <= usize::MAX
        &&& forall|j: int|
            0 <= j < self.columns.len() ==> (#[trigger] self.columns[j]).fits_height(self.height)
        &&& self.names_unique()
    }

    pub open spec fn has_column(self, name: Seq<char>) -> bool {
        exists|j: int| 0 <= j < self.columns.len() && (#[trigger] self.columns[j]).name == name
    }

    /// The position of the column called `name`, where there is one.
    pub open spec fn column_index(self, name: Seq<char>) -> int {
        choose|j: int| 0 <= j < self.columns.len() && (#[trigger] self.columns[j]).name == name
    }

    /// The cells of row `i`, in column order.
    pub open spec fn row(self, i: int) -> Seq<CellV> {
        Seq::new(self.columns.len(), |j: int| self.columns[j].cells[i])
    }

    /// The values `vals` may form a row of this table.
    pub open spec fn row_fits(self, vals: Seq<CellV>) -> bool {
        forall|j: int| 0 <= j < vals.len() ==> (#[trigger] vals[j]).fits(self.columns[j].dtype)
    }
}

/// Under unique names, the column that carries `name` stands at `column_index`.
pub proof fn lemma_column_index(t: TableV, name: Seq<char>, j: int)
    requires
        t.names_unique(),
        0 <= j < t.columns.len(),
        t.columns[j].name == name,
    ensures
        t.has_column(name),
        t.column_index(name) == j,
{
    assert(t.has_column(name));
    let k = t.column_index(name);
    assert(t.columns[k].name == name);
}

impl Column {
    /// A column of `height` nulls.
    pub fn nulls(name: String, dtype: DataType, height: usize) -> (r: Column)
        ensures
            r@ == (ColumnV { name: name@, dtype, cells: null_cells(height as nat) }),
    {
        let mut cells: Vec<Cell> = Vec::new();
        let mut i: usize = 0;
        while i < height
            invariant
                i <= height,
                cells.len() == i,
                forall|k: int| 0 <= k < i ==> (#[trigger] cells@[k]) is Null,
            decreases height - i,
        {
            cells.push(Cell::Null);
            i = i + 1;
        }
        assert(cells@.map_values(|c: Cell| c@) =~= null_cells(height as nat));
        Column { name, dtype, cells }
    }

    /// Whether every cell conforms to the declared type.
    pub fn cells_fit(&self) -> (r: bool)
        ensures
            r == self@.cells_fit(),
    {
        let mut i: usize = 0;
        while i < self.cells.len()
            invariant
                i <= self.cells.len(),
                forall|r: int| 0 <= r < i ==> (#[trigger] self@.cells[r]).fits(self.dtype),
            decreases self.cells.len() - i,
        {
            if !self.cells[i].fits(self.dtype) {
                proof {
                    assert(!self@.cells[i as int].fits(self@.dtype));
                }
                return false;
            }
            i = i + 1;
        }
        true
    }
}

impl Table {
    /// The table of no columns and no rows.
    pub fn empty() -> (r: Table)
        ensures
            r@.height == 0,
            r@.columns.len() == 0,
            r@.wf(),
    {
        Table { height: 0, columns: Vec::new() }
    }

    pub fn width(&self) -> (r: usize)
        ensures
            r == self@.width(),
    {
        self.columns.len()
    }

    /// The position of the column called `name`.
    pub fn find_column(&self, name: &str) -> (r: Option<usize>)
        requires
            self@.names_unique(),
        ensures
            r is Some <==> self@.has_column(name@),
            r is Some ==> r->0 == self@.column_index(name@) && r->0 < self@.width(),
    {
        let key = name.to_owned();
        let mut j: usize = 0;
        while j < self.columns.len()
            invariant
                j <= self.columns.len(),
                key@ == name@,
                self@.names_unique(),
                forall|k: int| 0 <= k < j ==> (#[trigger] self@.columns[k]).name != name@,
            decreases self.columns.len() - j,
        {
            if self.columns[j].name == key {
                proof {
                    lemma_column_index(self@, name@, j as int);
                }
                return Some(j);
            }
            j = j + 1;
        }
        None
    }

    /// Whether a column is called `name`.
    pub fn has_column(&self, name: &str) -> (r: bool)
        requires
            self@.names_unique(),
        ensures
            r == self@.has_column(name@),
    {
        self.find_column(name).is_some()
    }

    /// Builds a table from its columns, checking the invariant: every
    /// column must hold `height` cells (else `ShapeMismatch`), each fitting
    /// the column's type (else `TypeMismatch`), under a name that no other
    /// column carries (else `DuplicateName`).
    pub fn from_columns(height: usize, columns: Vec<Column>) -> (r: Result<Table, TableError>)
        ensures
            ({
                let t = TableV { height: height as nat, columns: columns@.map_values(|c: Column| c@) };
                &&& r is Ok <==> t.wf()
                &&& r is Ok ==> r->Ok_0@ == t
                &&& r == Err::<Table, TableError>(TableError::ShapeMismatch) <==> exists|j: int|
                    0 <= j < t.columns.len() && (#[trigger] t.columns[j]).cells.len() != height
                &&& r == Err::<Table, TableError>(TableError::TypeMismatch) <==> (forall|j: int|
                    0 <= j < t.columns.len() ==> (#[trigger] t.columns[j]).cells.len() == height)
                    && exists|j: int| 0 <= j < t.columns.len() && !(#[trigger] t.columns[j]).cells_fit()
                &&& r == Err::<Table, TableError>(TableError::DuplicateName) <==> (forall|j: int|
                    0 <= j < t.columns.len() ==> (#[trigger] t.columns[j]).fits_height(height as nat))
                    && !t.names_unique()
                &&& r is Err ==> (r->Err_0 is ShapeMismatch || r->Err_0 is TypeMismatch || r->Err_0 is DuplicateName)
            }),
    {
        let ghost t = TableV { height: height as nat, columns: columns@.map_values(|c: Column| c@) };
        let mut j: usize = 0;
        while j < columns.len()
            invariant
                j <= columns.len(),
                t == (TableV { height: height as nat, columns: columns@.map_values(|c: Column| c@) }),
                forall|k: int| 0 <= k < j ==> (#[trigger] t.columns[k]).cells.len() == height,
            decreases columns.len() - j,
        {
            if columns[j].cells.len() != height {
                proof {
                    assert(t.columns[j as int].cells.len() != height);
                }
                return Err(TableError::ShapeMismatch);
            }
            j = j + 1;
        }
        j = 0;
        while j < columns.len()
            invariant
                j <= columns.len(),
                t == (TableV { height: height as nat, columns: columns@.map_values(|c: Column| c@) }),
                forall|k: int| 0 <= k < t.columns.len() ==> (#[trigger] t.columns[k]).cells.len() == height,
                forall|k: int| 0 <= k < j ==> (#[trigger] t.columns[k]).cells_fit(),
            decreases columns.len() - j,
        {
            if !columns[j].cells_fit() {
                proof {
                    assert(!t.columns[j as int].cells_fit());
                }
                return Err(TableError::TypeMismatch);
            }
            j = j + 1;
        }
        j = 0;
        while j < columns.len()
            invariant
                j <= columns.len(),
                t == (TableV { height: height as nat, columns: columns@.map_values(|c: Column| c@) }),
                forall|k: int| 0 <= k < t.columns.len() ==> (#[trigger] t.columns[k]).fits_height(height as nat),
                forall|a: int, b: int|
                    0 <= a < j && 0 <= b < t.columns.len() && a != b
                        ==> (#[trigger] t.columns[a]).name != (#[trigger] t.columns[b]).name,
            decreases columns.len() - j,
        {
            let mut k: usize = 0;
            while k < columns.len()
                invariant
                    j < columns.len(),
                    k <= columns.len(),
                    t == (TableV { height: height as nat, columns: columns@.map_values(|c: Column| c@) }),
                    forall|c: int| 0 <= c < t.columns.len() ==> (#[trigger] t.columns[c]).fits_height(height as nat),
                    forall|b: int|
                        0 <= b < k && b != j ==> t.columns[j as int].name != (#[trigger] t.columns[b]).name,
                decreases columns.len() - k,
            {
                if k != j && columns[j].name == columns[k].name {
                    proof {
                        assert(t.columns[j as int].name == t.columns[k as int].name);
                    }
                    return Err(TableError::DuplicateName);
                }
                k = k + 1;
            }
            j = j + 1;
        }
        Ok(Table { height, columns })
    }
}

} // verus!

verus! {

/// What an operation that yields a table returns, seen through the view.
pub open spec fn table_result(r: Result<Table, TableError>) -> Result<TableV, TableError> {
    match r {
        Ok(t) => Ok(t@),
        Err(e) => Err(e),
    }
}

} // verus!
