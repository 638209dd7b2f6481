use vstd::prelude::*;

verus! {

/// Why an operation on a table, or on the file that holds it, failed.
#[derive(Clone, Copy, Debug, PartialEq, Eq, Structural)]
pub enum TableError {
    /// The backing file is absent.
    NotFound,
    /// No column carries the given name.
    ColumnNotFound,
    /// No row stands at the given index.
    RowNotFound,
    /// A column of that name exists already.
    DuplicateName,
    /// The number of values disagrees with the table's width or height.
    ShapeMismatch,
    /// A value's type disagrees with its column's declared type.
    TypeMismatch,
    /// A value cannot be represented in the target type of a cast.
    CastError,
    /// The bytes are not a valid table encoding.
    FormatError,
    /// Reading or writing the backing file failed.
    IoError,
    /// A type name is not recognized.
    UnsupportedType,
}

impl TableError {
    /// The HTTP status that reports this error: 404 for what is absent or
    /// already taken, 400 for input of the wrong shape or type, 500 for a
    /// failed cast and for the file's own failures.
    pub open spec fn spec_status_code(self) -> u16 {
        match self {
            TableError::NotFound | TableError::ColumnNotFound | TableError::RowNotFound
            | TableError::DuplicateName => 404,
            TableError::ShapeMismatch | TableError::TypeMismatch
            | TableError::UnsupportedType => 400,
            TableError::CastError | TableError::FormatError | TableError::IoError => 500,
        }
    }

    pub fn status_code(&self) -> (r: u16)
        ensures
            r == self.spec_status_code(),
    {
        match self {
            TableError::NotFound | TableError::ColumnNotFound | TableError::RowNotFound
            | TableError::DuplicateName => 404,
            TableError::ShapeMismatch | TableError::TypeMismatch
            | TableError::UnsupportedType => 400,
            TableError::CastError | TableError::FormatError | TableError::IoError => 500,
        }
    }
}

} // verus!
