use vstd::prelude::*;

verus! {

/// Errors raised while formatting values, columns and tables.
#[derive(Debug)]
pub enum FormatError {
    /// The format type could not be parsed.
    CouldNotParseFormatType,
    /// A coefficient / exponent pair could not be decomposed.
    CouldNotDecomposeCoefficientExponent,
    /// A pattern could not be built.
    CouldNotCreateRegex,
    /// A pattern did not match.
    CouldNotMatchRegex,
    /// A width or pattern is self-contradictory or cannot be rendered.
    InvalidFormat(String),
    /// A column yielded no cells where at least one was expected.
    EmptyData(String),
    /// A lookup by name found no such column.
    ColumnMissing(String),
    /// A value's type has no formatting rule.
    UnsupportedDatatype(String),
    /// A column's formatter does not match the column's data.
    MismatchedFormatType(String),
    /// A new column's length differs from the table's row count.
    DifferentRowCounts,
}

/// The variant of a [`FormatError`], without its message.
#[derive(PartialEq, Eq, Structural, Clone, Copy, Debug)]
pub enum ErrorKind {
    CouldNotParseFormatType,
    CouldNotDecomposeCoefficientExponent,
    CouldNotCreateRegex,
    CouldNotMatchRegex,
    InvalidFormat,
    EmptyData,
    ColumnMissing,
    UnsupportedDatatype,
    MismatchedFormatType,
    DifferentRowCounts,
}

impl FormatError {
    pub open spec fn kind(&self) -> ErrorKind {
        match self {
            FormatError::CouldNotParseFormatType => ErrorKind::CouldNotParseFormatType,
            FormatError::CouldNotDecomposeCoefficientExponent => {
                ErrorKind::CouldNotDecomposeCoefficientExponent
            },
            FormatError::CouldNotCreateRegex => ErrorKind::CouldNotCreateRegex,
            FormatError::CouldNotMatchRegex => ErrorKind::CouldNotMatchRegex,
            FormatError::InvalidFormat(_) => ErrorKind::InvalidFormat,
            FormatError::EmptyData(_) => ErrorKind::EmptyData,
            FormatError::ColumnMissing(_) => ErrorKind::ColumnMissing,
            FormatError::UnsupportedDatatype(_) => ErrorKind::UnsupportedDatatype,
            FormatError::MismatchedFormatType(_) => ErrorKind::MismatchedFormatType,
            FormatError::DifferentRowCounts => ErrorKind::DifferentRowCounts,
        }
    }

    /// The variant of this error.
    pub fn error_kind(&self) -> (r: ErrorKind)
        ensures
            r == self.kind(),
    {
        match self {
            FormatError::CouldNotParseFormatType => ErrorKind::CouldNotParseFormatType,
            FormatError::CouldNotDecomposeCoefficientExponent => {
                ErrorKind::CouldNotDecomposeCoefficientExponent
            },
            FormatError::CouldNotCreateRegex => ErrorKind::CouldNotCreateRegex,
            FormatError::CouldNotMatchRegex => ErrorKind::CouldNotMatchRegex,
            FormatError::InvalidFormat(_) => ErrorKind::InvalidFormat,
            FormatError::EmptyData(_) => ErrorKind::EmptyData,
            FormatError::ColumnMissing(_) => ErrorKind::ColumnMissing,
            FormatError::UnsupportedDatatype(_) => ErrorKind::UnsupportedDatatype,
            FormatError::MismatchedFormatType(_) => ErrorKind::MismatchedFormatType,
            FormatError::DifferentRowCounts => ErrorKind::DifferentRowCounts,
        }
    }
}

/// Whether an executable result agrees with a modelled one: the same text on
/// success, the same kind of error on failure.
pub open spec fn text_result_matches(
    r: Result<String, FormatError>,
    m: Result<Seq<char>, ErrorKind>,
) -> bool {
    match (r, m) {
        (Ok(s), Ok(t)) => s@ == t,
        (Err(e), Err(k)) => e.kind() == k,
        _ => false,
    }
}

} // verus!
