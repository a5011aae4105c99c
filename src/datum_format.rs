use vstd::prelude::*;

use crate::binary_format::BinaryFormat;
use crate::error::FormatError;
use crate::number_format::{FormatType, NumberFormat};
use crate::string_format::{BoolFormat, StringFormat};

verus! {

/// The kind of values a column holds.
#[derive(PartialEq, Eq, Structural, Clone, Copy, Debug)]
pub enum ColumnType {
    /// binary
    Binary,
    /// string
    String,
    /// bool
    Bool,
    /// float
    Float,
    /// integer
    Integer,
}

/// The type tag a tabular data source gives a column: one of the kinds this
/// library formats, or another one, named.
#[derive(Clone, Debug)]
pub enum DataType {
    /// byte strings
    Binary,
    /// text
    Utf8,
    /// booleans
    Boolean,
    /// any integer width
    Integer,
    /// any float width
    Float,
    /// a type without a formatting rule, by name
    Other(String),
}

impl DataType {
    /// The column kind this tag stands for, if it has one.
    pub open spec fn spec_column_type(&self) -> Option<ColumnType> {
        match self {
            DataType::Binary => Some(ColumnType::Binary),
            DataType::Utf8 => Some(ColumnType::String),
            DataType::Boolean => Some(ColumnType::Bool),
            DataType::Integer => Some(ColumnType::Integer),
            DataType::Float => Some(ColumnType::Float),
            DataType::Other(_) => None,
        }
    }

    /// The column kind this tag stands for, if it has one.
    pub fn column_type(&self) -> (r: Option<ColumnType>)
        ensures
            r == self.spec_column_type(),
    {
        match self {
            DataType::Binary => Some(ColumnType::Binary),
            DataType::Utf8 => Some(ColumnType::String),
            DataType::Boolean => Some(ColumnType::Bool),
            DataType::Integer => Some(ColumnType::Integer),
            DataType::Float => Some(ColumnType::Float),
            DataType::Other(_) => None,
        }
    }
}

/// A format whose kind is not known yet: only optional widths.
#[derive(Clone, Copy, Debug)]
pub struct UnknownFormat {
    /// min width, if set
    pub min_width: Option<usize>,
    /// max width, if set
    pub max_width: Option<usize>,
}

impl UnknownFormat {
    /// The min width, `0` when unset.
    pub open spec fn spec_min(self) -> usize {
        match self.min_width {
            Some(w) => w,
            None => 0,
        }
    }

    /// The max width, unbounded when unset.
    pub open spec fn spec_max(self) -> usize {
        match self.max_width {
            Some(w) => w,
            None => usize::MAX,
        }
    }

    /// set min width
    pub fn min_width(self, width: usize) -> (r: UnknownFormat)
        ensures
            r == (UnknownFormat { min_width: Some(width), ..self }),
    {
        UnknownFormat { min_width: Some(width), ..self }
    }

    /// set max width
    pub fn max_width(self, width: usize) -> (r: UnknownFormat)
        ensures
            r == (UnknownFormat { max_width: Some(width), ..self }),
    {
        UnknownFormat { max_width: Some(width), ..self }
    }

    fn widths(self) -> (r: (usize, usize))
        ensures
            r == (self.spec_min(), self.spec_max()),
    {
        let lo = match self.min_width {
            Some(w) => w,
            None => 0,
        };
        let hi = match self.max_width {
            Some(w) => w,
            None => usize::MAX,
        };
        (lo, hi)
    }

    pub open spec fn spec_number(self) -> NumberFormat {
        NumberFormat {
            min_width: self.spec_min(),
            max_width: self.spec_max(),
            ..NumberFormat::spec_default()
        }
    }

    /// A default number format with these widths.
    pub fn to_number_format(self) -> (r: NumberFormat)
        ensures
            r == self.spec_number(),
    {
        let (lo, hi) = self.widths();
        NumberFormat::default().min_width(lo).max_width(hi)
    }

    pub open spec fn spec_string(self) -> StringFormat {
        StringFormat {
            min_width: self.spec_min(),
            max_width: self.spec_max(),
            align: crate::string_format::StringAlign::Right,
            fill_char: ' ',
        }
    }

    /// A default string format with these widths.
    pub fn to_string_format(self) -> (r: StringFormat)
        ensures
            r == self.spec_string(),
    {
        let (lo, hi) = self.widths();
        StringFormat::default().min_width(lo).max_width(hi)
    }

    pub open spec fn spec_binary(self) -> BinaryFormat {
        BinaryFormat {
            prefix: true,
            min_width: self.spec_min(),
            max_width: self.spec_max(),
            align: crate::binary_format::BinaryAlign::Right,
            fill_char: ' ',
        }
    }

    /// A default binary format with these widths.
    pub fn to_binary_format(self) -> (r: BinaryFormat)
        ensures
            r == self.spec_binary(),
    {
        let (lo, hi) = self.widths();
        let d = BinaryFormat::default();
        BinaryFormat { min_width: lo, max_width: hi, ..d }
    }

    pub open spec fn spec_bool(self) -> BoolFormat {
        BoolFormat {
            min_width: self.spec_min(),
            max_width: self.spec_max(),
            align: crate::string_format::BoolAlign::Right,
            fill_char: ' ',
        }
    }

    /// A default boolean format with these widths.
    pub fn to_bool_format(self) -> (r: BoolFormat)
        ensures
            r == self.spec_bool(),
    {
        let (lo, hi) = self.widths();
        BoolFormat::default().min_width(lo).max_width(hi)
    }
}

/// A cell format as requested: one of the concrete kinds, or not known yet.
#[derive(Clone, Copy, Debug)]
pub enum DatumFormatShorthand {
    /// number format
    Number(NumberFormat),
    /// binary format
    Binary(BinaryFormat),
    /// string format
    String(StringFormat),
    /// bool format
    Bool(BoolFormat),
    /// unknown format
    Unknown(UnknownFormat),
}

/// A concrete cell format.
#[derive(Clone, Copy, Debug)]
pub enum DatumFormat {
    /// number format
    Number(NumberFormat),
    /// binary format
    Binary(BinaryFormat),
    /// string format
    String(StringFormat),
    /// bool format
    Bool(BoolFormat),
}

/// The concrete format an unknown one becomes for a column of kind `t`.
pub open spec fn resolve_unknown(u: UnknownFormat, t: ColumnType) -> DatumFormat {
    match t {
        ColumnType::String => DatumFormat::String(u.spec_string()),
        ColumnType::Bool => DatumFormat::Bool(u.spec_bool()),
        ColumnType::Binary => DatumFormat::Binary(u.spec_binary()),
        ColumnType::Integer => DatumFormat::Number(
            NumberFormat { format_type: FormatType::Decimal, precision: 0, ..u.spec_number() },
        ),
        ColumnType::Float => DatumFormat::Number(
            NumberFormat { format_type: FormatType::Exponent, ..u.spec_number() },
        ),
    }
}

impl DatumFormatShorthand {
    pub open spec fn spec_min_width(self, w: usize) -> DatumFormatShorthand {
        match self {
            DatumFormatShorthand::Number(f) => DatumFormatShorthand::Number(
                NumberFormat { min_width: w, ..f },
            ),
            DatumFormatShorthand::String(f) => DatumFormatShorthand::String(
                StringFormat { min_width: w, ..f },
            ),
            DatumFormatShorthand::Binary(f) => DatumFormatShorthand::Binary(
                BinaryFormat { min_width: w, ..f },
            ),
            DatumFormatShorthand::Bool(f) => DatumFormatShorthand::Bool(
                BoolFormat { min_width: w, ..f },
            ),
            DatumFormatShorthand::Unknown(f) => DatumFormatShorthand::Unknown(
                UnknownFormat { min_width: Some(w), ..f },
            ),
        }
    }

    pub open spec fn spec_max_width(self, w: usize) -> DatumFormatShorthand {
        match self {
            DatumFormatShorthand::Number(f) => DatumFormatShorthand::Number(
                NumberFormat { max_width: w, ..f },
            ),
            DatumFormatShorthand::String(f) => DatumFormatShorthand::String(
                StringFormat { max_width: w, ..f },
            ),
            DatumFormatShorthand::Binary(f) => DatumFormatShorthand::Binary(
                BinaryFormat { max_width: w, ..f },
            ),
            DatumFormatShorthand::Bool(f) => DatumFormatShorthand::Bool(
                BoolFormat { max_width: w, ..f },
            ),
            DatumFormatShorthand::Unknown(f) => DatumFormatShorthand::Unknown(
                UnknownFormat { max_width: Some(w), ..f },
            ),
        }
    }

    /// set min width
    pub fn min_width(self, min_width: usize) -> (r: DatumFormatShorthand)
        ensures
            r == self.spec_min_width(min_width),
    {
        match self {
            DatumFormatShorthand::Number(fmt) => DatumFormatShorthand::Number(fmt.min_width(min_width)),
            DatumFormatShorthand::String(fmt) => DatumFormatShorthand::String(fmt.min_width(min_width)),
            DatumFormatShorthand::Binary(fmt) => DatumFormatShorthand::Binary(
                BinaryFormat { min_width, ..fmt },
            ),
            DatumFormatShorthand::Bool(fmt) => DatumFormatShorthand::Bool(fmt.min_width(min_width)),
            DatumFormatShorthand::Unknown(fmt) => DatumFormatShorthand::Unknown(
                fmt.min_width(min_width),
            ),
        }
    }

    /// set max width
    pub fn max_width(self, max_width: usize) -> (r: DatumFormatShorthand)
        ensures
            r == self.spec_max_width(max_width),
    {
        match self {
            DatumFormatShorthand::Number(fmt) => DatumFormatShorthand::Number(fmt.max_width(max_width)),
            DatumFormatShorthand::String(fmt) => DatumFormatShorthand::String(fmt.max_width(max_width)),
            DatumFormatShorthand::Binary(fmt) => DatumFormatShorthand::Binary(
                BinaryFormat { max_width, ..fmt },
            ),
            DatumFormatShorthand::Bool(fmt) => DatumFormatShorthand::Bool(fmt.max_width(max_width)),
            DatumFormatShorthand::Unknown(fmt) => DatumFormatShorthand::Unknown(
                fmt.max_width(max_width),
            ),
        }
    }

    /// The concrete format for a column of kind `t`: a concrete request is kept
    /// as it is; an unknown one becomes the default format of that kind.
    pub open spec fn spec_resolve(self, t: ColumnType) -> DatumFormat {
        match self {
            DatumFormatShorthand::Number(f) => DatumFormat::Number(f),
            DatumFormatShorthand::Binary(f) => DatumFormat::Binary(f),
            DatumFormatShorthand::String(f) => DatumFormat::String(f),
            DatumFormatShorthand::Bool(f) => DatumFormat::Bool(f),
            DatumFormatShorthand::Unknown(u) => resolve_unknown(u, t),
        }
    }

    /// convert shorthand into a concrete format for a column of kind `t`
    pub fn resolve(self, t: &ColumnType) -> (r: DatumFormat)
        ensures
            r == self.spec_resolve(*t),
    {
        match self {
            DatumFormatShorthand::Number(fmt) => DatumFormat::Number(fmt),
            DatumFormatShorthand::Binary(fmt) => DatumFormat::Binary(fmt),
            DatumFormatShorthand::String(fmt) => DatumFormat::String(fmt),
            DatumFormatShorthand::Bool(fmt) => DatumFormat::Bool(fmt),
            DatumFormatShorthand::Unknown(fmt) => match t {
                ColumnType::String => DatumFormat::String(fmt.to_string_format()),
                ColumnType::Bool => DatumFormat::Bool(fmt.to_bool_format()),
                ColumnType::Binary => DatumFormat::Binary(fmt.to_binary_format()),
                ColumnType::Integer => {
                    let f = fmt.to_number_format();
                    DatumFormat::Number(f.format_type(&FormatType::Decimal).precision(0))
                },
                ColumnType::Float => {
                    let f = fmt.to_number_format();
                    DatumFormat::Number(f.format_type(&FormatType::Exponent))
                },
            },
        }
    }

    /// convert shorthand into formal version, for a column whose source type
    /// is `dtype`; an unknown format on a type without a rule is refused
    pub fn finalize(self, dtype: &DataType) -> (r: Result<DatumFormat, FormatError>)
        ensures
            match (self, dtype.spec_column_type()) {
                (DatumFormatShorthand::Unknown(_), None) => r matches Err(
                    FormatError::UnsupportedDatatype(_),
                ),
                (_, Some(t)) => r == Ok::<DatumFormat, FormatError>(self.spec_resolve(t)),
                (_, None) => r == Ok::<DatumFormat, FormatError>(
                    self.spec_resolve(ColumnType::String),
                ),
            },
    {
        match dtype.column_type() {
            Some(t) => Ok(self.resolve(&t)),
            None => match self {
                DatumFormatShorthand::Unknown(_) => {
                    let mut msg = "Unsupported datatype: ".to_owned();
                    if let DataType::Other(name) = dtype {
                        msg.append(name.as_str());
                    }
                    Err(FormatError::UnsupportedDatatype(msg))
                },
                _ => Ok(self.resolve(&ColumnType::String)),
            },
        }
    }
}

impl DatumFormat {
    /// The min width of the wrapped format.
    pub open spec fn spec_get_min_width(self) -> usize {
        match self {
            DatumFormat::Number(f) => f.min_width,
            DatumFormat::String(f) => f.min_width,
            DatumFormat::Binary(f) => f.min_width,
            DatumFormat::Bool(f) => f.min_width,
        }
    }

    /// The max width of the wrapped format.
    pub open spec fn spec_get_max_width(self) -> usize {
        match self {
            DatumFormat::Number(f) => f.max_width,
            DatumFormat::String(f) => f.max_width,
            DatumFormat::Binary(f) => f.max_width,
            DatumFormat::Bool(f) => f.max_width,
        }
    }

    pub open spec fn spec_min_width(self, w: usize) -> DatumFormat {
        match self {
            DatumFormat::Number(f) => DatumFormat::Number(NumberFormat { min_width: w, ..f }),
            DatumFormat::String(f) => DatumFormat::String(StringFormat { min_width: w, ..f }),
            DatumFormat::Binary(f) => DatumFormat::Binary(BinaryFormat { min_width: w, ..f }),
            DatumFormat::Bool(f) => DatumFormat::Bool(BoolFormat { min_width: w, ..f }),
        }
    }

    pub open spec fn spec_max_width(self, w: usize) -> DatumFormat {
        match self {
            DatumFormat::Number(f) => DatumFormat::Number(NumberFormat { max_width: w, ..f }),
            DatumFormat::String(f) => DatumFormat::String(StringFormat { max_width: w, ..f }),
            DatumFormat::Binary(f) => DatumFormat::Binary(BinaryFormat { max_width: w, ..f }),
            DatumFormat::Bool(f) => DatumFormat::Bool(BoolFormat { max_width: w, ..f }),
        }
    }

    /// The same format, as a request.
    pub open spec fn spec_shorthand(self) -> DatumFormatShorthand {
        match self {
            DatumFormat::Number(f) => DatumFormatShorthand::Number(f),
            DatumFormat::String(f) => DatumFormatShorthand::String(f),
            DatumFormat::Binary(f) => DatumFormatShorthand::Binary(f),
            DatumFormat::Bool(f) => DatumFormatShorthand::Bool(f),
        }
    }

    /// The same format, as a request.
    pub fn to_shorthand(self) -> (r: DatumFormatShorthand)
        ensures
            r == self.spec_shorthand(),
    {
        match self {
            DatumFormat::Number(f) => DatumFormatShorthand::Number(f),
            DatumFormat::String(f) => DatumFormatShorthand::String(f),
            DatumFormat::Binary(f) => DatumFormatShorthand::Binary(f),
            DatumFormat::Bool(f) => DatumFormatShorthand::Bool(f),
        }
    }

    /// set min width
    pub fn min_width(self, min_width: usize) -> (r: DatumFormat)
        ensures
            r == self.spec_min_width(min_width),
    {
        match self {
            DatumFormat::Number(fmt) => DatumFormat::Number(fmt.min_width(min_width)),
            DatumFormat::String(fmt) => DatumFormat::String(fmt.min_width(min_width)),
            DatumFormat::Binary(fmt) => DatumFormat::Binary(BinaryFormat { min_width, ..fmt }),
            DatumFormat::Bool(fmt) => DatumFormat::Bool(fmt.min_width(min_width)),
        }
    }

    /// set max width
    pub fn max_width(self, max_width: usize) -> (r: DatumFormat)
        ensures
            r == self.spec_max_width(max_width),
    {
        match self {
            DatumFormat::Number(fmt) => DatumFormat::Number(fmt.max_width(max_width)),
            DatumFormat::String(fmt) => DatumFormat::String(fmt.max_width(max_width)),
            DatumFormat::Binary(fmt) => DatumFormat::Binary(BinaryFormat { max_width, ..fmt }),
            DatumFormat::Bool(fmt) => DatumFormat::Bool(fmt.max_width(max_width)),
        }
    }

    /// get min width
    pub fn get_min_width(&self) -> (r: Option<usize>)
        ensures
            r == Some(self.spec_get_min_width()),
    {
        match self {
            DatumFormat::Number(fmt) => Some(fmt.min_width),
            DatumFormat::String(fmt) => Some(fmt.min_width),
            DatumFormat::Binary(fmt) => Some(fmt.min_width),
            DatumFormat::Bool(fmt) => Some(fmt.min_width),
        }
    }

    /// get max width
    pub fn get_max_width(&self) -> (r: Option<usize>)
        ensures
            r == Some(self.spec_get_max_width()),
    {
        match self {
            DatumFormat::Number(fmt) => Some(fmt.max_width),
            DatumFormat::String(fmt) => Some(fmt.max_width),
            DatumFormat::Binary(fmt) => Some(fmt.max_width),
            DatumFormat::Bool(fmt) => Some(fmt.max_width),
        }
    }

    /// the number format, or `MismatchedFormatType`
    pub fn into_number(self) -> (r: Result<NumberFormat, FormatError>)
        ensures
            match self {
                DatumFormat::Number(f) => r == Ok::<NumberFormat, FormatError>(f),
                _ => r matches Err(FormatError::MismatchedFormatType(_)),
            },
    {
        match self {
            DatumFormat::Number(format) => Ok(format),
            _ => Err(FormatError::MismatchedFormatType("not a NumberFormat".to_owned())),
        }
    }

    /// the string format, or `MismatchedFormatType`
    pub fn into_string(self) -> (r: Result<StringFormat, FormatError>)
        ensures
            match self {
                DatumFormat::String(f) => r == Ok::<StringFormat, FormatError>(f),
                _ => r matches Err(FormatError::MismatchedFormatType(_)),
            },
    {
        match self {
            DatumFormat::String(format) => Ok(format),
            _ => Err(FormatError::MismatchedFormatType("not a StringFormat".to_owned())),
        }
    }

    /// the binary format, or `MismatchedFormatType`
    pub fn into_binary(self) -> (r: Result<BinaryFormat, FormatError>)
        ensures
            match self {
                DatumFormat::Binary(f) => r == Ok::<BinaryFormat, FormatError>(f),
                _ => r matches Err(FormatError::MismatchedFormatType(_)),
            },
    {
        match self {
            DatumFormat::Binary(format) => Ok(format),
            _ => Err(FormatError::MismatchedFormatType("not a BinaryFormat".to_owned())),
        }
    }

    /// the boolean format, or `MismatchedFormatType`
    pub fn into_bool(self) -> (r: Result<BoolFormat, FormatError>)
        ensures
            match self {
                DatumFormat::Bool(f) => r == Ok::<BoolFormat, FormatError>(f),
                _ => r matches Err(FormatError::MismatchedFormatType(_)),
            },
    {
        match self {
            DatumFormat::Bool(format) => Ok(format),
            _ => Err(FormatError::MismatchedFormatType("not a BoolFormat".to_owned())),
        }
    }
}

/// Resolution is a function of the request and the column kind, and a
/// resolved format resolves to itself: resolving an unknown format once or
/// twice against the same kind gives the same concrete format.
pub proof fn lemma_resolve_idempotent(f: DatumFormatShorthand, t: ColumnType)
    ensures
        f.spec_resolve(t).spec_shorthand().spec_resolve(t) == f.spec_resolve(t),
        forall|g: DatumFormatShorthand| g == f ==> #[trigger] g.spec_resolve(t) == f.spec_resolve(t),
{
}

} // verus!
