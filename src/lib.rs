//! Display formatting: scalar values (numbers, strings, byte strings,
//! booleans) rendered to width-bounded text, and columns of such values laid
//! out as a table that fits a width and height budget.
//!
//! Each scalar format has a model (`spec_format`, `spec_fit`) that its
//! executable `format` is proved against; the table layout is proved against
//! [`table_format::Layout::spec_render`]. The laws the formats keep (widths,
//! round trips, the `0x` prefix, resolution, the layout fitting its width)
//! are proof functions beside the code they are about.

pub mod binary_format;
pub mod box_format;
pub mod column_format;
pub mod datum_format;
pub mod error;
pub mod multiline_format;
pub mod number_format;
pub mod number_text;
pub mod series_format;
pub mod string_format;
pub mod table_format;
pub mod table_types;
pub mod text;

pub use binary_format::{AsOptionRef, BinaryAlign, BinaryFormat};
pub use box_format::{
    BorderChars, RgbColor, header_underline, hex_to_color, repeat_str, text_box_bottom,
    text_box_top,
};
pub use column_format::{
    ColumnFormat, ColumnFormatShorthand, HorizontalAlign, VerticalAlign, format_cells,
    format_cells_with,
};
pub use datum_format::{ColumnType, DataType, DatumFormat, DatumFormatShorthand, UnknownFormat};
pub use error::{ErrorKind, FormatError};
pub use multiline_format::{
    align_left, align_line_left, align_line_right, align_right, join_lines, line_width, lines,
    n_lines, widest, width,
};
pub use number_format::{FormatType, NumberAlign, NumberFormat, Sign, Timezone};
pub use number_text::{group_thousands, radix_prefix, si_prefix, sign_prefix, trim_fraction};
pub use series_format::{SeriesAlign, SeriesFormat, SeriesFormatShorthand};
pub use string_format::{BoolAlign, BoolFormat, StringAlign, StringFormat};
pub use table_format::{DEFAULT_TABLE_HEIGHT, Layout, TableFormat, TableFormatFinal};
pub use table_types::{Column, ColumnData, Table};
pub use text::{chars_of, repeat};
