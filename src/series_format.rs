use vstd::prelude::*;

use crate::column_format::{
    HorizontalAlign,
    cells_result_matches, format_cells_with, renamed_display, spec_format_column,
    underscores_to_newlines,
};
use crate::datum_format::{DataType, DatumFormat, DatumFormatShorthand, UnknownFormat};
use crate::error::{ErrorKind, FormatError};
use crate::multiline_format::{max_len, split_lines, unicode_pad, unicode_padded, views, widest, width};
use crate::table_types::ColumnData;

verus! {

/// column alignment
#[derive(PartialEq, Eq, Structural, Clone, Copy, Debug)]
pub enum SeriesAlign {
    /// left
    Left,
    /// right
    Right,
}

/// A series format whose cell format may not be known yet.
#[derive(Debug)]
pub struct SeriesFormatShorthand {
    /// name
    pub name: String,
    /// display name
    pub display_name: String,
    /// format
    pub format: DatumFormatShorthand,
    /// alignment
    pub align: SeriesAlign,
}

/// How one series is rendered: cells formatted, then all padded to the
/// widest.
#[derive(Debug)]
pub struct SeriesFormat {
    /// name
    pub name: String,
    /// display name
    pub display_name: String,
    /// format
    pub format: DatumFormat,
    /// alignment
    pub align: SeriesAlign,
}

impl Default for SeriesFormatShorthand {
    fn default() -> (r: SeriesFormatShorthand)
        ensures
            r.name@.len() == 0,
            r.display_name@.len() == 0,
            r.format == DatumFormatShorthand::Unknown(
                UnknownFormat { min_width: None, max_width: None },
            ),
            r.align == SeriesAlign::Right,
    {
        let format = UnknownFormat { min_width: None, max_width: None };
        SeriesFormatShorthand {
            name: String::new(),
            display_name: String::new(),
            format: DatumFormatShorthand::Unknown(format),
            align: SeriesAlign::Right,
        }
    }
}

impl SeriesFormatShorthand {
    /// finalize shorthand into a series format for a series whose source
    /// type is `dtype`
    pub fn finalize(self, dtype: &DataType) -> (r: Result<SeriesFormat, FormatError>)
        ensures
            match (self.format, dtype.spec_column_type()) {
                (DatumFormatShorthand::Unknown(_), None) => r matches Err(
                    FormatError::UnsupportedDatatype(_),
                ),
                (f, t) => r matches Ok(s) && s.name == self.name && s.display_name
                    == self.display_name && s.align == self.align && s.format == f.spec_resolve(
                    match t {
                        Some(t) => t,
                        None => crate::datum_format::ColumnType::String,
                    },
                ),
            },
    {
        let format = match self.format.finalize(dtype) {
            Ok(f) => f,
            Err(e) => {
                return Err(e);
            },
        };
        Ok(
            SeriesFormat {
                name: self.name,
                display_name: self.display_name,
                format,
                align: self.align,
            },
        )
    }

    /// new
    pub fn new() -> (r: SeriesFormatShorthand)
        ensures
            r.name@.len() == 0,
            r.display_name@.len() == 0,
            r.format == DatumFormatShorthand::Unknown(
                UnknownFormat { min_width: None, max_width: None },
            ),
            r.align == SeriesAlign::Right,
    {
        SeriesFormatShorthand::default()
    }

    /// set name; an empty display name becomes the name too
    pub fn name(self, name: &str) -> (r: SeriesFormatShorthand)
        ensures
            r.name@ == name@,
            r.display_name@ == renamed_display(self.display_name@, name@),
            r.format == self.format,
            r.align == self.align,
    {
        let mut s = self;
        s.name = name.to_owned();
        if s.display_name.as_str().is_empty() {
            s.display_name = name.to_owned();
        }
        s
    }

    /// set display name
    pub fn display_name(self, display_name: &str) -> (r: SeriesFormatShorthand)
        ensures
            r == (SeriesFormatShorthand { display_name: r.display_name, ..self }),
            r.display_name@ == display_name@,
    {
        let mut s = self;
        s.display_name = display_name.to_owned();
        s
    }

    /// turn each underscore of the display name into a line break
    pub fn newline_underscores(self) -> (r: SeriesFormatShorthand)
        ensures
            r == (SeriesFormatShorthand { display_name: r.display_name, ..self }),
            r.display_name@ == underscores_to_newlines(self.display_name@),
    {
        let mut s = self;
        s.display_name = crate::column_format::replace_underscores(s.display_name.as_str());
        s
    }

    /// set width
    pub fn width(self, width: usize) -> (r: SeriesFormatShorthand)
        ensures
            r == (SeriesFormatShorthand {
                format: self.format.spec_min_width(width).spec_max_width(width),
                ..self
            }),
    {
        self.min_width(width).max_width(width)
    }

    /// set min width
    pub fn min_width(self, width: usize) -> (r: SeriesFormatShorthand)
        ensures
            r == (SeriesFormatShorthand { format: self.format.spec_min_width(width), ..self }),
    {
        let mut s = self;
        s.format = s.format.min_width(width);
        s
    }

    /// set max width
    pub fn max_width(self, width: usize) -> (r: SeriesFormatShorthand)
        ensures
            r == (SeriesFormatShorthand { format: self.format.spec_max_width(width), ..self }),
    {
        let mut s = self;
        s.format = s.format.max_width(width);
        s
    }

    /// set format
    pub fn set_format(self, format: DatumFormatShorthand) -> (r: SeriesFormatShorthand)
        ensures
            r == (SeriesFormatShorthand { format, ..self }),
    {
        let mut s = self;
        s.format = format;
        s
    }
}

impl SeriesFormat {
    /// The cells `format` yields: each value formatted, a missing one as the
    /// empty text, then every cell padded and cut to the widest.
    pub open spec fn spec_format(&self, series: ColumnData) -> Result<Seq<Seq<char>>, ErrorKind> {
        match spec_format_column(self.format, series, series.spec_len(), Some(Seq::empty())) {
            Err(e) => Err(e),
            Ok(cells) => Ok(
                cells.map_values(
                    |c: Seq<char>|
                        unicode_padded(c, max_len(cells), self.align == SeriesAlign::Right, true),
                ),
            ),
        }
    }

    /// get header width
    pub fn header_width(&self) -> (r: usize)
        ensures
            r == max_len(split_lines(self.display_name@)),
    {
        width(self.display_name.as_str())
    }

    /// get min width
    pub fn get_min_width(&self) -> (r: usize)
        ensures
            r == self.format.spec_get_min_width(),
    {
        match self.format.get_min_width() {
            Some(w) => w,
            None => 0,
        }
    }

    /// get max width
    pub fn get_max_width(&self) -> (r: usize)
        ensures
            r == self.format.spec_get_max_width(),
    {
        match self.format.get_max_width() {
            Some(w) => w,
            None => usize::MAX,
        }
    }

    /// format series
    pub fn format(&self, series: &ColumnData) -> (r: Result<Vec<String>, FormatError>)
        ensures
            cells_result_matches(r, self.spec_format(*series)),
    {
        proof {
            reveal_strlit("");
        }
        assert(crate::column_format::opt_str(Some("")) == Some(Seq::<char>::empty()));
        let formatted = match format_cells_with(self.format, series, series.len(), Some("")) {
            Ok(v) => v,
            Err(e) => {
                return Err(e);
            },
        };
        let max_width = widest(&formatted);
        let right = self.align == SeriesAlign::Right;
        let align = match self.align {
            SeriesAlign::Left => HorizontalAlign::Left,
            SeriesAlign::Right => HorizontalAlign::Right,
        };
        let ghost cells = views(formatted@);
        let mut out: Vec<String> = Vec::new();
        let mut i: usize = 0;
        while i < formatted.len()
            invariant
                i <= formatted@.len(),
                cells == views(formatted@),
                max_width == max_len(cells),
                right == (self.align == SeriesAlign::Right),
                right == (align == HorizontalAlign::Right),
                views(out@) == cells.take(i as int).map_values(
                    |c: Seq<char>| unicode_padded(c, max_len(cells), right, true),
                ),
            decreases formatted@.len() - i,
        {
            let p = unicode_pad(formatted[i].as_str(), max_width, align, true);
            let ghost before = out@;
            out.push(p);
            assert(views(out@) =~= cells.take(i as int + 1).map_values(
                |c: Seq<char>| unicode_padded(c, max_len(cells), right, true),
            )) by {
                assert(views(out@) =~= views(before).push(p@));
                assert(cells[i as int] == formatted@[i as int]@);
            }
            i = i + 1;
        }
        assert(cells.take(i as int) =~= cells);
        Ok(out)
    }

    /// set name; an empty display name becomes the name too
    pub fn name(self, name: &str) -> (r: SeriesFormat)
        ensures
            r.name@ == name@,
            r.display_name@ == renamed_display(self.display_name@, name@),
            r.format == self.format,
            r.align == self.align,
    {
        let mut s = self;
        s.name = name.to_owned();
        if s.display_name.as_str().is_empty() {
            s.display_name = name.to_owned();
        }
        s
    }

    /// set display name
    pub fn display_name(self, display_name: &str) -> (r: SeriesFormat)
        ensures
            r == (SeriesFormat { display_name: r.display_name, ..self }),
            r.display_name@ == display_name@,
    {
        let mut s = self;
        s.display_name = display_name.to_owned();
        s
    }

    /// turn each underscore of the display name into a line break
    pub fn newline_underscores(self) -> (r: SeriesFormat)
        ensures
            r == (SeriesFormat { display_name: r.display_name, ..self }),
            r.display_name@ == underscores_to_newlines(self.display_name@),
    {
        let mut s = self;
        s.display_name = crate::column_format::replace_underscores(s.display_name.as_str());
        s
    }

    /// set width
    pub fn width(self, width: usize) -> (r: SeriesFormat)
        ensures
            r == (SeriesFormat {
                format: self.format.spec_min_width(width).spec_max_width(width),
                ..self
            }),
    {
        self.min_width(width).max_width(width)
    }

    /// set min width
    pub fn min_width(self, width: usize) -> (r: SeriesFormat)
        ensures
            r == (SeriesFormat { format: self.format.spec_min_width(width), ..self }),
    {
        let mut s = self;
        s.format = s.format.min_width(width);
        s
    }

    /// set max width
    pub fn max_width(self, width: usize) -> (r: SeriesFormat)
        ensures
            r == (SeriesFormat { format: self.format.spec_max_width(width), ..self }),
    {
        let mut s = self;
        s.format = s.format.max_width(width);
        s
    }
}

} // verus!
