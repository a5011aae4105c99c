use vstd::prelude::*;

use crate::datum_format::{ColumnType, DatumFormat, DatumFormatShorthand, UnknownFormat};
use crate::error::{ErrorKind, FormatError};
use crate::multiline_format::{max_len, split_lines, views, width};
use crate::table_types::ColumnData;
use crate::text::{chars_of, repeat, repeat_char};

verus! {

/// horizontal alignment
#[derive(PartialEq, Eq, Structural, Clone, Copy, Debug)]
pub enum HorizontalAlign {
    /// left
    Left,
    /// right
    Right,
}

/// vertical alignment
#[derive(PartialEq, Eq, Structural, Clone, Copy, Debug)]
pub enum VerticalAlign {
    /// top
    Top,
    /// bottom
    Bottom,
}

/// `s` with every `'_'` turned into a line break.
pub open spec fn underscores_to_newlines(s: Seq<char>) -> Seq<char> {
    s.map_values(|c: char| if c == '_' { '\n' } else { c })
}

pub(crate) fn replace_underscores(s: &str) -> (r: String)
    ensures
        r@ == underscores_to_newlines(s@),
{
    let cs = chars_of(s);
    let mut out = String::new();
    let mut i: usize = 0;
    while i < cs.len()
        invariant
            i <= cs@.len(),
            cs@ == s@,
            out@ == underscores_to_newlines(cs@.take(i as int)),
        decreases cs@.len() - i,
    {
        let c = cs[i];
        if c == '_' {
            out.push('\n');
        } else {
            out.push(c);
        }
        assert(out@ =~= underscores_to_newlines(cs@.take(i as int + 1)));
        i = i + 1;
    }
    assert(cs@.take(i as int) =~= cs@);
    out
}

/// The name a builder sets, and the display name it leaves: the new name
/// where the display name was empty.
pub open spec fn renamed_display(display_name: Seq<char>, name: Seq<char>) -> Seq<char> {
    if display_name.len() == 0 {
        name
    } else {
        display_name
    }
}

/// The bytes of an optional byte string.
pub open spec fn opt_bytes(o: Option<Vec<u8>>) -> Option<Seq<u8>> {
    match o {
        Some(v) => Some(v@),
        None => None,
    }
}

/// The characters of an optional string.
pub open spec fn opt_text(o: Option<String>) -> Option<Seq<char>> {
    match o {
        Some(s) => Some(s@),
        None => None,
    }
}

/// Whether a format is of the kind a column's data needs.
pub open spec fn format_fits_data(fmt: DatumFormat, data: ColumnData) -> bool {
    match data {
        ColumnData::BinaryColumn(_) | ColumnData::BinaryOptionColumn(_) => fmt is Binary,
        ColumnData::StringColumn(_) | ColumnData::StringOptionColumn(_) => fmt is String,
        ColumnData::BoolColumn(_) | ColumnData::BoolOptionColumn(_) => fmt is Bool,
        _ => fmt is Number,
    }
}

/// The text standing for a missing value: `missing` where given, else the
/// fill character repeated `min_width` times.
pub open spec fn missing_text(missing: Option<Seq<char>>, fill: char, min_width: usize) -> Seq<char> {
    match missing {
        Some(t) => t,
        None => repeat_char(fill, min_width as nat),
    }
}

/// The text of cell `i` under `fmt`, `missing` standing for a missing value
/// as [`missing_text`] says.
pub open spec fn spec_cell(
    fmt: DatumFormat,
    data: ColumnData,
    i: int,
    missing: Option<Seq<char>>,
) -> Result<Seq<char>, ErrorKind> {
    match (fmt, data) {
        (DatumFormat::Binary(f), ColumnData::BinaryColumn(v)) => f.spec_format(v@[i]@),
        (DatumFormat::Binary(f), ColumnData::BinaryOptionColumn(v)) => f.spec_format_option(
            opt_bytes(v@[i]),
            missing_text(missing, f.fill_char, f.min_width),
        ),
        (DatumFormat::String(f), ColumnData::StringColumn(v)) => f.spec_format(v@[i]@),
        (DatumFormat::String(f), ColumnData::StringOptionColumn(v)) => f.spec_format_option(
            opt_text(v@[i]),
            missing_text(missing, f.fill_char, f.min_width),
        ),
        (DatumFormat::Bool(f), ColumnData::BoolColumn(v)) => f.spec_format(v@[i]),
        (DatumFormat::Bool(f), ColumnData::BoolOptionColumn(v)) => match v@[i] {
            Some(b) => f.spec_format(b),
            None => Ok(missing_text(missing, f.fill_char, f.min_width)),
        },
        (DatumFormat::Number(f), ColumnData::IntegerColumn(v)) => f.spec_fit(v@[i]@),
        (DatumFormat::Number(f), ColumnData::FloatColumn(v)) => f.spec_fit(v@[i]@),
        (DatumFormat::Number(f), ColumnData::IntegerOptionColumn(v)) => match opt_text(v@[i]) {
            Some(t) => f.spec_fit(t),
            None => Ok(missing_text(missing, f.fill, f.min_width)),
        },
        (DatumFormat::Number(f), ColumnData::FloatOptionColumn(v)) => match opt_text(v@[i]) {
            Some(t) => f.spec_fit(t),
            None => Ok(missing_text(missing, f.fill, f.min_width)),
        },
        _ => Err(ErrorKind::MismatchedFormatType),
    }
}

/// The texts of the first `n` cells, or the error of the first cell that
/// fails.
pub open spec fn spec_cells(
    fmt: DatumFormat,
    data: ColumnData,
    n: nat,
    missing: Option<Seq<char>>,
) -> Result<
    Seq<Seq<char>>,
    ErrorKind,
>
    decreases n,
{
    if n == 0 {
        Ok(Seq::empty())
    } else {
        match spec_cells(fmt, data, (n - 1) as nat, missing) {
            Err(e) => Err(e),
            Ok(prev) => match spec_cell(fmt, data, n - 1, missing) {
                Ok(c) => Ok(prev.push(c)),
                Err(e) => Err(e),
            },
        }
    }
}

/// The first `n` cells of `data` under `fmt`: a format of the wrong kind is
/// refused before any cell is looked at.
pub open spec fn spec_format_column(
    fmt: DatumFormat,
    data: ColumnData,
    n: nat,
    missing: Option<Seq<char>>,
) -> Result<Seq<Seq<char>>, ErrorKind> {
    if !format_fits_data(fmt, data) {
        Err(ErrorKind::MismatchedFormatType)
    } else {
        spec_cells(fmt, data, n, missing)
    }
}

/// Whether an executable list of cells agrees with a modelled one.
pub open spec fn cells_result_matches(
    r: Result<Vec<String>, FormatError>,
    m: Result<Seq<Seq<char>>, ErrorKind>,
) -> bool {
    match (r, m) {
        (Ok(v), Ok(t)) => views(v@) == t,
        (Err(e), Err(k)) => e.kind() == k,
        _ => false,
    }
}

/// Once a cell fails, every longer prefix fails with the same error.
pub proof fn lemma_cells_error_persists(
    fmt: DatumFormat,
    data: ColumnData,
    k: nat,
    n: nat,
    missing: Option<Seq<char>>,
)
    requires
        k <= n,
        spec_cells(fmt, data, k, missing) is Err,
    ensures
        spec_cells(fmt, data, n, missing) == spec_cells(fmt, data, k, missing),
    decreases n - k,
{
    if k < n {
        lemma_cells_error_persists(fmt, data, k, (n - 1) as nat, missing);
    }
}

/// A successful prefix has one text per cell, each the text of that cell.
pub proof fn lemma_cells_ok(fmt: DatumFormat, data: ColumnData, n: nat, missing: Option<Seq<char>>)
    requires
        spec_cells(fmt, data, n, missing) is Ok,
    ensures
        spec_cells(fmt, data, n, missing)->Ok_0.len() == n,
        forall|i: int|
            0 <= i < n ==> spec_cell(fmt, data, i, missing) == Ok::<Seq<char>, ErrorKind>(
                #[trigger] spec_cells(fmt, data, n, missing)->Ok_0[i],
            ),
    decreases n,
{
    if n > 0 {
        lemma_cells_ok(fmt, data, (n - 1) as nat, missing);
        let prev = spec_cells(fmt, data, (n - 1) as nat, missing)->Ok_0;
        assert forall|i: int| 0 <= i < n implies spec_cell(fmt, data, i, missing) == Ok::<
            Seq<char>,
            ErrorKind,
        >(#[trigger] spec_cells(fmt, data, n, missing)->Ok_0[i]) by {
            if i < n - 1 {
                assert(spec_cells(fmt, data, n, missing)->Ok_0[i] == prev[i]);
            }
        }
    }
}

/// A cell is never wider than the larger of its format's two widths, where
/// missing values stand as the fill character.
pub proof fn lemma_cell_width(fmt: DatumFormat, data: ColumnData, i: int)
    requires
        spec_cell(fmt, data, i, None) is Ok,
    ensures
        spec_cell(fmt, data, i, None)->Ok_0.len() <= fmt.spec_get_min_width()
            || spec_cell(fmt, data, i, None)->Ok_0.len() <= fmt.spec_get_max_width(),
{
    match (fmt, data) {
        (DatumFormat::Binary(f), ColumnData::BinaryColumn(v)) => {
            crate::binary_format::lemma_hex_len(v@[i]@);
        },
        (DatumFormat::Binary(f), ColumnData::BinaryOptionColumn(v)) => {
            if let Some(b) = v@[i] {
                crate::binary_format::lemma_hex_len(b@);
            }
        },
        _ => {},
    }
}

/// Formats cell `i` of `data` with `fmt`.
fn format_cell(fmt: DatumFormat, data: &ColumnData, i: usize, missing: Option<&str>) -> (r: Result<
    String,
    FormatError,
>)
    requires
        i < data.spec_len(),
        format_fits_data(fmt, *data),
    ensures
        crate::error::text_result_matches(
            r,
            spec_cell(fmt, *data, i as int, opt_str(missing)),
        ),
{
    match (fmt, data) {
        (DatumFormat::Binary(f), ColumnData::BinaryColumn(v)) => f.format(v[i].as_slice()),
        (DatumFormat::Binary(f), ColumnData::BinaryOptionColumn(v)) => {
            let none = missing_or_fill(missing, f.fill_char, f.min_width);
            f.format_option(&v[i], none.as_str())
        },
        (DatumFormat::String(f), ColumnData::StringColumn(v)) => f.format(v[i].as_str()),
        (DatumFormat::String(f), ColumnData::StringOptionColumn(v)) => {
            let none = missing_or_fill(missing, f.fill_char, f.min_width);
            match &v[i] {
                Some(s) => f.format_option(Some(s.as_str()), none.as_str()),
                None => f.format_option(None, none.as_str()),
            }
        },
        (DatumFormat::Bool(f), ColumnData::BoolColumn(v)) => f.format(v[i]),
        (DatumFormat::Bool(f), ColumnData::BoolOptionColumn(v)) => {
            let none = missing_or_fill(missing, f.fill_char, f.min_width);
            f.format_option(v[i], none.as_str())
        },
        (DatumFormat::Number(f), ColumnData::IntegerColumn(v)) => f.fit_width(v[i].as_str()),
        (DatumFormat::Number(f), ColumnData::FloatColumn(v)) => f.fit_width(v[i].as_str()),
        (DatumFormat::Number(f), ColumnData::IntegerOptionColumn(v)) => {
            let none = missing_or_fill(missing, f.fill, f.min_width);
            match &v[i] {
                Some(s) => f.fit_width_option(Some(s.as_str()), none.as_str()),
                None => f.fit_width_option(None, none.as_str()),
            }
        },
        (DatumFormat::Number(f), ColumnData::FloatOptionColumn(v)) => {
            let none = missing_or_fill(missing, f.fill, f.min_width);
            match &v[i] {
                Some(s) => f.fit_width_option(Some(s.as_str()), none.as_str()),
                None => f.fit_width_option(None, none.as_str()),
            }
        },
        _ => Err(FormatError::MismatchedFormatType("format does not match column data".to_owned())),
    }
}

/// The characters of an optional text.
pub open spec fn opt_str(o: Option<&str>) -> Option<Seq<char>> {
    match o {
        Some(s) => Some(s@),
        None => None,
    }
}

/// The text for a missing value: `missing`, or `fill` repeated `min_width`
/// times.
fn missing_or_fill(missing: Option<&str>, fill: char, min_width: usize) -> (r: String)
    ensures
        r@ == missing_text(opt_str(missing), fill, min_width),
{
    match missing {
        Some(t) => t.to_owned(),
        None => repeat(fill, min_width),
    }
}

/// Whether `fmt` is of the kind `data` needs.
fn fits_data(fmt: DatumFormat, data: &ColumnData) -> (r: bool)
    ensures
        r == format_fits_data(fmt, *data),
{
    match data {
        ColumnData::BinaryColumn(_) | ColumnData::BinaryOptionColumn(_) => {
            matches!(fmt, DatumFormat::Binary(_))
        },
        ColumnData::StringColumn(_) | ColumnData::StringOptionColumn(_) => {
            matches!(fmt, DatumFormat::String(_))
        },
        ColumnData::BoolColumn(_) | ColumnData::BoolOptionColumn(_) => {
            matches!(fmt, DatumFormat::Bool(_))
        },
        _ => matches!(fmt, DatumFormat::Number(_)),
    }
}

/// Formats the first `n` cells of `data` with `fmt`, a missing value as the
/// fill character repeated `min_width` times.
pub fn format_cells(fmt: DatumFormat, data: &ColumnData, n: usize) -> (r: Result<
    Vec<String>,
    FormatError,
>)
    requires
        n <= data.spec_len(),
    ensures
        cells_result_matches(r, spec_format_column(fmt, *data, n as nat, None)),
{
    format_cells_with(fmt, data, n, None)
}

/// Formats the first `n` cells of `data` with `fmt`, `missing` standing for a
/// missing value as [`missing_text`] says.
pub fn format_cells_with(fmt: DatumFormat, data: &ColumnData, n: usize, missing: Option<&str>) -> (r:
    Result<Vec<String>, FormatError>)
    requires
        n <= data.spec_len(),
    ensures
        cells_result_matches(r, spec_format_column(fmt, *data, n as nat, opt_str(missing))),
{
    if !fits_data(fmt, data) {
        return Err(
            FormatError::MismatchedFormatType("format does not match column data".to_owned()),
        );
    }
    let mut out: Vec<String> = Vec::new();
    let mut i: usize = 0;
    assert(views(out@) =~= Seq::<Seq<char>>::empty());
    while i < n
        invariant
            i <= n,
            n <= data.spec_len(),
            format_fits_data(fmt, *data),
            spec_cells(fmt, *data, i as nat, opt_str(missing)) == Ok::<Seq<Seq<char>>, ErrorKind>(
                views(out@),
            ),
        decreases n - i,
    {
        match format_cell(fmt, data, i, missing) {
            Ok(c) => {
                let ghost prev = out@;
                out.push(c);
                assert(views(out@) =~= views(prev).push(c@));
            },
            Err(e) => {
                proof {
                    lemma_cells_error_persists(fmt, *data, (i + 1) as nat, n as nat, opt_str(missing));
                }
                return Err(e);
            },
        }
        i = i + 1;
    }
    Ok(out)
}

/// column format shorthand: a column format whose cell format may not be
/// known yet
#[derive(Debug)]
pub struct ColumnFormatShorthand {
    /// name
    pub name: String,
    /// display name
    pub display_name: String,
    /// format
    pub format: DatumFormatShorthand,
    /// horizontal alignment
    pub horizontal_align: HorizontalAlign,
    /// vertical alignment
    pub vertical_align: VerticalAlign,
}

impl Clone for ColumnFormatShorthand {
    fn clone(&self) -> (r: Self)
        ensures
            r == *self,
    {
        ColumnFormatShorthand {
            name: self.name.clone(),
            display_name: self.display_name.clone(),
            format: self.format,
            horizontal_align: self.horizontal_align,
            vertical_align: self.vertical_align,
        }
    }
}

impl Default for ColumnFormatShorthand {
    fn default() -> (r: ColumnFormatShorthand)
        ensures
            r.name@.len() == 0,
            r.display_name@.len() == 0,
            r.format == DatumFormatShorthand::Unknown(
                UnknownFormat { min_width: None, max_width: None },
            ),
            r.horizontal_align == HorizontalAlign::Right,
            r.vertical_align == VerticalAlign::Top,
    {
        let format = UnknownFormat { min_width: None, max_width: None };
        ColumnFormatShorthand {
            name: String::new(),
            display_name: String::new(),
            format: DatumFormatShorthand::Unknown(format),
            horizontal_align: HorizontalAlign::Right,
            vertical_align: VerticalAlign::Top,
        }
    }
}

/// column format
#[derive(Debug)]
pub struct ColumnFormat {
    /// name
    pub name: String,
    /// display name
    pub display_name: String,
    /// format
    pub format: DatumFormat,
    /// horizontal alignment
    pub horizontal_align: HorizontalAlign,
    /// vertical alignment
    pub vertical_align: VerticalAlign,
}

impl Clone for ColumnFormat {
    fn clone(&self) -> (r: Self)
        ensures
            r == *self,
    {
        ColumnFormat {
            name: self.name.clone(),
            display_name: self.display_name.clone(),
            format: self.format,
            horizontal_align: self.horizontal_align,
            vertical_align: self.vertical_align,
        }
    }
}

impl ColumnFormatShorthand {
    /// The column format this one becomes for a column of kind `t`.
    pub open spec fn spec_finalize(self, t: ColumnType) -> ColumnFormat {
        ColumnFormat {
            name: self.name,
            display_name: self.display_name,
            format: self.format.spec_resolve(t),
            horizontal_align: self.horizontal_align,
            vertical_align: self.vertical_align,
        }
    }

    /// The column format this one becomes for a column of kind
    /// `column_type`.
    pub fn resolved(self, column_type: &ColumnType) -> (r: ColumnFormat)
        ensures
            r == self.spec_finalize(*column_type),
    {
        ColumnFormat {
            name: self.name,
            display_name: self.display_name,
            format: self.format.resolve(column_type),
            horizontal_align: self.horizontal_align,
            vertical_align: self.vertical_align,
        }
    }

    /// finalize shorthand into a column format for a column of kind
    /// `column_type`; every kind has a rule, so this always succeeds
    pub fn finalize(self, column_type: &ColumnType) -> (r: Result<ColumnFormat, FormatError>)
        ensures
            r == Ok::<ColumnFormat, FormatError>(self.spec_finalize(*column_type)),
    {
        Ok(self.resolved(column_type))
    }

    /// new
    pub fn new() -> (r: ColumnFormatShorthand)
        ensures
            r.name@.len() == 0,
            r.display_name@.len() == 0,
            r.format == DatumFormatShorthand::Unknown(
                UnknownFormat { min_width: None, max_width: None },
            ),
            r.horizontal_align == HorizontalAlign::Right,
            r.vertical_align == VerticalAlign::Top,
    {
        ColumnFormatShorthand::default()
    }

    /// set name; an empty display name becomes the name too
    pub fn name(self, name: &str) -> (r: ColumnFormatShorthand)
        ensures
            r.name@ == name@,
            r.display_name@ == renamed_display(self.display_name@, name@),
            r.format == self.format,
            r.horizontal_align == self.horizontal_align,
            r.vertical_align == self.vertical_align,
    {
        let mut s = self;
        s.name = name.to_owned();
        if s.display_name.as_str().is_empty() {
            s.display_name = name.to_owned();
        }
        s
    }

    /// set display name
    pub fn display_name(self, display_name: &str) -> (r: ColumnFormatShorthand)
        ensures
            r == (ColumnFormatShorthand { display_name: r.display_name, ..self }),
            r.display_name@ == display_name@,
    {
        let mut s = self;
        s.display_name = display_name.to_owned();
        s
    }

    /// turn each underscore of the display name into a line break
    pub fn newline_underscores(self) -> (r: ColumnFormatShorthand)
        ensures
            r == (ColumnFormatShorthand { display_name: r.display_name, ..self }),
            r.display_name@ == underscores_to_newlines(self.display_name@),
    {
        let mut s = self;
        s.display_name = replace_underscores(s.display_name.as_str());
        s
    }

    /// set width
    pub fn width(self, width: usize) -> (r: ColumnFormatShorthand)
        ensures
            r == (ColumnFormatShorthand {
                format: self.format.spec_min_width(width).spec_max_width(width),
                ..self
            }),
    {
        self.min_width(width).max_width(width)
    }

    /// set min width
    pub fn min_width(self, width: usize) -> (r: ColumnFormatShorthand)
        ensures
            r == (ColumnFormatShorthand { format: self.format.spec_min_width(width), ..self }),
    {
        let mut s = self;
        s.format = s.format.min_width(width);
        s
    }

    /// set max width
    pub fn max_width(self, width: usize) -> (r: ColumnFormatShorthand)
        ensures
            r == (ColumnFormatShorthand { format: self.format.spec_max_width(width), ..self }),
    {
        let mut s = self;
        s.format = s.format.max_width(width);
        s
    }

    /// set format
    pub fn set_format(self, format: DatumFormatShorthand) -> (r: ColumnFormatShorthand)
        ensures
            r == (ColumnFormatShorthand { format, ..self }),
    {
        let mut s = self;
        s.format = format;
        s
    }
}

impl ColumnFormat {
    /// The width of the header: its widest line.
    pub open spec fn spec_header_width(&self) -> nat {
        max_len(split_lines(self.display_name@))
    }

    /// get header width
    pub fn header_width(&self) -> (r: usize)
        ensures
            r == self.spec_header_width(),
    {
        width(self.display_name.as_str())
    }

    /// get min width
    pub fn get_min_width(&self) -> (r: usize)
        ensures
            r == self.format.spec_get_min_width(),
    {
        match self.format.get_min_width() {
            Some(w) => w,
            None => 0,
        }
    }

    /// get max width
    pub fn get_max_width(&self) -> (r: usize)
        ensures
            r == self.format.spec_get_max_width(),
    {
        match self.format.get_max_width() {
            Some(w) => w,
            None => usize::MAX,
        }
    }

    /// format every cell of a column
    pub fn format(&self, series: &ColumnData) -> (r: Result<Vec<String>, FormatError>)
        ensures
            cells_result_matches(
                r,
                spec_format_column(self.format, *series, series.spec_len(), None),
            ),
    {
        format_cells(self.format, series, series.len())
    }

    /// set name; an empty display name becomes the name too
    pub fn name(self, name: &str) -> (r: ColumnFormat)
        ensures
            r.name@ == name@,
            r.display_name@ == renamed_display(self.display_name@, name@),
            r.format == self.format,
            r.horizontal_align == self.horizontal_align,
            r.vertical_align == self.vertical_align,
    {
        let mut s = self;
        s.name = name.to_owned();
        if s.display_name.as_str().is_empty() {
            s.display_name = name.to_owned();
        }
        s
    }

    /// set display name
    pub fn display_name(self, display_name: &str) -> (r: ColumnFormat)
        ensures
            r == (ColumnFormat { display_name: r.display_name, ..self }),
            r.display_name@ == display_name@,
    {
        let mut s = self;
        s.display_name = display_name.to_owned();
        s
    }

    /// turn each underscore of the display name into a line break
    pub fn newline_underscores(self) -> (r: ColumnFormat)
        ensures
            r == (ColumnFormat { display_name: r.display_name, ..self }),
            r.display_name@ == underscores_to_newlines(self.display_name@),
    {
        let mut s = self;
        s.display_name = replace_underscores(s.display_name.as_str());
        s
    }

    /// set width
    pub fn width(self, width: usize) -> (r: ColumnFormat)
        ensures
            r == (ColumnFormat {
                format: self.format.spec_min_width(width).spec_max_width(width),
                ..self
            }),
    {
        self.min_width(width).max_width(width)
    }

    /// set min width
    pub fn min_width(self, width: usize) -> (r: ColumnFormat)
        ensures
            r == (ColumnFormat { format: self.format.spec_min_width(width), ..self }),
    {
        let mut s = self;
        s.format = s.format.min_width(width);
        s
    }

    /// set max width
    pub fn max_width(self, width: usize) -> (r: ColumnFormat)
        ensures
            r == (ColumnFormat { format: self.format.spec_max_width(width), ..self }),
    {
        let mut s = self;
        s.format = s.format.max_width(width);
        s
    }
}

} // verus!
