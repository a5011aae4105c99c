use vstd::prelude::*;

use crate::column_format::{
    ColumnFormat, ColumnFormatShorthand, HorizontalAlign, VerticalAlign, format_cells,
    spec_format_column,
};
use crate::datum_format::{DatumFormat, DatumFormatShorthand, UnknownFormat, resolve_unknown};
use crate::error::{ErrorKind, FormatError};
use crate::multiline_format::{join, join_lines, lines, max_len, split_lines, views, widest};
use crate::string_format::pad_text;
use crate::text::{repeat, repeat_char, spaces};
use crate::table_types::{Column, Table, find_column};

verus! {

/// Rendered height when none is configured, header rows included.
pub const DEFAULT_TABLE_HEIGHT: usize = 30;

/// The sum of `xs`.
pub open spec fn seq_sum(xs: Seq<nat>) -> nat
    decreases xs.len(),
{
    if xs.len() == 0 {
        0
    } else {
        xs[0] + seq_sum(xs.subrange(1, xs.len() as int))
    }
}

/// `x + y`, or `usize::MAX` where that does not fit.
pub open spec fn saturating(x: int) -> nat {
    if x > usize::MAX {
        usize::MAX as nat
    } else if x < 0 {
        0
    } else {
        x as nat
    }
}

/// The width of the first `k` of `ws` laid side by side, `d` apart.
pub open spec fn span(ws: Seq<nat>, k: nat, d: nat) -> nat {
    if k == 0 {
        0
    } else {
        seq_sum(ws.take(k as int)) + d * (k - 1) as nat
    }
}

/// How many of `ws`, from position `k` on, still fit in `budget` one after
/// the other: admission stops at the first one that does not fit.
pub open spec fn admitted(ws: Seq<nat>, d: nat, budget: nat, k: nat) -> nat
    decreases ws.len() - k,
{
    if k < ws.len() && span(ws, k + 1, d) <= budget {
        admitted(ws, d, budget, k + 1)
    } else {
        k
    }
}

/// The larger of two widths.
pub open spec fn max_nat(a: nat, b: nat) -> nat {
    if a > b {
        a
    } else {
        b
    }
}

/// The smaller of two widths.
pub open spec fn min_nat(a: nat, b: nat) -> nat {
    if a < b {
        a
    } else {
        b
    }
}

/// What the layout works from: a table format with every setting resolved.
pub struct Layout {
    pub formats: Seq<ColumnFormat>,
    pub column_delimiter: Seq<char>,
    pub header_separator_delimiter: Seq<char>,
    pub header_separator_char: char,
    pub include_header_row: bool,
    pub include_header_separator_row: bool,
    pub include_summary_row: bool,
    pub include_summary_separator_row: bool,
    pub render_height: nat,
    pub max_render_width: nat,
    pub indent: nat,
}

/// The line count of the tallest header among `formats`, `0` for none.
pub open spec fn header_lines(formats: Seq<ColumnFormat>) -> nat
    decreases formats.len(),
{
    if formats.len() == 0 {
        0
    } else {
        max_nat(
            header_lines(formats.drop_last()),
            split_lines(formats.last().display_name@).len(),
        )
    }
}

impl Layout {
    pub open spec fn delimiter_width(self) -> nat {
        self.column_delimiter.len()
    }

    /// Rows of header text.
    pub open spec fn n_header_lines(self) -> nat {
        header_lines(self.formats)
    }

    /// How many data rows fit under the header and above the summary.
    pub open spec fn n_data_rows(self) -> nat {
        let header = if self.include_header_row {
            self.n_header_lines() + if self.include_header_separator_row {
                1nat
            } else {
                0nat
            }
        } else {
            0nat
        };
        let summary = if self.include_summary_row {
            1 + if self.include_summary_separator_row {
                1nat
            } else {
                0nat
            }
        } else {
            0nat
        };
        saturating(self.render_height - header - summary)
    }
}


/// A column of width `used` and cells `cells` put before the rest of a layout.
pub open spec fn prepend_layout(
    used: nat,
    cells: Seq<Seq<char>>,
    rest: Result<(Seq<nat>, Seq<Seq<Seq<char>>>), ErrorKind>,
) -> Result<(Seq<nat>, Seq<Seq<Seq<char>>>), ErrorKind> {
    match rest {
        Ok((us, cs)) => Ok((seq![used] + us, seq![cells] + cs)),
        Err(e) => Err(e),
    }
}

/// Columns already laid out put before the rest of a layout.
pub open spec fn extend_layout(
    used: Seq<nat>,
    cells: Seq<Seq<Seq<char>>>,
    rest: Result<(Seq<nat>, Seq<Seq<Seq<char>>>), ErrorKind>,
) -> Result<(Seq<nat>, Seq<Seq<Seq<char>>>), ErrorKind> {
    match rest {
        Ok((us, cs)) => Ok((used + us, cells + cs)),
        Err(e) => Err(e),
    }
}

impl Layout {
    /// A column's least width: its header's, or its format's min width if wider.
    pub open spec fn min_width_of(self, c: int) -> nat {
        max_nat(
            self.formats[c].spec_header_width(),
            self.formats[c].format.spec_get_min_width() as nat,
        )
    }

    /// A column's greatest width.
    pub open spec fn max_width_of(self, c: int) -> nat {
        self.formats[c].format.spec_get_max_width() as nat
    }

    /// The least widths of all columns.
    pub open spec fn min_widths(self) -> Seq<nat> {
        Seq::new(self.formats.len(), |c: int| self.min_width_of(c))
    }

    /// No column needs more than it may take.
    pub open spec fn widths_consistent(self) -> bool {
        forall|c: int|
            0 <= c < self.formats.len() ==> #[trigger] self.min_width_of(c) <= self.max_width_of(c)
    }

    /// How many columns are shown: those, from the left, whose least widths
    /// fit the render width.
    pub open spec fn n_used(self) -> nat {
        admitted(self.min_widths(), self.delimiter_width(), self.max_render_width, 0)
    }

    /// The render width left once the shown columns have their least widths.
    pub open spec fn initial_spare(self) -> nat {
        (self.max_render_width - span(
            self.min_widths(),
            self.n_used(),
            self.delimiter_width(),
        )) as nat
    }

    /// The number of data rows rendered for `table`.
    pub open spec fn rows_for(self, table: Table) -> nat {
        match table.n_rows {
            Some(n) => min_nat(n as nat, self.n_data_rows()),
            None => 0,
        }
    }

    /// Column `c`'s format for this render: at least its least width, and at
    /// most that plus the spare room, within its own max width.
    pub open spec fn cell_format(self, c: int, spare: nat) -> DatumFormat {
        let lo = self.min_width_of(c);
        self.formats[c].format.spec_min_width(lo as usize).spec_max_width(
            min_nat(self.max_width_of(c), lo + spare) as usize,
        )
    }

    /// Column `c` laid out with `spare` room: its used width and cells.
    pub open spec fn column_step(self, table: Table, rows: nat, c: int, spare: nat) -> Result<
        (nat, Seq<Seq<char>>),
        ErrorKind,
    > {
        if rows == 0 {
            Ok((self.min_width_of(c), Seq::empty()))
        } else {
            match find_column(table.columns@, self.formats[c].name@) {
                None => Err(ErrorKind::ColumnMissing),
                Some(i) => match spec_format_column(
                    self.cell_format(c, spare),
                    *table.columns@[i].data,
                    rows,
                    None,
                ) {
                    Err(e) => Err(e),
                    Ok(cells) => Ok((max_nat(max_len(cells), self.min_width_of(c)), cells)),
                },
            }
        }
    }

    /// Columns `c` onwards laid out left to right; what a column uses beyond
    /// its least width comes out of the spare room left for the next ones.
    pub open spec fn layout_from(self, table: Table, rows: nat, c: nat, spare: nat) -> Result<
        (Seq<nat>, Seq<Seq<Seq<char>>>),
        ErrorKind,
    >
        decreases self.n_used() - c,
    {
        if c >= self.n_used() {
            Ok((Seq::empty(), Seq::empty()))
        } else {
            match self.column_step(table, rows, c as int, spare) {
                Err(e) => Err(e),
                Ok((used, cells)) => prepend_layout(
                    used,
                    cells,
                    self.layout_from(
                        table,
                        rows,
                        c + 1,
                        (spare - (used - self.min_width_of(c as int))) as nat,
                    ),
                ),
            }
        }
    }

    /// The used widths and cells of the shown columns, `rows` rows of each,
    /// or the first error.
    pub open spec fn spec_render_columns(self, table: Table, rows: nat) -> Result<
        (Seq<nat>, Seq<Seq<Seq<char>>>),
        ErrorKind,
    > {
        if !self.widths_consistent() {
            Err(ErrorKind::InvalidFormat)
        } else {
            self.layout_from(table, rows, 0, self.initial_spare())
        }
    }
}

/// Whether an executable layout agrees with a modelled one.
pub open spec fn layout_result_matches(
    r: Result<(Vec<usize>, Vec<Vec<String>>), FormatError>,
    m: Result<(Seq<nat>, Seq<Seq<Seq<char>>>), ErrorKind>,
) -> bool {
    match (r, m) {
        (Ok((u, c)), Ok((mu, mc))) => u@.map_values(|x: usize| x as nat) == mu && c@.map_values(
            |v: Vec<String>| views(v@),
        ) == mc,
        (Err(e), Err(k)) => e.kind() == k,
        _ => false,
    }
}

/// Appending one element adds it to the sum.
pub proof fn lemma_seq_sum_push(xs: Seq<nat>, x: nat)
    ensures
        seq_sum(xs.push(x)) == seq_sum(xs) + x,
    decreases xs.len(),
{
    if xs.len() > 0 {
        assert(xs.push(x).subrange(1, xs.len() as int + 1) =~= xs.subrange(1, xs.len() as int).push(x));
        assert(xs.push(x)[0] == xs[0]);
        lemma_seq_sum_push(xs.subrange(1, xs.len() as int), x);
    } else {
        assert(xs.push(x).subrange(1, 1) =~= Seq::<nat>::empty());
        assert(xs.push(x)[0] == x);
        assert(seq_sum(Seq::<nat>::empty()) == 0);
    }
}

/// No element exceeds the sum.
pub proof fn lemma_seq_sum_ge(xs: Seq<nat>, i: int)
    requires
        0 <= i < xs.len(),
    ensures
        xs[i] <= seq_sum(xs),
    decreases xs.len(),
{
    if i > 0 {
        lemma_seq_sum_ge(xs.subrange(1, xs.len() as int), i - 1);
    }
}

/// One more column widens the span by its width, and by a delimiter if it is
/// not the first.
pub proof fn lemma_span_step(ws: Seq<nat>, k: nat, d: nat)
    requires
        k < ws.len(),
    ensures
        span(ws, k + 1, d) == span(ws, k, d) + (if k == 0 {
            0
        } else {
            d
        }) + ws[k as int],
{
    assert(ws.take(k as int + 1) =~= ws.take(k as int).push(ws[k as int]));
    lemma_seq_sum_push(ws.take(k as int), ws[k as int]);
    if k == 0 {
        assert(ws.take(0) =~= Seq::<nat>::empty());
    } else {
        assert(d * k == d * (k - 1) + d) by (nonlinear_arith);
    }
}

/// Every column of a span fits inside it.
pub proof fn lemma_span_ge(ws: Seq<nat>, k: nat, d: nat, i: int)
    requires
        0 <= i < k <= ws.len(),
    ensures
        ws[i] <= span(ws, k, d),
{
    lemma_seq_sum_ge(ws.take(k as int), i);
    assert(d * (k - 1) >= 0) by (nonlinear_arith)
        requires
            k >= 1,
    ;
}

/// Admission keeps within the budget and never goes past the last column.
pub proof fn lemma_admitted(ws: Seq<nat>, d: nat, budget: nat, k: nat)
    requires
        k <= ws.len(),
        span(ws, k, d) <= budget,
    ensures
        k <= admitted(ws, d, budget, k) <= ws.len(),
        span(ws, admitted(ws, d, budget, k), d) <= budget,
    decreases ws.len() - k,
{
    if k < ws.len() && span(ws, k + 1, d) <= budget {
        lemma_admitted(ws, d, budget, k + 1);
    }
}

/// The longest line is no longer than a bound that every line keeps.
pub proof fn lemma_max_len_bound(lines: Seq<Seq<char>>, b: nat)
    requires
        forall|i: int| 0 <= i < lines.len() ==> #[trigger] lines[i].len() <= b,
    ensures
        max_len(lines) <= b,
    decreases lines.len(),
{
    if lines.len() > 0 {
        lemma_max_len_bound(lines.drop_last(), b);
    }
}

/// A column takes at least its least width and at most that plus the spare
/// room, and has one cell per rendered row.
pub proof fn lemma_column_step(l: Layout, table: Table, rows: nat, c: int, spare: nat)
    requires
        l.widths_consistent(),
        0 <= c < l.formats.len(),
    ensures
        l.column_step(table, rows, c, spare) matches Ok((used, cells)) ==> l.min_width_of(c)
            <= used <= l.min_width_of(c) + spare && cells.len() == rows,
{
    if rows > 0 {
        if let Some(i) = find_column(table.columns@, l.formats[c].name@) {
            let fmt = l.cell_format(c, spare);
            let data = *table.columns@[i].data;
            let lo = l.min_width_of(c);
            let hi = min_nat(l.max_width_of(c), lo + spare);
            assert(l.min_width_of(c) <= l.max_width_of(c));
            if let Ok(cells) = spec_format_column(fmt, data, rows, None) {
                crate::column_format::lemma_cells_ok(fmt, data, rows, None);
                assert forall|k: int| 0 <= k < cells.len() implies #[trigger] cells[k].len()
                    <= hi by {
                    assert(crate::column_format::spec_cells(fmt, data, rows, None)->Ok_0[k] == cells[k]);
                    crate::column_format::lemma_cell_width(fmt, data, k);
                }
                lemma_max_len_bound(cells, hi);
            }
        }
    }
}

/// Columns `c` onwards: one width and one column of cells each, every column
/// `rows` long, and together no wider than the spare room plus their least
/// widths.
pub proof fn lemma_layout_from(l: Layout, table: Table, rows: nat, c: nat, spare: nat)
    requires
        l.widths_consistent(),
        l.n_used() <= l.formats.len(),
        c <= l.n_used(),
    ensures
        l.layout_from(table, rows, c, spare) matches Ok((us, cs)) ==> {
            &&& us.len() == l.n_used() - c
            &&& cs.len() == l.n_used() - c
            &&& forall|k: int| 0 <= k < cs.len() ==> (#[trigger] cs[k]).len() == rows
            &&& forall|k: int|
                0 <= k < us.len() ==> #[trigger] us[k] == max_nat(
                    max_len(cs[k]),
                    l.min_width_of(c + k),
                )
            &&& seq_sum(us) <= spare + seq_sum(l.min_widths().subrange(c as int, l.n_used() as int))
        },
    decreases l.n_used() - c,
{
    if c < l.n_used() {
        lemma_column_step(l, table, rows, c as int, spare);
        if let Ok((used, cells)) = l.column_step(table, rows, c as int, spare) {
            let next = (spare - (used - l.min_width_of(c as int))) as nat;
            lemma_layout_from(l, table, rows, c + 1, next);
            if let Ok((us, cs)) = l.layout_from(table, rows, c + 1, next) {
                let ws = l.min_widths();
                assert((seq![used] + us).subrange(1, us.len() as int + 1) =~= us);
                assert(ws.subrange(c as int, l.n_used() as int).subrange(
                    1,
                    l.n_used() - c,
                ) =~= ws.subrange(c as int + 1, l.n_used() as int));
                assert forall|k: int| 0 <= k < cs.len() + 1 implies (#[trigger] (seq![cells]
                    + cs)[k]).len() == rows by {
                    if k > 0 {
                        assert((seq![cells] + cs)[k] == cs[k - 1]);
                    }
                }
                assert forall|k: int| 0 <= k < us.len() + 1 implies #[trigger] (seq![used]
                    + us)[k] == max_nat(max_len((seq![cells] + cs)[k]), l.min_width_of(c + k)) by {
                    if k > 0 {
                        assert((seq![used] + us)[k] == us[k - 1]);
                        assert((seq![cells] + cs)[k] == cs[k - 1]);
                        assert(us[k - 1] == max_nat(max_len(cs[k - 1]), l.min_width_of(c + 1 + (k - 1))));
                    }
                }
            }
        }
    } else {
        assert(l.min_widths().subrange(c as int, l.n_used() as int) =~= Seq::<nat>::empty());
    }
}

/// The shown columns fit the render width: their used widths, with a
/// delimiter between each two, add up to at most the max render width. Each
/// column has `rows` cells, and uses the larger of its least width and its
/// widest cell.
pub proof fn lemma_layout_fits(l: Layout, table: Table, rows: nat)
    ensures
        l.spec_render_columns(table, rows) matches Ok((used, cells)) ==> {
            &&& used.len() == l.n_used()
            &&& cells.len() == l.n_used()
            &&& l.n_used() <= l.formats.len()
            &&& forall|k: int| 0 <= k < cells.len() ==> (#[trigger] cells[k]).len() == rows
            &&& forall|k: int|
                0 <= k < used.len() ==> #[trigger] used[k] == max_nat(
                    max_len(cells[k]),
                    l.min_width_of(k),
                )
            &&& used.len() > 0 ==> seq_sum(used) + l.delimiter_width() * (used.len() - 1) as nat
                <= l.max_render_width
        },
{
    if l.widths_consistent() {
        let ws = l.min_widths();
        let d = l.delimiter_width();
        lemma_admitted(ws, d, l.max_render_width, 0);
        lemma_layout_from(l, table, rows, 0, l.initial_spare());
        assert(ws.subrange(0, l.n_used() as int) =~= ws.take(l.n_used() as int));
    }
}

/// Table format: delimiters, which rows to show, and the size to fit.
#[derive(Debug)]
pub struct TableFormat {
    /// column formats, matched to the table's columns by position
    pub column_formats: Option<Vec<ColumnFormatShorthand>>,
    /// column delimiter
    pub column_delimiter: String,
    /// header separator delimiter
    pub header_separator_delimiter: String,
    /// header separator char
    pub header_separator_char: char,
    /// include header row
    pub include_header_row: bool,
    /// include header separator row
    pub include_header_separator_row: bool,
    /// include summary row
    pub include_summary_row: bool,
    /// include summary separator row
    pub include_summary_separator_row: bool,
    /// render height
    pub render_height: Option<usize>,
    /// max render width
    pub max_render_width: Option<usize>,
    /// indent
    pub indent: usize,
}

impl Default for TableFormat {
    fn default() -> (r: TableFormat)
        ensures
            r.column_formats is None,
            r.column_delimiter@ == "  │  "@,
            r.header_separator_delimiter@ == "──┼──"@,
            r.header_separator_char == '─',
            r.include_header_row,
            r.include_header_separator_row,
            !r.include_summary_row,
            !r.include_summary_separator_row,
            r.render_height is None,
            r.max_render_width is None,
            r.indent == 0,
    {
        TableFormat {
            column_formats: None,
            column_delimiter: "  │  ".to_owned(),
            header_separator_delimiter: "──┼──".to_owned(),
            header_separator_char: '─',
            include_header_row: true,
            include_header_separator_row: true,
            include_summary_row: false,
            include_summary_separator_row: false,
            render_height: None,
            max_render_width: None,
            indent: 0,
        }
    }
}

/// finalized TableFormat: every setting resolved
#[derive(Debug)]
pub struct TableFormatFinal {
    /// column formats
    pub column_formats: Vec<ColumnFormat>,
    /// column delimiter
    pub column_delimiter: String,
    /// header separator delimiter
    pub header_separator_delimiter: String,
    /// header separator char
    pub header_separator_char: char,
    /// include header row
    pub include_header_row: bool,
    /// include header separator row
    pub include_header_separator_row: bool,
    /// include summary row
    pub include_summary_row: bool,
    /// include summary separator row
    pub include_summary_separator_row: bool,
    /// render height
    pub render_height: usize,
    /// max render width
    pub max_render_width: usize,
    /// indent
    pub indent: usize,
}

impl View for TableFormatFinal {
    type V = Layout;

    open spec fn view(&self) -> Layout {
        Layout {
            formats: self.column_formats@,
            column_delimiter: self.column_delimiter@,
            header_separator_delimiter: self.header_separator_delimiter@,
            header_separator_char: self.header_separator_char,
            include_header_row: self.include_header_row,
            include_header_separator_row: self.include_header_separator_row,
            include_summary_row: self.include_summary_row,
            include_summary_separator_row: self.include_summary_separator_row,
            render_height: self.render_height as nat,
            max_render_width: self.max_render_width as nat,
            indent: self.indent as nat,
        }
    }
}

/// The format a column gets when none is configured: named after the column,
/// with the default format of its kind.
pub open spec fn default_column_format(col: Column) -> ColumnFormat {
    ColumnFormat {
        name: col.name,
        display_name: col.name,
        format: resolve_unknown(
            UnknownFormat { min_width: None, max_width: None },
            col.data.spec_column_type(),
        ),
        horizontal_align: HorizontalAlign::Right,
        vertical_align: VerticalAlign::Top,
    }
}

/// `min(sum, usize::MAX)`.
fn safe_sum_with_max_on_overflow(numbers: &Vec<usize>) -> (r: usize)
    ensures
        r == saturating(seq_sum(numbers@.map_values(|n: usize| n as nat)) as int),
{
    let ghost ns = numbers@.map_values(|n: usize| n as nat);
    let mut sum: usize = 0;
    let mut i: usize = numbers.len();
    while i > 0
        invariant
            i <= numbers@.len(),
            ns == numbers@.map_values(|n: usize| n as nat),
            sum == saturating(seq_sum(ns.subrange(i as int, ns.len() as int)) as int),
        decreases i,
    {
        i = i - 1;
        assert(ns.subrange(i as int, ns.len() as int).subrange(1, ns.len() - i) =~= ns.subrange(
            i as int + 1,
            ns.len() as int,
        ));
        match sum.checked_add(numbers[i]) {
            Some(s) => sum = s,
            None => sum = usize::MAX,
        }
    }
    assert(ns.subrange(0, ns.len() as int) =~= ns);
    sum
}

impl TableFormat {
    /// The resolved settings for rendering `table`.
    pub open spec fn spec_layout(self, table: Table) -> Layout {
        let formats = match self.column_formats {
            Some(fs) => Seq::new(
                min_nat(fs@.len(), table.columns@.len()),
                |i: int| fs@[i].spec_finalize(table.columns@[i].data.spec_column_type()),
            ),
            None => Seq::new(
                table.columns@.len(),
                |i: int| default_column_format(table.columns@[i]),
            ),
        };
        let d = self.column_delimiter@.len();
        let max_render_width = match self.max_render_width {
            Some(w) => w as nat,
            None => saturating(
                saturating(
                    seq_sum(formats.map_values(|f: ColumnFormat| f.format.spec_get_max_width() as nat))
                        as int,
                ) + saturating(d * saturating(formats.len() - 1) as int) as int,
            ),
        };
        Layout {
            formats,
            column_delimiter: self.column_delimiter@,
            header_separator_delimiter: self.header_separator_delimiter@,
            header_separator_char: self.header_separator_char,
            include_header_row: self.include_header_row,
            include_header_separator_row: self.include_header_separator_row,
            include_summary_row: self.include_summary_row,
            include_summary_separator_row: self.include_summary_separator_row,
            render_height: match self.render_height {
                Some(h) => h as nat,
                None => DEFAULT_TABLE_HEIGHT as nat,
            },
            max_render_width,
            indent: self.indent as nat,
        }
    }

    /// fill missing format information based on the table
    fn finalize(&self, table: &Table) -> (r: TableFormatFinal)
        ensures
            r@ == self.spec_layout(*table),
    {
        let mut fmts: Vec<ColumnFormat> = Vec::new();
        let ghost layout = self.spec_layout(*table);
        match &self.column_formats {
            Some(column_formats) => {
                let n = if column_formats.len() < table.columns.len() {
                    column_formats.len()
                } else {
                    table.columns.len()
                };
                let mut i: usize = 0;
                while i < n
                    invariant
                        i <= n,
                        n == min_nat(column_formats@.len(), table.columns@.len()),
                        fmts@ == layout.formats.take(i as int),
                        self.column_formats == Some(*column_formats),
                        layout == self.spec_layout(*table),
                    decreases n - i,
                {
                    let t = table.columns[i].data.column_type();
                    fmts.push(column_formats[i].clone().resolved(&t));
                    assert(fmts@ =~= layout.formats.take(i as int + 1));
                    i = i + 1;
                }
                assert(fmts@ =~= layout.formats);
            },
            None => {
                let mut i: usize = 0;
                while i < table.columns.len()
                    invariant
                        i <= table.columns@.len(),
                        fmts@ == layout.formats.take(i as int),
                        self.column_formats is None,
                        layout == self.spec_layout(*table),
                    decreases table.columns@.len() - i,
                {
                    let col = &table.columns[i];
                    let t = col.data.column_type();
                    let unknown = DatumFormatShorthand::Unknown(
                        UnknownFormat { min_width: None, max_width: None },
                    );
                    fmts.push(
                        ColumnFormat {
                            name: col.name.clone(),
                            display_name: col.name.clone(),
                            format: unknown.resolve(&t),
                            horizontal_align: HorizontalAlign::Right,
                            vertical_align: VerticalAlign::Top,
                        },
                    );
                    assert(fmts@ =~= layout.formats.take(i as int + 1));
                    i = i + 1;
                }
                assert(fmts@ =~= layout.formats);
            },
        }
        let max_render_width = match self.max_render_width {
            Some(value) => value,
            None => {
                let mut widths: Vec<usize> = Vec::new();
                let mut i: usize = 0;
                while i < fmts.len()
                    invariant
                        i <= fmts@.len(),
                        widths@.map_values(|n: usize| n as nat) == fmts@.take(i as int).map_values(
                            |f: ColumnFormat| f.format.spec_get_max_width() as nat,
                        ),
                    decreases fmts@.len() - i,
                {
                    let ghost prev = widths@;
                    let w = fmts[i].get_max_width();
                    widths.push(w);
                    assert(widths@.map_values(|n: usize| n as nat) =~= prev.map_values(
                        |n: usize| n as nat,
                    ).push(w as nat));
                    assert(fmts@.take(i as int + 1).map_values(
                        |f: ColumnFormat| f.format.spec_get_max_width() as nat,
                    ) =~= fmts@.take(i as int).map_values(
                        |f: ColumnFormat| f.format.spec_get_max_width() as nat,
                    ).push(w as nat));
                    assert(widths@.map_values(|n: usize| n as nat) =~= fmts@.take(
                        i as int + 1,
                    ).map_values(|f: ColumnFormat| f.format.spec_get_max_width() as nat));
                    i = i + 1;
                }
                assert(fmts@.take(i as int) =~= fmts@);
                let total = safe_sum_with_max_on_overflow(&widths);
                let d = self.column_delimiter.as_str().unicode_len();
                let gaps: usize = if fmts.len() == 0 {
                    0
                } else {
                    fmts.len() - 1
                };
                let delims = match d.checked_mul(gaps) {
                    Some(v) => v,
                    None => usize::MAX,
                };
                let mut parts: Vec<usize> = Vec::new();
                parts.push(total);
                parts.push(delims);
                proof {
                    let ps = parts@.map_values(|n: usize| n as nat);
                    assert(ps.subrange(1, 2).subrange(1, 1) =~= Seq::<nat>::empty());
                    assert(ps.subrange(1, 2)[0] == delims);
                    assert(seq_sum(ps.subrange(1, 2).subrange(1, 1)) == 0);
                    assert(seq_sum(ps.subrange(1, 2)) == delims);
                    assert(seq_sum(ps) == total + delims);
                }
                safe_sum_with_max_on_overflow(&parts)
            },
        };
        let render_height = match self.render_height {
            Some(h) => h,
            None => DEFAULT_TABLE_HEIGHT,
        };
        TableFormatFinal {
            column_formats: fmts,
            column_delimiter: self.column_delimiter.clone(),
            header_separator_delimiter: self.header_separator_delimiter.clone(),
            header_separator_char: self.header_separator_char,
            include_header_row: self.include_header_row,
            include_header_separator_row: self.include_header_separator_row,
            include_summary_row: self.include_summary_row,
            include_summary_separator_row: self.include_summary_separator_row,
            render_height,
            max_render_width,
            indent: self.indent,
        }
    }
}

impl TableFormatFinal {
    /// get number of lines in header
    fn n_header_lines(&self) -> (r: usize)
        ensures
            r == self@.n_header_lines(),
    {
        let mut best: usize = 0;
        let mut i: usize = 0;
        while i < self.column_formats.len()
            invariant
                i <= self.column_formats@.len(),
                best == header_lines(self.column_formats@.take(i as int)),
            decreases self.column_formats@.len() - i,
        {
            let n = lines(self.column_formats[i].display_name.as_str()).len();
            assert(self.column_formats@.take(i as int + 1).drop_last() =~= self.column_formats@.take(
                i as int,
            ));
            if n > best {
                best = n;
            }
            i = i + 1;
        }
        assert(self.column_formats@.take(i as int) =~= self.column_formats@);
        best
    }

    /// how many data rows fit in the render height
    fn n_data_rows(&self) -> (r: usize)
        ensures
            r == self@.n_data_rows(),
    {
        let mut rows = self.render_height;
        if self.include_header_row {
            rows = rows.saturating_sub(self.n_header_lines());
            if self.include_header_separator_row {
                rows = rows.saturating_sub(1);
            }
        }
        if self.include_summary_row {
            rows = rows.saturating_sub(1);
            if self.include_summary_separator_row {
                rows = rows.saturating_sub(1);
            }
        }
        rows
    }
}


/// Moving one finished column from the rest of a layout to the part laid out.
proof fn lemma_extend_prepend(
    us: Seq<nat>,
    cs: Seq<Seq<Seq<char>>>,
    used: nat,
    cells: Seq<Seq<char>>,
    rest: Result<(Seq<nat>, Seq<Seq<Seq<char>>>), ErrorKind>,
)
    ensures
        extend_layout(us, cs, prepend_layout(used, cells, rest)) == extend_layout(
            us.push(used),
            cs.push(cells),
            rest,
        ),
{
    if let Ok((u, c)) = rest {
        assert(us + (seq![used] + u) =~= us.push(used) + u);
        assert(cs + (seq![cells] + c) =~= cs.push(cells) + c);
    }
}

impl TableFormatFinal {
    /// Lays out the shown columns: each one's used width and cells.
    /// Lays out the shown columns, `rows` rows of each: each one's used
    /// width and cells.
    pub fn render_columns(&self, table: &Table, rows: usize) -> (r: Result<
        (Vec<usize>, Vec<Vec<String>>),
        FormatError,
    >)
        requires
            table.wf(),
            match table.n_rows {
                Some(n) => rows <= n,
                None => rows == 0,
            },
        ensures
            layout_result_matches(r, self@.spec_render_columns(*table, rows as nat)),
            r matches Ok((used, cols)) ==> {
                &&& used@.len() == cols@.len()
                &&& used@.len() == self@.n_used()
                &&& forall|c: int| 0 <= c < cols@.len() ==> (#[trigger] cols@[c])@.len() == rows
                &&& forall|c: int|
                    0 <= c < used@.len() ==> #[trigger] used@[c] as nat == max_nat(
                        max_len(views(cols@[c]@)),
                        self@.min_width_of(c),
                    )
                &&& forall|c: int, k: int|
                    0 <= c < cols@.len() && 0 <= k < rows ==> (#[trigger] cols@[c]@[k])@.len()
                        <= used@[c]
                &&& used@.len() > 0 ==> seq_sum(used@.map_values(|x: usize| x as nat))
                    + self@.delimiter_width() * (used@.len() - 1) as nat <= self@.max_render_width
            },
    {
        let ghost l = self@;
        let n = self.column_formats.len();
        let d = self.column_delimiter.as_str().unicode_len();
        let budget = self.max_render_width;
        // compute global sizes
        let mut mins: Vec<usize> = Vec::new();
        let mut maxs: Vec<usize> = Vec::new();
        let mut c: usize = 0;
        while c < n
            invariant
                c <= n,
                n == l.formats.len(),
                l == self@,
                mins@.len() == c,
                maxs@.len() == c,
                forall|k: int|
                    0 <= k < c ==> mins@[k] == #[trigger] l.min_width_of(k) && maxs@[k]
                        == l.max_width_of(k) && l.min_width_of(k) <= l.max_width_of(k),
            decreases n - c,
        {
            let fmt = &self.column_formats[c];
            let header = fmt.header_width();
            let lo = fmt.get_min_width();
            let min_width = if header > lo {
                header
            } else {
                lo
            };
            let max_width = fmt.get_max_width();
            if min_width > max_width {
                let mut msg = "min_width > max_width for column: ".to_owned();
                msg.append(fmt.display_name.as_str());
                assert(l.min_width_of(c as int) > l.max_width_of(c as int));
                return Err(FormatError::InvalidFormat(msg));
            }
            mins.push(min_width);
            maxs.push(max_width);
            c = c + 1;
        }
        let ghost ws = l.min_widths();
        assert(mins@.map_values(|x: usize| x as nat) =~= ws);
        // compute how many columns to include
        let mut n_used: usize = 0;
        let mut used_width: usize = 0;
        let mut stop = false;
        while n_used < n && !stop
            invariant
                n_used <= n,
                n == l.formats.len(),
                l == self@,
                d == l.delimiter_width(),
                budget == l.max_render_width,
                ws == l.min_widths(),
                mins@.len() == n,
                forall|k: int| 0 <= k < n ==> mins@[k] == #[trigger] ws[k],
                used_width == span(ws, n_used as nat, d as nat),
                used_width <= budget,
                admitted(ws, d as nat, budget as nat, n_used as nat) == l.n_used(),
                stop ==> n_used < n && span(ws, n_used as nat + 1, d as nat) > budget,
            decreases n - n_used + if stop {
                0int
            } else {
                1int
            },
        {
            proof {
                lemma_span_step(ws, n_used as nat, d as nat);
            }
            let w = mins[n_used];
            if n_used == 0 {
                if w <= budget {
                    used_width = w;
                    n_used = 1;
                } else {
                    stop = true;
                }
            } else if d <= budget - used_width && w <= budget - used_width - d {
                used_width = used_width + d + w;
                n_used = n_used + 1;
            } else {
                stop = true;
            }
        }
        // compute used widths
        let mut spare: usize = budget - used_width;
        let ghost spare0 = spare as nat;
        let ghost full = l.layout_from(*table, rows as nat, 0, spare0);
        assert(n_used == l.n_used());
        assert(spare0 == l.initial_spare());
        assert(l.widths_consistent());
        assert(full == l.spec_render_columns(*table, rows as nat));
        proof {
            assert forall|k: int| 0 <= k < n_used implies #[trigger] mins@[k] + spare <= budget by {
                lemma_span_ge(ws, n_used as nat, d as nat, k);
            }
            assert(full == extend_layout(Seq::empty(), Seq::empty(), full)) by {
                if let Ok((u, cs)) = full {
                    assert(Seq::<nat>::empty() + u =~= u);
                    assert(Seq::<Seq<Seq<char>>>::empty() + cs =~= cs);
                }
            }
        }
        let mut used: Vec<usize> = Vec::new();
        let mut columns: Vec<Vec<String>> = Vec::new();
        let mut c: usize = 0;
        while c < n_used
            invariant
                c <= n_used,
                n_used == l.n_used(),
                n_used <= n,
                n == l.formats.len(),
                l == self@,
                l.widths_consistent(),
                table.wf(),
                match table.n_rows {
                    Some(n) => rows <= n,
                    None => rows == 0,
                },
                budget == l.max_render_width,
                mins@.len() == n,
                maxs@.len() == n,
                forall|k: int|
                    0 <= k < n ==> mins@[k] == #[trigger] l.min_width_of(k) && maxs@[k]
                        == l.max_width_of(k),
                forall|k: int| c <= k < n_used ==> #[trigger] mins@[k] + spare <= budget,
                full == l.layout_from(*table, rows as nat, 0, spare0),
                full == l.spec_render_columns(*table, rows as nat),
                full == extend_layout(
                    used@.map_values(|x: usize| x as nat),
                    columns@.map_values(|v: Vec<String>| views(v@)),
                    l.layout_from(*table, rows as nat, c as nat, spare as nat),
                ),
            decreases n_used - c,
        {
            let lo = mins[c];
            let room = lo + spare;
            let hi = if maxs[c] < room {
                maxs[c]
            } else {
                room
            };
            let ghost step = l.column_step(*table, rows as nat, c as int, spare as nat);
            let ghost used_before = used@;
            let ghost columns_before = columns@;
            proof {
                lemma_column_step(l, *table, rows as nat, c as int, spare as nat);
            }
            let u: usize;
            let cells: Vec<String>;
            if rows == 0 {
                u = lo;
                cells = Vec::new();
                assert(views(cells@) =~= Seq::<Seq<char>>::empty());
            } else {
                let col = match table.column(self.column_formats[c].name.as_str()) {
                    Ok(col) => col,
                    Err(e) => {
                        assert(step == Err::<(nat, Seq<Seq<char>>), ErrorKind>(e.kind()));
                        assert(full == Err::<(Seq<nat>, Seq<Seq<Seq<char>>>), ErrorKind>(e.kind()));
                        return Err(e);
                    },
                };
                let fmt = self.column_formats[c].format.min_width(lo).max_width(hi);
                assert(fmt == l.cell_format(c as int, spare as nat));
                proof {
                    let i = find_column(table.columns@, l.formats[c as int].name@)->0;
                    assert(table.columns@[i].data.spec_len() == table.n_rows->0);
                }
                let formatted = format_cells(fmt, &col.data, rows);
                match formatted {
                    Ok(v) => {
                        cells = v;
                    },
                    Err(e) => {
                        assert(step == Err::<(nat, Seq<Seq<char>>), ErrorKind>(e.kind()));
                        assert(full == Err::<(Seq<nat>, Seq<Seq<Seq<char>>>), ErrorKind>(e.kind()));
                        return Err(e);
                    },
                }
                let w = widest(&cells);
                u = if w > lo {
                    w
                } else {
                    lo
                };
            }
            assert(step == Ok::<(nat, Seq<Seq<char>>), ErrorKind>((u as nat, views(cells@))));
            proof {
                lemma_extend_prepend(
                    used_before.map_values(|x: usize| x as nat),
                    columns_before.map_values(|v: Vec<String>| views(v@)),
                    u as nat,
                    views(cells@),
                    l.layout_from(*table, rows as nat, c as nat + 1, (spare - (u - lo)) as nat),
                );
            }
            spare = spare - (u - lo);
            used.push(u);
            columns.push(cells);
            assert(used@.map_values(|x: usize| x as nat) =~= used_before.map_values(
                |x: usize| x as nat,
            ).push(u as nat));
            assert(columns@.map_values(|v: Vec<String>| views(v@)) =~= columns_before.map_values(
                |v: Vec<String>| views(v@),
            ).push(views(cells@)));
            c = c + 1;
        }
        proof {
            let uv = used@.map_values(|x: usize| x as nat);
            let cv = columns@.map_values(|v: Vec<String>| views(v@));
            assert(uv + Seq::<nat>::empty() =~= uv);
            assert(cv + Seq::<Seq<Seq<char>>>::empty() =~= cv);
            lemma_layout_fits(l, *table, rows as nat);
            assert forall|c: int| 0 <= c < columns@.len() implies (#[trigger] columns@[c])@.len()
                == rows by {
                assert(cv[c] == views(columns@[c]@));
            }
            assert forall|c: int| 0 <= c < used@.len() implies #[trigger] used@[c] as nat
                == max_nat(max_len(views(columns@[c]@)), l.min_width_of(c)) by {
                assert(cv[c] == views(columns@[c]@));
                assert(uv[c] == used@[c] as nat);
            }
            assert forall|c: int, k: int|
                0 <= c < columns@.len() && 0 <= k < rows implies (#[trigger] columns@[c]@[k])@.len()
                <= used@[c] by {
                assert(cv[c] == views(columns@[c]@));
                assert(uv[c] == used@[c] as nat);
                assert(views(columns@[c]@)[k] == columns@[c]@[k]@);
                crate::multiline_format::lemma_max_len(views(columns@[c]@), k);
            }
        }
        Ok((used, columns))
    }
}

/// `s` padded with spaces on the left up to `w`; a longer `s` is kept whole.
pub open spec fn right_align(s: Seq<char>, w: nat) -> Seq<char> {
    if s.len() < w {
        spaces((w - s.len()) as nat) + s
    } else {
        s
    }
}

/// Header row `r` of a column whose display name is `display`, in a header
/// `h` rows tall: a short header sits at the bottom, each line right-aligned.
pub open spec fn header_cell(display: Seq<char>, w: nat, h: nat, r: nat) -> Seq<char> {
    let ls = split_lines(display);
    if r + ls.len() < h {
        spaces(w)
    } else {
        right_align(ls[r + ls.len() - h], w)
    }
}

impl Layout {
    /// Header row `r` over columns of widths `used`.
    pub open spec fn header_row(self, used: Seq<nat>, r: nat) -> Seq<char> {
        join(
            Seq::new(
                used.len(),
                |c: int|
                    header_cell(self.formats[c].display_name@, used[c], self.n_header_lines(), r),
            ),
            self.column_delimiter,
        )
    }

    /// The row under the header: the separator character across each column.
    pub open spec fn separator_row(self, used: Seq<nat>) -> Seq<char> {
        join(
            Seq::new(used.len(), |c: int| repeat_char(self.header_separator_char, used[c])),
            self.header_separator_delimiter,
        )
    }

    /// Data row `r`: the cells of that row, side by side.
    pub open spec fn data_row(self, cols: Seq<Seq<Seq<char>>>, r: int) -> Seq<char> {
        join(Seq::new(cols.len(), |c: int| cols[c][r]), self.column_delimiter)
    }

    /// One row per cell of the first column.
    pub open spec fn data_rows(self, cols: Seq<Seq<Seq<char>>>) -> Seq<Seq<char>> {
        if cols.len() == 0 {
            Seq::empty()
        } else {
            Seq::new(cols[0].len(), |r: int| self.data_row(cols, r))
        }
    }

    /// The header rows and the separator row, as configured.
    pub open spec fn header_block(self, used: Seq<nat>) -> Seq<Seq<char>> {
        if self.include_header_row {
            Seq::new(self.n_header_lines(), |r: int| self.header_row(used, r as nat)) + if self.include_header_separator_row {
                seq![self.separator_row(used)]
            } else {
                Seq::empty()
            }
        } else {
            Seq::empty()
        }
    }

    /// The rows of the table before indenting: header, separator, data.
    pub open spec fn rendered_rows(self, used: Seq<nat>, cols: Seq<Seq<Seq<char>>>) -> Seq<
        Seq<char>,
    > {
        self.header_block(used) + self.data_rows(cols)
    }

    /// The rendered table: every row indented, rows joined by line breaks.
    /// Summary rows are not implemented, and asking for them is an error.
    pub open spec fn spec_render(self, table: Table) -> Result<Seq<char>, ErrorKind> {
        match self.spec_render_columns(table, self.rows_for(table)) {
            Err(e) => Err(e),
            Ok((used, cols)) => if self.include_summary_row {
                Err(ErrorKind::InvalidFormat)
            } else {
                Ok(
                    join(
                        self.rendered_rows(used, cols).map_values(
                            |row: Seq<char>| spaces(self.indent) + row,
                        ),
                        seq!['\n'],
                    ),
                )
            },
        }
    }
}

/// Joining one more part.
pub proof fn lemma_join_take(parts: Seq<Seq<char>>, c: int, sep: Seq<char>)
    requires
        0 <= c < parts.len(),
    ensures
        join(parts.take(c + 1), sep) == if c == 0 {
            parts[0]
        } else {
            join(parts.take(c), sep) + sep + parts[c]
        },
{
    assert(parts.take(c + 1).drop_last() =~= parts.take(c));
}

/// Joined parts are no longer than their bounds together with the
/// separators between them.
pub proof fn lemma_join_len(parts: Seq<Seq<char>>, bounds: Seq<nat>, sep: Seq<char>)
    requires
        parts.len() == bounds.len(),
        forall|i: int| 0 <= i < parts.len() ==> #[trigger] parts[i].len() <= bounds[i],
    ensures
        parts.len() > 0 ==> join(parts, sep).len() <= seq_sum(bounds) + sep.len() * (parts.len()
            - 1) as nat,
    decreases parts.len(),
{
    if parts.len() > 1 {
        let n = parts.len();
        lemma_join_len(parts.drop_last(), bounds.drop_last(), sep);
        lemma_seq_sum_push(bounds.drop_last(), bounds.last());
        assert(bounds.drop_last().push(bounds.last()) =~= bounds);
        assert(parts.last() == parts[n - 1]);
        assert(sep.len() * (n - 2) as nat + sep.len() == sep.len() * (n - 1) as nat)
            by (nonlinear_arith)
            requires
                n >= 2,
        ;
    } else if parts.len() == 1 {
        assert(bounds.subrange(1, 1) =~= Seq::<nat>::empty());
        assert(seq_sum(Seq::<nat>::empty()) == 0);
    }
}

/// Every rendered row fits the render width, where the separator row's
/// delimiter is no wider than the column delimiter: header rows and the
/// separator row are exactly as wide as the columns with their delimiters,
/// and no cell is wider than its column.
pub proof fn lemma_rows_fit(l: Layout, table: Table, rows: nat)
    requires
        l.header_separator_delimiter.len() <= l.delimiter_width(),
    ensures
        l.spec_render_columns(table, rows) matches Ok((used, cols)) ==> forall|i: int|
            0 <= i < l.rendered_rows(used, cols).len() ==> (#[trigger] l.rendered_rows(
                used,
                cols,
            )[i]).len() <= l.max_render_width,
{
    lemma_layout_fits(l, table, rows);
    if let Ok((used, cols)) = l.spec_render_columns(table, rows) {
        let n = used.len();
        let d = l.delimiter_width();
        let h = l.n_header_lines();
        let all = l.rendered_rows(used, cols);
        let total = if n == 0 {
            0
        } else {
            seq_sum(used) + d * (n - 1) as nat
        };
        assert(used =~= Seq::new(n, |c: int| used[c]));
        assert forall|r: nat| r < h implies (#[trigger] l.header_row(used, r)).len() <= total by {
            let parts = Seq::new(
                n,
                |c: int| header_cell(l.formats[c].display_name@, used[c], h, r),
            );
            assert forall|c: int| 0 <= c < n implies #[trigger] parts[c].len() <= used[c] by {
                let ls = split_lines(l.formats[c].display_name@);
                lemma_header_lines_ge(l.formats, c);
                if r + ls.len() >= h {
                    crate::multiline_format::lemma_max_len(ls, r + ls.len() - h);
                }
            }
            lemma_join_len(parts, used, l.column_delimiter);
        }
        let sep_parts = Seq::new(n, |c: int| repeat_char(l.header_separator_char, used[c]));
        assert(l.separator_row(used).len() <= total) by {
            lemma_join_len(sep_parts, used, l.header_separator_delimiter);
            let hs = l.header_separator_delimiter.len();
            if n > 0 {
                assert(hs * (n - 1) as nat <= d * (n - 1) as nat) by (nonlinear_arith)
                    requires
                        hs <= d,
                ;
            }
        }
        assert forall|r: int| 0 <= r < rows implies (#[trigger] l.data_row(cols, r)).len()
            <= total by {
            let parts = Seq::new(cols.len(), |c: int| cols[c][r]);
            assert forall|c: int| 0 <= c < n implies #[trigger] parts[c].len() <= used[c] by {
                crate::multiline_format::lemma_max_len(cols[c], r);
            }
            lemma_join_len(parts, used, l.column_delimiter);
        }
        assert forall|i: int| 0 <= i < all.len() implies (#[trigger] all[i]).len()
            <= l.max_render_width by {
            let hb = l.header_block(used);
            if i < hb.len() {
                if i < h {
                    assert(hb[i] == l.header_row(used, i as nat));
                } else {
                    assert(hb[i] == l.separator_row(used));
                }
            } else {
                assert(cols.len() > 0);
                assert(all[i] == l.data_row(cols, i - hb.len()));
            }
        }
    }
}

/// Every row of a rendered table, indented, is at most the max render width
/// plus the indent, where the separator row's delimiter is no wider than the
/// column delimiter.
pub proof fn lemma_render_fits(l: Layout, table: Table)
    requires
        l.header_separator_delimiter.len() <= l.delimiter_width(),
    ensures
        l.spec_render(table) is Ok ==> (l.spec_render_columns(table, l.rows_for(table)) matches Ok(
            (used, cols),
        ) && forall|i: int|
            0 <= i < l.rendered_rows(used, cols).len() ==> (spaces(l.indent) + (
            #[trigger] l.rendered_rows(used, cols)[i])).len() <= l.max_render_width + l.indent),
{
    lemma_rows_fit(l, table, l.rows_for(table));
}

/// No header is taller than the tallest.
pub proof fn lemma_header_lines_ge(formats: Seq<ColumnFormat>, c: int)
    requires
        0 <= c < formats.len(),
    ensures
        split_lines(formats[c].display_name@).len() <= header_lines(formats),
    decreases formats.len(),
{
    if c < formats.len() - 1 {
        lemma_header_lines_ge(formats.drop_last(), c);
    }
}

/// `s` padded on the left with spaces to `w`.
fn right_align_line(s: &str, w: usize) -> (r: String)
    ensures
        r@ == right_align(s@, w as nat),
{
    let n = s.unicode_len();
    if n < w {
        pad_text(s, n, w, ' ', false)
    } else {
        s.to_owned()
    }
}

impl TableFormatFinal {
    /// The header rows over columns of widths `used_widths`.
    fn render_header_rows(&self, used_widths: &Vec<usize>) -> (r: Vec<String>)
        requires
            used_widths@.len() <= self.column_formats@.len(),
        ensures
            views(r@) == Seq::new(
                self@.n_header_lines(),
                |row: int| self@.header_row(used_widths@.map_values(|x: usize| x as nat), row as nat),
            ),
    {
        let ghost l = self@;
        let ghost used = used_widths@.map_values(|x: usize| x as nat);
        let n_header_lines = self.n_header_lines();
        let mut rows: Vec<String> = Vec::new();
        let mut r: usize = 0;
        while r < n_header_lines
            invariant
                r <= n_header_lines,
                n_header_lines == l.n_header_lines(),
                l == self@,
                used == used_widths@.map_values(|x: usize| x as nat),
                used_widths@.len() <= self.column_formats@.len(),
                views(rows@) == Seq::new(r as nat, |row: int| l.header_row(used, row as nat)),
            decreases n_header_lines - r,
        {
            let ghost cells = Seq::new(
                used.len(),
                |c: int| header_cell(l.formats[c].display_name@, used[c], n_header_lines as nat, r as nat),
            );
            let mut row = String::new();
            let mut c: usize = 0;
            while c < used_widths.len()
                invariant
                    c <= used_widths@.len(),
                    used_widths@.len() <= self.column_formats@.len(),
                    n_header_lines == l.n_header_lines(),
                    r < n_header_lines,
                    l == self@,
                    used == used_widths@.map_values(|x: usize| x as nat),
                    cells == Seq::new(
                        used.len(),
                        |c: int|
                            header_cell(
                                l.formats[c].display_name@,
                                used[c],
                                n_header_lines as nat,
                                r as nat,
                            ),
                    ),
                    row@ == join(cells.take(c as int), l.column_delimiter),
                decreases used_widths@.len() - c,
            {
                proof {
                    lemma_join_take(cells, c as int, l.column_delimiter);
                    lemma_header_lines_ge(l.formats, c as int);
                    crate::multiline_format::lemma_split_lines_len(l.formats[c as int].display_name@);
                }
                if c != 0 {
                    row.append(self.column_delimiter.as_str());
                }
                let w = used_widths[c];
                let ls = lines(self.column_formats[c].display_name.as_str());
                assert(ls@.len() == views(ls@).len());
                assert(ls@.len() <= n_header_lines);
                let top = n_header_lines - ls.len();
                let cell = if r < top {
                    repeat(' ', w)
                } else {
                    let k = r - top;
                    assert(views(ls@)[k as int] == ls@[k as int]@);
                    right_align_line(ls[k].as_str(), w)
                };
                assert(cell@ == cells[c as int]);
                row.append(cell.as_str());
                c = c + 1;
            }
            assert(cells.take(c as int) =~= cells);
            let ghost before = rows@;
            rows.push(row);
            assert(views(rows@) =~= Seq::new(r as nat + 1, |row: int| l.header_row(used, row as nat)))
                by {
                assert(views(rows@) =~= views(before).push(row@));
            }
            r = r + 1;
        }
        rows
    }

    /// The separator row under the header.
    fn render_header_separator_row(&self, used_widths: &Vec<usize>) -> (r: String)
        ensures
            r@ == self@.separator_row(used_widths@.map_values(|x: usize| x as nat)),
    {
        let ghost used = used_widths@.map_values(|x: usize| x as nat);
        let ghost cells = Seq::new(
            used.len(),
            |c: int| repeat_char(self.header_separator_char, used[c]),
        );
        let mut row = String::new();
        let mut c: usize = 0;
        while c < used_widths.len()
            invariant
                c <= used_widths@.len(),
                used == used_widths@.map_values(|x: usize| x as nat),
                cells == Seq::new(
                    used.len(),
                    |c: int| repeat_char(self.header_separator_char, used[c]),
                ),
                row@ == join(cells.take(c as int), self.header_separator_delimiter@),
            decreases used_widths@.len() - c,
        {
            proof {
                lemma_join_take(cells, c as int, self.header_separator_delimiter@);
            }
            if c != 0 {
                row.append(self.header_separator_delimiter.as_str());
            }
            let piece = repeat(self.header_separator_char, used_widths[c]);
            row.append(piece.as_str());
            c = c + 1;
        }
        assert(cells.take(c as int) =~= cells);
        row
    }

    /// Appends one row per data row: the cells side by side.
    fn assemble_rows(&self, columns: &Vec<Vec<String>>, rows: &mut Vec<String>)
        requires
            forall|c: int|
                0 <= c < columns@.len() ==> (#[trigger] columns@[c])@.len() == columns@[0]@.len(),
        ensures
            views(final(rows)@) == views(old(rows)@) + self@.data_rows(
                columns@.map_values(|v: Vec<String>| views(v@)),
            ),
    {
        let ghost l = self@;
        let ghost cols = columns@.map_values(|v: Vec<String>| views(v@));
        if columns.len() == 0 {
            assert(views(rows@) =~= views(old(rows)@) + l.data_rows(cols));
            return;
        }
        let n_data_rows = columns[0].len();
        let mut r: usize = 0;
        while r < n_data_rows
            invariant
                r <= n_data_rows,
                columns@.len() > 0,
                n_data_rows == columns@[0]@.len(),
                cols == columns@.map_values(|v: Vec<String>| views(v@)),
                l == self@,
                forall|c: int|
                    0 <= c < columns@.len() ==> (#[trigger] columns@[c])@.len() == columns@[0]@.len(),
                views(rows@) == views(old(rows)@) + Seq::new(
                    r as nat,
                    |k: int| l.data_row(cols, k),
                ),
            decreases n_data_rows - r,
        {
            let ghost cells = Seq::new(cols.len(), |c: int| cols[c][r as int]);
            let mut row = String::new();
            let mut c: usize = 0;
            while c < columns.len()
                invariant
                    c <= columns@.len(),
                    r < n_data_rows,
                    n_data_rows == columns@[0]@.len(),
                    cols == columns@.map_values(|v: Vec<String>| views(v@)),
                    forall|c: int|
                        0 <= c < columns@.len() ==> (#[trigger] columns@[c])@.len()
                            == columns@[0]@.len(),
                    cells == Seq::new(cols.len(), |c: int| cols[c][r as int]),
                    row@ == join(cells.take(c as int), l.column_delimiter),
                    l == self@,
                decreases columns@.len() - c,
            {
                proof {
                    lemma_join_take(cells, c as int, l.column_delimiter);
                }
                if c != 0 {
                    row.append(self.column_delimiter.as_str());
                }
                assert(columns@[c as int]@.len() == n_data_rows);
                row.append(columns[c][r].as_str());
                assert(cells[c as int] == columns@[c as int]@[r as int]@);
                c = c + 1;
            }
            assert(cells.take(c as int) =~= cells);
            let ghost before = rows@;
            rows.push(row);
            assert(views(rows@) =~= views(old(rows)@) + Seq::new(
                r as nat + 1,
                |k: int| l.data_row(cols, k),
            )) by {
                assert(views(rows@) =~= views(before).push(row@));
            }
            r = r + 1;
        }
        assert(Seq::new(r as nat, |k: int| l.data_row(cols, k)) =~= l.data_rows(cols));
    }

    /// Renders `table`: header rows, separator, data rows, indented and
    /// joined by line breaks.
    pub fn format(&self, table: &Table) -> (r: Result<String, FormatError>)
        requires
            table.wf(),
        ensures
            crate::error::text_result_matches(r, self@.spec_render(*table)),
    {
        let ghost l = self@;
        // clip the rows to the render height before the layout
        let rows: usize = match table.n_rows {
            Some(nr) => {
                let cap = self.n_data_rows();
                if nr < cap {
                    nr
                } else {
                    cap
                }
            },
            None => 0,
        };
        let (used_widths, columns) = match self.render_columns(table, rows) {
            Ok(v) => v,
            Err(e) => {
                return Err(e);
            },
        };
        let ghost used = used_widths@.map_values(|x: usize| x as nat);
        let ghost cols = columns@.map_values(|v: Vec<String>| views(v@));
        proof {
            lemma_layout_fits(l, *table, rows as nat);
            lemma_admitted(l.min_widths(), l.delimiter_width(), l.max_render_width, 0);
            assert forall|c: int| 0 <= c < columns@.len() implies (#[trigger] columns@[c])@.len()
                == columns@[0]@.len() by {
                assert(cols[c].len() == columns@[c]@.len());
                assert(cols[0].len() == columns@[0]@.len());
            }
        }
        let mut rows: Vec<String> = Vec::new();
        if self.include_header_row {
            let header = self.render_header_rows(&used_widths);
            let mut i: usize = 0;
            while i < header.len()
                invariant
                    i <= header@.len(),
                    views(rows@) == views(header@).take(i as int),
                decreases header@.len() - i,
            {
                let ghost before = rows@;
                rows.push(header[i].clone());
                assert(views(rows@) =~= views(header@).take(i as int + 1)) by {
                    assert(views(rows@) =~= views(before).push(header@[i as int]@));
                }
                i = i + 1;
            }
            assert(views(header@).take(i as int) =~= views(header@));
            if self.include_header_separator_row {
                let ghost before = rows@;
                rows.push(self.render_header_separator_row(&used_widths));
                assert(views(rows@) =~= views(before).push(l.separator_row(used)));
            }
            assert(views(rows@) =~= l.header_block(used));
        } else {
            assert(views(rows@) =~= l.header_block(used));
        }
        self.assemble_rows(&columns, &mut rows);
        if self.include_summary_row {
            return Err(FormatError::InvalidFormat("summary rows are not implemented".to_owned()));
        }
        let ghost all = l.header_block(used) + l.data_rows(cols);
        let mut indented: Vec<String> = Vec::new();
        let mut i: usize = 0;
        while i < rows.len()
            invariant
                i <= rows@.len(),
                views(rows@) == all,
                l == self@,
                views(indented@) == all.take(i as int).map_values(
                    |row: Seq<char>| spaces(l.indent) + row,
                ),
            decreases rows@.len() - i,
        {
            let mut line = repeat(' ', self.indent);
            line.append(rows[i].as_str());
            let ghost before = indented@;
            indented.push(line);
            assert(views(indented@) =~= all.take(i as int + 1).map_values(
                |row: Seq<char>| spaces(l.indent) + row,
            )) by {
                assert(views(indented@) =~= views(before).push(line@));
                assert(all[i as int] == rows@[i as int]@);
            }
            i = i + 1;
        }
        assert(all.take(i as int) =~= all);
        Ok(join_lines(&indented))
    }
}

impl TableFormat {
    /// The text `format` yields for `table`.
    pub open spec fn spec_format(self, table: Table) -> Result<Seq<char>, ErrorKind> {
        self.spec_layout(table).spec_render(table)
    }

    /// format a table as text
    pub fn format(&self, table: &Table) -> (r: Result<String, FormatError>)
        requires
            table.wf(),
        ensures
            crate::error::text_result_matches(r, self.spec_format(*table)),
    {
        let fmt = self.finalize(table);
        fmt.format(table)
    }
}
} // verus!
