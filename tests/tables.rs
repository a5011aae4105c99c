use toolstr::{
    ColumnData, ColumnFormat, ColumnFormatShorthand, ColumnType, DataType, DatumFormat,
    DatumFormatShorthand, ErrorKind, FormatError, FormatType, StringFormat, Table, TableFormat,
    TableFormatFinal,
    UnknownFormat, lines, n_lines, width,
};

fn strings(v: &[&str]) -> Vec<String> {
    v.iter().map(|s| s.to_string()).collect()
}

fn err_kind<T: std::fmt::Debug>(r: Result<T, FormatError>) -> ErrorKind {
    match r {
        Ok(v) => panic!("expected an error, got {:?}", v),
        Err(e) => e.error_kind(),
    }
}

fn small_table() -> Table {
    let mut t = Table::new();
    t.add_column("name", ColumnData::StringColumn(strings(&["a", "bb"]))).unwrap();
    t.add_column("n", ColumnData::IntegerColumn(strings(&["1", "22"]))).unwrap();
    t
}

#[test]
fn adding_a_shorter_column_fails() {
    let mut t = Table::new();
    t.add_column("a", ColumnData::BoolColumn(vec![true, false, true, false, true])).unwrap();
    let r = t.add_column("b", ColumnData::BoolColumn(vec![true, false, true]));
    assert_eq!(err_kind(r), ErrorKind::DifferentRowCounts);
    assert_eq!(t.columns.len(), 1);
    assert_eq!(t.n_rows, Some(5));
    assert!(t.is_consistent());
}

#[test]
fn column_lookup() {
    let t = small_table();
    assert_eq!(t.column("n").unwrap().name, "n");
    assert_eq!(t.column("n").unwrap().data.len(), 2);
    assert_eq!(err_kind(t.column("zzz").map(|c| c.name.clone())), ErrorKind::ColumnMissing);
}

#[test]
fn column_data_kinds() {
    let d = ColumnData::FloatOptionColumn(vec![Some("1.5".to_string()), None]);
    assert_eq!(d.len(), 2);
    assert!(!d.is_empty());
    assert_eq!(d.column_type(), ColumnType::Float);
    assert!(ColumnData::BinaryColumn(vec![]).is_empty());
}

#[test]
fn default_table_render() {
    let t = small_table();
    let out = TableFormat::default().format(&t).unwrap();
    let expected = "name  │   n\n──────┼────\n   a  │  1\n  bb  │  22";
    assert_eq!(out, expected);
}

#[test]
fn only_columns_that_fit_are_shown() {
    let mut t = Table::new();
    t.add_column("a", ColumnData::StringColumn(strings(&["x"]))).unwrap();
    t.add_column("b", ColumnData::StringColumn(strings(&["y"]))).unwrap();
    let fmt = TableFormat {
        column_formats: Some(vec![
            ColumnFormatShorthand::new().name("a").min_width(10),
            ColumnFormatShorthand::new().name("b").min_width(10),
        ]),
        column_delimiter: " | ".to_string(),
        include_header_separator_row: false,
        max_render_width: Some(15),
        ..TableFormat::default()
    };
    let out = fmt.format(&t).unwrap();
    assert_eq!(out, "         a\n         x");
}

#[test]
fn rendered_rows_fit_the_width() {
    let mut t = Table::new();
    t.add_column("alpha", ColumnData::StringColumn(strings(&["a long value here", "x"]))).unwrap();
    t.add_column("beta", ColumnData::StringColumn(strings(&["another long value", "y"]))).unwrap();
    let fmt = TableFormat { max_render_width: Some(30), ..TableFormat::default() };
    let out = fmt.format(&t).unwrap();
    for line in out.split('\n') {
        assert!(line.chars().count() <= 30, "{:?}", line);
    }
    assert_eq!(out.split('\n').nth(2).unwrap(), "a long value here  │  anoth...");
}

#[test]
fn render_height_limits_data_rows() {
    let mut t = Table::new();
    t.add_column("v", ColumnData::BoolColumn(vec![true, false, true, false])).unwrap();
    let fmt = TableFormat { render_height: Some(4), ..TableFormat::default() };
    let out = fmt.format(&t).unwrap();
    assert_eq!(out, "    v\n─────\ntrue\nfalse");
    let none = TableFormat { render_height: Some(1), ..TableFormat::default() };
    assert_eq!(none.format(&t).unwrap(), "v\n─");
}

#[test]
fn indent_and_multiline_header() {
    let mut t = Table::new();
    t.add_column("x", ColumnData::StringColumn(strings(&["1"]))).unwrap();
    let fmt = TableFormat {
        column_formats: Some(vec![ColumnFormatShorthand::new().name("x").display_name("a_bc")
            .newline_underscores()]),
        indent: 2,
        ..TableFormat::default()
    };
    assert_eq!(fmt.format(&t).unwrap(), "   a\n  bc\n  ──\n   1");
}

#[test]
fn summary_rows_are_refused() {
    let t = small_table();
    let fmt = TableFormat { include_summary_row: true, ..TableFormat::default() };
    assert_eq!(err_kind(fmt.format(&t)), ErrorKind::InvalidFormat);
}

#[test]
fn narrow_max_width_is_refused() {
    let t = small_table();
    let fmt = TableFormat {
        column_formats: Some(vec![ColumnFormatShorthand::new().name("name").max_width(2)]),
        ..TableFormat::default()
    };
    assert_eq!(err_kind(fmt.format(&t)), ErrorKind::InvalidFormat);
}

#[test]
fn unknown_column_name_is_missing() {
    let t = small_table();
    let fmt = TableFormat {
        column_formats: Some(vec![ColumnFormatShorthand::new().name("other")]),
        ..TableFormat::default()
    };
    assert_eq!(err_kind(fmt.format(&t)), ErrorKind::ColumnMissing);
}

#[test]
fn mismatched_format_is_refused() {
    let t = small_table();
    let fmt = TableFormat {
        column_formats: Some(vec![ColumnFormatShorthand::new()
            .name("name")
            .set_format(DatumFormatShorthand::Bool(Default::default()))]),
        ..TableFormat::default()
    };
    assert_eq!(err_kind(fmt.format(&t)), ErrorKind::MismatchedFormatType);
}

#[test]
fn missing_values_render_as_fill() {
    let mut t = Table::new();
    t.add_column("col", ColumnData::StringOptionColumn(vec![None, Some("ab".to_string())]))
        .unwrap();
    let out = TableFormat::default().format(&t).unwrap();
    assert_eq!(out, "col\n───\n   \n ab");
}

#[test]
fn resolving_unknown_formats() {
    let u = DatumFormatShorthand::Unknown(UnknownFormat { min_width: Some(3), max_width: None });
    match u.resolve(&ColumnType::Integer) {
        DatumFormat::Number(f) => {
            assert_eq!(f.format_type, FormatType::Decimal);
            assert_eq!(f.precision, 0);
            assert_eq!(f.min_width, 3);
        },
        other => panic!("{:?}", other),
    }
    match u.resolve(&ColumnType::Float) {
        DatumFormat::Number(f) => assert_eq!(f.format_type, FormatType::Exponent),
        other => panic!("{:?}", other),
    }
    assert!(matches!(u.resolve(&ColumnType::String), DatumFormat::String(_)));
    assert!(matches!(u.resolve(&ColumnType::Bool), DatumFormat::Bool(_)));
    assert!(matches!(u.resolve(&ColumnType::Binary), DatumFormat::Binary(_)));
    let once = u.resolve(&ColumnType::Float);
    let twice = once.to_shorthand().resolve(&ColumnType::Float);
    assert_eq!(format!("{:?}", once), format!("{:?}", twice));
    assert_eq!(format!("{:?}", once), format!("{:?}", u.resolve(&ColumnType::Float)));
}

#[test]
fn finalizing_against_source_types() {
    let u = DatumFormatShorthand::Unknown(UnknownFormat { min_width: None, max_width: None });
    let r = u.finalize(&DataType::Other("list".to_string()));
    assert_eq!(err_kind(r), ErrorKind::UnsupportedDatatype);
    assert!(matches!(u.finalize(&DataType::Utf8), Ok(DatumFormat::String(_))));
    let s = DatumFormatShorthand::String(StringFormat::default());
    assert!(matches!(s.finalize(&DataType::Other("list".to_string())), Ok(DatumFormat::String(_))));
    let f = DatumFormat::String(StringFormat::default());
    assert_eq!(err_kind(f.into_number()), ErrorKind::MismatchedFormatType);
    assert_eq!(f.get_min_width(), Some(0));
    assert_eq!(f.max_width(4).get_max_width(), Some(4));
}

#[test]
fn column_format_builders() {
    let f = ColumnFormatShorthand::new().name("my_col").finalize(&ColumnType::String).unwrap();
    assert_eq!(f.display_name, "my_col");
    let f: ColumnFormat = f.newline_underscores().width(5);
    assert_eq!(f.display_name, "my\ncol");
    assert_eq!(f.header_width(), 3);
    assert_eq!(f.get_min_width(), 5);
    assert_eq!(f.get_max_width(), 5);
    let cells = f.format(&ColumnData::StringColumn(strings(&["abcdefg", "x"]))).unwrap();
    assert_eq!(cells, vec!["ab...".to_string(), "    x".to_string()]);
    let kept = f.name("other");
    assert_eq!(kept.display_name, "my\ncol");
    assert_eq!(kept.name, "other");
}

#[test]
fn multiline_helpers() {
    assert_eq!(n_lines("a\nbb\n"), 2);
    assert_eq!(width("a\nbbb\ncc"), 3);
    assert_eq!(width(""), 0);
    assert_eq!(lines("a\n\nb"), vec!["a".to_string(), "".to_string(), "b".to_string()]);
}

#[test]
fn column_data_from_vectors() {
    let mut t = Table::new();
    t.add_column("flags", vec![true, false].into()).unwrap();
    t.add_column("names", vec!["p".to_string(), "q".to_string()].into()).unwrap();
    t.add_column("blobs", vec![Some(vec![1u8]), None].into()).unwrap();
    assert_eq!(t.columns[0].data.column_type(), ColumnType::Bool);
    assert_eq!(t.columns[1].data.column_type(), ColumnType::String);
    assert_eq!(t.columns[2].data.column_type(), ColumnType::Binary);
    let out = TableFormat::default().format(&t).unwrap();
    assert_eq!(out.split('\n').nth(2).unwrap(), " true  │      p  │   0x01");
}

fn final_format(formats: Vec<ColumnFormat>, delimiter: &str, width: usize, height: usize) -> TableFormatFinal {
    TableFormatFinal {
        column_formats: formats,
        column_delimiter: delimiter.to_string(),
        header_separator_delimiter: delimiter.to_string(),
        header_separator_char: '-',
        include_header_row: true,
        include_header_separator_row: true,
        include_summary_row: false,
        include_summary_separator_row: false,
        render_height: height,
        max_render_width: width,
        indent: 0,
    }
}

#[test]
fn render_columns_admits_only_what_fits() {
    let mut t = Table::new();
    t.add_column("a", ColumnData::StringColumn(strings(&["x"]))).unwrap();
    t.add_column("b", ColumnData::StringColumn(strings(&["y"]))).unwrap();
    let formats = vec![
        ColumnFormatShorthand::new().name("a").min_width(10).resolved(&ColumnType::String),
        ColumnFormatShorthand::new().name("b").min_width(10).resolved(&ColumnType::String),
    ];
    let fmt = final_format(formats, "abc", 15, 30);
    let (used, cols) = fmt.render_columns(&t, 1).unwrap();
    assert_eq!(used.len(), 1);
    assert_eq!(cols.len(), 1);
    assert!(10 <= used[0] && used[0] <= 15);
}

#[test]
fn render_columns_lays_out_every_row_given() {
    let mut t = Table::new();
    let values: Vec<String> = (0..40).map(|i| format!("v{}", i)).collect();
    t.add_column("col", ColumnData::StringColumn(values)).unwrap();
    let formats =
        vec![ColumnFormatShorthand::new().name("col").resolved(&ColumnType::String)];
    let fmt = final_format(formats, " | ", 80, 5);
    let (used, cols) = fmt.render_columns(&t, 40).unwrap();
    assert_eq!(cols[0].len(), 40);
    assert_eq!(used[0], 3);
    let out = TableFormat { render_height: Some(5), ..TableFormat::default() }.format(&t).unwrap();
    assert_eq!(out.split('\n').count(), 5);
}
