use toolstr::{
    BorderChars, ColumnData, DataType, DatumFormatShorthand, ErrorKind, RgbColor, SeriesAlign,
    SeriesFormatShorthand, StringFormat, UnknownFormat, align_left, align_line_left,
    align_line_right, align_right, header_underline, hex_to_color, text_box_bottom, text_box_top,
};

#[test]
fn unicode_padding_of_lines() {
    assert_eq!(align_line_left("ab", 4), "ab  ");
    assert_eq!(align_line_right("ab", 4), "  ab");
    assert_eq!(align_line_left("abcdef", 4), "abcdef");
    assert_eq!(align_left("a\nbcd", 3), "a  \nbcd");
    assert_eq!(align_right("a\nbcd", 3), "  a\nbcd");
}

#[test]
fn series_cells_padded_to_widest() {
    let fmt = SeriesFormatShorthand::new()
        .name("s")
        .finalize(&DataType::Utf8)
        .unwrap();
    let data = ColumnData::StringOptionColumn(vec![Some("abc".to_string()), None]);
    assert_eq!(fmt.format(&data).unwrap(), vec!["abc".to_string(), "   ".to_string()]);
    let left = SeriesFormatShorthand { align: SeriesAlign::Left, ..SeriesFormatShorthand::new() }
        .set_format(DatumFormatShorthand::String(StringFormat::default()))
        .finalize(&DataType::Utf8)
        .unwrap();
    let data = ColumnData::StringColumn(vec!["abc".to_string(), "d".to_string()]);
    assert_eq!(left.format(&data).unwrap(), vec!["abc".to_string(), "d  ".to_string()]);
}

#[test]
fn series_unsupported_type() {
    let r = SeriesFormatShorthand::new()
        .set_format(DatumFormatShorthand::Unknown(UnknownFormat { min_width: None, max_width: None }))
        .finalize(&DataType::Other("date".to_string()));
    match r {
        Err(e) => assert_eq!(e.error_kind(), ErrorKind::UnsupportedDatatype),
        Ok(_) => panic!("expected an error"),
    }
}

#[test]
fn box_edges() {
    let chars = BorderChars::default();
    assert_eq!(chars.vertical, "│");
    assert_eq!(text_box_top("hi", &chars), "┌────┐");
    assert_eq!(text_box_bottom("hi", &chars), "└────┘");
    assert_eq!(header_underline("abc", &chars), "───");
}

#[test]
fn hex_colors() {
    assert_eq!(hex_to_color("#ff8000").unwrap(), RgbColor { r: 255, g: 128, b: 0 });
    assert_eq!(hex_to_color("0A0b0C").unwrap(), RgbColor { r: 10, g: 11, b: 12 });
    assert_eq!(hex_to_color("+f0000").unwrap(), RgbColor { r: 15, g: 0, b: 0 });
    for bad in ["#fff", "#gg0000", "12345678", ""] {
        match hex_to_color(bad) {
            Err(e) => assert_eq!(e.error_kind(), ErrorKind::InvalidFormat),
            Ok(c) => panic!("{:?} gave {:?}", bad, c),
        }
    }
}
