use toolstr::{
    BinaryAlign, BinaryFormat, BoolAlign, BoolFormat, ErrorKind, FormatError, FormatType,
    NumberAlign, NumberFormat, StringAlign, StringFormat,
};

fn kind(r: Result<String, FormatError>) -> ErrorKind {
    match r {
        Ok(s) => panic!("expected an error, got {:?}", s),
        Err(e) => e.error_kind(),
    }
}

#[test]
fn binary_zero_fill_goes_between_prefix_and_digits() {
    let fmt = BinaryFormat {
        prefix: true,
        min_width: 6,
        max_width: usize::MAX,
        align: BinaryAlign::Right,
        fill_char: '0',
    };
    assert_eq!(fmt.format(&[0xAB]).unwrap(), "0x00ab");
}

#[test]
fn binary_other_fill_goes_before_prefix() {
    let fmt = BinaryFormat { min_width: 8, fill_char: '.', ..BinaryFormat::default() };
    assert_eq!(fmt.format(&[0xAB]).unwrap(), "....0xab");
}

#[test]
fn binary_left_padding_follows_digits() {
    let fmt = BinaryFormat {
        min_width: 7,
        align: BinaryAlign::Left,
        fill_char: '0',
        ..BinaryFormat::default()
    };
    assert_eq!(fmt.format(&[0x01, 0xff]).unwrap(), "0x01ff0");
}

#[test]
fn binary_default_is_prefixed_lowercase_hex() {
    let fmt = BinaryFormat::default();
    assert_eq!(fmt.format(&[0xDE, 0xAD, 0xBE, 0xEF]).unwrap(), "0xdeadbeef");
    assert_eq!(fmt.format(&[]).unwrap(), "0x");
}

#[test]
fn binary_without_prefix() {
    let fmt = BinaryFormat { prefix: false, ..BinaryFormat::default() };
    assert_eq!(fmt.format(&[0x00, 0x0a, 0x10]).unwrap(), "000a10");
}

#[test]
fn binary_clipped_keeps_prefix_and_dots() {
    let fmt = BinaryFormat { max_width: 8, ..BinaryFormat::default() };
    let s = fmt.format(&[0x12, 0x34, 0x56, 0x78]).unwrap();
    assert_eq!(s, "0x123...");
    assert_eq!(s.chars().count(), 8);
}

#[test]
fn binary_clip_too_narrow_is_invalid() {
    let fmt = BinaryFormat { max_width: 4, ..BinaryFormat::default() };
    assert_eq!(kind(fmt.format(&[0x12, 0x34])), ErrorKind::InvalidFormat);
    let fmt = BinaryFormat { max_width: 2, prefix: false, ..BinaryFormat::default() };
    assert_eq!(kind(fmt.format(&[0x12, 0x34])), ErrorKind::InvalidFormat);
}

#[test]
fn binary_option_missing_uses_given_text() {
    let fmt = BinaryFormat::default();
    assert_eq!(fmt.format_option(&None::<Vec<u8>>, "-").unwrap(), "-");
    assert_eq!(fmt.format_option(&Some(vec![0x0f]), "-").unwrap(), "0x0f");
}

#[test]
fn binary_width_law_on_examples() {
    for (min, max, n) in [(0usize, 100usize, 3usize), (10, 20, 2), (4, 6, 5), (0, 5, 0)] {
        let fmt = BinaryFormat { min_width: min, max_width: max, ..BinaryFormat::default() };
        let data = vec![0x5a; n];
        let s = fmt.format(&data).unwrap();
        let content = 2 + 2 * n;
        assert_eq!(s.chars().count(), min.max(content.min(max)));
    }
}

#[test]
fn binary_round_trip_recovers_digits() {
    let fmt = BinaryFormat { min_width: 10, fill_char: '0', ..BinaryFormat::default() };
    let s = fmt.format(&[0x0a, 0xbc]).unwrap();
    assert_eq!(s, "0x00000abc");
    assert_eq!(&s[s.len() - 4..], "0abc");
}

#[test]
fn string_clipped_with_ellipsis() {
    let fmt = StringFormat { max_width: 5, ..StringFormat::default() };
    assert_eq!(fmt.format("hello world").unwrap(), "he...");
}

#[test]
fn string_padding_both_sides() {
    let right = StringFormat { min_width: 6, fill_char: '*', ..StringFormat::default() };
    assert_eq!(right.format("abc").unwrap(), "***abc");
    let left = StringFormat { align: StringAlign::Left, ..right };
    assert_eq!(left.format("abc").unwrap(), "abc***");
    assert_eq!(left.format("abcdef").unwrap(), "abcdef");
}

#[test]
fn string_clip_below_three_is_invalid() {
    let fmt = StringFormat { max_width: 2, ..StringFormat::default() };
    assert_eq!(kind(fmt.format("abc")), ErrorKind::InvalidFormat);
    assert_eq!(fmt.format("ab").unwrap(), "ab");
}

#[test]
fn string_option_missing() {
    let fmt = StringFormat::default();
    assert_eq!(fmt.format_option(None, "  ").unwrap(), "  ");
    assert_eq!(fmt.format_option(Some("x"), "  ").unwrap(), "x");
}

#[test]
fn string_width_law_on_examples() {
    for (min, max, text) in [(0usize, 10usize, "hello"), (8, 10, "hi"), (0, 4, "abcdefgh"), (3, 3, "")] {
        let fmt = StringFormat { min_width: min, max_width: max, ..StringFormat::default() };
        let s = fmt.format(text).unwrap();
        let n = text.chars().count();
        assert_eq!(s.chars().count(), min.max(n.min(max)));
    }
}

#[test]
fn bool_literals_and_widths() {
    let fmt = BoolFormat::default();
    assert_eq!(fmt.format(true).unwrap(), "true");
    assert_eq!(fmt.format(false).unwrap(), "false");
    let wide = fmt.min_width(7).max_width(9);
    assert_eq!(wide.format(true).unwrap(), "   true");
    let left = BoolFormat { align: BoolAlign::Left, fill_char: '_', ..wide };
    assert_eq!(left.format(false).unwrap(), "false__");
    assert_eq!(fmt.max_width(4).format(false).unwrap(), "f...");
    assert_eq!(fmt.format_option(None, "?").unwrap(), "?");
}

#[test]
fn number_fit_pads_with_spaces() {
    let fmt = NumberFormat::default().min_width(6);
    assert_eq!(fmt.fit_width("3.14").unwrap(), "  3.14");
    let left = NumberFormat { align: NumberAlign::Left, ..fmt };
    assert_eq!(left.fit_width("3.14").unwrap(), "3.14  ");
}

#[test]
fn number_fit_clips_with_dots() {
    let fmt = NumberFormat::default();
    assert_eq!(fmt.max_width(5).fit_width("123456789").unwrap(), "12...");
    assert_eq!(fmt.max_width(2).fit_width("123456789").unwrap(), "..");
    assert_eq!(fmt.max_width(1).fit_width("123456789").unwrap(), ".");
    assert_eq!(fmt.max_width(0).fit_width("123456789").unwrap(), "");
    assert_eq!(fmt.max_width(9).fit_width("123456789").unwrap(), "123456789");
}

#[test]
fn number_center_padding_is_not_implemented() {
    let fmt = NumberFormat { align: NumberAlign::Center, min_width: 5, ..NumberFormat::default() };
    assert_eq!(kind(fmt.fit_width("1")), ErrorKind::InvalidFormat);
    assert_eq!(fmt.fit_width("12345").unwrap(), "12345");
}

#[test]
fn number_option_missing() {
    let fmt = NumberFormat::default();
    assert_eq!(fmt.fit_width_option(None, "   ").unwrap(), "   ");
    assert_eq!(fmt.fit_width_option(Some("7"), "   ").unwrap(), "7");
}

#[test]
fn number_defaults_and_builders() {
    let fmt = NumberFormat::default();
    assert_eq!(fmt.precision, 6);
    assert_eq!(fmt.format_type, FormatType::NoFormat);
    assert_eq!(fmt.max_width, usize::MAX);
    let f = fmt.format_type(&FormatType::SI).precision(2);
    assert_eq!(f.format_type, FormatType::SI);
    assert_eq!(f.precision, 2);
    assert_eq!(FormatType::all_variants().len(), 15);
    assert_eq!(FormatType::all_variants()[3], FormatType::SI);
}
