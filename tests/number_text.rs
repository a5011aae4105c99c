use toolstr::{group_thousands, radix_prefix, si_prefix, sign_prefix, trim_fraction, FormatType, Sign};

#[test]
fn si_prefixes_by_exponent() {
    assert_eq!(si_prefix(6).as_deref(), Some("M"));
    assert_eq!(si_prefix(0).as_deref(), Some(""));
    assert_eq!(si_prefix(-6).as_deref(), Some("µ"));
    assert_eq!(si_prefix(-24).as_deref(), Some("y"));
    assert_eq!(si_prefix(24).as_deref(), Some("Y"));
    assert_eq!(si_prefix(27), None);
    assert_eq!(si_prefix(4), None);
}

#[test]
fn si_text_for_one_and_a_half_million() {
    let prefix = si_prefix(6).unwrap();
    let text = format!("{}{}", trim_fraction("1.500000"), prefix);
    assert_eq!(text, "1.5M");
}

#[test]
fn sign_policies() {
    assert_eq!(sign_prefix(true, Sign::OnlyNegative), "-");
    assert_eq!(sign_prefix(false, Sign::OnlyNegative), "");
    assert_eq!(sign_prefix(false, Sign::Always), "+");
    assert_eq!(sign_prefix(false, Sign::SpaceOrDash), " ");
}

#[test]
fn radix_markers() {
    assert_eq!(radix_prefix(FormatType::Hex, true), "0x");
    assert_eq!(radix_prefix(FormatType::HexUppercase, true), "0X");
    assert_eq!(radix_prefix(FormatType::Binary, true), "0b");
    assert_eq!(radix_prefix(FormatType::Hex, false), "");
    assert_eq!(radix_prefix(FormatType::Decimal, true), "");
}

#[test]
fn thousands_grouping() {
    assert_eq!(group_thousands("1234567.891"), "1,234,567.891");
    assert_eq!(group_thousands("123"), "123");
    assert_eq!(group_thousands("1234"), "1,234");
    assert_eq!(group_thousands(""), "");
}

#[test]
fn fraction_trimming() {
    assert_eq!(trim_fraction("3.1400"), "3.14");
    assert_eq!(trim_fraction("2.000"), "2");
    assert_eq!(trim_fraction("1000"), "1000");
}
