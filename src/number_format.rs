use vstd::prelude::*;

use crate::binary_format::ellipsis;
use crate::error::{text_result_matches, ErrorKind, FormatError};
use crate::string_format::{clip_text, pad_text, padded};

verus! {

/// Alignment of a number within its width.
#[derive(PartialEq, Eq, Structural, Clone, Copy, Debug)]
pub enum NumberAlign {
    /// left align
    Left,
    /// right align
    Right,
    /// center align (not implemented)
    Center,
    /// center align with sign on left side (not implemented)
    SignedRight,
}

impl Default for NumberAlign {
    fn default() -> (r: NumberAlign)
        ensures
            r == NumberAlign::Right,
    {
        NumberAlign::Right
    }
}

/// Whether to include sign
#[derive(PartialEq, Eq, Structural, Clone, Copy, Debug)]
pub enum Sign {
    /// only show sign when negative
    OnlyNegative,
    /// always show sign
    Always,
    /// space or dash
    SpaceOrDash,
}

impl Default for Sign {
    fn default() -> (r: Sign)
        ensures
            r == Sign::OnlyNegative,
    {
        Sign::OnlyNegative
    }
}

/// Time zone used to render timestamps.
#[derive(PartialEq, Eq, Structural, Clone, Copy, Debug)]
pub enum Timezone {
    Local,
    Utc,
}

/// Numeric notation.
#[derive(PartialEq, Eq, Structural, Clone, Copy, Debug)]
pub enum FormatType {
    /// exponent format
    Exponent,
    /// exponent upper case format
    ExponentUppercase,
    /// fixed point format
    FixedPoint,
    /// SI prefix format
    SI,
    /// percentage format
    Percentage,
    /// binary format
    Binary,
    /// octal format
    Octal,
    /// octal upper case format
    OctalUppercase,
    /// decimal format
    Decimal,
    /// hex format
    Hex,
    /// hex upper case format
    HexUppercase,
    /// integer order of magnitude (display integer when <1000)
    IntegerOrderOfMagnitude,
    /// float order of magnitude (display as float when <1000)
    FloatOrderOfMagnitude,
    /// timestamp pretty
    TimestampPretty,
    /// no format
    NoFormat,
}

impl Default for FormatType {
    fn default() -> (r: FormatType)
        ensures
            r == FormatType::NoFormat,
    {
        FormatType::NoFormat
    }
}

/// Every notation, in declaration order.
pub open spec fn all_format_types() -> Seq<FormatType> {
    seq![
        FormatType::Exponent,
        FormatType::ExponentUppercase,
        FormatType::FixedPoint,
        FormatType::SI,
        FormatType::Percentage,
        FormatType::Binary,
        FormatType::Octal,
        FormatType::OctalUppercase,
        FormatType::Decimal,
        FormatType::Hex,
        FormatType::HexUppercase,
        FormatType::IntegerOrderOfMagnitude,
        FormatType::FloatOrderOfMagnitude,
        FormatType::TimestampPretty,
        FormatType::NoFormat,
    ]
}

impl FormatType {
    /// list all FormatType variants
    pub fn all_variants() -> (r: Vec<FormatType>)
        ensures
            r@ == all_format_types(),
    {
        let r = vec![
            FormatType::Exponent,
            FormatType::ExponentUppercase,
            FormatType::FixedPoint,
            FormatType::SI,
            FormatType::Percentage,
            FormatType::Binary,
            FormatType::Octal,
            FormatType::OctalUppercase,
            FormatType::Decimal,
            FormatType::Hex,
            FormatType::HexUppercase,
            FormatType::IntegerOrderOfMagnitude,
            FormatType::FloatOrderOfMagnitude,
            FormatType::TimestampPretty,
            FormatType::NoFormat,
        ];
        assert(r@ =~= all_format_types());
        r
    }
}

/// How a number is rendered. The notation fields (sign, precision, notation,
/// grouping, time zone) govern the numeric text; the width fields govern how
/// that text is fitted by [`NumberFormat::fit_width`].
#[derive(Clone, Copy, Debug)]
pub struct NumberFormat {
    /// zero padding
    pub zero_padding: bool,
    /// fill character
    pub fill: char,
    /// alignment
    pub align: NumberAlign,
    /// sign
    pub sign: Sign,
    /// type prefix
    pub type_prefix: bool,
    /// min_width
    pub min_width: usize,
    /// max_width
    pub max_width: usize,
    /// commas
    pub commas: bool,
    /// decimals
    pub precision: usize,
    /// format type
    pub format_type: FormatType,
    /// timezone
    pub timezone: Timezone,
}

impl Default for NumberFormat {
    fn default() -> (r: NumberFormat)
        ensures
            r == NumberFormat::spec_default(),
    {
        NumberFormat {
            zero_padding: true,
            fill: ' ',
            align: NumberAlign::Right,
            sign: Sign::OnlyNegative,
            type_prefix: false,
            min_width: 0,
            max_width: usize::MAX,
            commas: false,
            precision: 6,
            format_type: FormatType::NoFormat,
            timezone: Timezone::Utc,
        }
    }
}

impl NumberFormat {
    pub open spec fn spec_default() -> NumberFormat {
        NumberFormat {
            zero_padding: true,
            fill: ' ',
            align: NumberAlign::Right,
            sign: Sign::OnlyNegative,
            type_prefix: false,
            min_width: 0,
            max_width: usize::MAX,
            commas: false,
            precision: 6,
            format_type: FormatType::NoFormat,
            timezone: Timezone::Utc,
        }
    }

    /// The text `fit_width` yields for the numeric text `s`: padded with spaces
    /// up to `min_width`, or clipped with dots down to `max_width`.
    pub open spec fn spec_fit(self, s: Seq<char>) -> Result<Seq<char>, ErrorKind> {
        if s.len() < self.min_width {
            match self.align {
                NumberAlign::Left => Ok(padded(s, self.min_width as nat, ' ', true)),
                NumberAlign::Right => Ok(padded(s, self.min_width as nat, ' ', false)),
                _ => Err(ErrorKind::InvalidFormat),
            }
        } else if s.len() > self.max_width {
            if self.max_width == 0 {
                Ok(Seq::empty())
            } else if self.max_width == 1 {
                Ok(seq!['.'])
            } else if self.max_width == 2 {
                Ok(seq!['.', '.'])
            } else {
                Ok(s.take(self.max_width - 3) + ellipsis())
            }
        } else {
            Ok(s)
        }
    }

    /// Fits the numeric text `s` to `[min_width, max_width]`. Padding a number
    /// aligned to the center is not implemented, and is reported as an error.
    pub fn fit_width(&self, s: &str) -> (r: Result<String, FormatError>)
        ensures
            text_result_matches(r, self.spec_fit(s@)),
    {
        let n = s.unicode_len();
        if n < self.min_width {
            match self.align {
                NumberAlign::Left => Ok(pad_text(s, n, self.min_width, ' ', true)),
                NumberAlign::Right => Ok(pad_text(s, n, self.min_width, ' ', false)),
                _ => Err(FormatError::InvalidFormat("center alignment is not implemented".to_owned())),
            }
        } else if n > self.max_width {
            let mut out = String::new();
            if self.max_width == 1 {
                out.push('.');
            } else if self.max_width == 2 {
                out.push('.');
                out.push('.');
            } else if self.max_width >= 3 {
                out = clip_text(s, self.max_width - 3);
            }
            assert(self.max_width == 0 ==> out@ =~= Seq::<char>::empty());
            assert(self.max_width == 1 ==> out@ =~= seq!['.']);
            assert(self.max_width == 2 ==> out@ =~= seq!['.', '.']);
            Ok(out)
        } else {
            Ok(s.to_owned())
        }
    }

    /// Fits an optional numeric text, `none_str` standing for a missing value.
    pub fn fit_width_option(&self, s: Option<&str>, none_str: &str) -> (r: Result<String, FormatError>)
        ensures
            text_result_matches(
                r,
                match s {
                    Some(t) => self.spec_fit(t@),
                    None => Ok(none_str@),
                },
            ),
    {
        match s {
            Some(t) => self.fit_width(t),
            None => Ok(none_str.to_owned()),
        }
    }

    /// set min width
    pub fn min_width(self, width: usize) -> (r: NumberFormat)
        ensures
            r == (NumberFormat { min_width: width, ..self }),
    {
        NumberFormat { min_width: width, ..self }
    }

    /// set max width
    pub fn max_width(self, width: usize) -> (r: NumberFormat)
        ensures
            r == (NumberFormat { max_width: width, ..self }),
    {
        NumberFormat { max_width: width, ..self }
    }

    /// set precision
    pub fn precision(self, precision: usize) -> (r: NumberFormat)
        ensures
            r == (NumberFormat { precision, ..self }),
    {
        NumberFormat { precision, ..self }
    }

    /// set format type
    pub fn format_type(self, format_type: &FormatType) -> (r: NumberFormat)
        ensures
            r == (NumberFormat { format_type: *format_type, ..self }),
    {
        NumberFormat { format_type: *format_type, ..self }
    }
}


/// Numeric text is fitted to `max(min_width, min(len, max_width))`
/// characters, the one- and two-dot forms included; it fails only where
/// padding a centered number is asked for.
pub proof fn lemma_number_width(f: NumberFormat, s: Seq<char>)
    requires
        f.min_width <= f.max_width,
    ensures
        f.spec_fit(s) is Err <==> (s.len() < f.min_width && f.align != NumberAlign::Left && f.align
            != NumberAlign::Right),
        f.spec_fit(s) matches Ok(r) ==> r.len() == crate::text::fitted_len(
            s.len(),
            f.min_width as nat,
            f.max_width as nat,
        ),
{
}

/// Stripping the padding from fitted numeric text gives its digits back;
/// where it was clipped to three or more, what precedes the dots is a prefix
/// of them.
pub proof fn lemma_number_round_trip(f: NumberFormat, s: Seq<char>)
    requires
        f.min_width <= f.max_width,
    ensures
        f.spec_fit(s) matches Ok(r) ==> {
            &&& s.len() <= f.max_width ==> crate::text::unpadded(
                r,
                s.len(),
                f.align == NumberAlign::Left,
            ) == s
            &&& s.len() > f.max_width >= 3 ==> r.take(r.len() - 3)
                == s.take(r.len() - 3) && r.skip(r.len() - 3) == ellipsis()
        },
{
    if let Ok(r) = f.spec_fit(s) {
        if s.len() <= f.max_width {
            if s.len() < f.min_width {
                if f.align == NumberAlign::Left {
                    assert(r.take(s.len() as int) =~= s);
                } else {
                    assert(r.skip(r.len() - s.len()) =~= s);
                }
            } else {
                assert(r.take(s.len() as int) =~= s);
                assert(r.skip(r.len() - s.len()) =~= s);
            }
        } else if f.max_width >= 3 {
            assert(r.take(r.len() - 3) =~= s.take(r.len() - 3));
            assert(r.skip(r.len() - 3) =~= ellipsis());
        }
    }
}

} // verus!
