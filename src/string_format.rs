use vstd::prelude::*;

use crate::binary_format::ellipsis;
use crate::error::{text_result_matches, ErrorKind, FormatError};
use crate::text::{repeat, repeat_char};

verus! {

/// `s` brought up to `width` with `fill`, on the right (`left` alignment) or on
/// the left.
pub open spec fn padded(s: Seq<char>, width: nat, fill: char, left: bool) -> Seq<char> {
    let pad = repeat_char(fill, (width - s.len()) as nat);
    if left {
        s + pad
    } else {
        pad + s
    }
}

/// Pads `s`, of `n` characters, to `width` with `fill`.
pub fn pad_text(s: &str, n: usize, width: usize, fill: char, left: bool) -> (r: String)
    requires
        n == s@.len(),
        n <= width,
    ensures
        r@ == padded(s@, width as nat, fill, left),
{
    let pad = repeat(fill, width - n);
    let mut out = String::new();
    if left {
        out.append(s);
        out.append(pad.as_str());
    } else {
        out.append(pad.as_str());
        out.append(s);
    }
    assert(out@ =~= padded(s@, width as nat, fill, left));
    out
}

/// The first `keep` characters of `s` followed by `...`.
pub fn clip_text(s: &str, keep: usize) -> (r: String)
    requires
        keep <= s@.len(),
    ensures
        r@ == s@.take(keep as int) + ellipsis(),
{
    let mut out = String::new();
    out.append(s.substring_char(0, keep));
    out.push('.');
    out.push('.');
    out.push('.');
    assert(out@ =~= s@.take(keep as int) + ellipsis());
    out
}

/// How padding is placed around a string.
#[derive(PartialEq, Eq, Structural, Clone, Copy, Debug)]
pub enum StringAlign {
    /// left align
    Left,
    /// right align
    Right,
}

/// How a string is rendered: padded with `fill_char` up to `min_width`, and
/// clipped with `...` down to `max_width`.
#[derive(Clone, Copy, Debug)]
pub struct StringFormat {
    /// min_width of string, for padding
    pub min_width: usize,
    /// max_width of string, for clipping
    pub max_width: usize,
    /// align string to left or right
    pub align: StringAlign,
    /// fill padding char
    pub fill_char: char,
}

impl Default for StringFormat {
    fn default() -> (r: StringFormat)
        ensures
            r == (StringFormat {
                min_width: 0,
                max_width: usize::MAX,
                align: StringAlign::Right,
                fill_char: ' ',
            }),
    {
        StringFormat { min_width: 0, max_width: usize::MAX, align: StringAlign::Right, fill_char: ' ' }
    }
}

impl StringFormat {
    /// The text `format` yields for `s`.
    pub open spec fn spec_format(self, s: Seq<char>) -> Result<Seq<char>, ErrorKind> {
        if s.len() < self.min_width {
            Ok(padded(s, self.min_width as nat, self.fill_char, self.align == StringAlign::Left))
        } else if s.len() > self.max_width {
            if self.max_width < 3 {
                Err(ErrorKind::InvalidFormat)
            } else {
                Ok(s.take(self.max_width - 3) + ellipsis())
            }
        } else {
            Ok(s)
        }
    }

    /// The text `format_option` yields.
    pub open spec fn spec_format_option(self, s: Option<Seq<char>>, none_str: Seq<char>) -> Result<
        Seq<char>,
        ErrorKind,
    > {
        match s {
            Some(s) => self.spec_format(s),
            None => Ok(none_str),
        }
    }

    /// format a string
    pub fn format(&self, s: &str) -> (r: Result<String, FormatError>)
        ensures
            text_result_matches(r, self.spec_format(s@)),
    {
        let n = s.unicode_len();
        if n < self.min_width {
            Ok(pad_text(s, n, self.min_width, self.fill_char, self.align == StringAlign::Left))
        } else if n > self.max_width {
            if self.max_width < 3 {
                Err(FormatError::InvalidFormat("max_width too small for clipping".to_owned()))
            } else {
                Ok(clip_text(s, self.max_width - 3))
            }
        } else {
            Ok(s.to_owned())
        }
    }

    /// format an optional string, `none_str` standing for a missing one
    pub fn format_option(&self, s: Option<&str>, none_str: &str) -> (r: Result<String, FormatError>)
        ensures
            text_result_matches(
                r,
                self.spec_format_option(
                    match s {
                        Some(t) => Some(t@),
                        None => None,
                    },
                    none_str@,
                ),
            ),
    {
        match s {
            Some(t) => self.format(t),
            None => Ok(none_str.to_owned()),
        }
    }

    /// set min width
    pub fn min_width(self, width: usize) -> (r: StringFormat)
        ensures
            r == (StringFormat { min_width: width, ..self }),
    {
        StringFormat { min_width: width, ..self }
    }

    /// set max width
    pub fn max_width(self, width: usize) -> (r: StringFormat)
        ensures
            r == (StringFormat { max_width: width, ..self }),
    {
        StringFormat { max_width: width, ..self }
    }
}

/// The text a boolean stands for.
pub open spec fn bool_text(b: bool) -> Seq<char> {
    if b {
        seq!['t', 'r', 'u', 'e']
    } else {
        seq!['f', 'a', 'l', 's', 'e']
    }
}

/// How padding is placed around a boolean.
#[derive(PartialEq, Eq, Structural, Clone, Copy, Debug)]
pub enum BoolAlign {
    /// left align
    Left,
    /// right align
    Right,
}

/// How a boolean is rendered: `true` or `false`, fitted to a width range as a
/// string is.
#[derive(Clone, Copy, Debug)]
pub struct BoolFormat {
    /// min_width of string, for padding
    pub min_width: usize,
    /// max_width of string, for clipping
    pub max_width: usize,
    /// align to left or right
    pub align: BoolAlign,
    /// fill padding char
    pub fill_char: char,
}

impl Default for BoolFormat {
    fn default() -> (r: BoolFormat)
        ensures
            r == (BoolFormat {
                min_width: 0,
                max_width: usize::MAX,
                align: BoolAlign::Right,
                fill_char: ' ',
            }),
    {
        BoolFormat { min_width: 0, max_width: usize::MAX, align: BoolAlign::Right, fill_char: ' ' }
    }
}

impl BoolFormat {
    /// The string format with the same widths, alignment and fill.
    pub open spec fn as_string_format(self) -> StringFormat {
        StringFormat {
            min_width: self.min_width,
            max_width: self.max_width,
            align: if self.align == BoolAlign::Left {
                StringAlign::Left
            } else {
                StringAlign::Right
            },
            fill_char: self.fill_char,
        }
    }

    /// The text `format` yields for `b`.
    pub open spec fn spec_format(self, b: bool) -> Result<Seq<char>, ErrorKind> {
        self.as_string_format().spec_format(bool_text(b))
    }

    /// format a boolean
    pub fn format(&self, b: bool) -> (r: Result<String, FormatError>)
        ensures
            text_result_matches(r, self.spec_format(b)),
    {
        let fmt = StringFormat {
            min_width: self.min_width,
            max_width: self.max_width,
            align: if self.align == BoolAlign::Left {
                StringAlign::Left
            } else {
                StringAlign::Right
            },
            fill_char: self.fill_char,
        };
        let mut text = String::new();
        if b {
            text.push('t');
            text.push('r');
            text.push('u');
            text.push('e');
        } else {
            text.push('f');
            text.push('a');
            text.push('l');
            text.push('s');
            text.push('e');
        }
        assert(text@ =~= bool_text(b));
        fmt.format(text.as_str())
    }

    /// format an optional boolean, `none_str` standing for a missing one
    pub fn format_option(&self, b: Option<bool>, none_str: &str) -> (r: Result<String, FormatError>)
        ensures
            text_result_matches(
                r,
                match b {
                    Some(b) => self.spec_format(b),
                    None => Ok(none_str@),
                },
            ),
    {
        match b {
            Some(b) => self.format(b),
            None => Ok(none_str.to_owned()),
        }
    }

    /// set min width
    pub fn min_width(self, width: usize) -> (r: BoolFormat)
        ensures
            r == (BoolFormat { min_width: width, ..self }),
    {
        BoolFormat { min_width: width, ..self }
    }

    /// set max width
    pub fn max_width(self, width: usize) -> (r: BoolFormat)
        ensures
            r == (BoolFormat { max_width: width, ..self }),
    {
        BoolFormat { max_width: width, ..self }
    }
}


/// A string renders to `max(min_width, min(len, max_width))` characters; it
/// fails only where it must be clipped to fewer than three.
pub proof fn lemma_string_width(f: StringFormat, s: Seq<char>)
    requires
        f.min_width <= f.max_width,
    ensures
        f.spec_format(s) is Err <==> (s.len() > f.max_width && f.max_width < 3),
        f.spec_format(s) matches Ok(r) ==> r.len() == crate::text::fitted_len(
            s.len(),
            f.min_width as nat,
            f.max_width as nat,
        ),
{
}

/// A boolean renders to `max(min_width, min(len, max_width))` characters,
/// `len` being that of `true` or `false`; it fails only where it must be
/// clipped to fewer than three.
pub proof fn lemma_bool_width(f: BoolFormat, b: bool)
    requires
        f.min_width <= f.max_width,
    ensures
        f.spec_format(b) is Err <==> (bool_text(b).len() > f.max_width && f.max_width < 3),
        f.spec_format(b) matches Ok(r) ==> r.len() == crate::text::fitted_len(
            bool_text(b).len(),
            f.min_width as nat,
            f.max_width as nat,
        ),
{
    lemma_string_width(f.as_string_format(), bool_text(b));
}

/// Stripping the padding from a rendered string gives the string back; where
/// it was clipped, what precedes the dots is a prefix of it.
pub proof fn lemma_string_round_trip(f: StringFormat, s: Seq<char>)
    requires
        f.min_width <= f.max_width,
    ensures
        f.spec_format(s) matches Ok(r) ==> {
            &&& s.len() <= f.max_width ==> crate::text::unpadded(
                r,
                s.len(),
                f.align == StringAlign::Left,
            ) == s
            &&& s.len() > f.max_width ==> r.len() == f.max_width && r.take(r.len() - 3) == s.take(
                r.len() - 3,
            ) && r.skip(r.len() - 3) == ellipsis()
        },
{
    if let Ok(r) = f.spec_format(s) {
        if s.len() <= f.max_width {
            if s.len() < f.min_width {
                if f.align == StringAlign::Left {
                    assert(r.take(s.len() as int) =~= s);
                } else {
                    assert(r.skip(r.len() - s.len()) =~= s);
                }
            } else {
                assert(r.take(s.len() as int) =~= s);
                assert(r.skip(r.len() - s.len()) =~= s);
            }
        } else {
            assert(r.take(r.len() - 3) =~= s.take(r.len() - 3));
            assert(r.skip(r.len() - 3) =~= ellipsis());
        }
    }
}

} // verus!
