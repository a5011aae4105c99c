use vstd::prelude::*;

use crate::error::{text_result_matches, ErrorKind, FormatError};
use crate::text::{repeat, repeat_char};

verus! {

/// The sixteen lowercase hex digits, in order.
pub open spec fn hex_digits() -> Seq<char> {
    seq!['0', '1', '2', '3', '4', '5', '6', '7', '8', '9', 'a', 'b', 'c', 'd', 'e', 'f']
}

/// The two hex digits of one byte, high nibble first.
pub open spec fn byte_hex(b: u8) -> Seq<char> {
    seq![hex_digits()[(b / 16) as int], hex_digits()[(b % 16) as int]]
}

/// Lowercase hex encoding of a byte string.
pub open spec fn hex_of(data: Seq<u8>) -> Seq<char>
    decreases data.len(),
{
    if data.len() == 0 {
        Seq::empty()
    } else {
        hex_of(data.drop_last()) + byte_hex(data.last())
    }
}

/// `0x` when the prefix is asked for, else nothing.
pub open spec fn hex_prefix(prefix: bool) -> Seq<char> {
    if prefix {
        seq!['0', 'x']
    } else {
        Seq::empty()
    }
}

/// The three dots that mark clipped text.
pub open spec fn ellipsis() -> Seq<char> {
    seq!['.', '.', '.']
}

/// Two digits per byte.
pub proof fn lemma_hex_len(data: Seq<u8>)
    ensures
        hex_of(data).len() == 2 * data.len(),
    decreases data.len(),
{
    if data.len() > 0 {
        lemma_hex_len(data.drop_last());
    }
}

/// Every character of the encoding is a lowercase hex digit.
pub proof fn lemma_hex_digits(data: Seq<u8>)
    ensures
        forall|i: int| 0 <= i < hex_of(data).len() ==> hex_digits().contains(#[trigger] hex_of(data)[i]),
    decreases data.len(),
{
    if data.len() > 0 {
        lemma_hex_digits(data.drop_last());
        let last = data.last();
        assert(hex_digits()[(last / 16) as int] == byte_hex(last)[0]);
        assert(hex_digits()[(last % 16) as int] == byte_hex(last)[1]);
        assert forall|i: int| 0 <= i < hex_of(data).len() implies hex_digits().contains(
            #[trigger] hex_of(data)[i],
        ) by {
            let front = hex_of(data.drop_last());
            if i < front.len() {
                assert(hex_of(data)[i] == front[i]);
            } else if i == front.len() {
                assert(hex_of(data)[i] == hex_digits()[(last / 16) as int]);
            } else {
                assert(hex_of(data)[i] == hex_digits()[(last % 16) as int]);
            }
        }
    }
}

/// How padding is placed around binary data.
#[derive(PartialEq, Eq, Structural, Clone, Copy, Debug)]
pub enum BinaryAlign {
    /// left align
    Left,
    /// right align
    Right,
}

/// How a byte string is rendered: lowercase hex, optionally prefixed with `0x`,
/// padded or clipped to a width range.
#[derive(Clone, Copy, Debug)]
pub struct BinaryFormat {
    /// prefix the digits with `0x`
    pub prefix: bool,
    /// min_width of string, for padding
    pub min_width: usize,
    /// max_width of string, for clipping
    pub max_width: usize,
    /// align binary to left or right
    pub align: BinaryAlign,
    /// fill padding char
    pub fill_char: char,
}

impl Default for BinaryFormat {
    fn default() -> (r: BinaryFormat)
        ensures
            r == (BinaryFormat {
                prefix: true,
                min_width: 0,
                max_width: usize::MAX,
                align: BinaryAlign::Right,
                fill_char: ' ',
            }),
    {
        BinaryFormat {
            prefix: true,
            min_width: 0,
            max_width: usize::MAX,
            align: BinaryAlign::Right,
            fill_char: ' ',
        }
    }
}

/// Turns an optional byte string into a borrowed one.
pub trait AsOptionRef {
    /// The bytes held, if any.
    spec fn option_bytes(&self) -> Option<Seq<u8>>;

    fn as_option_ref(&self) -> (r: Option<&[u8]>)
        ensures
            r is Some == self.option_bytes() is Some,
            r is Some ==> r->0@ == self.option_bytes()->0,
    ;
}

impl AsOptionRef for Option<Vec<u8>> {
    open spec fn option_bytes(&self) -> Option<Seq<u8>> {
        match self {
            Some(v) => Some(v@),
            None => None,
        }
    }

    fn as_option_ref(&self) -> (r: Option<&[u8]>) {
        match self {
            Some(v) => Some(v.as_slice()),
            None => None,
        }
    }
}

impl BinaryFormat {
    /// The text `format` yields for `data`.
    pub open spec fn spec_format(self, data: Seq<u8>) -> Result<Seq<char>, ErrorKind> {
        let s = hex_of(data);
        let p = hex_prefix(self.prefix);
        let total = p.len() + s.len();
        if total < self.min_width {
            let pad = repeat_char(self.fill_char, (self.min_width - total) as nat);
            match self.align {
                BinaryAlign::Left => Ok(p + s + pad),
                BinaryAlign::Right => if self.fill_char == '0' {
                    Ok(p + pad + s)
                } else {
                    Ok(pad + p + s)
                },
            }
        } else if total > self.max_width {
            if self.max_width < 3 + p.len() {
                Err(ErrorKind::InvalidFormat)
            } else {
                Ok(p + s.take(self.max_width - 3 - p.len()) + ellipsis())
            }
        } else {
            Ok(p + s)
        }
    }

    /// The text `format_option` yields.
    pub open spec fn spec_format_option(self, data: Option<Seq<u8>>, none_str: Seq<char>) -> Result<
        Seq<char>,
        ErrorKind,
    > {
        match data {
            Some(d) => self.spec_format(d),
            None => Ok(none_str),
        }
    }

    /// format option of binary data
    pub fn format_option<T: AsOptionRef>(&self, data: &T, none_str: &str) -> (r: Result<
        String,
        FormatError,
    >)
        ensures
            text_result_matches(r, self.spec_format_option(data.option_bytes(), none_str@)),
    {
        match data.as_option_ref() {
            Some(d) => self.format(d),
            None => Ok(none_str.to_owned()),
        }
    }

    /// format binary data
    pub fn format(&self, data: &[u8]) -> (r: Result<String, FormatError>)
        ensures
            text_result_matches(r, self.spec_format(data@)),
    {
        let s = bytes_to_hex(data);
        let n = s.as_str().unicode_len();
        let plen: usize = if self.prefix {
            2
        } else {
            0
        };
        let ghost p = hex_prefix(self.prefix);
        let mut out = String::new();
        if plen < self.min_width && n < self.min_width - plen {
            let pad = repeat(self.fill_char, self.min_width - plen - n);
            match self.align {
                BinaryAlign::Left => {
                    push_prefix(&mut out, self.prefix);
                    out.append(s.as_str());
                    out.append(pad.as_str());
                    assert(out@ =~= p + s@ + pad@);
                },
                BinaryAlign::Right => {
                    if self.fill_char == '0' {
                        push_prefix(&mut out, self.prefix);
                        out.append(pad.as_str());
                        out.append(s.as_str());
                        assert(out@ =~= p + pad@ + s@);
                    } else {
                        out.append(pad.as_str());
                        push_prefix(&mut out, self.prefix);
                        out.append(s.as_str());
                        assert(out@ =~= pad@ + p + s@);
                    }
                },
            }
            Ok(out)
        } else if plen > self.max_width || n > self.max_width - plen {
            if self.max_width < 3 + plen {
                Err(FormatError::InvalidFormat("max_width too small for clipping".to_owned()))
            } else {
                let kept = s.as_str().substring_char(0, self.max_width - 3 - plen);
                push_prefix(&mut out, self.prefix);
                out.append(kept);
                out.push('.');
                out.push('.');
                out.push('.');
                assert(out@ =~= p + s@.take(self.max_width - 3 - plen) + ellipsis());
                Ok(out)
            }
        } else {
            push_prefix(&mut out, self.prefix);
            out.append(s.as_str());
            assert(out@ =~= p + s@);
            Ok(out)
        }
    }
}

/// Appends `0x` when `prefix` holds.
fn push_prefix(out: &mut String, prefix: bool)
    ensures
        final(out)@ == old(out)@ + hex_prefix(prefix),
{
    if prefix {
        out.push('0');
        out.push('x');
        assert(out@ =~= old(out)@ + hex_prefix(prefix));
    } else {
        assert(out@ =~= old(out)@ + hex_prefix(prefix));
    }
}

/// The hex digit for a value below sixteen.
fn hex_digit(v: u8) -> (c: char)
    requires
        v < 16,
    ensures
        c == hex_digits()[v as int],
{
    let digits: [char; 16] = [
        '0', '1', '2', '3', '4', '5', '6', '7', '8', '9', 'a', 'b', 'c', 'd', 'e', 'f',
    ];
    assert(digits@ =~= hex_digits());
    digits[v as usize]
}

/// convert bytes to raw hex string
fn bytes_to_hex(data: &[u8]) -> (r: String)
    ensures
        r@ == hex_of(data@),
{
    let mut out = String::new();
    let mut i: usize = 0;
    while i < data.len()
        invariant
            i <= data@.len(),
            out@ == hex_of(data@.take(i as int)),
        decreases data@.len() - i,
    {
        let b = data[i];
        out.push(hex_digit(b / 16));
        out.push(hex_digit(b % 16));
        assert(data@.take(i as int + 1).drop_last() =~= data@.take(i as int));
        assert(out@ =~= hex_of(data@.take(i as int + 1)));
        i = i + 1;
    }
    assert(data@.take(i as int) =~= data@);
    out
}


/// Bytes render to `max(min_width, min(len, max_width))` characters, where
/// `len` counts the prefix and two digits per byte; rendering fails only
/// where the text must be clipped to too few characters to keep the prefix
/// and the dots.
pub proof fn lemma_binary_width(f: BinaryFormat, data: Seq<u8>)
    requires
        f.min_width <= f.max_width,
    ensures
        f.spec_format(data) is Err <==> (hex_prefix(f.prefix).len() + 2 * data.len() > f.max_width
            && f.max_width < 3 + hex_prefix(f.prefix).len()),
        f.spec_format(data) matches Ok(r) ==> r.len() == crate::text::fitted_len(
            hex_prefix(f.prefix).len() + 2 * data.len(),
            f.min_width as nat,
            f.max_width as nat,
        ),
{
    lemma_hex_len(data);
}

/// With the prefix on, bytes render, before any padding, as `0x` followed by
/// exactly two lowercase hex digits per byte: left-aligned padding follows
/// them, zero padding goes between `0x` and the digits, and any other
/// padding precedes the `0x`.
pub proof fn lemma_binary_prefix(f: BinaryFormat, data: Seq<u8>)
    requires
        f.prefix,
        2 + 2 * data.len() <= f.max_width,
    ensures
        hex_of(data).len() == 2 * data.len(),
        forall|i: int| 0 <= i < hex_of(data).len() ==> hex_digits().contains(#[trigger] hex_of(data)[i]),
        f.spec_format(data) matches Ok(r) && {
            let body = seq!['0', 'x'] + hex_of(data);
            let pad = (r.len() - body.len()) as nat;
            let start: int = match f.align {
                BinaryAlign::Left => body.len() as int,
                BinaryAlign::Right => if f.fill_char == '0' {
                    2
                } else {
                    0
                },
            };
            &&& r.len() >= body.len()
            &&& r.subrange(start, start + pad) == crate::text::repeat_char(f.fill_char, pad)
            &&& match f.align {
                BinaryAlign::Left => r.take(body.len() as int) == body,
                BinaryAlign::Right => if f.fill_char == '0' {
                    r.take(2) == seq!['0', 'x'] && r.skip(2 + pad as int) == hex_of(data)
                } else {
                    r.skip(pad as int) == body
                },
            }
        },
{
    lemma_hex_len(data);
    lemma_hex_digits(data);
    let body = seq!['0', 'x'] + hex_of(data);
    let r = f.spec_format(data)->Ok_0;
    if body.len() < f.min_width {
        let pad = (r.len() - body.len()) as nat;
        match f.align {
            BinaryAlign::Left => {
                assert(r.take(body.len() as int) =~= body);
                assert(r.subrange(body.len() as int, body.len() + pad as int) =~= crate::text::repeat_char(
                    f.fill_char,
                    pad,
                ));
            },
            BinaryAlign::Right => {
                if f.fill_char == '0' {
                    assert(r.take(2) =~= seq!['0', 'x']);
                    assert(r.skip(2 + pad as int) =~= hex_of(data));
                    assert(r.subrange(2, 2 + pad as int) =~= crate::text::repeat_char(f.fill_char, pad));
                } else {
                    assert(r.skip(pad as int) =~= body);
                    assert(r.subrange(0, pad as int) =~= crate::text::repeat_char(f.fill_char, pad));
                }
            },
        }
    } else {
        assert(r.subrange(0, 0) =~= crate::text::repeat_char(f.fill_char, 0));
        assert(r.subrange(2, 2) =~= crate::text::repeat_char(f.fill_char, 0));
        assert(r.subrange(body.len() as int, body.len() as int) =~= crate::text::repeat_char(
            f.fill_char,
            0,
        ));
        assert(r =~= body);
        assert(r.take(body.len() as int) =~= body);
        assert(r.take(2) =~= seq!['0', 'x']);
        assert(r.skip(2) =~= hex_of(data));
        assert(r.skip(0) =~= body);
    }
}

/// Stripping the prefix and padding from rendered bytes gives their hex
/// digits back; where the text was clipped, what precedes the dots is a
/// prefix of those digits.
pub proof fn lemma_binary_round_trip(f: BinaryFormat, data: Seq<u8>)
    requires
        f.min_width <= f.max_width,
    ensures
        f.spec_format(data) matches Ok(r) ==> {
            let p = hex_prefix(f.prefix);
            let s = hex_of(data);
            &&& p.len() + s.len() <= f.max_width ==> {
                let body = crate::text::unpadded(
                    r,
                    (p.len() + s.len()) as nat,
                    f.align == BinaryAlign::Left,
                );
                &&& f.align == BinaryAlign::Left || f.fill_char != '0' || p.len() + s.len()
                    >= f.min_width ==> body == p + s
                &&& r.skip(r.len() - s.len()) == s || f.align == BinaryAlign::Left
            }
            &&& p.len() + s.len() > f.max_width ==> r.len() == f.max_width && r.take(p.len() as int)
                == p && r.subrange(p.len() as int, r.len() - 3) == s.take(r.len() - 3 - p.len())
                && r.skip(r.len() - 3) == ellipsis()
        },
{
    lemma_hex_len(data);
    if let Ok(r) = f.spec_format(data) {
        let p = hex_prefix(f.prefix);
        let s = hex_of(data);
        let total = p.len() + s.len();
        if total <= f.max_width {
            if total < f.min_width {
                match f.align {
                    BinaryAlign::Left => {
                        assert(r.take(total as int) =~= p + s);
                    },
                    BinaryAlign::Right => {
                        assert(r.skip(r.len() - s.len()) =~= s);
                        if f.fill_char != '0' {
                            assert(r.skip(r.len() - total) =~= p + s);
                        }
                    },
                }
            } else {
                assert(r.take(total as int) =~= p + s);
                assert(r.skip(r.len() - total) =~= p + s);
                assert(r.skip(r.len() - s.len()) =~= s);
            }
        } else {
            assert(r.take(p.len() as int) =~= p);
            assert(r.subrange(p.len() as int, r.len() - 3) =~= s.take(r.len() - 3 - p.len()));
            assert(r.skip(r.len() - 3) =~= ellipsis());
        }
    }
}

} // verus!
