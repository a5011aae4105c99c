use vstd::prelude::*;

use crate::error::FormatError;
use crate::text::chars_of;

verus! {

/// border chars
#[derive(Clone, Debug)]
pub struct BorderChars {
    /// vertical border
    pub vertical: String,
    /// horizontal border
    pub horizontal: String,
    /// top left border
    pub top_left: String,
    /// top right border
    pub top_right: String,
    /// bottom left border
    pub bottom_left: String,
    /// bottom right border
    pub bottom_right: String,
    /// cross border
    pub cross: String,
    /// top cross border
    pub top_cross: String,
    /// bottom_cross border
    pub bottom_cross: String,
    /// left cross border
    pub left_cross: String,
    /// right cross border
    pub right_cross: String,
}

impl Default for BorderChars {
    fn default() -> (r: BorderChars)
        ensures
            r.vertical@ == "│"@,
            r.horizontal@ == "─"@,
            r.top_left@ == "┌"@,
            r.top_right@ == "┐"@,
            r.bottom_left@ == "└"@,
            r.bottom_right@ == "┘"@,
            r.cross@ == "┼"@,
            r.top_cross@ == "┬"@,
            r.bottom_cross@ == "┴"@,
            r.left_cross@ == "├"@,
            r.right_cross@ == "┤"@,
    {
        BorderChars {
            vertical: "│".to_owned(),
            horizontal: "─".to_owned(),
            top_left: "┌".to_owned(),
            top_right: "┐".to_owned(),
            bottom_left: "└".to_owned(),
            bottom_right: "┘".to_owned(),
            cross: "┼".to_owned(),
            top_cross: "┬".to_owned(),
            bottom_cross: "┴".to_owned(),
            left_cross: "├".to_owned(),
            right_cross: "┤".to_owned(),
        }
    }
}

/// `n` copies of `s`, one after the other.
pub open spec fn repeat_seq(s: Seq<char>, n: nat) -> Seq<char>
    decreases n,
{
    if n == 0 {
        Seq::empty()
    } else {
        repeat_seq(s, (n - 1) as nat) + s
    }
}

/// A string of `n` copies of `s`.
pub fn repeat_str(s: &str, n: usize) -> (r: String)
    ensures
        r@ == repeat_seq(s@, n as nat),
{
    let mut out = String::new();
    let mut i: usize = 0;
    while i < n
        invariant
            i <= n,
            out@ == repeat_seq(s@, i as nat),
        decreases n - i,
    {
        out.append(s);
        i = i + 1;
    }
    out
}

/// The top edge of a box around `text`: a corner, the horizontal border over
/// the text and one space each side, and a corner.
pub open spec fn box_edge(left: Seq<char>, horizontal: Seq<char>, right: Seq<char>, text: Seq<
    char,
>) -> Seq<char> {
    left + repeat_seq(horizontal, text.len() + 2) + right
}

fn edge(left: &str, horizontal: &str, right: &str, text: &str) -> (r: String)
    ensures
        r@ == box_edge(left@, horizontal@, right@, text@),
{
    let cs = chars_of(text);
    let mut bar = horizontal.to_owned();
    let mut i: usize = 0;
    assert(bar@ == repeat_seq(horizontal@, 1)) by {
        assert(repeat_seq(horizontal@, 0) + horizontal@ =~= horizontal@);
    }
    while i < cs.len()
        invariant
            i <= cs@.len(),
            bar@ == repeat_seq(horizontal@, i as nat + 1),
        decreases cs@.len() - i,
    {
        bar.append(horizontal);
        i = i + 1;
    }
    bar.append(horizontal);
    let mut out = left.to_owned();
    out.append(bar.as_str());
    out.append(right);
    out
}

/// The top edge of a text box around `text`.
pub fn text_box_top(text: &str, chars: &BorderChars) -> (r: String)
    ensures
        r@ == box_edge(chars.top_left@, chars.horizontal@, chars.top_right@, text@),
{
    edge(chars.top_left.as_str(), chars.horizontal.as_str(), chars.top_right.as_str(), text)
}

/// The bottom edge of a text box around `text`.
pub fn text_box_bottom(text: &str, chars: &BorderChars) -> (r: String)
    ensures
        r@ == box_edge(chars.bottom_left@, chars.horizontal@, chars.bottom_right@, text@),
{
    edge(chars.bottom_left.as_str(), chars.horizontal.as_str(), chars.bottom_right.as_str(), text)
}

/// The line under a header: the horizontal border once per character.
pub fn header_underline(text: &str, chars: &BorderChars) -> (r: String)
    ensures
        r@ == repeat_seq(chars.horizontal@, text@.len()),
{
    let cs = chars_of(text);
    let mut out = String::new();
    let mut i: usize = 0;
    while i < cs.len()
        invariant
            i <= cs@.len(),
            cs@ == text@,
            out@ == repeat_seq(chars.horizontal@, i as nat),
        decreases cs@.len() - i,
    {
        out.append(chars.horizontal.as_str());
        i = i + 1;
    }
    out
}

/// A color given by its red, green and blue levels.
#[derive(PartialEq, Eq, Structural, Clone, Copy, Debug)]
pub struct RgbColor {
    pub r: u8,
    pub g: u8,
    pub b: u8,
}

/// The value of a hex digit, either case.
pub open spec fn hex_value(c: char) -> Option<u8> {
    if '0' <= c && c <= '9' {
        Some((c as u32 - '0' as u32) as u8)
    } else if 'a' <= c && c <= 'f' {
        Some((c as u32 - 'a' as u32 + 10) as u8)
    } else if 'A' <= c && c <= 'F' {
        Some((c as u32 - 'A' as u32 + 10) as u8)
    } else {
        None
    }
}

/// The value of a two-character hex number, an optional `+` sign and digits.
pub open spec fn hex_pair_value(a: char, b: char) -> Option<u8> {
    if a == '+' {
        hex_value(b)
    } else {
        match (hex_value(a), hex_value(b)) {
            (Some(x), Some(y)) => Some((x * 16 + y) as u8),
            _ => None,
        }
    }
}

/// The color a hex string such as `#ff8000` stands for: an optional `#`,
/// then six characters read as three two-character hex numbers.
pub open spec fn spec_hex_color(hex: Seq<char>) -> Option<RgbColor> {
    let h = if hex.len() > 0 && hex[0] == '#' {
        hex.skip(1)
    } else {
        hex
    };
    if h.len() != 6 {
        None
    } else {
        match (
            hex_pair_value(h[0], h[1]),
            hex_pair_value(h[2], h[3]),
            hex_pair_value(h[4], h[5]),
        ) {
            (Some(r), Some(g), Some(b)) => Some(RgbColor { r, g, b }),
            _ => None,
        }
    }
}

fn hex_digit_value(c: char) -> (r: Option<u8>)
    ensures
        r == hex_value(c),
{
    if '0' <= c && c <= '9' {
        Some((c as u32 - '0' as u32) as u8)
    } else if 'a' <= c && c <= 'f' {
        Some((c as u32 - 'a' as u32 + 10) as u8)
    } else if 'A' <= c && c <= 'F' {
        Some((c as u32 - 'A' as u32 + 10) as u8)
    } else {
        None
    }
}

fn hex_pair(a: char, b: char) -> (r: Option<u8>)
    ensures
        r == hex_pair_value(a, b),
{
    if a == '+' {
        hex_digit_value(b)
    } else {
        match (hex_digit_value(a), hex_digit_value(b)) {
            (Some(x), Some(y)) => Some(x * 16 + y),
            _ => None,
        }
    }
}

/// convert a hex string to a color; a string of the wrong length or with a
/// character that is not a hex digit is an invalid format
pub fn hex_to_color(hex: &str) -> (r: Result<RgbColor, FormatError>)
    ensures
        match spec_hex_color(hex@) {
            Some(c) => r == Ok::<RgbColor, FormatError>(c),
            None => r matches Err(FormatError::InvalidFormat(_)),
        },
{
    let all = chars_of(hex);
    let mut h: Vec<char> = Vec::new();
    let start: usize = if all.len() > 0 && all[0] == '#' {
        1
    } else {
        0
    };
    let mut i: usize = start;
    while i < all.len()
        invariant
            start <= i <= all@.len(),
            start <= all@.len(),
            h@ == all@.subrange(start as int, i as int),
        decreases all@.len() - i,
    {
        h.push(all[i]);
        i = i + 1;
    }
    assert(h@ =~= if hex@.len() > 0 && hex@[0] == '#' {
        hex@.skip(1)
    } else {
        hex@
    });
    if h.len() != 6 {
        return Err(FormatError::InvalidFormat("Invalid length for a hex color string".to_owned()));
    }
    let r = match hex_pair(h[0], h[1]) {
        Some(v) => v,
        None => {
            return Err(FormatError::InvalidFormat("Invalid hex value for red".to_owned()));
        },
    };
    let g = match hex_pair(h[2], h[3]) {
        Some(v) => v,
        None => {
            return Err(FormatError::InvalidFormat("Invalid hex value for green".to_owned()));
        },
    };
    let b = match hex_pair(h[4], h[5]) {
        Some(v) => v,
        None => {
            return Err(FormatError::InvalidFormat("Invalid hex value for blue".to_owned()));
        },
    };
    Ok(RgbColor { r, g, b })
}

} // verus!
