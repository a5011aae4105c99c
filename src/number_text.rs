use vstd::prelude::*;

use crate::number_format::{FormatType, Sign};
use crate::text::chars_of;

verus! {

/// The SI prefixes from `10^-24` (yocto) to `10^24` (Yotta), one per power of
/// a thousand.
pub open spec fn si_prefixes() -> Seq<Seq<char>> {
    seq![
        "y"@, "z"@, "a"@, "f"@, "p"@, "n"@, "µ"@, "m"@, ""@, "k"@, "M"@, "G"@, "T"@, "P"@, "E"@,
        "Z"@, "Y"@,
    ]
}

/// The prefix for `10^exponent`, where that is a power of a thousand from
/// `10^-24` to `10^24`; none otherwise, where exponent notation is used.
pub fn si_prefix(exponent: i32) -> (r: Option<String>)
    ensures
        match r {
            Some(p) => -24 <= exponent <= 24 && exponent % 3 == 0 && p@ == si_prefixes()[(
            exponent + 24) / 3],
            None => !(-24 <= exponent <= 24 && exponent % 3 == 0),
        },
{
    if exponent < -24 || exponent > 24 || exponent % 3 != 0 {
        return None;
    }
    let prefixes: [&str; 17] = [
        "y", "z", "a", "f", "p", "n", "µ", "m", "", "k", "M", "G", "T", "P", "E", "Z", "Y",
    ];
    assert(prefixes@.map_values(|p: &str| p@) =~= si_prefixes());
    let i = ((exponent + 24) / 3) as usize;
    let p = prefixes[i];
    assert(p@ == prefixes@.map_values(|p: &str| p@)[i as int]);
    Some(p.to_owned())
}

/// The sign written before a number: `-` for a negative one; for another,
/// nothing, `+` or a space as the sign policy says.
pub open spec fn sign_text(negative: bool, sign: Sign) -> Seq<char> {
    if negative {
        seq!['-']
    } else {
        match sign {
            Sign::OnlyNegative => Seq::empty(),
            Sign::Always => seq!['+'],
            Sign::SpaceOrDash => seq![' '],
        }
    }
}

/// The sign written before a number.
pub fn sign_prefix(negative: bool, sign: Sign) -> (r: String)
    ensures
        r@ == sign_text(negative, sign),
{
    let mut out = String::new();
    if negative {
        out.push('-');
    } else {
        match sign {
            Sign::OnlyNegative => {},
            Sign::Always => out.push('+'),
            Sign::SpaceOrDash => out.push(' '),
        }
    }
    assert(out@ =~= sign_text(negative, sign));
    out
}

/// The marker written before digits in another base, where one is asked for.
pub open spec fn radix_marker(format_type: FormatType) -> Seq<char> {
    match format_type {
        FormatType::Binary => seq!['0', 'b'],
        FormatType::Octal => seq!['0', 'o'],
        FormatType::OctalUppercase => seq!['0', 'O'],
        FormatType::Hex => seq!['0', 'x'],
        FormatType::HexUppercase => seq!['0', 'X'],
        _ => Seq::empty(),
    }
}

/// The marker written before digits in another base, or nothing where
/// `type_prefix` is off.
pub fn radix_prefix(format_type: FormatType, type_prefix: bool) -> (r: String)
    ensures
        r@ == if type_prefix {
            radix_marker(format_type)
        } else {
            Seq::empty()
        },
{
    let mut out = String::new();
    if type_prefix {
        match format_type {
            FormatType::Binary => {
                out.push('0');
                out.push('b');
            },
            FormatType::Octal => {
                out.push('0');
                out.push('o');
            },
            FormatType::OctalUppercase => {
                out.push('0');
                out.push('O');
            },
            FormatType::Hex => {
                out.push('0');
                out.push('x');
            },
            FormatType::HexUppercase => {
                out.push('0');
                out.push('X');
            },
            _ => {},
        }
    }
    assert(out@ =~= if type_prefix {
        radix_marker(format_type)
    } else {
        Seq::empty()
    });
    out
}

/// Digits with a comma before each group of three, counted from the right.
pub open spec fn grouped(s: Seq<char>) -> Seq<char>
    decreases s.len(),
{
    if s.len() <= 3 {
        s
    } else {
        grouped(s.take(s.len() - 3)) + seq![','] + s.skip(s.len() - 3)
    }
}

fn group_digits(cs: &Vec<char>, n: usize) -> (r: String)
    requires
        n <= cs@.len(),
    ensures
        r@ == grouped(cs@.take(n as int)),
    decreases n,
{
    if n <= 3 {
        let mut out = String::new();
        let mut i: usize = 0;
        while i < n
            invariant
                i <= n,
                n <= cs@.len(),
                out@ == cs@.take(i as int),
            decreases n - i,
        {
            out.push(cs[i]);
            assert(out@ =~= cs@.take(i as int + 1));
            i = i + 1;
        }
        out
    } else {
        let mut out = group_digits(cs, n - 3);
        out.push(',');
        out.push(cs[n - 3]);
        out.push(cs[n - 2]);
        out.push(cs[n - 1]);
        let ghost s = cs@.take(n as int);
        assert(s.take(s.len() - 3) =~= cs@.take(n - 3));
        assert(out@ =~= grouped(s.take(s.len() - 3)) + seq![','] + s.skip(s.len() - 3));
        out
    }
}

/// Whether position `k` of `s` is where its integer part ends: at the first
/// decimal point, or at the end where there is none.
pub open spec fn integer_part_end(s: Seq<char>, k: int) -> bool {
    &&& 0 <= k <= s.len()
    &&& forall|j: int| 0 <= j < k ==> #[trigger] s[j] != '.'
    &&& k == s.len() || s[k] == '.'
}

/// Numeric text with its digits before the decimal point grouped in threes.
pub fn group_thousands(s: &str) -> (r: String)
    ensures
        exists|k: int|
            #[trigger] integer_part_end(s@, k) && r@ == grouped(s@.take(k)) + s@.skip(k),
{
    let cs = chars_of(s);
    let mut k: usize = 0;
    while k < cs.len() && cs[k] != '.'
        invariant
            k <= cs@.len(),
            cs@ == s@,
            forall|j: int| 0 <= j < k ==> #[trigger] cs@[j] != '.',
        decreases cs@.len() - k,
    {
        k = k + 1;
    }
    let mut out = group_digits(&cs, k);
    let mut i = k;
    while i < cs.len()
        invariant
            k <= i <= cs@.len(),
            cs@ == s@,
            out@ == grouped(cs@.take(k as int)) + cs@.subrange(k as int, i as int),
        decreases cs@.len() - i,
    {
        out.push(cs[i]);
        assert(out@ =~= grouped(cs@.take(k as int)) + cs@.subrange(k as int, i as int + 1));
        i = i + 1;
    }
    assert(cs@.subrange(k as int, i as int) =~= s@.skip(k as int));
    assert(integer_part_end(s@, k as int));
    assert(out@ == grouped(s@.take(k as int)) + s@.skip(k as int));
    out
}

/// `s` without the copies of `c` at its end.
pub open spec fn trim_end(s: Seq<char>, c: char) -> Seq<char>
    decreases s.len(),
{
    if s.len() > 0 && s.last() == c {
        trim_end(s.drop_last(), c)
    } else {
        s
    }
}

fn trimmed_len(cs: &Vec<char>, n: usize, c: char) -> (r: usize)
    requires
        n <= cs@.len(),
    ensures
        r <= n,
        cs@.take(r as int) == trim_end(cs@.take(n as int), c),
{
    let mut m = n;
    while m > 0 && cs[m - 1] == c
        invariant
            m <= n,
            n <= cs@.len(),
            trim_end(cs@.take(m as int), c) == trim_end(cs@.take(n as int), c),
        decreases m,
    {
        assert(cs@.take(m as int).drop_last() =~= cs@.take(m - 1));
        m = m - 1;
    }
    m
}

/// Numeric text with a fraction: the zeros that end it dropped, then a
/// decimal point left bare. Text without a decimal point is kept.
pub fn trim_fraction(s: &str) -> (r: String)
    ensures
        r@ == if s@.contains('.') {
            trim_end(trim_end(s@, '0'), '.')
        } else {
            s@
        },
{
    let cs = chars_of(s);
    let mut has_dot = false;
    let mut i: usize = 0;
    while i < cs.len()
        invariant
            i <= cs@.len(),
            cs@ == s@,
            has_dot == exists|j: int| 0 <= j < i && cs@[j] == '.',
        decreases cs@.len() - i,
    {
        if cs[i] == '.' {
            has_dot = true;
        }
        i = i + 1;
    }
    assert(has_dot == s@.contains('.'));
    let n = if has_dot {
        let a = trimmed_len(&cs, cs.len(), '0');
        let b = trimmed_len(&cs, a, '.');
        assert(cs@.take(cs@.len() as int) =~= s@);
        b
    } else {
        cs.len()
    };
    let mut out = String::new();
    let mut j: usize = 0;
    while j < n
        invariant
            j <= n,
            n <= cs@.len(),
            out@ == cs@.take(j as int),
        decreases n - j,
    {
        out.push(cs[j]);
        assert(out@ =~= cs@.take(j as int + 1));
        j = j + 1;
    }
    assert(!has_dot ==> cs@.take(n as int) =~= s@);
    out
}

} // verus!
