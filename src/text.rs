use vstd::prelude::*;

verus! {

/// Relies on `String::push`: the character is appended at the end.
pub assume_specification[ std::string::String::push ](s: &mut std::string::String, ch: char)
    ensures
        final(s)@ == old(s)@.push(ch),
;

/// `n` copies of `c`.
pub open spec fn repeat_char(c: char, n: nat) -> Seq<char> {
    Seq::new(n, |_i: int| c)
}

/// `n` spaces.
pub open spec fn spaces(n: nat) -> Seq<char> {
    repeat_char(' ', n)
}

/// A string of `n` copies of `c`.
pub fn repeat(c: char, n: usize) -> (r: String)
    ensures
        r@ == repeat_char(c, n as nat),
{
    let mut r = String::new();
    let mut i: usize = 0;
    while i < n
        invariant
            i <= n,
            r@ == repeat_char(c, i as nat),
        decreases n - i,
    {
        r.push(c);
        i = i + 1;
        assert(r@ =~= repeat_char(c, i as nat));
    }
    r
}

/// The characters of `s`, in order.
pub fn chars_of(s: &str) -> (v: Vec<char>)
    ensures
        v@ == s@,
{
    let mut v: Vec<char> = Vec::new();
    for c in it: s.chars()
        invariant
            v@ == it.seq().take(it.index() as int),
            it.seq() == s@,
    {
        v.push(c);
        assert(v@ =~= it.seq().take(it.index() as int + 1));
    }
    assert(v@ =~= s@);
    v
}


/// The length of a text of length `n` fitted to `[lo, hi]`:
/// `max(lo, min(n, hi))`.
pub open spec fn fitted_len(n: nat, lo: nat, hi: nat) -> nat {
    let m = if n < hi {
        n
    } else {
        hi
    };
    if lo > m {
        lo
    } else {
        m
    }
}

/// The `n` characters of `r` that padding was added around: its start when
/// the padding went to the right, its end otherwise.
pub open spec fn unpadded(r: Seq<char>, n: nat, left: bool) -> Seq<char> {
    if left {
        r.take(n as int)
    } else {
        r.skip(r.len() - n)
    }
}

} // verus!
