use unicode_truncate::{Alignment, UnicodeTruncateStr};
use vstd::prelude::*;

use crate::column_format::HorizontalAlign;
use crate::text::chars_of;

verus! {

/// The lines of `s`, split at each `'\n'`; a text without one is one line.
pub open spec fn split_lines(s: Seq<char>) -> Seq<Seq<char>>
    decreases s.len(),
{
    if s.len() == 0 {
        seq![Seq::empty()]
    } else {
        let prev = split_lines(s.drop_last());
        if s.last() == '\n' {
            prev.push(Seq::empty())
        } else {
            prev.update(prev.len() - 1, prev.last().push(s.last()))
        }
    }
}

/// How many `'\n'` characters `s` holds.
pub open spec fn newline_count(s: Seq<char>) -> nat
    decreases s.len(),
{
    if s.len() == 0 {
        0
    } else {
        newline_count(s.drop_last()) + if s.last() == '\n' {
            1nat
        } else {
            0nat
        }
    }
}

/// The length of the longest of `lines`, `0` for none.
pub open spec fn max_len(lines: Seq<Seq<char>>) -> nat
    decreases lines.len(),
{
    if lines.len() == 0 {
        0
    } else {
        let rest = max_len(lines.drop_last());
        if lines.last().len() > rest {
            lines.last().len()
        } else {
            rest
        }
    }
}

/// `parts` joined, with `sep` between each two.
pub open spec fn join(parts: Seq<Seq<char>>, sep: Seq<char>) -> Seq<char>
    decreases parts.len(),
{
    if parts.len() == 0 {
        Seq::empty()
    } else if parts.len() == 1 {
        parts[0]
    } else {
        join(parts.drop_last(), sep) + sep + parts.last()
    }
}

/// The views of a list of strings.
pub open spec fn views(v: Seq<String>) -> Seq<Seq<char>> {
    v.map_values(|s: String| s@)
}

/// There is one line more than there are line breaks.
pub proof fn lemma_split_lines_len(s: Seq<char>)
    ensures
        split_lines(s).len() == newline_count(s) + 1,
    decreases s.len(),
{
    if s.len() > 0 {
        lemma_split_lines_len(s.drop_last());
    }
}

/// No line is longer than the longest.
pub proof fn lemma_max_len(lines: Seq<Seq<char>>, i: int)
    requires
        0 <= i < lines.len(),
    ensures
        lines[i].len() <= max_len(lines),
    decreases lines.len(),
{
    if i < lines.len() - 1 {
        lemma_max_len(lines.drop_last(), i);
    }
}

/// `s` padded with spaces to `width` display columns, on the left when
/// `right` holds, else on the right, and cut to `width` when `truncate` holds.
pub uninterp spec fn unicode_padded(s: Seq<char>, width: nat, right: bool, truncate: bool) -> Seq<
    char,
>;

/// Relies on unicode_truncate's `UnicodeTruncateStr::unicode_pad`, which pads
/// (and, when asked, truncates) to a display width; its result depends on its
/// arguments alone.
#[verifier::external_body]
pub(crate) fn unicode_pad(s: &str, width: usize, align: HorizontalAlign, truncate: bool) -> (r:
    String)
    ensures
        r@ == unicode_padded(s@, width as nat, align == HorizontalAlign::Right, truncate),
{
    let align = match align {
        HorizontalAlign::Left => Alignment::Left,
        HorizontalAlign::Right => Alignment::Right,
    };
    s.unicode_pad(width, align, truncate).into_owned()
}

/// The alignment that pads on the left when `right` holds.
fn alignment(right: bool) -> (r: HorizontalAlign)
    ensures
        (r == HorizontalAlign::Right) == right,
{
    if right {
        HorizontalAlign::Right
    } else {
        HorizontalAlign::Left
    }
}

/// line count of a text: the number of line breaks in it
pub fn n_lines(s: &str) -> (r: usize)
    ensures
        r == newline_count(s@),
{
    let cs = chars_of(s);
    let mut count: usize = 0;
    let mut i: usize = 0;
    while i < cs.len()
        invariant
            i <= cs@.len(),
            cs@ == s@,
            count == newline_count(cs@.take(i as int)),
            count <= i,
        decreases cs@.len() - i,
    {
        assert(cs@.take(i as int + 1).drop_last() =~= cs@.take(i as int));
        if cs[i] == '\n' {
            count = count + 1;
        }
        i = i + 1;
    }
    assert(cs@.take(i as int) =~= cs@);
    count
}

/// width of a text: the length of its longest line
pub fn width(s: &str) -> (r: usize)
    ensures
        r == max_len(split_lines(s@)),
{
    let ls = lines(s);
    widest(&ls)
}

/// The length of the longest of `ls`, `0` for none.
pub fn widest(ls: &Vec<String>) -> (r: usize)
    ensures
        r == max_len(views(ls@)),
{
    let ghost target = views(ls@);
    let mut best: usize = 0;
    let mut j: usize = 0;
    while j < ls.len()
        invariant
            j <= ls@.len(),
            target == views(ls@),
            best == max_len(target.take(j as int)),
        decreases ls@.len() - j,
    {
        let n = line_width(ls[j].as_str());
        assert(target.take(j as int + 1).drop_last() =~= target.take(j as int));
        if n > best {
            best = n;
        }
        j = j + 1;
    }
    assert(target.take(j as int) =~= target);
    best
}

/// width of a single line
pub fn line_width(s: &str) -> (r: usize)
    ensures
        r == s@.len(),
{
    s.unicode_len()
}

/// lines of a text
pub fn lines(s: &str) -> (r: Vec<String>)
    ensures
        views(r@) == split_lines(s@),
{
    let cs = chars_of(s);
    let mut done: Vec<String> = Vec::new();
    let mut cur = String::new();
    let mut i: usize = 0;
    assert(views(done@).push(cur@) =~= split_lines(cs@.take(0)));
    while i < cs.len()
        invariant
            i <= cs@.len(),
            cs@ == s@,
            views(done@).push(cur@) == split_lines(cs@.take(i as int)),
        decreases cs@.len() - i,
    {
        let c = cs[i];
        let ghost prev = split_lines(cs@.take(i as int));
        assert(cs@.take(i as int + 1).drop_last() =~= cs@.take(i as int));
        if c == '\n' {
            let finished = cur;
            done.push(finished);
            cur = String::new();
            assert(views(done@).push(cur@) =~= prev.push(Seq::empty()));
        } else {
            cur.push(c);
            assert(views(done@).push(cur@) =~= prev.update(prev.len() - 1, prev.last().push(c)));
        }
        i = i + 1;
    }
    assert(cs@.take(i as int) =~= cs@);
    done.push(cur);
    assert(views(done@) =~= split_lines(s@));
    done
}

/// Joins `parts` with `'\n'`.
pub fn join_lines(parts: &Vec<String>) -> (r: String)
    ensures
        r@ == join(views(parts@), seq!['\n']),
{
    let mut out = String::new();
    let mut i: usize = 0;
    while i < parts.len()
        invariant
            i <= parts@.len(),
            out@ == join(views(parts@).take(i as int), seq!['\n']),
        decreases parts@.len() - i,
    {
        let ghost before = out@;
        assert(views(parts@).take(i as int + 1).drop_last() =~= views(parts@).take(i as int));
        if i > 0 {
            out.push('\n');
        }
        out.append(parts[i].as_str());
        assert(out@ =~= join(views(parts@).take(i as int + 1), seq!['\n']));
        i = i + 1;
    }
    assert(views(parts@).take(i as int) =~= views(parts@));
    out
}

/// Each line of `s` padded with `unicode_pad` to `width`.
fn align_lines(s: &str, width: usize, right: bool) -> (r: String)
    ensures
        r@ == join(
            split_lines(s@).map_values(|l: Seq<char>| unicode_padded(l, width as nat, right, false)),
            seq!['\n'],
        ),
{
    let ls = lines(s);
    let mut out: Vec<String> = Vec::new();
    let mut i: usize = 0;
    while i < ls.len()
        invariant
            i <= ls@.len(),
            views(out@) == views(ls@).take(i as int).map_values(
                |l: Seq<char>| unicode_padded(l, width as nat, right, false),
            ),
        decreases ls@.len() - i,
    {
        let p = unicode_pad(ls[i].as_str(), width, alignment(right), false);
        let ghost prev = out@;
        out.push(p);
        assert(views(out@) =~= views(prev).push(p@));
        assert(views(ls@)[i as int] == ls@[i as int]@);
        assert(views(out@) =~= views(ls@).take(i as int + 1).map_values(
            |l: Seq<char>| unicode_padded(l, width as nat, right, false),
        ));
        i = i + 1;
    }
    assert(views(ls@).take(i as int) =~= views(ls@));
    join_lines(&out)
}

/// multiline align left
pub fn align_left(s: &str, width: usize) -> (r: String)
    ensures
        r@ == join(
            split_lines(s@).map_values(|l: Seq<char>| unicode_padded(l, width as nat, false, false)),
            seq!['\n'],
        ),
{
    align_lines(s, width, false)
}

/// multiline align right
pub fn align_right(s: &str, width: usize) -> (r: String)
    ensures
        r@ == join(
            split_lines(s@).map_values(|l: Seq<char>| unicode_padded(l, width as nat, true, false)),
            seq!['\n'],
        ),
{
    align_lines(s, width, true)
}

/// align single line left
pub fn align_line_left(s: &str, width: usize) -> (r: String)
    ensures
        r@ == unicode_padded(s@, width as nat, false, false),
{
    unicode_pad(s, width, HorizontalAlign::Left, false)
}

/// align single line right
pub fn align_line_right(s: &str, width: usize) -> (r: String)
    ensures
        r@ == unicode_padded(s@, width as nat, true, false),
{
    unicode_pad(s, width, HorizontalAlign::Right, false)
}

} // verus!
