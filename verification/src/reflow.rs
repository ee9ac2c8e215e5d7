//! The reflow that follows cleaning: blank lines collapsed, line endings and
//! tabs made uniform, a leading byte-order mark removed.

use vstd::prelude::*;
use crate::lines::{lines, split_lines};
use crate::text::{copy_range, join, join_rows, rows, trim, trim_range};

verus! {

/// The trimmed form of `line` is not empty.
pub open spec fn is_nonblank(line: Seq<char>) -> bool {
    trim(line).len() > 0
}

/// The non-blank lines of `s` joined by two newlines: one blank line between
/// each two that are left.
pub open spec fn paragraphs(s: Seq<char>) -> Seq<char> {
    join(lines(s).filter(|line: Seq<char>| is_nonblank(line)), seq!['\n', '\n'])
}

/// `s` with every carriage return that a newline follows removed.
pub open spec fn crlf_to_lf(s: Seq<char>) -> Seq<char>
    decreases s.len(),
{
    if s.len() == 0 {
        s
    } else if s.len() >= 2 && s[0] == '\r' && s[1] == '\n' {
        seq!['\n'] + crlf_to_lf(s.skip(2))
    } else {
        seq![s[0]] + crlf_to_lf(s.drop_first())
    }
}

/// `s` with every tab replaced by four spaces.
pub open spec fn expand_tabs(s: Seq<char>) -> Seq<char>
    decreases s.len(),
{
    if s.len() == 0 {
        s
    } else if s[0] == '\t' {
        seq![' ', ' ', ' ', ' '] + expand_tabs(s.drop_first())
    } else {
        seq![s[0]] + expand_tabs(s.drop_first())
    }
}

/// `s` without a byte-order mark at its start.
pub open spec fn strip_bom(s: Seq<char>) -> Seq<char> {
    if s.len() > 0 && s[0] == '\u{FEFF}' {
        s.drop_first()
    } else {
        s
    }
}

/// The reflowed form of `s`.
pub open spec fn reflowed(s: Seq<char>) -> Seq<char> {
    strip_bom(expand_tabs(crlf_to_lf(paragraphs(s))))
}

/// Joins the non-blank lines of `v` by two newlines.
pub fn paragraphs_chars(v: &Vec<char>) -> (out: Vec<char>)
    ensures
        out@ == paragraphs(v@),
{
    let ls = split_lines(v);
    let mut kept: Vec<Vec<char>> = Vec::new();
    let mut i: usize = 0;
    let ghost keep = |line: Seq<char>| is_nonblank(line);
    assert(rows(ls@).take(0) =~= Seq::<Seq<char>>::empty());
    assert(rows(kept@) =~= Seq::<Seq<char>>::empty());
    while i < ls.len()
        invariant
            i <= ls.len(),
            keep == |line: Seq<char>| is_nonblank(line),
            rows(kept@) == rows(ls@).take(i as int).filter(keep),
        decreases ls.len() - i,
    {
        let ghost before = rows(kept@);
        let (a, b) = trim_range(&ls[i], 0, ls[i].len());
        proof {
            let line = ls@[i as int]@;
            assert(line.subrange(0, line.len() as int) =~= line);
            let upto = rows(ls@).take(i as int + 1);
            assert(upto.drop_last() =~= rows(ls@).take(i as int));
            assert(upto.last() == line);
            reveal(Seq::filter);
        }
        if a < b {
            kept.push(ls[i].clone());
            assert(rows(kept@) =~= before.push(ls@[i as int]@));
        }
        i += 1;
    }
    assert(rows(ls@).take(ls@.len() as int) =~= rows(ls@));
    let sep: Vec<char> = vec!['\n', '\n'];
    assert(sep@ =~= seq!['\n', '\n']);
    join_rows(&kept, &sep)
}

/// Replaces every carriage return and newline in a row by a newline.
pub fn crlf_to_lf_chars(v: &Vec<char>) -> (out: Vec<char>)
    ensures
        out@ == crlf_to_lf(v@),
{
    let mut out: Vec<char> = Vec::new();
    let mut i: usize = 0;
    let len = v.len();
    assert(v@.skip(0) =~= v@);
    while i < len
        invariant
            i <= len == v.len(),
            out@ + crlf_to_lf(v@.skip(i as int)) == crlf_to_lf(v@),
        decreases len - i,
    {
        let ghost rest = v@.skip(i as int);
        let ghost before = out@;
        if v[i] == '\r' && i + 1 < len && v[i + 1] == '\n' {
            out.push('\n');
            proof {
                assert(rest.skip(2) =~= v@.skip(i + 2));
                assert(out@ + crlf_to_lf(v@.skip(i + 2)) =~= before + (seq!['\n'] + crlf_to_lf(
                    rest.skip(2),
                )));
            }
            i += 2;
        } else {
            out.push(v[i]);
            proof {
                assert(rest.drop_first() =~= v@.skip(i + 1));
                assert(out@ + crlf_to_lf(v@.skip(i + 1)) =~= before + (seq![rest[0]] + crlf_to_lf(
                    rest.drop_first(),
                )));
            }
            i += 1;
        }
    }
    assert(out@ + Seq::<char>::empty() =~= out@);
    out
}

/// Replaces every tab by four spaces.
pub fn expand_tabs_chars(v: &Vec<char>) -> (out: Vec<char>)
    ensures
        out@ == expand_tabs(v@),
{
    let mut out: Vec<char> = Vec::new();
    let mut i: usize = 0;
    let len = v.len();
    assert(v@.skip(0) =~= v@);
    while i < len
        invariant
            i <= len == v.len(),
            out@ + expand_tabs(v@.skip(i as int)) == expand_tabs(v@),
        decreases len - i,
    {
        let ghost rest = v@.skip(i as int);
        let ghost before = out@;
        proof {
            assert(rest.drop_first() =~= v@.skip(i + 1));
        }
        if v[i] == '\t' {
            out.push(' ');
            out.push(' ');
            out.push(' ');
            out.push(' ');
            assert(out@ + expand_tabs(v@.skip(i + 1)) =~= before + (seq![' ', ' ', ' ', ' ']
                + expand_tabs(rest.drop_first())));
        } else {
            out.push(v[i]);
            assert(out@ + expand_tabs(v@.skip(i + 1)) =~= before + (seq![rest[0]] + expand_tabs(
                rest.drop_first(),
            )));
        }
        i += 1;
    }
    assert(out@ + Seq::<char>::empty() =~= out@);
    out
}

/// Removes a byte-order mark from the start.
pub fn strip_bom_chars(v: &Vec<char>) -> (out: Vec<char>)
    ensures
        out@ == strip_bom(v@),
{
    if v.len() > 0 && v[0] == '\u{FEFF}' {
        let out = copy_range(v, 1, v.len());
        assert(v@.drop_first() =~= v@.subrange(1, v@.len() as int));
        out
    } else {
        let out = copy_range(v, 0, v.len());
        assert(v@ =~= v@.subrange(0, v@.len() as int));
        out
    }
}

/// Reflows `v`.
pub fn reflow_chars(v: &Vec<char>) -> (out: Vec<char>)
    ensures
        out@ == reflowed(v@),
{
    let joined = paragraphs_chars(v);
    let unix = crlf_to_lf_chars(&joined);
    let spaced = expand_tabs_chars(&unix);
    strip_bom_chars(&spaced)
}

} // verus!
