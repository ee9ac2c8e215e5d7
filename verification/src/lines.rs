//! Lines and words of a content.

use vstd::prelude::*;
use crate::text::{copy_range, is_white_space, rows};

verus! {

/// The number of characters before the first newline of `s`, or the length
/// of `s` where it holds none.
pub open spec fn line_end(s: Seq<char>) -> int
    decreases s.len(),
{
    if s.len() == 0 || s[0] == '\n' {
        0
    } else {
        1 + line_end(s.drop_first())
    }
}

/// `line` without one carriage return at its end.
pub open spec fn strip_cr(line: Seq<char>) -> Seq<char> {
    if line.len() > 0 && line.last() == '\r' {
        line.drop_last()
    } else {
        line
    }
}

/// The lines of `s`. A line ends at a newline, which is not part of it, nor
/// is a carriage return just before that newline. What follows the last
/// newline is a line only where it is not empty, and keeps a carriage return
/// at its end.
pub open spec fn lines(s: Seq<char>) -> Seq<Seq<char>>
    decreases s.len(),
    via lines_decreases
{
    if s.len() == 0 {
        Seq::empty()
    } else if line_end(s) == s.len() {
        seq![s]
    } else {
        seq![strip_cr(s.take(line_end(s)))] + lines(s.skip(line_end(s) + 1))
    }
}

#[via_fn]
proof fn lines_decreases(s: Seq<char>) {
    lemma_line_end_bounds(s);
}

/// The end of the first line lies within the content, at a newline if it is
/// short of the end, and no newline lies before it.
pub proof fn lemma_line_end_bounds(s: Seq<char>)
    ensures
        0 <= line_end(s) <= s.len(),
        line_end(s) < s.len() ==> s[line_end(s)] == '\n',
        forall|i: int| 0 <= i < line_end(s) ==> s[i] != '\n',
    decreases s.len(),
{
    if !(s.len() == 0 || s[0] == '\n') {
        let t = s.drop_first();
        lemma_line_end_bounds(t);
        assert forall|i: int| 0 <= i < line_end(s) implies s[i] != '\n' by {
            if i > 0 {
                assert(s[i] == t[i - 1]);
            }
        }
    }
}

/// The first position `k` that holds a newline, or the length where none
/// does, is the end of the first line.
pub proof fn lemma_line_end_is(s: Seq<char>, k: int)
    requires
        0 <= k <= s.len(),
        forall|i: int| 0 <= i < k ==> s[i] != '\n',
        k < s.len() ==> s[k] == '\n',
    ensures
        line_end(s) == k,
    decreases s.len(),
{
    if k > 0 {
        let t = s.drop_first();
        assert forall|i: int| 0 <= i < k - 1 implies t[i] != '\n' by {
            assert(t[i] == s[i + 1]);
        }
        lemma_line_end_is(t, k - 1);
    }
}

/// The number of characters before the first whitespace of `s`.
pub open spec fn word_len(s: Seq<char>) -> int
    decreases s.len(),
{
    if s.len() == 0 || is_white_space(s[0]) {
        0
    } else {
        1 + word_len(s.drop_first())
    }
}

/// The words of `s`: its maximal runs of characters that are not whitespace.
pub open spec fn words(s: Seq<char>) -> Seq<Seq<char>>
    decreases s.len(),
    via words_decreases
{
    if s.len() == 0 {
        Seq::empty()
    } else if is_white_space(s[0]) {
        words(s.drop_first())
    } else {
        seq![s.take(word_len(s))] + words(s.skip(word_len(s)))
    }
}

#[via_fn]
proof fn words_decreases(s: Seq<char>) {
    lemma_word_len_bounds(s);
}

/// The first word ends within the content, at a whitespace if it is short of
/// the end, and holds no whitespace.
pub proof fn lemma_word_len_bounds(s: Seq<char>)
    ensures
        0 <= word_len(s) <= s.len(),
        s.len() > 0 && !is_white_space(s[0]) ==> word_len(s) >= 1,
        word_len(s) < s.len() ==> is_white_space(s[word_len(s)]),
        forall|i: int| 0 <= i < word_len(s) ==> !is_white_space(s[i]),
    decreases s.len(),
{
    if !(s.len() == 0 || is_white_space(s[0])) {
        let t = s.drop_first();
        lemma_word_len_bounds(t);
        assert forall|i: int| 0 <= i < word_len(s) implies !is_white_space(s[i]) by {
            if i > 0 {
                assert(s[i] == t[i - 1]);
            }
        }
    }
}

/// The first position `k` that holds whitespace, or the length where none
/// does, is the length of the first word.
pub proof fn lemma_word_len_is(s: Seq<char>, k: int)
    requires
        0 <= k <= s.len(),
        forall|i: int| 0 <= i < k ==> !is_white_space(s[i]),
        k < s.len() ==> is_white_space(s[k]),
    ensures
        word_len(s) == k,
    decreases s.len(),
{
    if k > 0 {
        let t = s.drop_first();
        assert forall|i: int| 0 <= i < k - 1 implies !is_white_space(t[i]) by {
            assert(t[i] == s[i + 1]);
        }
        lemma_word_len_is(t, k - 1);
    }
}

/// Splits `v` into its lines.
pub fn split_lines(v: &Vec<char>) -> (out: Vec<Vec<char>>)
    ensures
        rows(out@) == lines(v@),
{
    let mut out: Vec<Vec<char>> = Vec::new();
    let mut pos: usize = 0;
    let len = v.len();
    assert(v@.skip(0) =~= v@);
    assert(rows(out@) =~= Seq::<Seq<char>>::empty());
    while pos < len
        invariant
            pos <= len == v.len(),
            rows(out@) + lines(v@.skip(pos as int)) == lines(v@),
        decreases len - pos,
    {
        let ghost rest = v@.skip(pos as int);
        let ghost before = rows(out@);
        let mut e: usize = pos;
        while e < len && v[e] != '\n'
            invariant
                pos <= e <= len == v.len(),
                forall|i: int| pos <= i < e ==> v@[i] != '\n',
            decreases len - e,
        {
            e += 1;
        }
        proof {
            lemma_line_end_is(rest, e - pos);
        }
        if e == len {
            let line = copy_range(v, pos, len);
            out.push(line);
            proof {
                assert(rest =~= v@.subrange(pos as int, len as int));
                assert(rows(out@) =~= before + seq![rest]);
                assert(v@.skip(len as int) =~= Seq::<char>::empty());
                assert(lines(v@.skip(len as int)) =~= Seq::<Seq<char>>::empty());
                assert(rows(out@) + lines(v@.skip(len as int)) =~= before + lines(rest));
            }
            pos = len;
        } else {
            let stop: usize = if e > pos && v[e - 1] == '\r' {
                e - 1
            } else {
                e
            };
            let line = copy_range(v, pos, stop);
            out.push(line);
            proof {
                let raw = rest.take(e - pos);
                assert(raw =~= v@.subrange(pos as int, e as int));
                assert(strip_cr(raw) =~= v@.subrange(pos as int, stop as int));
                assert(rest.skip(e - pos + 1) =~= v@.skip(e + 1));
                let tail = lines(v@.skip(e + 1));
                assert(rows(out@) =~= before + seq![strip_cr(raw)]);
                assert(rows(out@) + tail =~= before + (seq![strip_cr(raw)] + tail));
            }
            pos = e + 1;
        }
    }
    proof {
        assert(v@.skip(len as int) =~= Seq::<char>::empty());
        assert(rows(out@) + Seq::<Seq<char>>::empty() =~= rows(out@));
    }
    out
}

/// Splits `v` into its words.
pub fn split_words(v: &Vec<char>) -> (out: Vec<Vec<char>>)
    ensures
        rows(out@) == words(v@),
{
    let mut out: Vec<Vec<char>> = Vec::new();
    let mut pos: usize = 0;
    let len = v.len();
    assert(v@.skip(0) =~= v@);
    assert(rows(out@) =~= Seq::<Seq<char>>::empty());
    while pos < len
        invariant
            pos <= len == v.len(),
            rows(out@) + words(v@.skip(pos as int)) == words(v@),
        decreases len - pos,
    {
        let ghost rest = v@.skip(pos as int);
        let ghost before = rows(out@);
        if v[pos].is_whitespace() {
            proof {
                assert(rest.drop_first() =~= v@.skip(pos + 1));
            }
            pos += 1;
        } else {
            let mut e: usize = pos;
            while e < len && !v[e].is_whitespace()
                invariant
                    pos <= e <= len == v.len(),
                    forall|i: int| pos <= i < e ==> !is_white_space(v@[i]),
                decreases len - e,
            {
                e += 1;
            }
            let word = copy_range(v, pos, e);
            out.push(word);
            proof {
                lemma_word_len_is(rest, e - pos);
                assert(rest.take(e - pos) =~= v@.subrange(pos as int, e as int));
                assert(rest.skip(e - pos) =~= v@.skip(e as int));
                let tail = words(v@.skip(e as int));
                assert(rows(out@) =~= before + seq![rest.take(e - pos)]);
                assert(rows(out@) + tail =~= before + (seq![rest.take(e - pos)] + tail));
            }
            pos = e;
        }
    }
    proof {
        assert(v@.skip(len as int) =~= Seq::<char>::empty());
        assert(rows(out@) + Seq::<Seq<char>>::empty() =~= rows(out@));
    }
    out
}

} // verus!
