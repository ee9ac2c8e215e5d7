//! Hard wrapping: content cut into segments of a fixed number of characters,
//! joined by single newlines.

use vstd::prelude::*;
use crate::text::{append_range, join};

verus! {

/// The consecutive segments of `s`, each of exactly `width` characters but the
/// last, which holds what is left.
pub open spec fn segments(s: Seq<char>, width: int) -> Seq<Seq<char>>
    decreases s.len(),
{
    if s.len() == 0 || width < 1 {
        Seq::empty()
    } else if s.len() <= width {
        seq![s]
    } else {
        seq![s.take(width)] + segments(s.skip(width), width)
    }
}

/// The segments of `s` joined by single newlines.
pub open spec fn hard_wrap(s: Seq<char>, width: int) -> Seq<char> {
    join(segments(s, width), seq!['\n'])
}

/// The number of segments that a content of `len` characters is cut into.
pub open spec fn segment_count(len: int, width: int) -> int {
    (len + width - 1) / width
}

/// A content longer than the width wraps to its first `width` characters, a
/// newline, and the wrapping of the rest.
pub proof fn lemma_hard_wrap_step(s: Seq<char>, width: int)
    requires
        width >= 1,
    ensures
        hard_wrap(s, width) == if s.len() <= width {
            s
        } else {
            s.take(width) + seq!['\n'] + hard_wrap(s.skip(width), width)
        },
{
    if s.len() > width {
        let rest = segments(s.skip(width), width);
        let all = segments(s, width);
        assert(all == seq![s.take(width)] + rest);
        assert(rest.len() >= 1);
        assert(all.drop_first() =~= rest);
    }
}

/// Wrapping is exact: a content of `L` characters is cut into `ceil(L / width)`
/// segments of at most `width` characters, all but the last of exactly
/// `width`, none empty; put together they are the content, and joined by
/// single newlines they are the wrapped content.
pub proof fn lemma_wrap_exact(s: Seq<char>, width: int)
    requires
        width >= 1,
    ensures
        segments(s, width).len() == segment_count(s.len() as int, width),
        forall|i: int|
            0 <= i < segments(s, width).len() ==> 1 <= (#[trigger] segments(s, width)[i]).len()
                <= width,
        forall|i: int|
            0 <= i < segments(s, width).len() - 1 ==> (#[trigger] segments(s, width)[i]).len()
                == width,
        segments(s, width).flatten() == s,
        hard_wrap(s, width) == join(segments(s, width), seq!['\n']),
        s.len() > 0 ==> hard_wrap(s, width).len() == s.len() + segments(s, width).len() - 1,
        s.len() == 0 ==> hard_wrap(s, width).len() == 0,
    decreases s.len(),
{
    let all = segments(s, width);
    let len = s.len() as int;
    if s.len() == 0 {
        assert((width - 1) / width == 0) by (nonlinear_arith)
            requires
                width >= 1,
        ;
        assert(all.flatten() =~= s);
    } else if s.len() <= width {
        assert((len + width - 1) / width == 1) by (nonlinear_arith)
            requires
                width >= 1,
                1 <= len <= width,
        ;
        assert(all.drop_first() =~= Seq::<Seq<char>>::empty());
        assert(all.drop_first().flatten() =~= Seq::<char>::empty());
        assert(all.flatten() =~= s);
    } else {
        let rest = segments(s.skip(width), width);
        lemma_wrap_exact(s.skip(width), width);
        lemma_hard_wrap_step(s, width);
        assert(all == seq![s.take(width)] + rest);
        assert(all.first() == s.take(width));
        assert(all.drop_first() =~= rest);
        assert(s.take(width) + s.skip(width) =~= s);
        assert((len + width - 1) / width == (len - width + width - 1) / width + 1)
            by (nonlinear_arith)
            requires
                width >= 1,
                len > width,
        ;
        assert forall|i: int| 0 <= i < all.len() implies 1 <= (#[trigger] all[i]).len()
            <= width by {
            if i > 0 {
                assert(all[i] == rest[i - 1]);
            }
        }
        assert forall|i: int| 0 <= i < all.len() - 1 implies (#[trigger] all[i]).len()
            == width by {
            if i > 0 {
                assert(all[i] == rest[i - 1]);
            }
        }
    }
}

/// Wraps `v` hard at `width` characters.
pub fn hard_wrap_chars(v: &Vec<char>, width: usize) -> (out: Vec<char>)
    requires
        width >= 1,
    ensures
        out@ == hard_wrap(v@, width as int),
{
    let mut out: Vec<char> = Vec::new();
    let mut start: usize = 0;
    let len = v.len();
    assert(v@.skip(0) =~= v@);
    while len - start > width
        invariant
            start <= len == v.len(),
            width >= 1,
            out@ + hard_wrap(v@.skip(start as int), width as int) == hard_wrap(v@, width as int),
        decreases len - start,
    {
        let ghost rest = v@.skip(start as int);
        let ghost before = out@;
        proof {
            lemma_hard_wrap_step(rest, width as int);
            assert(rest.take(width as int) =~= v@.subrange(start as int, start + width));
            assert(rest.skip(width as int) =~= v@.skip(start + width));
        }
        append_range(&mut out, v, start, start + width);
        out.push('\n');
        start += width;
        proof {
            let tail = hard_wrap(v@.skip(start as int), width as int);
            assert(out@ + tail =~= before + (rest.take(width as int) + seq!['\n'] + tail));
        }
    }
    proof {
        lemma_hard_wrap_step(v@.skip(start as int), width as int);
        assert(v@.skip(start as int) =~= v@.subrange(start as int, len as int));
    }
    append_range(&mut out, v, start, len);
    out
}

} // verus!
