//! Cutting content into bounded pieces at sentence boundaries.
//!
//! The content is first partitioned into consecutive pieces of at most
//! `limit` characters, each ending just after a sentence break where one lies
//! in reach. A chunk is a piece with its surrounding whitespace removed;
//! pieces that hold whitespace only yield no chunk.

use vstd::prelude::*;
use crate::text::{string_of_range, trim, trim_range, views};

verus! {

/// The characters after which a chunk may end.
pub open spec fn is_sentence_break(c: char) -> bool {
    c == '.' || c == '!' || c == '?' || c == '\n'
}

/// One past the last sentence break among `s[lo..hi]`, or `lo` if there is none.
pub open spec fn last_break_end(s: Seq<char>, lo: int, hi: int) -> int
    decreases hi - lo,
{
    if hi <= lo {
        lo
    } else if is_sentence_break(s[hi - 1]) {
        hi
    } else {
        last_break_end(s, lo, hi - 1)
    }
}

/// Where the piece that starts at `start` ends. The candidate is `limit`
/// characters on, or the end of the content. A candidate short of the end
/// moves back to just after the last sentence break of the window, if the
/// window has one.
pub open spec fn boundary(s: Seq<char>, start: int, limit: int) -> int {
    let candidate = if start + limit < s.len() {
        start + limit
    } else {
        s.len() as int
    };
    if candidate < s.len() && last_break_end(s, start, candidate) > start {
        last_break_end(s, start, candidate)
    } else {
        candidate
    }
}

/// The consecutive pieces of `s` from `start` on.
pub open spec fn pieces_from(s: Seq<char>, start: int, limit: int) -> Seq<Seq<char>>
    decreases s.len() - start,
    via pieces_from_decreases
{
    if 0 <= start < s.len() && limit >= 1 {
        seq![s.subrange(start, boundary(s, start, limit))] + pieces_from(
            s,
            boundary(s, start, limit),
            limit,
        )
    } else {
        Seq::empty()
    }
}

#[via_fn]
proof fn pieces_from_decreases(s: Seq<char>, start: int, limit: int) {
    if 0 <= start < s.len() && limit >= 1 {
        lemma_boundary_bounds(s, start, limit);
    }
}

/// The trimmed forms of `pieces`, in order, without the empty ones.
pub open spec fn trimmed_nonempty(pieces: Seq<Seq<char>>) -> Seq<Seq<char>>
    decreases pieces.len(),
{
    if pieces.len() == 0 {
        Seq::empty()
    } else if trim(pieces[0]).len() > 0 {
        seq![trim(pieces[0])] + trimmed_nonempty(pieces.drop_first())
    } else {
        trimmed_nonempty(pieces.drop_first())
    }
}

/// The pieces that `s` is partitioned into: `s` itself where it fits the
/// limit, else the consecutive pieces from its start.
pub open spec fn pieces(s: Seq<char>, limit: int) -> Seq<Seq<char>> {
    if s.len() <= limit {
        seq![s]
    } else {
        pieces_from(s, 0, limit)
    }
}

/// The chunks of `s`: `s` itself, untrimmed, where it fits the limit, else
/// its trimmed non-empty pieces.
pub open spec fn chunks(s: Seq<char>, limit: int) -> Seq<Seq<char>> {
    if s.len() <= limit {
        seq![s]
    } else {
        trimmed_nonempty(pieces_from(s, 0, limit))
    }
}

/// The number of characters in all of `parts`.
pub open spec fn total_len(parts: Seq<Seq<char>>) -> nat
    decreases parts.len(),
{
    if parts.len() == 0 {
        0
    } else {
        parts[0].len() + total_len(parts.drop_first())
    }
}

/// The number of whitespace characters that trimming removes from `parts`.
pub open spec fn trimmed_away(parts: Seq<Seq<char>>) -> nat
    decreases parts.len(),
{
    if parts.len() == 0 {
        0
    } else {
        (parts[0].len() - trim(parts[0]).len()) as nat + trimmed_away(parts.drop_first())
    }
}

/// The end of the piece of `v` that starts at `start`.
pub fn find_boundary(v: &Vec<char>, start: usize, limit: usize) -> (b: usize)
    requires
        start < v.len(),
        limit >= 1,
    ensures
        b == boundary(v@, start as int, limit as int),
        start < b <= v.len(),
        b - start <= limit,
{
    let len = v.len();
    let candidate: usize = if limit < len - start {
        start + limit
    } else {
        len
    };
    if candidate < len {
        let mut p: usize = candidate;
        while p > start && !(v[p - 1] == '.' || v[p - 1] == '!' || v[p - 1] == '?' || v[p - 1]
            == '\n')
            invariant
                start <= p <= candidate < v.len(),
                last_break_end(v@, start as int, candidate as int) == last_break_end(
                    v@,
                    start as int,
                    p as int,
                ),
            decreases p - start,
        {
            p -= 1;
        }
        if p > start {
            p
        } else {
            candidate
        }
    } else {
        candidate
    }
}

/// The bounds of the last break end lie in the window.
pub proof fn lemma_last_break_end_bounds(s: Seq<char>, lo: int, hi: int)
    requires
        lo <= hi,
    ensures
        lo <= last_break_end(s, lo, hi) <= hi,
    decreases hi - lo,
{
    if hi > lo && !is_sentence_break(s[hi - 1]) {
        lemma_last_break_end_bounds(s, lo, hi - 1);
    }
}

/// A boundary lies after its start, at most `limit` characters on, and within
/// the content.
pub proof fn lemma_boundary_bounds(s: Seq<char>, start: int, limit: int)
    requires
        0 <= start < s.len(),
        limit >= 1,
    ensures
        start < boundary(s, start, limit) <= s.len(),
        boundary(s, start, limit) - start <= limit,
{
    let candidate = if start + limit < s.len() {
        start + limit
    } else {
        s.len() as int
    };
    lemma_last_break_end_bounds(s, start, candidate);
}

/// The whitespace that chunking removes from `s`: none where `s` fits the
/// limit, else what trimming takes from its pieces.
pub open spec fn removed_whitespace(s: Seq<char>, limit: int) -> nat {
    if s.len() <= limit {
        0
    } else {
        trimmed_away(pieces_from(s, 0, limit))
    }
}

/// The pieces from `start` on, put together again, are the content from
/// `start` on.
pub proof fn lemma_pieces_from_cover(s: Seq<char>, start: int, limit: int)
    requires
        0 <= start <= s.len(),
        limit >= 1,
    ensures
        pieces_from(s, start, limit).flatten() == s.skip(start),
        total_len(pieces_from(s, start, limit)) == s.len() - start,
    decreases s.len() - start,
{
    if start < s.len() {
        let b = boundary(s, start, limit);
        lemma_boundary_bounds(s, start, limit);
        lemma_pieces_from_cover(s, b, limit);
        let piece = s.subrange(start, b);
        let rest = pieces_from(s, b, limit);
        let all = pieces_from(s, start, limit);
        assert(all == seq![piece] + rest);
        assert(all.first() == piece);
        assert(all.drop_first() =~= rest);
        assert(piece + s.skip(b) =~= s.skip(start));
    } else {
        assert(s.skip(start) =~= Seq::<char>::empty());
    }
}

/// Trimming accounts for every character: those kept in the chunks and those
/// removed as whitespace together are the characters of the pieces.
pub proof fn lemma_trimmed_lengths(parts: Seq<Seq<char>>)
    ensures
        total_len(trimmed_nonempty(parts)) + trimmed_away(parts) == total_len(parts),
    decreases parts.len(),
{
    if parts.len() > 0 {
        crate::text::lemma_trim_len(parts[0]);
        lemma_trimmed_lengths(parts.drop_first());
        let rest = trimmed_nonempty(parts.drop_first());
        if trim(parts[0]).len() > 0 {
            let kept = seq![trim(parts[0])] + rest;
            assert(kept.first() == trim(parts[0]));
            assert(kept.drop_first() =~= rest);
        }
    }
}

/// Each piece holds at least one character and at most `limit`.
pub proof fn lemma_pieces_bounded(s: Seq<char>, start: int, limit: int)
    requires
        0 <= start <= s.len(),
        limit >= 1,
    ensures
        forall|i: int|
            0 <= i < pieces_from(s, start, limit).len() ==> 1 <= (#[trigger] pieces_from(
                s,
                start,
                limit,
            )[i]).len() <= limit,
    decreases s.len() - start,
{
    if start < s.len() {
        let b = boundary(s, start, limit);
        lemma_boundary_bounds(s, start, limit);
        lemma_pieces_bounded(s, b, limit);
        let rest = pieces_from(s, b, limit);
        let all = pieces_from(s, start, limit);
        assert(all == seq![s.subrange(start, b)] + rest);
        assert forall|i: int| 0 <= i < all.len() implies 1 <= (#[trigger] all[i]).len()
            <= limit by {
            if i > 0 {
                assert(all[i] == rest[i - 1]);
            }
        }
    }
}

/// Each trimmed piece that is kept holds at least one character and no more
/// than the piece it comes from.
pub proof fn lemma_trimmed_bounded(parts: Seq<Seq<char>>, limit: int)
    requires
        forall|i: int| 0 <= i < parts.len() ==> (#[trigger] parts[i]).len() <= limit,
    ensures
        forall|j: int|
            0 <= j < trimmed_nonempty(parts).len() ==> 1 <= (#[trigger] trimmed_nonempty(
                parts,
            )[j]).len() <= limit,
    decreases parts.len(),
{
    if parts.len() > 0 {
        let rest = parts.drop_first();
        assert forall|i: int| 0 <= i < rest.len() implies (#[trigger] rest[i]).len() <= limit by {
            assert(rest[i] == parts[i + 1]);
        }
        lemma_trimmed_bounded(rest, limit);
        crate::text::lemma_trim_len(parts[0]);
        let kept = trimmed_nonempty(parts);
        let tail = trimmed_nonempty(rest);
        assert forall|j: int| 0 <= j < kept.len() implies 1 <= (#[trigger] kept[j]).len()
            <= limit by {
            if trim(parts[0]).len() > 0 {
                if j > 0 {
                    assert(kept[j] == tail[j - 1]);
                }
            }
        }
    }
}

/// Chunks are bounded: a content longer than the limit is cut into chunks
/// of at least one and at most `limit` characters.
pub proof fn lemma_chunks_bounded(s: Seq<char>, limit: int)
    requires
        limit >= 1,
        s.len() > limit,
    ensures
        forall|j: int|
            0 <= j < chunks(s, limit).len() ==> 1 <= (#[trigger] chunks(s, limit)[j]).len()
                <= limit,
{
    lemma_pieces_bounded(s, 0, limit);
    lemma_trimmed_bounded(pieces_from(s, 0, limit), limit);
}

/// Chunking is lossless: the pieces of a content, put together in order, are
/// the content, and the chunks hold every character of it but the whitespace
/// trimmed at the pieces' ends.
pub proof fn lemma_chunks_account_for_content(s: Seq<char>, limit: int)
    requires
        limit >= 1,
    ensures
        pieces(s, limit).flatten() == s,
        total_len(chunks(s, limit)) + removed_whitespace(s, limit) == s.len(),
{
    if s.len() <= limit {
        let one = seq![s];
        assert(one.first() == s);
        assert(one.drop_first() =~= Seq::<Seq<char>>::empty());
        assert(one.drop_first().flatten() =~= Seq::<char>::empty());
        assert(one.flatten() =~= s);
        assert(total_len(one.drop_first()) == 0);
    } else {
        lemma_pieces_from_cover(s, 0, limit);
        assert(s.skip(0) =~= s);
        lemma_trimmed_lengths(pieces_from(s, 0, limit));
    }
}

/// Cuts `v` into chunks of at most `limit` characters.
pub fn chunk_chars(v: &Vec<char>, limit: usize) -> (out: Vec<String>)
    requires
        limit >= 1,
    ensures
        views(out@) == chunks(v@, limit as int),
{
    if v.len() <= limit {
        let whole = string_of_range(v, 0, v.len());
        let out = vec![whole];
        assert(v@.subrange(0, v@.len() as int) =~= v@);
        assert(views(out@) =~= seq![v@]);
        return out;
    }
    let mut out: Vec<String> = Vec::new();
    let mut start: usize = 0;
    assert(views(out@) =~= Seq::<Seq<char>>::empty());
    while start < v.len()
        invariant
            start <= v.len(),
            limit >= 1,
            views(out@) + trimmed_nonempty(pieces_from(v@, start as int, limit as int))
                == trimmed_nonempty(pieces_from(v@, 0, limit as int)),
        decreases v.len() - start,
    {
        let end = find_boundary(v, start, limit);
        let (a, b) = trim_range(v, start, end);
        let ghost rest = pieces_from(v@, end as int, limit as int);
        let ghost piece = v@.subrange(start as int, end as int);
        proof {
            assert(pieces_from(v@, start as int, limit as int) == seq![piece] + rest);
            assert((seq![piece] + rest)[0] == piece);
            assert((seq![piece] + rest).drop_first() =~= rest);
        }
        if a < b {
            let ghost before = views(out@);
            let chunk = string_of_range(v, a, b);
            out.push(chunk);
            proof {
                assert(views(out@) =~= before + seq![trim(piece)]);
                assert(before + (seq![trim(piece)] + trimmed_nonempty(rest)) =~= (before
                    + seq![trim(piece)]) + trimmed_nonempty(rest));
            }
        }
        start = end;
    }
    proof {
        assert(views(out@) + Seq::<Seq<char>>::empty() =~= views(out@));
    }
    out
}

} // verus!
