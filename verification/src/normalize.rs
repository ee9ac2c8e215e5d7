//! Whitespace normalization that leaves fenced code blocks alone.
//!
//! A line whose trimmed form starts with three backticks is a fence. Fences
//! open and close code blocks in turn. Fences and the lines inside a code
//! block pass unchanged; every other line has its words joined by single
//! spaces.

use vstd::prelude::*;
use crate::lines::{
    lemma_line_end_bounds, lemma_line_end_is, lemma_word_len_bounds, lemma_word_len_is, line_end,
    lines, split_lines, split_words, strip_cr, word_len, words,
};
use crate::text::{
    is_white_space, join, join_rows, lemma_trim_end_len, rows, trim, trim_end, trim_range,
    trim_start,
};

verus! {

/// The words of `line` joined by single spaces.
pub open spec fn collapse(line: Seq<char>) -> Seq<char> {
    join(words(line), seq![' '])
}

/// The trimmed form of `line` starts with three backticks.
pub open spec fn is_fence(line: Seq<char>) -> bool {
    let t = trim(line);
    t.len() >= 3 && t[0] == '`' && t[1] == '`' && t[2] == '`'
}

/// Line `i` of `ls` follows an odd number of fences: a code block is open
/// when the line is reached.
pub open spec fn inside_code(ls: Seq<Seq<char>>, i: int) -> bool
    decreases i,
{
    if i <= 0 {
        false
    } else {
        inside_code(ls, i - 1) != is_fence(ls[i - 1])
    }
}

/// Line `i` of `ls` after normalization.
pub open spec fn normalized_line(ls: Seq<Seq<char>>, i: int) -> Seq<char> {
    if is_fence(ls[i]) || inside_code(ls, i) {
        ls[i]
    } else {
        collapse(ls[i])
    }
}

/// The lines `ls` after normalization.
pub open spec fn normalize_lines(ls: Seq<Seq<char>>) -> Seq<Seq<char>> {
    Seq::new(ls.len(), |i: int| normalized_line(ls, i))
}

/// The content `s` after normalization: its normalized lines joined by
/// single newlines.
pub open spec fn normalized(s: Seq<char>) -> Seq<char> {
    join(normalize_lines(lines(s)), seq!['\n'])
}

/// Every line from an opening fence up to the next fence is the same after
/// normalization, whatever whitespace it holds.
pub proof fn lemma_code_block_preserved(ls: Seq<Seq<char>>, open: int, close: int)
    requires
        0 <= open < close <= ls.len(),
        is_fence(ls[open]),
        !inside_code(ls, open),
        forall|j: int| open < j < close ==> !is_fence(#[trigger] ls[j]),
    ensures
        normalize_lines(ls).len() == ls.len(),
        forall|j: int| open < j <= close ==> #[trigger] inside_code(ls, j),
        forall|j: int| open <= j < close ==> #[trigger] normalize_lines(ls)[j] == ls[j],
    decreases close - open,
{
    if close > open + 1 {
        lemma_code_block_preserved(ls, open, close - 1);
        assert(inside_code(ls, close - 1));
        assert(!is_fence(ls[close - 1]));
    }
    assert(inside_code(ls, open + 1));
    assert(inside_code(ls, close));
}

/// A word: not empty, and without whitespace.
pub open spec fn is_word(w: Seq<char>) -> bool {
    w.len() > 0 && forall|j: int| 0 <= j < w.len() ==> !is_white_space(#[trigger] w[j])
}

/// `x` starts with three backticks.
pub open spec fn starts_with_fence(x: Seq<char>) -> bool {
    x.len() >= 3 && x[0] == '`' && x[1] == '`' && x[2] == '`'
}

/// Each of the words of a line is a word.
pub proof fn lemma_words_are_words(l: Seq<char>)
    ensures
        forall|i: int| 0 <= i < words(l).len() ==> is_word(#[trigger] words(l)[i]),
    decreases l.len(),
{
    if l.len() > 0 {
        lemma_word_len_bounds(l);
        if is_white_space(l[0]) {
            lemma_words_are_words(l.drop_first());
            assert(words(l) == words(l.drop_first()));
        } else {
            let k = word_len(l);
            lemma_words_are_words(l.skip(k));
            let rest = words(l.skip(k));
            let first = l.take(k);
            assert forall|j: int| 0 <= j < first.len() implies !is_white_space(
                #[trigger] first[j],
            ) by {
                assert(first[j] == l[j]);
            }
            assert(is_word(first));
            assert(words(l) == seq![first] + rest);
            assert forall|i: int| 0 <= i < words(l).len() implies is_word(
                #[trigger] words(l)[i],
            ) by {
                if i > 0 {
                    assert(words(l)[i] == rest[i - 1]);
                } else {
                    assert(words(l)[0] == first);
                }
            }
        }
    }
}

/// Where a property holds of every character of the parts and of the
/// separator, it holds of every character of what they are joined to.
pub proof fn lemma_join_chars(parts: Seq<Seq<char>>, sep: Seq<char>, p: spec_fn(char) -> bool)
    requires
        forall|i: int, j: int|
            0 <= i < parts.len() && 0 <= j < parts[i].len() ==> p(#[trigger] parts[i][j]),
        forall|j: int| 0 <= j < sep.len() ==> p(#[trigger] sep[j]),
    ensures
        forall|j: int| 0 <= j < join(parts, sep).len() ==> p(#[trigger] join(parts, sep)[j]),
    decreases parts.len(),
{
    if parts.len() >= 2 {
        let rest = parts.drop_first();
        assert forall|i: int, j: int| 0 <= i < rest.len() && 0 <= j < rest[i].len() implies p(
            #[trigger] rest[i][j],
        ) by {
            assert(rest[i][j] == parts[i + 1][j]);
        }
        lemma_join_chars(rest, sep, p);
        let tail = join(rest, sep);
        let all = join(parts, sep);
        assert forall|j: int| 0 <= j < all.len() implies p(#[trigger] all[j]) by {
            if j < parts[0].len() {
                assert(all[j] == parts[0][j]);
            } else if j < parts[0].len() + sep.len() {
                assert(all[j] == sep[j - parts[0].len()]);
            } else {
                assert(all[j] == tail[j - parts[0].len() - sep.len()]);
            }
        }
    }
}

/// Words joined by single spaces split into the same words again.
pub proof fn lemma_words_of_joined(ws: Seq<Seq<char>>)
    requires
        forall|i: int| 0 <= i < ws.len() ==> is_word(#[trigger] ws[i]),
    ensures
        words(join(ws, seq![' '])) == ws,
    decreases ws.len(),
{
    let sep = seq![' '];
    let joined = join(ws, sep);
    if ws.len() == 0 {
    } else {
        let first = ws[0];
        let k = first.len() as int;
        assert(is_word(first));
        assert(!is_white_space(first[0]));
        if ws.len() == 1 {
            assert(joined == first);
            lemma_word_len_is(joined, k);
            assert(words(joined.skip(k)) =~= Seq::<Seq<char>>::empty());
            assert(joined.take(k) =~= first);
            assert(joined.skip(k) =~= Seq::<char>::empty());
            assert(words(joined) =~= ws);
        } else {
            let rest = ws.drop_first();
            assert forall|i: int| 0 <= i < rest.len() implies is_word(#[trigger] rest[i]) by {
                assert(rest[i] == ws[i + 1]);
            }
            lemma_words_of_joined(rest);
            let tail = join(rest, sep);
            assert(joined == first + sep + tail);
            assert(joined[0] == first[0]);
            assert(joined[k] == ' ');
            assert(is_white_space(' '));
            assert forall|i: int| 0 <= i < k implies !is_white_space(joined[i]) by {
                assert(joined[i] == first[i]);
            }
            lemma_word_len_is(joined, k);
            assert(joined.take(k) =~= first);
            let after = joined.skip(k);
            assert(after =~= sep + tail);
            assert(after[0] == ' ');
            assert(after.drop_first() =~= tail);
            assert(words(after) == words(tail));
            assert(words(joined) =~= seq![first] + rest);
            assert(seq![first] + rest =~= ws);
        }
    }
}

/// A collapsed line splits into the words of the line.
pub proof fn lemma_words_of_collapsed(l: Seq<char>)
    ensures
        words(collapse(l)) == words(l),
        collapse(collapse(l)) == collapse(l),
{
    lemma_words_are_words(l);
    lemma_words_of_joined(words(l));
}

/// A collapsed line holds no whitespace but single spaces: no newline and
/// no carriage return.
pub proof fn lemma_collapsed_chars(l: Seq<char>)
    ensures
        forall|j: int|
            0 <= j < collapse(l).len() ==> (#[trigger] collapse(l)[j]) != '\n' && collapse(l)[j]
                != '\r',
{
    lemma_words_are_words(l);
    let p = |c: char| c != '\n' && c != '\r';
    let ws = words(l);
    assert(is_white_space('\n') && is_white_space('\r'));
    assert forall|i: int, j: int| 0 <= i < ws.len() && 0 <= j < ws[i].len() implies p(
        #[trigger] ws[i][j],
    ) by {
        assert(is_word(ws[i]));
    }
    lemma_join_chars(ws, seq![' '], p);
    assert forall|j: int| 0 <= j < collapse(l).len() implies (#[trigger] collapse(l)[j]) != '\n'
        && collapse(l)[j] != '\r' by {
        assert(p(collapse(l)[j]));
    }
}

/// What trimming the end leaves reaches past every character that is not
/// whitespace.
pub proof fn lemma_trim_end_keeps(s: Seq<char>, i: int)
    requires
        0 <= i < s.len(),
        !is_white_space(s[i]),
    ensures
        trim_end(s).len() > i,
    decreases s.len(),
{
    if is_white_space(s.last()) {
        lemma_trim_end_keeps(s.drop_last(), i);
    }
}

/// A line is a fence where what is left of it without its leading
/// whitespace starts with three backticks.
pub proof fn lemma_fence_by_start(l: Seq<char>)
    ensures
        is_fence(l) == starts_with_fence(trim_start(l)),
{
    let t = trim_start(l);
    lemma_trim_end_len(t);
    assert(!is_white_space('`'));
    if starts_with_fence(t) {
        lemma_trim_end_keeps(t, 2);
    }
}

/// What is left of a line without its leading whitespace starts with three
/// backticks where the first word of the line does.
pub proof fn lemma_fence_by_first_word(l: Seq<char>)
    ensures
        starts_with_fence(trim_start(l)) == (words(l).len() > 0 && starts_with_fence(
            words(l)[0],
        )),
    decreases l.len(),
{
    if l.len() > 0 {
        if is_white_space(l[0]) {
            lemma_fence_by_first_word(l.drop_first());
        } else {
            lemma_word_len_bounds(l);
            let k = word_len(l);
            assert(words(l)[0] == l.take(k));
            assert(!is_white_space('`'));
            if starts_with_fence(l) {
                if k < 3 {
                    assert(is_white_space(l[k]));
                }
            }
        }
    }
}

/// Collapsing a line neither makes nor unmakes a fence.
pub proof fn lemma_collapse_keeps_fence(l: Seq<char>)
    ensures
        is_fence(collapse(l)) == is_fence(l),
{
    lemma_fence_by_start(l);
    lemma_fence_by_first_word(l);
    lemma_fence_by_start(collapse(l));
    lemma_fence_by_first_word(collapse(l));
    lemma_words_of_collapsed(l);
}

/// No line holds a newline.
pub proof fn lemma_lines_hold_no_newline(s: Seq<char>)
    ensures
        forall|i: int, j: int|
            0 <= i < lines(s).len() && 0 <= j < lines(s)[i].len() ==> (#[trigger] lines(
                s,
            )[i][j]) != '\n',
    decreases s.len(),
{
    lemma_line_end_bounds(s);
    if s.len() > 0 && line_end(s) < s.len() {
        let e = line_end(s);
        let first = strip_cr(s.take(e));
        let rest = lines(s.skip(e + 1));
        lemma_lines_hold_no_newline(s.skip(e + 1));
        assert forall|i: int, j: int|
            0 <= i < lines(s).len() && 0 <= j < lines(s)[i].len() implies (#[trigger] lines(
            s,
        )[i][j]) != '\n' by {
            if i == 0 {
                assert(lines(s)[0] == first);
                assert(first[j] == s[j]);
            } else {
                assert(lines(s)[i] == rest[i - 1]);
            }
        }
    }
}

/// None of `ls` but the last ends in a carriage return, and the last is not
/// empty.
pub open spec fn ends_well(ls: Seq<Seq<char>>) -> bool {
    &&& forall|i: int|
        0 <= i < ls.len() - 1 ==> !((#[trigger] ls[i]).len() > 0 && ls[i].last() == '\r')
    &&& ls.len() > 0 ==> ls.last().len() > 0
}

/// The lines `ls` are the lines of the content they are joined to: none
/// holds a newline, none but the last ends in a carriage return, and the
/// last is not empty.
pub open spec fn survives_joining(ls: Seq<Seq<char>>) -> bool {
    &&& forall|i: int, j: int|
        0 <= i < ls.len() && 0 <= j < ls[i].len() ==> (#[trigger] ls[i][j]) != '\n'
    &&& ends_well(ls)
}

/// Lines that survive joining, joined by single newlines, split into the
/// same lines again.
pub proof fn lemma_lines_of_joined(ls: Seq<Seq<char>>)
    requires
        survives_joining(ls),
    ensures
        lines(join(ls, seq!['\n'])) == ls,
    decreases ls.len(),
{
    let sep = seq!['\n'];
    let joined = join(ls, sep);
    if ls.len() == 0 {
    } else if ls.len() == 1 {
        assert forall|j: int| 0 <= j < joined.len() implies joined[j] != '\n' by {
            assert(joined[j] == ls[0][j]);
        }
        lemma_line_end_is(joined, joined.len() as int);
        assert(lines(joined) =~= ls);
    } else {
        let first = ls[0];
        let k = first.len() as int;
        let rest = ls.drop_first();
        assert forall|i: int, j: int| 0 <= i < rest.len() && 0 <= j < rest[i].len() implies (
        #[trigger] rest[i][j]) != '\n' by {
            assert(rest[i][j] == ls[i + 1][j]);
        }
        assert forall|i: int| 0 <= i < rest.len() - 1 implies !((#[trigger] rest[i]).len() > 0
            && rest[i].last() == '\r') by {
            assert(rest[i] == ls[i + 1]);
        }
        assert(rest.last() == ls.last());
        lemma_lines_of_joined(rest);
        let tail = join(rest, sep);
        assert(joined == first + sep + tail);
        assert(joined[k] == '\n');
        assert forall|j: int| 0 <= j < k implies joined[j] != '\n' by {
            assert(joined[j] == first[j]);
        }
        lemma_line_end_is(joined, k);
        assert(joined.take(k) =~= first);
        assert(strip_cr(first) == first);
        assert(joined.skip(k + 1) =~= tail);
        assert(lines(joined) =~= seq![first] + rest);
        assert(seq![first] + rest =~= ls);
    }
}

/// Normalized lines are fences where the lines were, and code blocks open
/// and close at the same lines.
pub proof fn lemma_normalized_fences(ls: Seq<Seq<char>>, i: int)
    requires
        0 <= i <= ls.len(),
    ensures
        inside_code(normalize_lines(ls), i) == inside_code(ls, i),
        i < ls.len() ==> is_fence(normalize_lines(ls)[i]) == is_fence(ls[i]),
    decreases i,
{
    if i > 0 {
        lemma_normalized_fences(ls, i - 1);
    }
    if i < ls.len() {
        lemma_collapse_keeps_fence(ls[i]);
    }
}

/// Normalizing lines that are normalized changes nothing.
pub proof fn lemma_normalize_lines_twice(ls: Seq<Seq<char>>)
    ensures
        normalize_lines(normalize_lines(ls)) == normalize_lines(ls),
{
    let once = normalize_lines(ls);
    assert forall|i: int| 0 <= i < ls.len() implies normalized_line(once, i) == once[i] by {
        lemma_normalized_fences(ls, i);
        lemma_words_of_collapsed(ls[i]);
    }
    assert(normalize_lines(once) =~= once);
}

/// No normalized line holds a newline.
pub proof fn lemma_normalized_lines_hold_no_newline(s: Seq<char>)
    ensures
        forall|i: int, j: int|
            0 <= i < normalize_lines(lines(s)).len() && 0 <= j < normalize_lines(
                lines(s),
            )[i].len() ==> (#[trigger] normalize_lines(lines(s))[i][j]) != '\n',
{
    let ls = lines(s);
    let once = normalize_lines(ls);
    lemma_lines_hold_no_newline(s);
    assert forall|i: int, j: int| 0 <= i < once.len() && 0 <= j < once[i].len() implies (
    #[trigger] once[i][j]) != '\n' by {
        lemma_collapsed_chars(ls[i]);
        if once[i] == ls[i] {
            assert(ls[i][j] != '\n');
        } else {
            assert(once[i] == collapse(ls[i]));
            assert(collapse(ls[i])[j] != '\n');
        }
    }
}

/// Normalization is idempotent: a normalized content is its own normal
/// form, where its lines end well or it is empty. Where a normalized line
/// other than the last ends in a carriage return, or the last of several is
/// empty, the normalized content splits into other lines than it was joined
/// from, and normalizing it again gives another content.
pub proof fn lemma_normalize_idempotent(s: Seq<char>)
    requires
        ends_well(normalize_lines(lines(s))) || normalized(s).len() == 0,
    ensures
        normalized(normalized(s)) == normalized(s),
{
    let once = normalize_lines(lines(s));
    if ends_well(once) {
        lemma_normalized_lines_hold_no_newline(s);
        lemma_lines_of_joined(once);
        lemma_normalize_lines_twice(lines(s));
    } else {
        assert(lines(normalized(s)) =~= Seq::<Seq<char>>::empty());
        assert(normalize_lines(lines(normalized(s))) =~= Seq::<Seq<char>>::empty());
    }
}

/// Whether the trimmed form of `line` starts with three backticks.
pub fn is_fence_line(line: &Vec<char>) -> (b: bool)
    ensures
        b == is_fence(line@),
{
    let (a, e) = trim_range(line, 0, line.len());
    assert(line@.subrange(0, line@.len() as int) =~= line@);
    assert(forall|k: int|
        0 <= k < e - a ==> line@.subrange(a as int, e as int)[k] == line@[a + k]);
    e - a >= 3 && line[a] == '`' && line[a + 1] == '`' && line[a + 2] == '`'
}

/// The words of `line` joined by single spaces.
pub fn collapse_line(line: &Vec<char>) -> (out: Vec<char>)
    ensures
        out@ == collapse(line@),
{
    let parts = split_words(line);
    let sep: Vec<char> = vec![' '];
    assert(sep@ =~= seq![' ']);
    join_rows(&parts, &sep)
}

/// Normalizes the whitespace of `v` outside its code blocks.
pub fn normalize_chars(v: &Vec<char>) -> (out: Vec<char>)
    ensures
        out@ == normalized(v@),
{
    let ls = split_lines(v);
    let mut result: Vec<Vec<char>> = Vec::new();
    let mut in_code_block = false;
    let mut i: usize = 0;
    while i < ls.len()
        invariant
            i <= ls.len(),
            in_code_block == inside_code(rows(ls@), i as int),
            rows(result@) =~= Seq::new(i as nat, |k: int| normalized_line(rows(ls@), k)),
        decreases ls.len() - i,
    {
        let ghost before = rows(result@);
        if is_fence_line(&ls[i]) {
            in_code_block = !in_code_block;
            result.push(ls[i].clone());
        } else if in_code_block {
            result.push(ls[i].clone());
        } else {
            result.push(collapse_line(&ls[i]));
        }
        assert(rows(result@) =~= before.push(normalized_line(rows(ls@), i as int)));
        i += 1;
    }
    assert(rows(result@) =~= normalize_lines(rows(ls@)));
    let sep: Vec<char> = vec!['\n'];
    assert(sep@ =~= seq!['\n']);
    join_rows(&result, &sep)
}

} // verus!
