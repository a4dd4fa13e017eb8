use vstd::prelude::*;
use vstd::utf8::*;

use crate::split::{lemma_encode_concat, lemma_encode_push, split_chars, utf8_width};

verus! {

/// The position of the first '\n' at or after `i`, or the length of `t` if there is none.
pub open spec fn next_newline(t: Seq<char>, i: int) -> int
    decreases t.len() - i,
{
    if 0 <= i < t.len() {
        if t[i] == '\n' {
            i
        } else {
            next_newline(t, i + 1)
        }
    } else {
        t.len() as int
    }
}

/// The line that starts at `start`: the text up to the next '\n', without the
/// '\r' of a "\r\n" terminator.
pub open spec fn line_at(t: Seq<char>, start: int) -> Seq<char> {
    let e = next_newline(t, start);
    if start < e < t.len() && t[e - 1] == '\r' {
        t.subrange(start, e - 1)
    } else {
        t.subrange(start, e)
    }
}

/// The lines of `t` from position `start` on.
pub open spec fn lines_from(t: Seq<char>, start: int) -> Seq<Seq<char>>
    decreases t.len() + 1 - start,
    via lines_from_decreases
{
    if 0 <= start < t.len() {
        seq![line_at(t, start)] + lines_from(t, next_newline(t, start) + 1)
    } else {
        seq![]
    }
}

#[via_fn]
proof fn lines_from_decreases(t: Seq<char>, start: int) {
    if 0 <= start < t.len() {
        lemma_next_newline_bounds(t, start);
    }
}

/// The lines of a text body, in order. A line ends at '\n' or "\r\n", which is
/// not part of it; the last line needs no terminator, and a final terminator
/// opens no empty line.
pub open spec fn lines_of(t: Seq<char>) -> Seq<Seq<char>> {
    lines_from(t, 0)
}

/// The contents of a sequence of string slices.
pub open spec fn view_lines(v: Seq<&str>) -> Seq<Seq<char>> {
    v.map_values(|s: &str| s@)
}

proof fn lemma_next_newline_bounds(t: Seq<char>, i: int)
    requires
        0 <= i <= t.len(),
    ensures
        i <= next_newline(t, i) <= t.len(),
    decreases t.len() - i,
{
    if i < t.len() && t[i] != '\n' {
        lemma_next_newline_bounds(t, i + 1);
    }
}

/// With no '\n' in `t[i..e]`, and `e` either a '\n' or the end, the next newline
/// from `i` is at `e`.
proof fn lemma_next_newline_at(t: Seq<char>, i: int, e: int)
    requires
        0 <= i <= e <= t.len(),
        e < t.len() ==> t[e] == '\n',
        forall|j: int| i <= j < e ==> t[j] != '\n',
    ensures
        next_newline(t, i) == e,
    decreases e - i,
{
    if i < e {
        lemma_next_newline_at(t, i + 1, e);
    }
}

/// The lines of `contents`, as slices of it.
pub(crate) fn lines<'a>(contents: &'a str) -> (r: Vec<&'a str>)
    ensures
        view_lines(r@) == lines_of(contents@),
{
    let ghost t = contents@;
    let n_bytes = contents.as_bytes().len();
    proof {
        assert(encode_utf8(t).len() == n_bytes);
    }
    let mut out: Vec<&'a str> = Vec::new();
    let mut rest: &'a str = contents;
    let ghost mut start: int = 0;
    let mut piece_bytes: usize = 0;
    let mut prev_cr: bool = false;
    for c in it: contents.chars()
        invariant
            it.seq() == t,
            0 <= start <= it.index(),
            rest@ == t.skip(start),
            piece_bytes == encode_utf8(t.subrange(start, it.index())).len(),
            prev_cr == (it.index() > start && t[it.index() - 1] == '\r'),
            forall|j: int| start <= j < it.index() ==> t[j] != '\n',
            view_lines(out@) + lines_from(t, start) == lines_of(t),
            encode_utf8(t).len() <= usize::MAX,
    {
        let ghost i = it.index();
        proof {
            assert(t.subrange(start, i + 1) =~= t.subrange(start, i).push(c));
            lemma_encode_push(t.subrange(start, i), c);
            assert(t =~= t.take(start) + (t.subrange(start, i + 1) + t.skip(i + 1)));
            lemma_encode_concat(t.take(start), t.subrange(start, i + 1) + t.skip(i + 1));
            lemma_encode_concat(t.subrange(start, i + 1), t.skip(i + 1));
        }
        if c == '\n' {
            let ghost content_end: int = if prev_cr { i - 1 } else { i };
            proof {
                if prev_cr {
                    assert(t.subrange(start, i) =~= t.subrange(start, i - 1).push('\r'));
                    lemma_encode_push(t.subrange(start, i - 1), '\r');
                }
                assert(rest@.take(content_end - start) =~= t.subrange(start, content_end));
            }
            let content_bytes: usize = if prev_cr { piece_bytes - 1 } else { piece_bytes };
            let (line, after) = split_chars(rest, Ghost(content_end - start), content_bytes);
            proof {
                let term = after@.take(i + 1 - content_end);
                if prev_cr {
                    assert(term =~= seq!['\r'].push('\n'));
                    lemma_encode_push(seq!['\r'], '\n');
                    lemma_encode_push(Seq::<char>::empty(), '\r');
                } else {
                    assert(term =~= Seq::<char>::empty().push('\n'));
                    lemma_encode_push(Seq::<char>::empty(), '\n');
                }
            }
            let term_bytes: usize = if prev_cr { 2 } else { 1 };
            let (_, tail) = split_chars(after, Ghost(i + 1 - content_end), term_bytes);
            proof {
                lemma_next_newline_at(t, start, i);
                assert(line@ == line_at(t, start));
                assert(view_lines(out@.push(line)) =~= view_lines(out@).push(line@));
                assert(lines_from(t, start) == seq![line@] + lines_from(t, i + 1));
                assert(view_lines(out@).push(line@) + lines_from(t, i + 1) =~= view_lines(out@)
                    + lines_from(t, start));
                assert(tail@ =~= t.skip(i + 1));
            }
            out.push(line);
            rest = tail;
            proof {
                start = i + 1;
                assert(t.subrange(start, i + 1) =~= Seq::<char>::empty());
            }
            piece_bytes = 0;
            prev_cr = false;
        } else {
            piece_bytes = piece_bytes + utf8_width(c);
            prev_cr = c == '\r';
        }
    }
    if rest.len() > 0 {
        proof {
            lemma_next_newline_at(t, start, t.len() as int);
            assert(rest@ =~= line_at(t, start));
            assert(lines_from(t, t.len() + 1 as int) == Seq::<Seq<char>>::empty());
            assert(lines_from(t, start) == seq![rest@] + lines_from(t, t.len() + 1 as int));
            assert(view_lines(out@.push(rest)) =~= view_lines(out@).push(rest@));
            assert(view_lines(out@).push(rest@) =~= view_lines(out@) + lines_from(t, start));
        }
        out.push(rest);
    } else {
        proof {
            assert(view_lines(out@) =~= view_lines(out@) + lines_from(t, start));
        }
    }
    out
}

} // verus!
