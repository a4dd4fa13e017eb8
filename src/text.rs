use vstd::prelude::*;

verus! {

/// `pat` occurs in `text` as a contiguous run of characters.
pub open spec fn contains(text: Seq<char>, pat: Seq<char>) -> bool {
    exists|i: int|
        0 <= i && i + pat.len() <= text.len() && #[trigger] text.subrange(i, i + pat.len()) == pat
}

/// The characters of `s`, in order.
fn char_vec(s: &str) -> (r: Vec<char>)
    ensures
        r@ == s@,
{
    let mut out: Vec<char> = Vec::new();
    for c in it: s.chars()
        invariant
            out@ == it.seq().take(it.index()),
    {
        out.push(c);
    }
    out
}

/// Whether `pat` occurs in `text` at position `i`.
fn occurs_at(text: &Vec<char>, pat: &Vec<char>, i: usize) -> (r: bool)
    requires
        i + pat@.len() <= text@.len(),
    ensures
        r == (text@.subrange(i as int, i + pat@.len()) == pat@),
{
    let mut j: usize = 0;
    while j < pat.len()
        invariant
            j <= pat@.len(),
            i + pat@.len() <= text.len(),
            forall|k: int| 0 <= k < j ==> text@[i + k] == pat@[k],
        decreases pat@.len() - j,
    {
        if text[i + j] != pat[j] {
            assert(text@.subrange(i as int, i + pat@.len())[j as int] != pat@[j as int]);
            return false;
        }
        j = j + 1;
    }
    assert(text@.subrange(i as int, i + pat@.len()) =~= pat@);
    true
}

/// Whether `query` occurs in `line`.
pub fn line_contains(line: &str, query: &str) -> (r: bool)
    ensures
        r == contains(line@, query@),
{
    let text = char_vec(line);
    let pat = char_vec(query);
    if pat.len() == 0 {
        assert(text@.subrange(0, 0 + pat@.len() as int) =~= pat@);
        return true;
    }
    if pat.len() > text.len() {
        return false;
    }
    let end: usize = text.len() - pat.len() + 1;
    let mut i: usize = 0;
    while i < end
        invariant
            end + pat@.len() == text@.len() + 1,
            text@ == line@,
            pat@ == query@,
            i <= end,
            forall|k: int|
                0 <= k < i ==> #[trigger] text@.subrange(k, k + pat@.len()) != pat@,
        decreases end - i,
    {
        if occurs_at(&text, &pat, i) {
            return true;
        }
        i = i + 1;
    }
    false
}

} // verus!
