use vstd::prelude::*;

use crate::lines::{lines_from, lines_of, view_lines};
use crate::search::{line_matches, lower_of, match_positions, search_result};
use crate::text::contains;

verus! {

/// The match positions are valid, increasing, name matching lines only, and
/// name every matching line.
proof fn lemma_positions(lines: Seq<Seq<char>>, query: Seq<char>, case_sensitive: bool)
    ensures
        ({
            let p = match_positions(lines, query, case_sensitive);
            &&& forall|k: int|
                0 <= k < p.len() ==> 0 <= #[trigger] p[k] < lines.len() && line_matches(
                    lines[p[k]],
                    query,
                    case_sensitive,
                )
            &&& forall|k1: int, k2: int| 0 <= k1 < k2 < p.len() ==> p[k1] < p[k2]
            &&& forall|i: int|
                0 <= i < lines.len() && line_matches(#[trigger] lines[i], query, case_sensitive)
                    ==> p.contains(i)
        }),
    decreases lines.len(),
{
    if lines.len() > 0 {
        let init = lines.drop_last();
        lemma_positions(init, query, case_sensitive);
        let before = match_positions(init, query, case_sensitive);
        let p = match_positions(lines, query, case_sensitive);
        assert forall|i: int|
            0 <= i < lines.len() && line_matches(
                #[trigger] lines[i],
                query,
                case_sensitive,
            ) implies p.contains(i) by {
            if i < lines.len() - 1 {
                assert(init[i] == lines[i]);
                let k = choose|k: int| 0 <= k < before.len() && before[k] == i;
                assert(p[k] == i);
            } else {
                assert(p[p.len() - 1] == i);
            }
        }
    }
}

/// A case-sensitive search returns exactly the lines of the body that hold the
/// query, in body order: the `k`-th result is the line at position `p[k]`, the
/// positions increase, each result holds the query, and each line that holds
/// the query is among the results.
pub proof fn law_search_finds_exactly_the_matches(query: Seq<char>, body: Seq<char>)
    ensures
        ({
            let lines = lines_of(body);
            let p = match_positions(lines, query, true);
            let r = search_result(body, query, true);
            &&& r.len() == p.len()
            &&& forall|k: int|
                0 <= k < r.len() ==> 0 <= p[k] < lines.len() && #[trigger] r[k] == lines[p[k]]
                    && contains(r[k], query)
            &&& forall|k1: int, k2: int| 0 <= k1 < k2 < p.len() ==> p[k1] < p[k2]
            &&& forall|i: int|
                0 <= i < lines.len() && contains(#[trigger] lines[i], query) ==> exists|k: int|
                    0 <= k < r.len() && p[k] == i && r[k] == lines[i]
        }),
{
    let lines = lines_of(body);
    lemma_positions(lines, query, true);
    let p = match_positions(lines, query, true);
    let r = search_result(body, query, true);
    assert forall|i: int| 0 <= i < lines.len() && contains(#[trigger] lines[i], query) implies exists|
        k: int,
    | 0 <= k < r.len() && p[k] == i && r[k] == lines[i] by {
        assert(line_matches(lines[i], query, true));
        let k = choose|k: int| 0 <= k < p.len() && p[k] == i;
        assert(r[k] == lines[i]);
    }
}

/// Ignoring case keeps every line that a case-sensitive search keeps, for
/// bodies whose lines that hold the query still hold it once both are
/// lowercased: each position that the case-sensitive search returns, the
/// case-insensitive search returns too.
pub proof fn law_ignoring_case_keeps_exact_matches(query: Seq<char>, body: Seq<char>)
    requires
        forall|i: int|
            0 <= i < lines_of(body).len() && contains(#[trigger] lines_of(body)[i], query)
                ==> contains(lower_of(lines_of(body)[i]), lower_of(query)),
    ensures
        ({
            let lines = lines_of(body);
            let exact = match_positions(lines, query, true);
            let folded = match_positions(lines, query, false);
            forall|k: int| 0 <= k < exact.len() ==> folded.contains(#[trigger] exact[k])
        }),
{
    let lines = lines_of(body);
    lemma_positions(lines, query, true);
    lemma_positions(lines, query, false);
    let exact = match_positions(lines, query, true);
    assert forall|k: int| 0 <= k < exact.len() implies match_positions(lines, query, false).contains(
        #[trigger] exact[k],
    ) by {
        assert(line_matches(lines[exact[k]], query, false));
    }
}

/// Searching twice with the same query, body and case mode gives equal
/// results, line for line.
pub proof fn law_search_is_repeatable(
    query: &str,
    body: &str,
    case_sensitive: bool,
    first: Seq<&str>,
    second: Seq<&str>,
)
    requires
        view_lines(first) == search_result(body@, query@, case_sensitive),
        view_lines(second) == search_result(body@, query@, case_sensitive),
    ensures
        first.len() == second.len(),
        forall|k: int| 0 <= k < first.len() ==> #[trigger] first[k]@ == second[k]@,
{
    assert(view_lines(first).len() == first.len());
    assert(view_lines(second).len() == second.len());
    assert forall|k: int| 0 <= k < first.len() implies #[trigger] first[k]@ == second[k]@ by {
        assert(view_lines(first)[k] == view_lines(second)[k]);
    }
}

proof fn lemma_empty_query_positions(lines: Seq<Seq<char>>)
    ensures
        match_positions(lines, Seq::<char>::empty(), true) == Seq::new(lines.len(), |i: int| i),
    decreases lines.len(),
{
    if lines.len() > 0 {
        lemma_empty_query_positions(lines.drop_last());
        let l = lines.last();
        assert(l.subrange(0, 0 + Seq::<char>::empty().len() as int) =~= Seq::<char>::empty());
        assert(contains(l, Seq::<char>::empty()));
        assert(Seq::new((lines.len() - 1) as nat, |i: int| i).push(lines.len() - 1) =~= Seq::new(
            lines.len(),
            |i: int| i,
        ));
    }
}

/// The empty query, case counting, returns every line of the body in order.
pub proof fn law_empty_query_returns_every_line(body: Seq<char>)
    ensures
        search_result(body, Seq::<char>::empty(), true) == lines_of(body),
{
    lemma_empty_query_positions(lines_of(body));
    assert(search_result(body, Seq::<char>::empty(), true) =~= lines_of(body));
}

/// An empty body gives no lines, whatever the query and case mode.
pub proof fn law_empty_body_returns_nothing(query: Seq<char>, case_sensitive: bool)
    ensures
        search_result(Seq::<char>::empty(), query, case_sensitive) == Seq::<Seq<char>>::empty(),
{
    assert(lines_from(Seq::<char>::empty(), 0) == Seq::<Seq<char>>::empty());
    assert(search_result(Seq::<char>::empty(), query, case_sensitive) =~= Seq::<Seq<char>>::empty());
}

} // verus!
