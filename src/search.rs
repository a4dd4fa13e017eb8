use vstd::prelude::*;

use crate::config::Config;
use crate::lines::{lines, lines_of, view_lines};
use crate::text::{contains, line_contains};

verus! {

/// What `str::to_lowercase` makes of a string.
pub uninterp spec fn lower_of(s: Seq<char>) -> Seq<char>;

/// Relies on `str::to_lowercase`: its result depends on the characters of the
/// argument alone.
#[verifier::external_body]
fn lowercase(s: &str) -> (r: String)
    ensures
        r@ == lower_of(s@),
{
    s.to_lowercase()
}

/// A line matches a query: it holds the query, or, ignoring case, its
/// lowercase form holds the lowercase query.
pub open spec fn line_matches(line: Seq<char>, query: Seq<char>, case_sensitive: bool) -> bool {
    if case_sensitive {
        contains(line, query)
    } else {
        contains(lower_of(line), lower_of(query))
    }
}

/// The positions, in increasing order, of the lines that match the query.
pub open spec fn match_positions(lines: Seq<Seq<char>>, query: Seq<char>, case_sensitive: bool) -> Seq<int>
    decreases lines.len(),
{
    if lines.len() == 0 {
        seq![]
    } else {
        let before = match_positions(lines.drop_last(), query, case_sensitive);
        if line_matches(lines.last(), query, case_sensitive) {
            before.push(lines.len() - 1)
        } else {
            before
        }
    }
}

/// What a search of `body` for `query` returns: the matching lines, in body order.
pub open spec fn search_result(body: Seq<char>, query: Seq<char>, case_sensitive: bool) -> Seq<Seq<char>> {
    let lines = lines_of(body);
    match_positions(lines, query, case_sensitive).map_values(|i: int| lines[i])
}

/// Extending the lines by one adds its position if it matches.
proof fn lemma_positions_step(lines: Seq<Seq<char>>, query: Seq<char>, case_sensitive: bool, j: int)
    requires
        0 <= j < lines.len(),
    ensures
        match_positions(lines.take(j + 1), query, case_sensitive) == if line_matches(
            lines[j],
            query,
            case_sensitive,
        ) {
            match_positions(lines.take(j), query, case_sensitive).push(j)
        } else {
            match_positions(lines.take(j), query, case_sensitive)
        },
{
    assert(lines.take(j + 1).drop_last() =~= lines.take(j));
}

/// The lines of `contents` that match `query` in the given case mode.
/// `query_folded` is the query that lines are compared with: `query` itself when
/// case counts, its lowercase form (made once, by the caller) when it does not.
fn collect_matches<'a>(
    query: &str,
    query_folded: &str,
    contents: &'a str,
    case_sensitive: bool,
) -> (r: Vec<&'a str>)
    requires
        case_sensitive ==> query_folded@ == query@,
        !case_sensitive ==> query_folded@ == lower_of(query@),
    ensures
        view_lines(r@) == search_result(contents@, query@, case_sensitive),
{
    let all = lines(contents);
    let ghost ls = lines_of(contents@);
    let mut out: Vec<&'a str> = Vec::new();
    let mut j: usize = 0;
    while j < all.len()
        invariant
            j <= all@.len(),
            view_lines(all@) == ls,
            case_sensitive ==> query_folded@ == query@,
            !case_sensitive ==> query_folded@ == lower_of(query@),
            view_lines(out@) == match_positions(ls.take(j as int), query@, case_sensitive).map_values(
                |i: int| ls[i],
            ),
        decreases all@.len() - j,
    {
        let line = all[j];
        assert(line@ == ls[j as int]);
        proof {
            lemma_positions_step(ls, query@, case_sensitive, j as int);
        }
        let hit = if case_sensitive {
            line_contains(line, query_folded)
        } else {
            let folded = lowercase(line);
            line_contains(folded.as_str(), query_folded)
        };
        if hit {
            proof {
                let before = match_positions(ls.take(j as int), query@, case_sensitive);
                assert(before.push(j as int).map_values(|i: int| ls[i]) =~= before.map_values(
                    |i: int| ls[i],
                ).push(ls[j as int]));
                assert(view_lines(out@.push(line)) =~= view_lines(out@).push(line@));
            }
            out.push(line);
        }
        j = j + 1;
    }
    assert(ls.take(j as int) =~= ls);
    out
}

/// The lines of `contents` that hold `query`, case counting.
pub fn search<'a>(query: &str, contents: &'a str) -> (r: Vec<&'a str>)
    ensures
        view_lines(r@) == search_result(contents@, query@, true),
{
    collect_matches(query, query, contents, true)
}

/// The lines of `contents` whose lowercase form holds the lowercase `query`.
pub fn search_case_insensitive<'a>(query: &str, contents: &'a str) -> (r: Vec<&'a str>)
    ensures
        view_lines(r@) == search_result(contents@, query@, false),
{
    let folded = lowercase(query);
    collect_matches(query, folded.as_str(), contents, false)
}

/// The lines of `contents` that the configured query matches, in the
/// configured case mode.
pub fn matching_lines<'a>(config: &Config, contents: &'a str) -> (r: Vec<&'a str>)
    ensures
        view_lines(r@) == search_result(contents@, config.query@, config.case_sensitive),
{
    if config.case_sensitive {
        search(config.query.as_str(), contents)
    } else {
        search_case_insensitive(config.query.as_str(), contents)
    }
}

} // verus!
