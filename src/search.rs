use vstd::prelude::*;

use crate::render::joined;
use crate::text::{decimal, decimal_string, str_views};
use crate::textfile::{contains_text, find_text, to_chars, trim, trim_str};

verus! {

/// The lowercase form of a text, as `str::to_lowercase` gives it.
pub uninterp spec fn lower_of(s: Seq<char>) -> Seq<char>;

/// Relies on `str::to_lowercase`: the result depends on the characters alone.
#[verifier::external_body]
fn lowercase(s: &str) -> (r: String)
    ensures
        r@ == lower_of(s@),
{
    s.to_lowercase()
}

/// Whether a lowercased line holds a lowercased query.
pub fn matches_folded(query_lower: &str, line_lower: &str) -> (r: bool)
    ensures
        r == contains_text(line_lower@, query_lower@),
{
    let q = to_chars(query_lower);
    let l = to_chars(line_lower);
    find_text(&l, &q)
}

/// A search hit: `reference:path:line: text`, with the line counted from 1
/// and its text trimmed.
pub open spec fn hit_text(name: Seq<char>, rel: Seq<char>, k: int, line: Seq<char>) -> Seq<char> {
    name + ":"@ + rel + ":"@ + decimal((k + 1) as nat) + ": "@ + trim(line)
}

/// The hits among the lines of one file, in order: the lines whose
/// lowercase form holds the lowercase query.
pub open spec fn search_hits(name: Seq<char>, rel: Seq<char>, lines: Seq<Seq<char>>, q: Seq<char>) -> Seq<Seq<char>>
    decreases lines.len(),
{
    if lines.len() == 0 {
        Seq::empty()
    } else {
        let p = search_hits(name, rel, lines.drop_last(), q);
        if contains_text(lower_of(lines.last()), lower_of(q)) {
            p.push(hit_text(name, rel, lines.len() - 1, lines.last()))
        } else {
            p
        }
    }
}

/// Searches the lines of file `rel` of reference `name` for `query`,
/// ignoring case.
pub fn search_lines(name: &str, rel: &str, lines: &Vec<String>, query: &str) -> (r: Vec<String>)
    ensures
        str_views(r@) == search_hits(name@, rel@, str_views(lines@), query@),
{
    let ghost ls = str_views(lines@);
    let q = lowercase(query);
    let mut out: Vec<String> = Vec::new();
    let mut k: usize = 0;
    while k < lines.len()
        invariant
            ls == str_views(lines@),
            q@ == lower_of(query@),
            k <= lines@.len(),
            str_views(out@) == search_hits(name@, rel@, ls.subrange(0, k as int), query@),
        decreases lines@.len() - k,
    {
        let ghost next = ls.subrange(0, k as int + 1);
        assert(next.drop_last() =~= ls.subrange(0, k as int));
        let line = lines[k].as_str();
        let low = lowercase(line);
        if matches_folded(q.as_str(), low.as_str()) {
            let mut hit = String::from_str(name);
            hit.append(":");
            hit.append(rel);
            hit.append(":");
            let n = decimal_string((k + 1) as u64);
            hit.append(n.as_str());
            hit.append(": ");
            let t = trim_str(line);
            hit.append(t.as_str());
            let ghost before = out@;
            out.push(hit);
            assert(str_views(out@) =~= str_views(before).push(hit_text(name@, rel@, k as int, ls[k as int])));
        }
        assert(str_views(out@) =~= search_hits(name@, rel@, next, query@));
        k = k + 1;
    }
    assert(ls.subrange(0, lines@.len() as int) =~= ls);
    out
}

/// How many hits are shown.
pub open spec fn shown_hits() -> nat {
    50
}

/// What an agent is told about a search: the first hits, one per line, and
/// how many more there were; or that nothing matched.
pub open spec fn search_report_text(query: Seq<char>, hits: Seq<Seq<char>>) -> Seq<char> {
    if hits.len() == 0 {
        "No matches found for '"@ + query + "'."@
    } else if hits.len() <= shown_hits() {
        joined(hits, "\n"@)
    } else {
        joined(hits.subrange(0, shown_hits() as int), "\n"@) + "\n... and "@ + decimal(
            (hits.len() - shown_hits()) as nat,
        ) + " more results"@
    }
}

pub fn search_report(query: &str, hits: &Vec<String>) -> (r: String)
    ensures
        r@ == search_report_text(query@, str_views(hits@)),
{
    let n = hits.len();
    if n == 0 {
        let mut s = String::from_str("No matches found for '");
        s.append(query);
        s.append("'.");
        return s;
    }
    if n <= 50 {
        return crate::render::join_strings(hits, "\n");
    }
    let mut first: Vec<String> = Vec::new();
    let mut i: usize = 0;
    while i < 50
        invariant
            n == hits@.len(),
            n > 50,
            i <= 50,
            first@ == hits@.subrange(0, i as int),
        decreases 50 - i,
    {
        first.push(hits[i].clone());
        i = i + 1;
        assert(first@ =~= hits@.subrange(0, i as int));
    }
    assert(str_views(first@) =~= str_views(hits@).subrange(0, 50));
    let mut s = crate::render::join_strings(&first, "\n");
    s.append("\n... and ");
    let more = decimal_string((n - 50) as u64);
    s.append(more.as_str());
    s.append(" more results");
    s
}

} // verus!
