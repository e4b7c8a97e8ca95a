//! General facts about searching, proved from the contracts of the search functions.
use vstd::prelude::*;
use crate::search::{entry, line_matches, lower_of, marked, matched, search_post, Highlight};
use crate::text::{contains, lemma_first_from, lines_of, occurs_at};

verus! {

/// The matching indices among the first `n` lines are exactly the matching lines, each below
/// `n`, in strictly increasing order; so there are at most `n` of them.
pub proof fn lemma_matched(lines: Seq<Seq<char>>, q: Seq<char>, ci: bool, n: int)
    requires
        0 <= n <= lines.len(),
    ensures
        matched(lines, q, ci, n).len() <= n,
        forall|i: int|
            0 <= i < matched(lines, q, ci, n).len() ==> 0 <= #[trigger] matched(
                lines,
                q,
                ci,
                n,
            )[i] < n,
        forall|i: int, j: int|
            0 <= i < j < matched(lines, q, ci, n).len() ==> #[trigger] matched(lines, q, ci, n)[i]
                < #[trigger] matched(lines, q, ci, n)[j],
        forall|j: int|
            0 <= j < n ==> (line_matches(lines[j], q, ci) <==> #[trigger] matched(
                lines,
                q,
                ci,
                n,
            ).contains(j)),
    decreases n,
{
    if n > 0 {
        lemma_matched(lines, q, ci, n - 1);
        let m = matched(lines, q, ci, n - 1);
        assert forall|j: int|
            0 <= j < n implies (line_matches(lines[j], q, ci) <==> #[trigger] matched(
            lines,
            q,
            ci,
            n,
        ).contains(j)) by {
            if line_matches(lines[n - 1], q, ci) {
                assert(matched(lines, q, ci, n) == m.push(n - 1));
                if j < n - 1 {
                    let mp = m.push(n - 1);
                    if mp.contains(j) {
                        let t = choose|t: int| 0 <= t < mp.len() && #[trigger] mp[t] == j;
                        assert(t < m.len());
                        assert(m[t] == j);
                        assert(m.contains(j));
                    }
                    if m.contains(j) {
                        let t = choose|t: int| 0 <= t < m.len() && #[trigger] m[t] == j;
                        assert(m.push(n - 1)[t] == j);
                    }
                } else {
                    assert(m.push(n - 1)[m.len() as int] == j);
                }
            } else {
                if j == n - 1 && m.contains(j) {
                    let t = choose|t: int| 0 <= t < m.len() && #[trigger] m[t] == j;
                    assert(m[t] < n - 1);
                }
            }
        }
    }
}

/// A search never gives more entries than the text has lines.
pub proof fn law_no_more_results_than_lines(
    q: Seq<char>,
    ci: bool,
    h: Highlight,
    numbered: bool,
    text: Seq<char>,
    r: Seq<String>,
)
    requires
        search_post(q, ci, h, numbered, text, r),
    ensures
        r.len() <= lines_of(text).len(),
{
    lemma_matched(lines_of(text), q, ci, lines_of(text).len() as int);
}

/// The entries of a search come in the order of their lines: entry `k` shows line `m[k]`,
/// and those line indices strictly increase.
pub proof fn law_results_in_line_order(
    q: Seq<char>,
    ci: bool,
    h: Highlight,
    numbered: bool,
    text: Seq<char>,
    r: Seq<String>,
)
    requires
        search_post(q, ci, h, numbered, text, r),
    ensures
        ({
            let lines = lines_of(text);
            let m = matched(lines, q, ci, lines.len() as int);
            &&& r.len() == m.len()
            &&& forall|k: int|
                0 <= k < r.len() ==> 0 <= m[k] < lines.len() && #[trigger] entry(
                    q,
                    ci,
                    h,
                    numbered,
                    lines,
                    m[k],
                    r[k]@,
                )
            &&& forall|i: int, j: int| 0 <= i < j < r.len() ==> #[trigger] m[i] < #[trigger] m[j]
        }),
{
    let lines = lines_of(text);
    lemma_matched(lines, q, ci, lines.len() as int);
    let m = matched(lines, q, ci, lines.len() as int);
    assert forall|k: int| 0 <= k < r.len() implies 0 <= m[k] < lines.len() && #[trigger] entry(
        q,
        ci,
        h,
        numbered,
        lines,
        m[k],
        r[k]@,
    ) by {
        assert(entry(q, ci, h, numbered, lines, m[k], r[k]@));
    }
}

/// Lowercasing `line` is lowercasing its parts around each occurrence of `q` in it.
pub open spec fn lowers_around(line: Seq<char>, q: Seq<char>) -> bool {
    forall|i: int|
        #[trigger] occurs_at(line, q, i) ==> lower_of(line) == lower_of(line.subrange(0, i))
            + lower_of(q) + lower_of(line.subrange(i + q.len(), line.len() as int))
}

/// Every line that matches the query exactly also matches it ignoring case, wherever
/// lowercasing a line is lowercasing its parts around the occurrence.
pub proof fn law_exact_matches_within_caseless(q: Seq<char>, text: Seq<char>)
    requires
        forall|j: int| 0 <= j < lines_of(text).len() ==> lowers_around(#[trigger] lines_of(text)[j], q),
    ensures
        forall|j: int|
            #[trigger] matched(lines_of(text), q, false, lines_of(text).len() as int).contains(j)
                ==> matched(lines_of(text), q, true, lines_of(text).len() as int).contains(j),
{
    let lines = lines_of(text);
    let n = lines.len() as int;
    lemma_matched(lines, q, false, n);
    lemma_matched(lines, q, true, n);
    assert forall|j: int| #[trigger]
        matched(lines, q, false, n).contains(j) implies matched(lines, q, true, n).contains(j) by {
        let m = matched(lines, q, false, n);
        let t = choose|t: int| 0 <= t < m.len() && #[trigger] m[t] == j;
        assert(0 <= m[t] < n);
        let l = lines[j];
        assert(line_matches(l, q, false));
        lemma_first_from(l, q, 0);
        let i = choose|i: int| 0 <= i && #[trigger] occurs_at(l, q, i);
        assert(lowers_around(l, q));
        let pre = lower_of(l.subrange(0, i));
        let lq = lower_of(q);
        let ll = lower_of(l);
        assert(ll == pre + lq + lower_of(l.subrange(i + q.len(), l.len() as int)));
        assert(ll.subrange(pre.len() as int, (pre.len() + lq.len()) as int) == lq);
        assert(occurs_at(ll, lq, pre.len() as int));
        lemma_first_from(ll, lq, 0);
        assert(contains(ll, lq));
        assert(line_matches(l, q, true));
    }
}

/// Searching twice with the same options and text gives the same entries, whenever the
/// marking does not depend on the terminal.
pub proof fn law_search_repeatable(
    q: Seq<char>,
    ci: bool,
    h: Highlight,
    numbered: bool,
    text: Seq<char>,
    r1: Seq<String>,
    r2: Seq<String>,
)
    requires
        search_post(q, ci, h, numbered, text, r1),
        search_post(q, ci, h, numbered, text, r2),
        !(h is Green),
    ensures
        r1.len() == r2.len(),
        forall|k: int| 0 <= k < r1.len() ==> #[trigger] r1[k]@ == r2[k]@,
{
    let lines = lines_of(text);
    let m = matched(lines, q, ci, lines.len() as int);
    assert forall|k: int| 0 <= k < r1.len() implies #[trigger] r1[k]@ == r2[k]@ by {
        assert(entry(q, ci, h, numbered, lines, m[k], r1[k]@));
        assert(entry(q, ci, h, numbered, lines, m[k], r2[k]@));
    }
}

} // verus!
