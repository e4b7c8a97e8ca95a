//! Matching lines against a query and rendering the matches for display.
use colored::Colorize;
use vstd::prelude::*;
use vstd::string::StrSliceExecFns;
use crate::text::{
    append_chars, chars_of, contains, decimal, find, first_from, lines_of, push_decimal, replace,
    replace_all, split_lines, string_of, trim, trimmed,
};

verus! {

/// What `str::to_lowercase` makes of a text.
pub uninterp spec fn lower_of(s: Seq<char>) -> Seq<char>;

/// Relies on `str::to_lowercase`: the lowercase form is a function of the characters alone.
#[verifier::external_body]
fn lowercase(s: &str) -> (r: String)
    ensures
        r@ == lower_of(s@),
{
    s.to_lowercase()
}

/// The terminal escape sequence that turns the foreground green.
pub open spec fn green_on() -> Seq<char> {
    seq!['\u{1b}', '[', '3', '2', 'm']
}

/// The terminal escape sequence that resets all attributes.
pub open spec fn reset_code() -> Seq<char> {
    seq!['\u{1b}', '[', '0', 'm']
}

/// Relies on colored's `Colorize::green` and the `Display` of `ColoredString`: the text comes
/// back unchanged when colouring is off, and between the green and reset sequences when it
/// is on (a text holding no reset sequence of its own is otherwise left as it is).
#[verifier::external_body]
fn paint_green(s: &str) -> (r: String)
    ensures
        !contains(s@, reset_code()) ==> (r@ == s@ || r@ == green_on() + s@ + reset_code()),
{
    s.green().to_string()
}

/// How a located match is marked in a highlighted line.
pub enum Highlight {
    /// No highlighting: lines are shown trimmed.
    Off,
    /// The match is put between `open` and `close`.
    Wrap { open: String, close: String },
    /// The match is coloured green for a terminal.
    Green,
}

/// The options of one search.
pub struct SearchConfig {
    pub query: String,
    pub case_insensitive: bool,
    pub highlight: Highlight,
    pub show_line_numbers: bool,
}

/// Whether `line` matches query `q`, comparing lowercase forms when `ci` holds.
pub open spec fn line_matches(line: Seq<char>, q: Seq<char>, ci: bool) -> bool {
    if ci {
        contains(lower_of(line), lower_of(q))
    } else {
        contains(line, q)
    }
}

/// The indices, in increasing order, of the lines among the first `n` that match.
pub open spec fn matched(lines: Seq<Seq<char>>, q: Seq<char>, ci: bool, n: int) -> Seq<int>
    decreases n,
{
    if n <= 0 {
        Seq::empty()
    } else {
        let m = matched(lines, q, ci, n - 1);
        if line_matches(lines[n - 1], q, ci) {
            m.push(n - 1)
        } else {
            m
        }
    }
}

/// `v` clipped to the range `[0, hi]`.
pub open spec fn clip(v: int, hi: int) -> int {
    if v < 0 {
        0
    } else if v > hi {
        hi
    } else {
        v
    }
}

/// The part of a matching `line` that is highlighted: the query itself, or, ignoring case,
/// the run of the line's own characters at the offset of the lowercase match, as long as the
/// lowercase query.
pub open spec fn located(line: Seq<char>, q: Seq<char>, ci: bool) -> Seq<char> {
    if ci {
        let off = first_from(lower_of(line), lower_of(q), 0);
        line.subrange(
            clip(off, line.len() as int),
            clip(off + lower_of(q).len(), line.len() as int),
        )
    } else {
        q
    }
}

/// `p` is a marked form of the located text `loc` under `h`.
pub open spec fn marked(h: Highlight, loc: Seq<char>, p: Seq<char>) -> bool {
    match h {
        Highlight::Off => p == loc,
        Highlight::Wrap { open, close } => p == open@ + loc + close@,
        Highlight::Green => !contains(loc, reset_code()) ==> (p == loc || p == green_on() + loc
            + reset_code()),
    }
}

/// The display form of the matching line `line` at index `idx`: trimmed when not
/// highlighted, else with every occurrence of `loc` replaced by `p`; then, when asked,
/// prefixed with its index and `" : "`.
pub open spec fn shown(
    line: Seq<char>,
    idx: int,
    loc: Seq<char>,
    p: Seq<char>,
    highlight: bool,
    numbered: bool,
) -> Seq<char> {
    let body = if highlight {
        replace_all(line, loc, p)
    } else {
        trim(line)
    };
    if numbered {
        decimal(idx as nat) + seq![' ', ':', ' '] + body
    } else {
        body
    }
}

/// `r` holds the display forms of the matches among the first `n` of `lines`: one entry per
/// matching line, in line order.
pub open spec fn results_upto(
    q: Seq<char>,
    ci: bool,
    h: Highlight,
    numbered: bool,
    lines: Seq<Seq<char>>,
    n: int,
    r: Seq<String>,
) -> bool {
    let m = matched(lines, q, ci, n);
    &&& r.len() == m.len()
    &&& forall|k: int| 0 <= k < r.len() ==> #[trigger] entry(q, ci, h, numbered, lines, m[k], r[k]@)
}

/// `s` is a display form of line `j` of `lines`, for some marked form of its located text.
pub open spec fn entry(
    q: Seq<char>,
    ci: bool,
    h: Highlight,
    numbered: bool,
    lines: Seq<Seq<char>>,
    j: int,
    s: Seq<char>,
) -> bool {
    exists|p: Seq<char>|
        #[trigger] marked(h, located(lines[j], q, ci), p) && s == shown(
            lines[j],
            j,
            located(lines[j], q, ci),
            p,
            !(h is Off),
            numbered,
        )
}

/// `r` is the result of searching `text` for `q`: one entry per matching line, in line order,
/// each the display form of its line.
pub open spec fn search_post(
    q: Seq<char>,
    ci: bool,
    h: Highlight,
    numbered: bool,
    text: Seq<char>,
    r: Seq<String>,
) -> bool {
    results_upto(q, ci, h, numbered, lines_of(text), lines_of(text).len() as int, r)
}

/// The characters `t[lo..hi]`.
fn slice_chars(t: &Vec<char>, lo: usize, hi: usize) -> (r: Vec<char>)
    requires
        lo <= hi <= t@.len(),
    ensures
        r@ == t@.subrange(lo as int, hi as int),
{
    let mut r: Vec<char> = Vec::new();
    let mut k: usize = lo;
    while k < hi
        invariant
            lo <= k <= hi <= t@.len(),
            r@ == t@.subrange(lo as int, k as int),
        decreases hi - k,
    {
        r.push(t[k]);
        assert(t@.subrange(lo as int, k + 1) == t@.subrange(lo as int, k as int).push(t@[k as int]));
        k = k + 1;
    }
    r
}

/// The display form of a matching line, given the text located in it.
pub fn render(h: &Highlight, numbered: bool, line: &Vec<char>, idx: usize, loc: &Vec<char>) -> (out:
    Vec<char>)
    ensures
        exists|p: Seq<char>|
            #[trigger] marked(*h, loc@, p) && out@ == shown(
                line@,
                idx as int,
                loc@,
                p,
                !(*h is Off),
                numbered,
            ),
{
    let ghost mut pv: Seq<char> = loc@;
    let body = match h {
        Highlight::Off => trimmed(line),
        Highlight::Wrap { open, close } => {
            let mut p = chars_of(open.as_str());
            append_chars(&mut p, loc);
            let c = chars_of(close.as_str());
            append_chars(&mut p, &c);
            proof {
                pv = p@;
            }
            replace(line, loc, &p)
        },
        Highlight::Green => {
            let painted = paint_green(string_of(loc).as_str());
            let p = chars_of(painted.as_str());
            proof {
                pv = p@;
            }
            replace(line, loc, &p)
        },
    };
    let mut out: Vec<char> = Vec::new();
    if numbered {
        push_decimal(&mut out, idx);
        out.push(' ');
        out.push(':');
        out.push(' ');
    }
    append_chars(&mut out, &body);
    assert(marked(*h, loc@, pv));
    out
}

/// Searches the lines of `contents` for the query of `config` and returns the display form of
/// each matching line, in order.
pub fn search_with(config: &SearchConfig, contents: &str) -> (r: Vec<String>)
    ensures
        search_post(
            config.query@,
            config.case_insensitive,
            config.highlight,
            config.show_line_numbers,
            contents@,
            r@,
        ),
{
    let ghost q = config.query@;
    let ci = config.case_insensitive;
    let ghost lines_s = lines_of(contents@);
    let text = chars_of(contents);
    let lines = split_lines(&text);
    let qc = chars_of(config.query.as_str());
    let lq = chars_of(lowercase(config.query.as_str()).as_str());
    let mut r: Vec<String> = Vec::new();
    let mut n: usize = 0;
    while n < lines.len()
        invariant
            q == config.query@,
            ci == config.case_insensitive,
            qc@ == q,
            lq@ == lower_of(q),
            lines@.len() == lines_s.len(),
            forall|k: int| 0 <= k < lines@.len() ==> #[trigger] lines@[k]@ == lines_s[k],
            n <= lines@.len(),
            results_upto(
                q,
                ci,
                config.highlight,
                config.show_line_numbers,
                lines_s,
                n as int,
                r@,
            ),
        decreases lines@.len() - n,
    {
        let line = &lines[n];
        assert(line@ == lines_s[n as int]);
        let found = if ci {
            let ll = chars_of(lowercase(string_of(line).as_str()).as_str());
            assert(ll@ == lower_of(lines_s[n as int]));
            find(&ll, &lq)
        } else {
            find(line, &qc)
        };
        let ghost m = matched(lines_s, q, ci, n as int);
        let ghost m2 = matched(lines_s, q, ci, n + 1);
        assert(found is Some <==> line_matches(lines_s[n as int], q, ci));
        assert(m2 == if line_matches(lines_s[n as int], q, ci) {
            m.push(n as int)
        } else {
            m
        });
        let ghost old_r = r@;
        match found {
            None => {},
            Some(off) => {
                let loc = if ci {
                    let len = line.len();
                    let lo = if off > len {
                        len
                    } else {
                        off
                    };
                    let hi = if lq.len() > len - lo {
                        len
                    } else {
                        lo + lq.len()
                    };
                    slice_chars(line, lo, hi)
                } else {
                    chars_of(config.query.as_str())
                };
                assert(loc@ == located(lines_s[n as int], q, ci));
                let out = render(&config.highlight, config.show_line_numbers, line, n, &loc);
                r.push(string_of(&out));
                assert(m2[old_r.len() as int] == n);
                assert(r@[old_r.len() as int]@ == out@);
                assert(entry(
                    q,
                    ci,
                    config.highlight,
                    config.show_line_numbers,
                    lines_s,
                    n as int,
                    out@,
                ));
            },
        }
        proof {
            assert forall|k: int| 0 <= k < r@.len() implies #[trigger] entry(
                q,
                ci,
                config.highlight,
                config.show_line_numbers,
                lines_s,
                m2[k],
                r@[k]@,
            ) by {
                if k < old_r.len() {
                    assert(old_r[k] == r@[k]);
                    assert(m2[k] == m[k]);
                }
            }
        }
        n = n + 1;
    }
    r
}

/// Searches the lines of `contents` for `query`, matching case exactly; a matching line is
/// shown trimmed, or, when `colored`, with every occurrence of the query painted green; with
/// `show_line_numbers` it is prefixed by its index.
pub fn search(query: &str, contents: String, colored: bool, show_line_numbers: bool) -> (r: Vec<
    String,
>)
    ensures
        search_post(
            query@,
            false,
            if colored {
                Highlight::Green
            } else {
                Highlight::Off
            },
            show_line_numbers,
            contents@,
            r@,
        ),
{
    let config = SearchConfig {
        query: query.to_string(),
        case_insensitive: false,
        highlight: if colored {
            Highlight::Green
        } else {
            Highlight::Off
        },
        show_line_numbers,
    };
    search_with(&config, contents.as_str())
}

/// As `search`, but a line matches when its lowercase form contains the lowercase query, and
/// the highlighted text is the line's own characters at the place of that match.
pub fn search_case_insensitive(
    query: &str,
    contents: String,
    colored: bool,
    show_line_numbers: bool,
) -> (r: Vec<String>)
    ensures
        search_post(
            query@,
            true,
            if colored {
                Highlight::Green
            } else {
                Highlight::Off
            },
            show_line_numbers,
            contents@,
            r@,
        ),
{
    let config = SearchConfig {
        query: query.to_string(),
        case_insensitive: true,
        highlight: if colored {
            Highlight::Green
        } else {
            Highlight::Off
        },
        show_line_numbers,
    };
    search_with(&config, contents.as_str())
}

} // verus!
