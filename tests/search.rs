use colored::Colorize;
use minigrep::search::{search, search_case_insensitive, search_with, Highlight, SearchConfig};

fn brackets() -> Highlight {
    Highlight::Wrap { open: String::from("["), close: String::from("]") }
}

fn config(query: &str, case_insensitive: bool, highlight: Highlight, numbers: bool) -> SearchConfig {
    SearchConfig {
        query: String::from(query),
        case_insensitive,
        highlight,
        show_line_numbers: numbers,
    }
}

#[test]
fn one_result() {
    let query = "duct";
    let contents = String::from(
        "\
Rust:
safe, fast, productive.
Pick three.",
    );

    let results = vec![format!("safe, fast, pro{}ive.", "duct".green())];
    assert_eq!(results, search(query, contents, /* colored */ true, false));
}

#[test]
fn case_sensitive() {
    let query = "duct";
    let contents = String::from(
        "\
Rust:
safe, fast, productive.
Pick three.
Duct tape.",
    );

    assert_eq!(
        vec!["safe, fast, productive."],
        search(query, contents, /* colored */ false, false)
    );
}

#[test]
fn case_insensitive() {
    let query = "rUsT";
    let contents = String::from(
        "\
        Rust:
        safe, fast, productive.
        Pick three.
        Trust me.",
    );

    assert_eq!(
        vec!["Rust:", "Trust me."],
        search_case_insensitive(query, contents, /* colored */ false, false)
    );
}

#[test]
fn exact_match_plain() {
    let c = config("duct", false, Highlight::Off, false);
    let r = search_with(&c, "Rust:\nsafe, fast, productive.\nPick three.");
    assert_eq!(r, vec!["safe, fast, productive."]);
}

#[test]
fn caseless_match_plain() {
    let c = config("rUsT", true, Highlight::Off, false);
    let r = search_with(&c, "Rust:\nsafe, fast, productive.\nPick three.\nTrust me.");
    assert_eq!(r, vec!["Rust:", "Trust me."]);
}

#[test]
fn bracket_highlight() {
    let c = config("duct", false, brackets(), false);
    let r = search_with(&c, "safe, fast, productive.");
    assert_eq!(r, vec!["safe, fast, pro[duct]ive."]);
}

#[test]
fn numbered_lines() {
    let c = config("Pick", false, Highlight::Off, true);
    let r = search_with(&c, "Rust:\nPick three.");
    assert_eq!(r, vec!["1 : Pick three."]);
}

#[test]
fn numbered_lines_two_digits() {
    let text = "a\nb\nc\nd\ne\nf\ng\nh\ni\nj\nkey";
    let r = search(text.lines().last().unwrap(), String::from(text), false, true);
    assert_eq!(r, vec!["10 : key"]);
}

#[test]
fn empty_text_gives_nothing() {
    for ci in [false, true] {
        for numbers in [false, true] {
            for h in [Highlight::Off, brackets(), Highlight::Green] {
                let c = config("x", ci, h, numbers);
                assert!(search_with(&c, "").is_empty());
            }
            let c = config("", ci, Highlight::Off, numbers);
            assert!(search_with(&c, "").is_empty());
        }
    }
}

#[test]
fn empty_query_matches_every_line() {
    let r = search("", String::from("one\n  two  \n"), false, false);
    assert_eq!(r, vec!["one", "two"]);
}

#[test]
fn empty_query_highlight_marks_every_gap() {
    let c = config("", false, brackets(), false);
    assert_eq!(search_with(&c, "ab"), vec!["[]a[]b[]"]);
}

#[test]
fn no_match_gives_empty() {
    assert!(search("zzz", String::from("abc\ndef"), true, true).is_empty());
}

#[test]
fn trims_only_without_highlight() {
    let plain = search("x", String::from("  x y \t"), false, false);
    assert_eq!(plain, vec!["x y"]);
    let c = config("x", false, brackets(), false);
    assert_eq!(search_with(&c, "  x y \t"), vec!["  [x] y \t"]);
}

#[test]
fn crlf_endings_are_dropped() {
    let c = config("b", false, brackets(), false);
    assert_eq!(search_with(&c, "a\r\nb\r\nc"), vec!["[b]"]);
}

#[test]
fn highlight_replaces_every_occurrence() {
    let c = config("ab", false, brackets(), true);
    assert_eq!(search_with(&c, "x\nabcab"), vec!["1 : [ab]c[ab]"]);
}

#[test]
fn caseless_highlight_keeps_original_case() {
    let c = config("RUST", true, brackets(), false);
    assert_eq!(search_with(&c, "Trust me, Rust"), vec!["T[rust] me, Rust"]);
}

#[test]
fn caseless_highlight_marks_only_the_located_casing() {
    let c = config("rust", true, brackets(), false);
    assert_eq!(search_with(&c, "Rust and rust and Rust"), vec!["[Rust] and rust and [Rust]"]);
}

#[test]
fn caseless_search_lowercases_the_line() {
    let r = search_case_insensitive("hello", String::from("HELLO THERE\nbye"), false, false);
    assert_eq!(r, vec!["HELLO THERE"]);
}

#[test]
fn green_highlight_when_colour_is_forced() {
    colored::control::set_override(true);
    let r = search("duct", String::from("productive"), true, false);
    assert_eq!(r, vec!["pro\u{1b}[32mduct\u{1b}[0mive"]);
    let r = search_case_insensitive("DUCT", String::from("proDuct"), true, false);
    assert_eq!(r, vec!["pro\u{1b}[32mDuct\u{1b}[0m"]);
}

#[test]
fn results_never_outnumber_lines() {
    let text = "aa\na\nb\naaa";
    let r = search("a", String::from(text), false, false);
    assert_eq!(r.len(), 3);
    assert!(r.len() <= text.lines().count());
}

#[test]
fn results_follow_line_order() {
    let r = search("x", String::from("x3\nno\nx1\nx2"), false, true);
    assert_eq!(r, vec!["0 : x3", "2 : x1", "3 : x2"]);
}

#[test]
fn exact_results_within_caseless_results() {
    let text = "Rust\nrust\nRUST\nrUsT\nnone";
    let exact = search("rust", String::from(text), false, true);
    let caseless = search_case_insensitive("rust", String::from(text), false, true);
    assert_eq!(exact, vec!["1 : rust"]);
    assert_eq!(caseless, vec!["0 : Rust", "1 : rust", "2 : RUST", "3 : rUsT"]);
    for e in &exact {
        assert!(caseless.contains(e));
    }
}

#[test]
fn repeated_search_gives_same_result() {
    let c = config("a", true, brackets(), true);
    let text = "Alpha\nbeta\ngamma";
    let first = search_with(&c, text);
    let second = search_with(&c, text);
    assert_eq!(first, second);
    assert_eq!(first, vec!["0 : [A]lpha", "1 : bet[a]", "2 : g[a]mm[a]"]);
}
