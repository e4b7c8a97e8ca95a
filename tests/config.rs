use minigrep::config::Config;
use minigrep::greeting::display;
use minigrep::text::longest;

fn args(v: &[&str]) -> Vec<String> {
    v.iter().map(|s| String::from(*s)).collect()
}

#[test]
fn build_takes_query_and_path() {
    let c = Config::build(&args(&["minigrep", "needle", "poem.txt"]), true, false).unwrap();
    assert_eq!(c.query, "needle");
    assert_eq!(c.file_path, "poem.txt");
    assert!(c.ignore_case);
    assert!(!c.show_line_numbers);
}

#[test]
fn build_ignores_extra_arguments() {
    let c = Config::build(&args(&["minigrep", "a", "b", "c"]), false, true).unwrap();
    assert_eq!(c.query, "a");
    assert_eq!(c.file_path, "b");
    assert!(c.show_line_numbers);
}

#[test]
fn build_with_too_few_arguments() {
    let e = Config::build(&args(&["minigrep", "needle"]), false, false).err().unwrap();
    assert_eq!(e, "Insufficient arguments. Expected 2, received 1");
    let e = Config::build(&args(&["minigrep"]), false, false).err().unwrap();
    assert_eq!(e, "Insufficient arguments. Expected 2, received 0");
    let e = Config::build(&args(&[]), false, false).err().unwrap();
    assert_eq!(e, "Insufficient arguments. Expected 2, received 0");
}

#[test]
fn longest_picks_longer() {
    assert_eq!(longest("Hello", "xyz"), "Hello");
    assert_eq!(longest("ab", "xyz"), "xyz");
    assert_eq!(longest("ab", "cd"), "cd");
}

#[test]
fn display_greets() {
    assert_eq!(display(), "Hello, world!");
}
