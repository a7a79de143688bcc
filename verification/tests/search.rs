use minigrep::matcher::{search, search_case_insensitive};
use minigrep::lines::split_lines;

#[test]
fn one_result() {
    let contents = "Rust:\nsafe, fast, productive.\nPick three.";
    assert_eq!(search("duct", contents), vec!["safe, fast, productive."]);
}

#[test]
fn case_insensitive_result() {
    let contents = "Rust:\nsafe, fast, productive.\nPick three.\nTrust me.";
    assert_eq!(search_case_insensitive("rUsT", contents), vec!["Rust:", "Trust me."]);
    assert_eq!(search("rUsT", contents), Vec::<&str>::new());
}

#[test]
fn empty_query_returns_every_line() {
    let contents = "a\nb\nc";
    assert_eq!(search("", contents), vec!["a", "b", "c"]);
}

#[test]
fn identical_calls_identical_output() {
    let contents = "one\ntwo\nthree\ntwenty-two";
    let first = search("tw", contents);
    let second = search("tw", contents);
    assert_eq!(first, second);
    assert_eq!(first, vec!["two", "twenty-two"]);
}

#[test]
fn order_follows_the_content() {
    let contents = "xa\nb\nca\nda";
    assert_eq!(search("a", contents), vec!["xa", "ca", "da"]);
}

#[test]
fn insensitive_result_covers_sensitive_result() {
    let contents = "Rust is fast.\nrust never sleeps\nTRUST\nnothing here";
    let sensitive = search("rust", contents);
    let insensitive = search_case_insensitive("rust", contents);
    assert_eq!(sensitive, vec!["rust never sleeps"]);
    assert_eq!(insensitive, vec!["Rust is fast.", "rust never sleeps", "TRUST"]);
    for line in sensitive {
        assert!(insensitive.contains(&line));
    }
}

#[test]
fn empty_content_matches_nothing() {
    assert_eq!(search("a", ""), Vec::<&str>::new());
    assert_eq!(search_case_insensitive("a", ""), Vec::<&str>::new());
    assert_eq!(search("", ""), Vec::<&str>::new());
}

#[test]
fn repeated_occurrences_give_one_entry() {
    let contents = "aaa\nb";
    assert_eq!(search("a", contents), vec!["aaa"]);
}

#[test]
fn query_longer_than_line() {
    let contents = "ab\nabcd";
    assert_eq!(search("abc", contents), vec!["abcd"]);
}

#[test]
fn trailing_newline_adds_no_line() {
    assert_eq!(search("", "a\nb\n"), vec!["a", "b"]);
}

#[test]
fn carriage_return_endings() {
    let contents = "foo\r\nbar\n\nbaz\r";
    assert_eq!(split_lines(contents), vec!["foo", "bar", "", "baz\r"]);
    assert_eq!(search("ba", contents), vec!["bar", "baz\r"]);
}

#[test]
fn insensitive_beyond_ascii() {
    let contents = "Åsa är här\ningen annan";
    assert_eq!(search_case_insensitive("åSA", contents), vec!["Åsa är här"]);
}

#[test]
fn insensitive_normalizes_both_sides() {
    let contents = "abc\nABC\nxyz";
    assert_eq!(search_case_insensitive("AbC", contents), vec!["abc", "ABC"]);
}
