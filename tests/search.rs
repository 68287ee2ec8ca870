use minigrep::{line_contains, search, search_case_insensitive, split_lines};

const POEM: &str = "Rust:\nsafe, fast, productive.\nPick three.";

#[test]
fn one_result() {
    assert_eq!(vec!["safe, fast, productive."], search("duct", POEM));
}

#[test]
fn case_insensitive_scenario() {
    assert_eq!(vec!["Rust:"], search_case_insensitive("rUsT", POEM));
}

#[test]
fn case_sensitive_ignores_other_case() {
    let contents = "Rust:\nsafe, fast, productive.\nPick three.\nDuct tape.";
    assert_eq!(vec!["safe, fast, productive."], search("duct", contents));
}

#[test]
fn case_insensitive_keeps_original_case() {
    let contents = "Rust:\nsafe, fast, productive.\nPick three.\nTrust me.";
    assert_eq!(vec!["Rust:", "Trust me."], search_case_insensitive("rUsT", contents));
}

#[test]
fn case_insensitive_lowercases_the_line() {
    assert_eq!(vec!["RUST"], search_case_insensitive("rust", "RUST\nruby"));
}

#[test]
fn absent_query_gives_nothing() {
    assert!(search("monomorphization", POEM).is_empty());
    assert!(search_case_insensitive("monomorphization", POEM).is_empty());
}

#[test]
fn empty_query_returns_every_line() {
    assert_eq!(vec!["Rust:", "safe, fast, productive.", "Pick three."], search("", POEM));
    assert_eq!(vec!["a", "", "b"], search("", "a\n\nb"));
}

#[test]
fn empty_body_returns_nothing() {
    assert!(search("x", "").is_empty());
    assert!(search("", "").is_empty());
    assert!(search_case_insensitive("x", "").is_empty());
}

#[test]
fn matching_line_returned_once_per_occurrence() {
    assert_eq!(vec!["aa aa"], search("aa", "aa aa\nb"));
    assert_eq!(vec!["dup", "dup"], search("du", "dup\nx\ndup"));
}

#[test]
fn returned_lines_contain_query() {
    let body = "one\ntwo\nthree\nfour";
    for line in search("o", body) {
        assert!(line.contains('o'));
    }
    assert_eq!(vec!["one", "two", "four"], search("o", body));
}

#[test]
fn search_twice_gives_same_result() {
    assert_eq!(search("t", POEM), search("t", POEM));
    let first = search("t", POEM);
    let again = search("t", &first.join("\n"));
    assert_eq!(first, again);
}

#[test]
fn insensitive_finds_at_least_the_exact_matches() {
    let body = "Rust\nrust\nRUST\nnothing";
    assert_eq!(vec!["rust"], search("rust", body));
    assert_eq!(vec!["Rust", "rust", "RUST"], search_case_insensitive("rust", body));
    assert_eq!(search("42", "a42\nb\n42c"), search_case_insensitive("42", "a42\nb\n42c"));
}

#[test]
fn lines_split_on_newlines() {
    assert_eq!(vec!["a", "b"], split_lines("a\nb"));
    assert_eq!(vec!["a", "b"], split_lines("a\nb\n"));
    assert_eq!(vec!["a", "b"], split_lines("a\r\nb\r\n"));
    assert_eq!(vec!["", "x"], split_lines("\nx"));
    assert_eq!(vec!["a\rb"], split_lines("a\rb"));
    assert_eq!(vec!["a\r"], split_lines("a\r"));
    assert!(split_lines("").is_empty());
    assert_eq!(vec![""], split_lines("\n"));
}

#[test]
fn crlf_lines_are_searched_without_ending() {
    assert_eq!(vec!["end"], search("end", "end\r\nother\r\n"));
}

#[test]
fn non_ascii_text_is_searched() {
    assert_eq!(vec!["grüße"], search("üß", "grüße\nhallo"));
    assert_eq!(vec!["ÄPFEL"], search_case_insensitive("äpfel", "ÄPFEL\nbirne"));
}

#[test]
fn line_contains_substrings() {
    assert!(line_contains("productive", "duct"));
    assert!(line_contains("abc", ""));
    assert!(line_contains("", ""));
    assert!(!line_contains("", "a"));
    assert!(!line_contains("ab", "abc"));
    assert!(!line_contains("Duct", "duct"));
    assert!(line_contains("abc", "abc"));
    assert!(line_contains("aab", "ab"));
}
