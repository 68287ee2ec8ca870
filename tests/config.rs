use minigrep::{search_with, split_args, Config, GrepError};

fn strings(items: &[&str]) -> Vec<String> {
    items.iter().map(|s| s.to_string()).collect()
}

#[test]
fn build_needs_two_inputs() {
    let r = Config::build(&[], &strings(&["foo"]), None);
    assert!(matches!(r, Err(GrepError::MissingArguments)));
    let r = Config::build(&[], &[], None);
    assert!(matches!(r, Err(GrepError::MissingArguments)));
}

#[test]
fn build_takes_query_and_path() {
    let c = Config::build(&[], &strings(&["foo", "bar.txt"]), None).unwrap();
    assert_eq!("foo", c.query);
    assert_eq!("bar.txt", c.file_path);
    assert!(!c.ignore_case);
}

#[test]
fn build_ignores_extra_inputs() {
    let c = Config::build(&[], &strings(&["foo", "bar.txt", "baz"]), None).unwrap();
    assert_eq!("foo", c.query);
    assert_eq!("bar.txt", c.file_path);
}

#[test]
fn build_with_flag_ignores_case() {
    let c = Config::build(&strings(&["-i"]), &strings(&["foo", "bar.txt"]), None).unwrap();
    assert!(c.ignore_case);
    let c = Config::build(&strings(&["-x", "-i"]), &strings(&["foo", "bar.txt"]), None).unwrap();
    assert!(c.ignore_case);
}

#[test]
fn build_other_flags_do_not_ignore_case() {
    let c = Config::build(&strings(&["-ignore", "-I", "-x"]), &strings(&["foo", "bar.txt"]), None)
        .unwrap();
    assert!(!c.ignore_case);
}

#[test]
fn build_with_variable_ignores_case() {
    let c = Config::build(&[], &strings(&["foo", "bar.txt"]), Some("")).unwrap();
    assert!(c.ignore_case);
    let c = Config::build(&[], &strings(&["foo", "bar.txt"]), Some("0")).unwrap();
    assert!(c.ignore_case);
}

#[test]
fn missing_arguments_message() {
    assert_eq!("not enough arguments", GrepError::MissingArguments.message());
    assert_eq!("no such file", GrepError::IoError("no such file".to_string()).message());
}

#[test]
fn split_args_separates_flags() {
    let (flags, inputs) = split_args(&strings(&["-i", "foo", "-x", "bar.txt", "", "baz"]));
    assert_eq!(strings(&["-i", "-x"]), flags);
    assert_eq!(strings(&["foo", "bar.txt", "", "baz"]), inputs);
}

#[test]
fn search_with_selects_mode() {
    let body = "Rust:\nsafe, fast, productive.\nPick three.";
    let exact = Config::build(&[], &strings(&["rUsT", "poem.txt"]), None).unwrap();
    assert!(search_with(&exact, body).is_empty());
    let folded = Config::build(&strings(&["-i"]), &strings(&["rUsT", "poem.txt"]), None).unwrap();
    assert_eq!(vec!["Rust:"], search_with(&folded, body));
    let duct = Config::build(&[], &strings(&["duct", "poem.txt"]), None).unwrap();
    assert_eq!(vec!["safe, fast, productive."], search_with(&duct, body));
}
