//! Tests for the locally consumed command-line decisions.

use repgrep::cli::{normalize_arguments, Args, NoPatternError, MAX_UNRESTRICTED};

fn args() -> Args {
    Args {
        pattern: None,
        paths: Vec::new(),
        patterns: Vec::new(),
        encoding: None,
        unrestricted: 0,
    }
}

#[test]
fn checks_if_no_pattern_was_passed() {
    let a = args();
    assert!(matches!(normalize_arguments(a), Err(NoPatternError)));

    let mut a = args();
    a.pattern = Some(String::from("needle"));
    assert!(normalize_arguments(a).is_ok());

    let mut a = args();
    a.patterns = vec![String::from("needle")];
    assert!(normalize_arguments(a).is_ok());
}

#[test]
fn reads_pattern_as_path_if_pattern_flag_given() {
    let mut a = args();
    a.pattern = Some(String::from("./src"));
    a.patterns = vec![String::from("needle")];
    a.paths = vec![String::from("./docs")];
    let n = normalize_arguments(a).unwrap();
    assert_eq!(n.pattern, None);
    assert_eq!(n.paths, vec![String::from("./docs"), String::from("./src")]);
    assert_eq!(n.patterns, vec![String::from("needle")]);
}

#[test]
fn does_not_allow_unrestricted_above_two() {
    let mut a = args();
    a.pattern = Some(String::from("needle"));
    a.unrestricted = 3;
    let n = normalize_arguments(a).unwrap();
    assert_eq!(n.unrestricted, MAX_UNRESTRICTED);

    let mut a = args();
    a.pattern = Some(String::from("needle"));
    a.unrestricted = 2;
    let n = normalize_arguments(a).unwrap();
    assert_eq!(n.unrestricted, 2);
}

#[test]
fn returns_rg_patterns() {
    let mut a = args();
    a.pattern = Some(String::from("one"));
    a.patterns = vec![String::from("two"), String::from("three")];
    assert_eq!(a.rg_patterns(), vec!["one"]);

    let mut a = args();
    a.patterns = vec![String::from("two"), String::from("three")];
    assert_eq!(a.rg_patterns(), vec!["two", "three"]);
}
