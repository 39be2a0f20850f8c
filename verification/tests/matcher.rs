use code_packager::{compile_patterns, matches_any, should_ignore};
use glob::Pattern;

#[test]
fn test_should_ignore() {
    let patterns = vec![
        Pattern::new("*.tmp").unwrap(),
        Pattern::new("target/*").unwrap(),
    ];

    let base_dir = "/project";
    let path = "/project/src/main.rs";

    // Test file that should not be ignored
    assert!(!should_ignore(path, &patterns, base_dir));

    // Test file that should be ignored
    let ignore_path = "/project/test.tmp";
    assert!(should_ignore(ignore_path, &patterns, base_dir));
}

#[test]
fn test_should_ignore_with_no_pattern() {
    assert!(!should_ignore("/project/test.tmp", &[], "/project"));
}

#[test]
fn test_should_ignore_by_relative_form_only() {
    let patterns = vec![Pattern::new("target").unwrap()];
    assert!(should_ignore("/project/target", &patterns, "/project"));
    assert!(!should_ignore("/project/target", &patterns, "/"));
    assert!(!should_ignore("/project/target", &patterns, "/project/target/x"));
}

#[test]
fn test_should_ignore_by_full_form_only() {
    let patterns = vec![Pattern::new("/project/t?rget").unwrap()];
    assert!(should_ignore("/project/target", &patterns, "/project"));
    assert!(should_ignore("/project/target", &patterns, "/elsewhere"));
}

#[test]
fn test_should_ignore_outside_base_is_tested_as_given() {
    let patterns = vec![Pattern::new("notes.txt").unwrap()];
    assert!(!should_ignore("/other/notes.txt", &patterns, "/project"));
    assert!(should_ignore("notes.txt", &patterns, "/project"));
}

#[test]
fn test_should_ignore_base_is_taken_off_by_components() {
    let patterns = vec![Pattern::new("ect/a").unwrap(), Pattern::new("a").unwrap()];
    assert!(!should_ignore("/project/b", &patterns, "/proj"));
    assert!(should_ignore("/project/a", &patterns, "/project/"));
    assert!(!should_ignore("/project/a", &patterns, "/proj"));
}

#[test]
fn test_should_ignore_any_pattern_suffices() {
    let patterns = vec![
        Pattern::new("nothing").unwrap(),
        Pattern::new("*.rs").unwrap(),
        Pattern::new("x").unwrap(),
    ];
    assert!(should_ignore("dir/lib.rs", &patterns, "dir"));
    assert!(should_ignore("dir/x", &patterns, "dir"));
    assert!(!should_ignore("dir/y", &patterns, "dir"));
}

#[test]
fn test_compile_patterns_keeps_order_and_text() {
    let texts = vec!["*.tmp".to_string(), "target/*".to_string(), "a[bc]".to_string()];
    let patterns = compile_patterns(&texts).unwrap();
    assert_eq!(patterns.len(), 3);
    assert_eq!(patterns[0].as_str(), "*.tmp");
    assert_eq!(patterns[1].as_str(), "target/*");
    assert_eq!(patterns[2].as_str(), "a[bc]");
    assert!(should_ignore("/project/x.tmp", &patterns, "/project"));
    assert!(should_ignore("/project/ab", &patterns, "/project"));
    assert!(!should_ignore("/project/ad", &patterns, "/project"));
}

#[test]
fn test_compile_patterns_empty_list() {
    assert!(compile_patterns(&Vec::new()).unwrap().is_empty());
}

#[test]
fn test_compile_patterns_names_the_first_that_fails() {
    let texts = vec![
        "fine".to_string(),
        "a**b".to_string(),
        "also/fine".to_string(),
        "[".to_string(),
    ];
    assert_eq!(compile_patterns(&texts).unwrap_err(), 1);
    let texts = vec!["***".to_string()];
    assert_eq!(compile_patterns(&texts).unwrap_err(), 0);
}

#[test]
fn test_matches_any_tests_both_forms() {
    let patterns = vec![Pattern::new("*.log").unwrap(), Pattern::new("build").unwrap()];
    assert!(matches_any("a.log", None, &patterns));
    assert!(matches_any("/abs/build", Some("build"), &patterns));
    assert!(!matches_any("/abs/build", None, &patterns));
    assert!(!matches_any("/abs/build", Some("other"), &patterns));
    assert!(matches_any("other", Some("x.log"), &patterns));
}

#[test]
fn test_matches_any_with_no_pattern() {
    assert!(!matches_any("a", Some("a"), &[]));
}

#[test]
fn test_should_ignore_is_matches_any_on_the_stripped_path() {
    let patterns = vec![Pattern::new("sub/*.rs").unwrap()];
    let cases = [
        ("/p/sub/a.rs", "/p", Some("sub/a.rs")),
        ("/p/sub/a.rs", "/p/sub", Some("a.rs")),
        ("/p/sub/a.rs", "/q", None),
        ("sub/a.rs", "", Some("sub/a.rs")),
        ("/p/sub/a.rs", "/p/sub/a.rs", Some("")),
    ];
    for (path, base, relative) in cases {
        assert_eq!(
            should_ignore(path, &patterns, base),
            matches_any(path, relative, &patterns),
            "{} under {}",
            path,
            base
        );
    }
    assert!(should_ignore("/p/sub/a.rs", &patterns, "/p"));
    assert!(!should_ignore("/p/sub/a.rs", &patterns, "/p/sub"));
    assert!(!should_ignore("/p/sub/a.rs", &patterns, "/q"));
}
