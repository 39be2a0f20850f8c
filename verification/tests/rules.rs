use code_packager::rules::is_space;
use code_packager::{merge_rule_config, parse_rule_string};

#[test]
fn test_parse_rule_string_basic() {
    let rule = "Cargo.toml + src + !target";
    let (extra, ignore) = parse_rule_string(rule, " + ").unwrap();

    assert_eq!(extra, vec!["Cargo.toml", "src"]);
    assert_eq!(ignore, vec!["target"]);
}

#[test]
fn test_parse_rule_string_complex() {
    let rule = "Cargo.toml + src + !src/nodes + src/nodes/mod.rs + !src/bin";
    let (extra, ignore) = parse_rule_string(rule, " + ").unwrap();

    assert_eq!(extra, vec!["Cargo.toml", "src", "src/nodes/mod.rs"]);
    assert_eq!(ignore, vec!["src/nodes", "src/bin"]);
}

#[test]
fn test_parse_rule_string_with_whitespace() {
    let rule = "  file1.txt  +  !  pattern/*  +  dir/  +  !  *.tmp  ";
    let (extra, ignore) = parse_rule_string(rule, " + ").unwrap();

    assert_eq!(extra, vec!["file1.txt", "dir/"]);
    assert_eq!(ignore, vec!["pattern/*", "*.tmp"]);
}

#[test]
fn test_parse_rule_string_empty_and_blank() {
    let rule = " + file.txt +  + !pattern + ";
    let (extra, ignore) = parse_rule_string(rule, " + ").unwrap();

    assert_eq!(extra, vec!["file.txt"]);
    assert_eq!(ignore, vec!["pattern"]);
}

#[test]
fn test_parse_rule_string_custom_separator() {
    let rule = "file.txt | src | !target";
    let (extra, ignore) = parse_rule_string(rule, " | ").unwrap();

    assert_eq!(extra, vec!["file.txt", "src"]);
    assert_eq!(ignore, vec!["target"]);
}

#[test]
fn test_parse_rule_string_only_ignores() {
    let rule = "!target + !*.tmp + !node_modules";
    let (extra, ignore) = parse_rule_string(rule, " + ").unwrap();

    assert!(extra.is_empty());
    assert_eq!(ignore, vec!["target", "*.tmp", "node_modules"]);
}

#[test]
fn test_parse_rule_string_only_extras() {
    let rule = "src + Cargo.toml + README.md";
    let (extra, ignore) = parse_rule_string(rule, " + ").unwrap();

    assert_eq!(extra, vec!["src", "Cargo.toml", "README.md"]);
    assert!(ignore.is_empty());
}

#[test]
fn test_merge_rule_config() {
    let rule_extra = vec!["src".to_string(), "docs".to_string()];
    let rule_ignore = vec!["target".to_string(), "*.tmp".to_string()];
    let cli_extra = vec!["Cargo.toml".to_string()];
    let cli_ignore = vec!["node_modules".to_string()];

    let (merged_extra, merged_ignore) =
        merge_rule_config(rule_extra, rule_ignore, cli_extra, cli_ignore);

    assert_eq!(merged_extra, vec!["src", "docs", "Cargo.toml"]);
    assert_eq!(merged_ignore, vec!["target", "*.tmp", "node_modules"]);
}

#[test]
fn test_merge_rule_config_empty() {
    let (merged_extra, merged_ignore) =
        merge_rule_config(Vec::new(), Vec::new(), Vec::new(), Vec::new());

    assert!(merged_extra.is_empty());
    assert!(merged_ignore.is_empty());
}

#[test]
fn test_merge_rule_config_rule_entries_first() {
    let (extra, ignore) = merge_rule_config(
        vec!["src".to_string()],
        vec!["target".to_string()],
        vec!["Cargo.toml".to_string()],
        vec!["*.tmp".to_string()],
    );

    assert_eq!(extra, vec!["src", "Cargo.toml"]);
    assert_eq!(ignore, vec!["target", "*.tmp"]);
}

#[test]
fn test_merge_rule_config_keeps_duplicates() {
    let (extra, ignore) = merge_rule_config(
        vec!["a".to_string(), "a".to_string()],
        Vec::new(),
        vec!["a".to_string()],
        vec!["x".to_string(), "x".to_string()],
    );

    assert_eq!(extra, vec!["a", "a", "a"]);
    assert_eq!(ignore, vec!["x", "x"]);
}

/// The split is the one `str::split` makes, and trimming the one `str::trim`
/// makes, whatever the separator.
fn parse_by_std(rule: &str, separator: &str) -> (Vec<String>, Vec<String>) {
    let mut extra = Vec::new();
    let mut ignore = Vec::new();
    for item in rule.split(separator) {
        let trimmed = item.trim();
        if trimmed.is_empty() {
            continue;
        }
        if let Some(rest) = trimmed.strip_prefix('!') {
            let pattern = rest.trim();
            if !pattern.is_empty() {
                ignore.push(pattern.to_string());
            }
        } else {
            extra.push(trimmed.to_string());
        }
    }
    (extra, ignore)
}

#[test]
fn test_parse_rule_string_agrees_with_std_split_and_trim() {
    let rules = [
        "",
        " ",
        "+",
        "a+b",
        "a++b",
        "+++",
        "a + b + !c",
        "!!x + ! + !  + !a!b",
        "aXXXb",
        "aXXXXb",
        "XXaXX",
        "\u{3000}wide\u{3000} + \t!tab\r\n + \u{a0}nbsp\u{a0}",
        "é + !ü + 日本 語",
        "a\u{200b}b + \u{200b}",
        "a+ +b",
    ];
    let separators = ["+", " + ", "XX", "", " ", "++", "!", "b", "語"];
    for rule in rules {
        for separator in separators {
            let got = parse_rule_string(rule, separator).unwrap();
            assert_eq!(got, parse_by_std(rule, separator), "{:?} by {:?}", rule, separator);
        }
    }
}

#[test]
fn test_parse_rule_string_empty_rule() {
    let (extra, ignore) = parse_rule_string("", " + ").unwrap();
    assert!(extra.is_empty());
    assert!(ignore.is_empty());
}

#[test]
fn test_parse_rule_string_empty_separator_cuts_every_character() {
    let (extra, ignore) = parse_rule_string("a !b", "").unwrap();
    assert_eq!(extra, vec!["a", "b"]);
    assert!(ignore.is_empty());
}

#[test]
fn test_parse_rule_string_strips_one_mark_only() {
    let (extra, ignore) = parse_rule_string("!!x + !", " + ").unwrap();
    assert!(extra.is_empty());
    assert_eq!(ignore, vec!["!x"]);
}

#[test]
fn test_parse_rule_string_separator_is_literal() {
    let (extra, ignore) = parse_rule_string("a.b.*c", ".*").unwrap();
    assert_eq!(extra, vec!["a.b", "c"]);
    assert!(ignore.is_empty());
}

#[test]
fn test_parse_rule_string_leftmost_occurrences_do_not_overlap() {
    let (extra, _) = parse_rule_string("1aaa2", "aa").unwrap();
    assert_eq!(extra, vec!["1", "a2"]);
}

#[test]
fn test_parse_rule_string_tokens_are_trimmed_and_not_blank() {
    let (extra, ignore) =
        parse_rule_string(" \t a b \n,\u{2003},!  c\u{a0},!,  ", ",").unwrap();
    assert_eq!(extra, vec!["a b"]);
    assert_eq!(ignore, vec!["c"]);
    for token in extra.iter().chain(ignore.iter()) {
        assert!(!token.is_empty());
        assert_eq!(token.trim(), token);
    }
}

#[test]
fn test_parse_rule_string_keeps_order_across_a_cut() {
    let front = "b + !y + a";
    let back = "!x + c + a";
    let whole = format!("{} + {}", front, back);
    let (front_extra, front_ignore) = parse_rule_string(front, " + ").unwrap();
    let (back_extra, back_ignore) = parse_rule_string(back, " + ").unwrap();
    let (extra, ignore) = parse_rule_string(&whole, " + ").unwrap();
    assert_eq!(extra, [front_extra, back_extra].concat());
    assert_eq!(ignore, [front_ignore, back_ignore].concat());
    assert_eq!(extra, vec!["b", "a", "c", "a"]);
    assert_eq!(ignore, vec!["y", "x"]);
}

#[test]
fn test_is_space_is_the_white_space_of_char() {
    let mut code: u32 = 0;
    while code <= 0x10ffff {
        if let Some(c) = char::from_u32(code) {
            assert_eq!(is_space(c), c.is_whitespace(), "U+{:04X}", code);
        }
        code += 1;
    }
}
