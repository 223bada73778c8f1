use notes_app::text::{is_blank_text, join_tags, make_search_key, matches_key, parse_tags};

#[test]
fn parse_tags_trims_and_drops_empty() {
    assert_eq!(parse_tags("work, ideas,, todo "), vec!["work", "ideas", "todo"]);
    assert_eq!(parse_tags(""), Vec::<String>::new());
    assert_eq!(parse_tags(" , ,"), Vec::<String>::new());
    assert_eq!(parse_tags("one"), vec!["one"]);
    assert_eq!(parse_tags("\u{3000}wide\u{3000},a b"), vec!["wide", "a b"]);
}

#[test]
fn join_tags_uses_comma_space() {
    assert_eq!(join_tags(&vec!["a".to_string(), "b".to_string(), "c".to_string()]), "a, b, c");
    assert_eq!(join_tags(&vec!["only".to_string()]), "only");
    assert_eq!(join_tags(&vec![]), "");
}

#[test]
fn joined_tags_read_back() {
    let tags = vec!["alpha".to_string(), "beta gamma".to_string(), "δ".to_string()];
    assert_eq!(parse_tags(&join_tags(&tags)), tags);
    let parsed = parse_tags(" x ,y,, z");
    assert_eq!(parse_tags(&join_tags(&parsed)), parsed);
}

#[test]
fn tags_with_commas_do_not_read_back() {
    let tags = vec!["a,b".to_string()];
    assert_eq!(parse_tags(&join_tags(&tags)), vec!["a", "b"]);
}

#[test]
fn blank_text() {
    assert!(is_blank_text(""));
    assert!(is_blank_text(" \t\n\u{a0}"));
    assert!(!is_blank_text("  x "));
}

#[test]
fn search_key_is_trimmed_lowercase() {
    assert_eq!(make_search_key("  HeLLo World "), "hello world");
    assert!(matches_key("A Big TITLE", "big"));
    assert!(!matches_key("A Big TITLE", "small"));
    assert!(matches_key("anything", ""));
}
