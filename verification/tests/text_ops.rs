use memory_server::text::{
    chars_of, contains_exec, find_from, is_whitespace_char, join_from, occurs_at_exec,
    split_lines, str_eq, trim_str,
};

#[test]
fn trim_removes_ascii_whitespace() {
    assert_eq!(trim_str("  \t MATCH (n)\r\n "), "MATCH (n)");
}

#[test]
fn trim_removes_unicode_whitespace() {
    assert_eq!(trim_str("\u{3000}\u{a0}x y\u{2028}\u{85}"), "x y");
}

#[test]
fn trim_of_blank_is_empty() {
    assert_eq!(trim_str(" \n\t "), "");
    assert_eq!(trim_str(""), "");
}

#[test]
fn trim_twice_is_trim_once() {
    let once = trim_str("  a  b  ");
    assert_eq!(trim_str(once), once);
}

#[test]
fn whitespace_classes() {
    assert!(is_whitespace_char('\u{b}'));
    assert!(is_whitespace_char('\u{200a}'));
    assert!(!is_whitespace_char('\u{200b}'));
    assert!(!is_whitespace_char('x'));
}

#[test]
fn lines_drop_crlf_but_keep_bare_cr() {
    let ls = split_lines("a\r\nb\n\nc\r");
    assert_eq!(ls, vec!["a".to_string(), "b".to_string(), String::new(), "c\r".to_string()]);
}

#[test]
fn lines_ignore_final_newline() {
    assert_eq!(split_lines("x\n"), vec!["x".to_string()]);
    assert_eq!(split_lines("\n"), vec![String::new()]);
    assert!(split_lines("").is_empty());
}

#[test]
fn join_from_skips_leading_parts() {
    let parts = vec!["a".to_string(), "b".to_string(), "c".to_string()];
    assert_eq!(join_from(&parts, 1, "\n"), "b\nc");
    assert_eq!(join_from(&parts, 0, ", "), "a, b, c");
    assert_eq!(join_from(&parts, 3, "\n"), "");
}

#[test]
fn search_finds_leftmost_occurrence() {
    let s = chars_of("ab```cd```");
    let f = chars_of("```");
    assert_eq!(find_from(&s, &f, 0), 2);
    assert_eq!(find_from(&s, &f, 5), 7);
    assert_eq!(find_from(&s, &f, 8), 10);
    assert!(occurs_at_exec(&s, &f, 7));
    assert!(!occurs_at_exec(&s, &f, 8));
}

#[test]
fn contains_and_equality() {
    let s = chars_of("MATCH (N:ASSET)");
    assert!(contains_exec(&s, &chars_of("SET")));
    assert!(!contains_exec(&s, &chars_of("DELETE")));
    assert!(contains_exec(&s, &chars_of("")));
    assert!(str_eq("neo4j", "neo4j"));
    assert!(!str_eq("neo4j", "neo4"));
}
