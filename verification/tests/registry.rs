use sitepass::registry::{char_is_space, contains_site, line_is_blank, sites_from_lines, split_lines};

fn strings(items: &[&str]) -> Vec<String> {
    items.iter().map(|s| s.to_string()).collect()
}

#[test]
fn split_lines_basic() {
    assert_eq!(split_lines("a\nb\n"), strings(&["a", "b"]));
    assert_eq!(split_lines("a\nb"), strings(&["a", "b"]));
    assert_eq!(split_lines(""), strings(&[]));
    assert_eq!(split_lines("\n"), strings(&[""]));
    assert_eq!(split_lines("a\n\nb"), strings(&["a", "", "b"]));
}

#[test]
fn split_lines_carriage_returns() {
    assert_eq!(split_lines("a\r\nb\r\n"), strings(&["a", "b"]));
    assert_eq!(split_lines("a\r"), strings(&["a\r"]));
    assert_eq!(split_lines("\r\n"), strings(&[""]));
}

#[test]
fn sites_skip_blanks_and_duplicates() {
    let lines = strings(&["foo", "", "   ", "bar", "foo", "\t"]);
    let sites = sites_from_lines(&lines);
    assert_eq!(sites, strings(&["foo", "bar"]));
}

#[test]
fn append_then_list_contains_the_name() {
    let text = "alpha\n";
    let appended = format!("{}{}\n", text, "foo");
    let sites = sites_from_lines(&split_lines(&appended));
    assert!(sites.contains(&"alpha".to_string()));
    assert!(sites.contains(&"foo".to_string()));
}

#[test]
fn blank_lines_are_not_sites() {
    let sites = sites_from_lines(&split_lines("\n  \n\t\n"));
    assert_eq!(sites, strings(&[]));
}

#[test]
fn blankness_of_lines() {
    assert!(line_is_blank(""));
    assert!(line_is_blank(" \t "));
    assert!(line_is_blank("\u{3000}\u{00A0}"));
    assert!(!line_is_blank(" x "));
}

#[test]
fn whitespace_characters() {
    assert!(char_is_space(' '));
    assert!(char_is_space('\t'));
    assert!(char_is_space('\u{2028}'));
    assert!(!char_is_space('x'));
    assert!(!char_is_space('_'));
}

#[test]
fn membership_in_the_site_list() {
    let sites = strings(&["alpha", "beta"]);
    assert!(contains_site(&sites, &"alpha".to_string()));
    assert!(contains_site(&sites, &"beta".to_string()));
    assert!(!contains_site(&sites, &"gamma".to_string()));
    assert!(!contains_site(&strings(&[]), &"alpha".to_string()));
}
