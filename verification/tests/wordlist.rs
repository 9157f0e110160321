use subruster::{clean_line, load_wordlist};

fn lines(items: &[&str]) -> Vec<String> {
    items.iter().map(|item| item.to_string()).collect()
}

#[test]
fn clean_line_trims_the_candidate() {
    assert_eq!(clean_line("www"), Some("www".to_string()));
    assert_eq!(clean_line("  www  "), Some("www".to_string()));
    assert_eq!(clean_line("\tmail\r"), Some("mail".to_string()));
}

#[test]
fn clean_line_drops_blank_lines() {
    assert_eq!(clean_line(""), None);
    assert_eq!(clean_line("   "), None);
    assert_eq!(clean_line("\t\r"), None);
}

#[test]
fn clean_line_drops_comments() {
    assert_eq!(clean_line("# common names"), None);
    assert_eq!(clean_line("#"), None);
    assert_eq!(clean_line("#www"), None);
}

#[test]
fn clean_line_drops_comments_after_leading_whitespace() {
    assert_eq!(clean_line("   # indented"), None);
    assert_eq!(clean_line("\t#x"), None);
}

#[test]
fn clean_line_keeps_a_hash_inside() {
    assert_eq!(clean_line("a#b"), Some("a#b".to_string()));
    assert_eq!(clean_line("www #1"), Some("www #1".to_string()));
}

#[test]
fn load_wordlist_keeps_candidates_in_order() {
    let source = lines(&["www", "mail", "doesnotexist123"]);
    assert_eq!(load_wordlist(&source), lines(&["www", "mail", "doesnotexist123"]));
}

#[test]
fn load_wordlist_leaves_out_blank_lines_and_comments() {
    let source = lines(&["# subdomains", "", "www", "   ", "  mail  ", "#ftp", "api"]);
    assert_eq!(load_wordlist(&source), lines(&["www", "mail", "api"]));
}

#[test]
fn load_wordlist_keeps_repeated_entries() {
    let source = lines(&["www", "www", " www "]);
    assert_eq!(load_wordlist(&source), lines(&["www", "www", "www"]));
}

#[test]
fn load_wordlist_of_nothing_is_empty() {
    assert_eq!(load_wordlist(&Vec::new()), Vec::<String>::new());
    assert_eq!(load_wordlist(&lines(&["", "#", " "])), Vec::<String>::new());
}

#[test]
fn load_wordlist_entries_are_trimmed_and_not_empty() {
    let source = lines(&[" a ", "\tb", "c\r", "  ", "# d", "e f"]);
    for word in load_wordlist(&source) {
        assert!(!word.is_empty());
        assert_eq!(word.trim(), word);
        assert!(!word.starts_with('#'));
    }
}

#[test]
fn load_wordlist_agrees_with_the_line_filter() {
    let source = lines(&["www", " # no", "x y", "", "\u{a0}z\u{a0}", "#", "q#"]);
    let expected: Vec<String> = source
        .iter()
        .map(|line| line.trim().to_string())
        .filter(|line| !line.is_empty() && !line.starts_with('#'))
        .collect();
    assert_eq!(load_wordlist(&source), expected);
}
