use subruster::text::{push_decimal, trim};
use subruster::{full_domain, probe_name, PROBE_TIMEOUT_SECS};

#[test]
fn full_domain_joins_with_a_dot() {
    assert_eq!(full_domain("www", "example.com"), "www.example.com");
    assert_eq!(full_domain("mail", "example.com"), "mail.example.com");
}

#[test]
fn full_domain_keeps_both_parts_as_given() {
    assert_eq!(full_domain("a.b", "c.d"), "a.b.c.d");
    assert_eq!(full_domain("", "example.com"), ".example.com");
    assert_eq!(full_domain("www", ""), "www.");
    assert_eq!(full_domain("WWW", "Example.COM"), "WWW.Example.COM");
}

#[test]
fn full_domain_handles_text_outside_ascii() {
    assert_eq!(full_domain("bücher", "example.de"), "bücher.example.de");
}

#[test]
fn probe_name_spells_the_nonce_in_decimal() {
    assert_eq!(
        probe_name(123456789, "example.com"),
        "wildcard-check-123456789.example.com"
    );
    assert_eq!(probe_name(7, "example.com"), "wildcard-check-7.example.com");
}

#[test]
fn probe_name_of_nonce_zero() {
    assert_eq!(probe_name(0, "example.com"), "wildcard-check-0.example.com");
}

#[test]
fn probe_name_of_the_largest_nonce() {
    assert_eq!(
        probe_name(u32::MAX, "example.org"),
        "wildcard-check-4294967295.example.org"
    );
}

#[test]
fn probe_name_matches_the_formatted_text() {
    for nonce in [0u32, 9, 10, 11, 99, 100, 101, 999_999_999, 1_000_000_000] {
        assert_eq!(
            probe_name(nonce, "zone.test"),
            format!("wildcard-check-{}.{}", nonce, "zone.test")
        );
    }
}

#[test]
fn probe_names_differ_with_the_nonce() {
    assert_ne!(probe_name(1, "example.com"), probe_name(2, "example.com"));
}

#[test]
fn probe_timeout_is_three_seconds() {
    assert_eq!(PROBE_TIMEOUT_SECS, 3);
}

#[test]
fn push_decimal_appends_to_what_is_there() {
    let mut text = String::from("n=");
    push_decimal(&mut text, 42);
    assert_eq!(text, "n=42");
    push_decimal(&mut text, 0);
    assert_eq!(text, "n=420");
}

#[test]
fn push_decimal_agrees_with_to_string() {
    for n in [0u32, 1, 5, 9, 10, 19, 20, 100, 1234, 65535, 65536, 4294967295] {
        let mut text = String::new();
        push_decimal(&mut text, n);
        assert_eq!(text, n.to_string());
    }
}

#[test]
fn push_decimal_writes_every_digit() {
    let mut text = String::new();
    push_decimal(&mut text, 1234567890);
    assert_eq!(text, "1234567890");
}

#[test]
fn trim_drops_whitespace_at_both_ends() {
    assert_eq!(trim("  www  "), "www");
    assert_eq!(trim("\twww\r\n"), "www");
    assert_eq!(trim("www"), "www");
}

#[test]
fn trim_keeps_whitespace_inside() {
    assert_eq!(trim("  a b\tc  "), "a b\tc");
}

#[test]
fn trim_of_blank_text_is_empty() {
    assert_eq!(trim(""), "");
    assert_eq!(trim(" "), "");
    assert_eq!(trim(" \t\r\n "), "");
}

#[test]
fn trim_knows_whitespace_outside_ascii() {
    assert_eq!(trim("\u{a0}mail\u{3000}"), "mail");
    assert_eq!(trim("\u{2003}x\u{2028}"), "x");
    assert_eq!(trim("\u{200b}x"), "\u{200b}x");
}

#[test]
fn trim_handles_wide_characters() {
    assert_eq!(trim("  日本語  "), "日本語");
    assert_eq!(trim(" é "), "é");
}

#[test]
fn trim_agrees_with_the_standard_trim() {
    for text in ["", " ", "a", " a", "a ", " a ", "\n\ta  b\n", "\u{85}z\u{1680}", "# x "] {
        assert_eq!(trim(text), text.trim());
    }
}

#[test]
fn trim_is_idempotent() {
    for text in ["  www  ", "a b", "", "\t#c\t"] {
        let once = trim(text);
        assert_eq!(trim(&once), once);
    }
}
