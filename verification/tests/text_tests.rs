use core_engine::text::{first_token, str_contains, str_eq, str_starts_with, trim, u32_to_decimal};

#[test]
fn trim_matches_std() {
    for s in ["", "   ", "  a b  ", "\t\nx\u{3000}", "abc", " \u{a0}y\u{2009} "] {
        assert_eq!(trim(s), s.trim());
    }
}

#[test]
fn first_token_matches_std() {
    for s in ["", "  ", "btn primary", "  lead  trail", "\u{2003}x\u{2003}y", "one"] {
        assert_eq!(first_token(s), s.split_whitespace().next().map(|t| t.to_string()));
    }
}

#[test]
fn contains_and_prefix() {
    assert!(str_contains("color: red; display: none", "display: none"));
    assert!(!str_contains("display: block", "display: none"));
    assert!(str_contains("abc", ""));
    assert!(!str_contains("", "a"));
    assert!(str_starts_with("https://x", "https://"));
    assert!(!str_starts_with("http", "https://"));
    assert!(str_eq("héllo", "héllo"));
    assert!(!str_eq("a", "ab"));
}

#[test]
fn decimal_rendering() {
    for n in [0u32, 7, 10, 42, 1000, 4294967295] {
        assert_eq!(u32_to_decimal(n), n.to_string());
    }
}
