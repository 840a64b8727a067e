use tgcloud::digest::sha256_hex;
use tgcloud::strutil::{str_eq, str_has_prefix, str_is_blank, str_lex_le, u64_to_dec};

#[test]
fn sha256_of_abc_matches_known_vector() {
    let d = sha256_hex(b"abc");
    assert_eq!(d, "ba7816bf8f01cfea414140de5dae2223b00361a396177a9cb410ff61f20015ad");
}

#[test]
fn sha256_of_empty_input_matches_known_vector() {
    let d = sha256_hex(b"");
    assert_eq!(d, "e3b0c44298fc1c149afbf4c8996fb92427ae41e4649b934ca495991b7852b855");
}

#[test]
fn decimal_rendering_is_plain_base_ten() {
    assert_eq!(u64_to_dec(0), "0");
    assert_eq!(u64_to_dec(7), "7");
    assert_eq!(u64_to_dec(10), "10");
    assert_eq!(u64_to_dec(429), "429");
    assert_eq!(u64_to_dec(104_857_600), "104857600");
    assert_eq!(u64_to_dec(u64::MAX), "18446744073709551615");
}

#[test]
fn lexicographic_order_on_strings() {
    assert!(str_lex_le("", "a"));
    assert!(str_lex_le("a", "a"));
    assert!(str_lex_le("a", "b"));
    assert!(!str_lex_le("b", "a"));
    assert!(str_lex_le("ab", "b"));
    assert!(str_lex_le("abc", "abd"));
    assert!(!str_lex_le("abd", "abc"));
    assert!(str_lex_le("ab", "abc"));
    assert!(!str_lex_le("abc", "ab"));
}

#[test]
fn string_equality_is_character_wise() {
    assert!(str_eq("bot-1", "bot-1"));
    assert!(!str_eq("bot-1", "bot-2"));
    assert!(!str_eq("bot", "bot-1"));
    assert!(str_eq("", ""));
}

#[test]
fn prefix_matching_is_anchored() {
    assert!(str_has_prefix("docs/a.bin", "docs/"));
    assert!(!str_has_prefix("my-docs/a.bin", "docs/"));
    assert!(str_has_prefix("anything", ""));
    assert!(!str_has_prefix("a", "ab"));
}

#[test]
fn blank_means_nothing_but_whitespace() {
    assert!(str_is_blank(""));
    assert!(str_is_blank(" \t\r\n"));
    assert!(!str_is_blank(" x "));
}
