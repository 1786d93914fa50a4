//! Tests for the shared text utilities.

use silverfox::utils::is_amount_quantity_char;
use silverfox::utils::is_amount_symbol_char;
use silverfox::utils::remove_comments;
use silverfox::utils::str_eq;
use silverfox::utils::trim;
use silverfox::utils::trim_start;
use silverfox::utils::trunc_div_i64;

#[test]
fn comments_start_at_semicolons_or_double_slashes() {
    assert_eq!(remove_comments("abc ; def"), "abc ");
    assert_eq!(remove_comments("abc // def"), "abc ");
    assert_eq!(remove_comments("a ; b // c"), "a ");
    assert_eq!(remove_comments("a // b ; c"), "a ");
    assert_eq!(remove_comments("a / b"), "a / b");
    assert_eq!(remove_comments("plain"), "plain");
    assert_eq!(remove_comments(";whole line"), "");
}

#[test]
fn quantity_and_symbol_characters() {
    assert!(is_amount_quantity_char('7'));
    assert!(is_amount_quantity_char('-'));
    assert!(is_amount_quantity_char(','));
    assert!(is_amount_quantity_char('.'));
    assert!(is_amount_quantity_char('_'));
    assert!(!is_amount_quantity_char('$'));
    assert!(is_amount_symbol_char('$'));
    assert!(is_amount_symbol_char('B'));
    assert!(!is_amount_symbol_char('3'));
    assert!(!is_amount_symbol_char(' '));
    assert!(!is_amount_symbol_char('@'));
    assert!(!is_amount_symbol_char('!'));
}

#[test]
fn trimming_strips_whitespace() {
    assert_eq!(trim("  hello \t"), "hello");
    assert_eq!(trim("hello"), "hello");
    assert_eq!(trim("   "), "");
    assert_eq!(trim(""), "");
    assert_eq!(trim_start("  hello "), "hello ");
    assert_eq!(trim_start("hello"), "hello");
}

#[test]
fn string_equality_by_characters() {
    assert!(str_eq("abc", "abc"));
    assert!(!str_eq("abc", "abd"));
    assert!(!str_eq("abc", "ab"));
    assert!(str_eq("", ""));
}

#[test]
fn division_truncates_toward_zero() {
    assert_eq!(trunc_div_i64(7, 2), 3);
    assert_eq!(trunc_div_i64(-7, 2), -3);
    assert_eq!(trunc_div_i64(6, 3), 2);
    assert_eq!(trunc_div_i64(-6, 3), -2);
    assert_eq!(trunc_div_i64(0, 5), 0);
}
