//! The plain-text helpers: searching, splitting, replacing, trimming,
//! ordering and formatting.

use meml::text::contains_str;
use meml::text::dedup_adjacent;
use meml::text::ends_with_str;
use meml::text::find_from_str;
use meml::text::fmt_usize;
use meml::text::join_names;
use meml::text::lex_leq_str;
use meml::text::sort_names;
use meml::text::split_str;
use meml::text::trim_str;

#[test]
fn find_locates_the_first_occurrence() {
    assert_eq!(find_from_str("abcabc", "bc", 0), Some(1));
    assert_eq!(find_from_str("abcabc", "bc", 2), Some(4));
    assert_eq!(find_from_str("abcabc", "zz", 0), None);
    assert_eq!(find_from_str("abc", "", 0), None);
}

#[test]
fn contains_checks_any_occurrence() {
    assert!(contains_str("hello world", "lo w"));
    assert!(!contains_str("hello", "z"));
}

#[test]
fn split_cuts_on_every_occurrence() {
    assert_eq!(split_str("a,b,,c", ","), vec!["a", "b", "", "c"]);
    assert_eq!(split_str("abc", ","), vec!["abc"]);
    assert_eq!(split_str("a; b", "; "), vec!["a", "b"]);
}

#[test]
fn trim_drops_surrounding_whitespace() {
    assert_eq!(trim_str("  padded \t\n"), "padded");
    assert_eq!(trim_str("inner space kept"), "inner space kept");
    assert_eq!(trim_str("   "), "");
}

#[test]
fn numbers_format_in_decimal() {
    assert_eq!(fmt_usize(0), "0");
    assert_eq!(fmt_usize(7), "7");
    assert_eq!(fmt_usize(12034), "12034");
}

#[test]
fn names_order_lexicographically() {
    assert!(lex_leq_str("alpha", "beta"));
    assert!(lex_leq_str("abc", "abcd"));
    assert!(!lex_leq_str("b", "ab"));
    assert!(lex_leq_str("same", "same"));
}

#[test]
fn sorting_and_deduplication_compose() {
    let names = vec![
        "zeta".to_string(),
        "alpha".to_string(),
        "zeta".to_string(),
        "mid".to_string(),
    ];
    let sorted = dedup_adjacent(sort_names(names));
    assert_eq!(
        sorted,
        vec!["alpha".to_string(), "mid".to_string(), "zeta".to_string()]
    );
}

#[test]
fn suffix_checks_match_exactly() {
    assert!(ends_with_str("page.meml", ".meml"));
    assert!(!ends_with_str("page.txt", ".meml"));
    assert!(!ends_with_str("ml", ".meml"));
}

#[test]
fn join_puts_the_separator_between_entries() {
    let parts = vec!["a".to_string(), "b".to_string(), "c".to_string()];
    assert_eq!(join_names(&parts, ","), "a,b,c");
    assert_eq!(join_names(&Vec::new(), ","), "");
}
