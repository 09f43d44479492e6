use ip_prefixes::glob::matches_region;
use ip_prefixes::glob::wildcard_match;

#[test]
fn literal_pattern_matches_itself() {
    assert!(wildcard_match("us-east-1", "us-east-1"));
    assert!(!wildcard_match("us-east-1", "us-east-2"));
}

#[test]
fn match_is_anchored_not_substring() {
    assert!(!wildcard_match("us-east-1", "east"));
    assert!(!wildcard_match("us-east-1", "us-east"));
    assert!(!wildcard_match("us-east-1", "east-1"));
}

#[test]
fn star_matches_any_run() {
    assert!(wildcard_match("us-east-1", "*"));
    assert!(wildcard_match("", "*"));
    assert!(wildcard_match("us-east-1", "us-*"));
    assert!(wildcard_match("us-east-1", "*-1"));
    assert!(wildcard_match("us-east-1", "us-*-1"));
    assert!(wildcard_match("us-east-1", "u*s*t*1"));
    assert!(!wildcard_match("eu-west-1", "us-*"));
}

#[test]
fn empty_pattern_matches_only_empty_string() {
    assert!(wildcard_match("", ""));
    assert!(!wildcard_match("us-east-1", ""));
}

#[test]
fn metacharacters_are_literal() {
    assert!(!wildcard_match("us-east-1", "u.-*"));
    assert!(wildcard_match("u.-east-1", "u.-*"));
    assert!(!wildcard_match("us-east-1", "us-east-."));
    assert!(wildcard_match("a+b", "a+b"));
    assert!(!wildcard_match("aab", "a+b"));
    assert!(wildcard_match("(x)", "(x)"));
    assert!(!wildcard_match("x", "(x)"));
}

#[test]
fn region_filter_without_negation() {
    assert!(matches_region("us-east-1", "us-east-1"));
    assert!(matches_region("us-east-1", "us-*"));
    assert!(!matches_region("us-east-1", "eu-*"));
}

#[test]
fn region_filter_with_negation() {
    assert!(!matches_region("us-east-1", "!us-east-1"));
    assert!(matches_region("us-west-2", "!us-east-1"));
    assert!(!matches_region("us-east-1", "!*"));
    assert!(matches_region("us-east-1", "!eu-*"));
}

#[test]
fn bang_only_counts_at_the_front() {
    // A '!' later in the filter is an ordinary literal character.
    assert!(matches_region("us!east", "us!east"));
    assert!(!matches_region("useast", "us!east"));
}
