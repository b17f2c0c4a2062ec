use email_spoof_detector::text::{contains_str, split_tokens, starts_with_str, str_eq};

#[test]
fn test_split_tokens_basic() {
    let toks = split_tokens("v=spf1 include:a.test -all");
    assert_eq!(toks, vec!["v=spf1", "include:a.test", "-all"]);
}

#[test]
fn test_split_tokens_extra_whitespace() {
    let toks = split_tokens("  a\t\tbb \r\n c  ");
    assert_eq!(toks, vec!["a", "bb", "c"]);
}

#[test]
fn test_split_tokens_empty_and_blank() {
    assert_eq!(split_tokens(""), Vec::<String>::new());
    assert_eq!(split_tokens(" \t \r\n "), Vec::<String>::new());
}

#[test]
fn test_contains_str() {
    assert!(contains_str("v=DMARC1; p=reject", "p=reject"));
    assert!(!contains_str("v=DMARC1; p=quarantine", "p=reject"));
    assert!(contains_str("abc", ""));
    assert!(!contains_str("ab", "abc"));
    assert!(contains_str("aaab", "aab"));
}

#[test]
fn test_starts_with_str() {
    assert!(starts_with_str("include:child.test", "include:"));
    assert!(!starts_with_str("includes", "include:"));
    assert!(!starts_with_str("inc", "include:"));
}

#[test]
fn test_str_eq() {
    assert!(str_eq("-all", "-all"));
    assert!(!str_eq("-all", "~all"));
    assert!(!str_eq("-all", "-al"));
}
