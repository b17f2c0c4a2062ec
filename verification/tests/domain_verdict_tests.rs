use email_spoof_detector::dns::ResolverTrait;
use email_spoof_detector::domain_verdict::{
    calculate_domain_verdict, resolve_dkim, DomainVerdict, SpfEvaluation,
};

fn strict() -> SpfEvaluation {
    SpfEvaluation { has_strict_all: true, has_soft_all: false }
}

fn soft() -> SpfEvaluation {
    SpfEvaluation { has_strict_all: false, has_soft_all: true }
}

fn zero() -> SpfEvaluation {
    SpfEvaluation::default()
}

#[test]
fn test_nonexistent_domain_always_invalid() {
    assert_eq!(
        calculate_domain_verdict(false, &zero(), None),
        DomainVerdict::Invalid
    );
    assert_eq!(
        calculate_domain_verdict(false, &strict(), Some("v=DMARC1; p=reject")),
        DomainVerdict::Invalid
    );
    assert_eq!(
        calculate_domain_verdict(
            false,
            &SpfEvaluation { has_strict_all: true, has_soft_all: true },
            Some("anything at all")
        ),
        DomainVerdict::Invalid
    );
}

#[test]
fn test_strict_all_with_reject_is_strong() {
    assert_eq!(
        calculate_domain_verdict(true, &strict(), Some("v=DMARC1; p=reject")),
        DomainVerdict::Strong
    );
}

#[test]
fn test_soft_all_without_dmarc_is_medium() {
    assert_eq!(
        calculate_domain_verdict(true, &soft(), None),
        DomainVerdict::Medium
    );
}

#[test]
fn test_no_signal_is_weak() {
    assert_eq!(
        calculate_domain_verdict(true, &zero(), None),
        DomainVerdict::Weak
    );
}

#[test]
fn test_reject_without_strict_is_medium() {
    assert_eq!(
        calculate_domain_verdict(true, &zero(), Some("v=DMARC1; p=reject")),
        DomainVerdict::Medium
    );
}

#[test]
fn test_quarantine_alone_falls_through_to_weak() {
    // p=quarantine is recognized but deliberately not consulted by the
    // decision table.
    assert_eq!(
        calculate_domain_verdict(true, &zero(), Some("v=DMARC1; p=quarantine")),
        DomainVerdict::Weak
    );
}

#[test]
fn test_dmarc_search_is_substring_not_parsed() {
    // The check is a literal, case-sensitive substring search.
    assert_eq!(
        calculate_domain_verdict(true, &zero(), Some("xxp=rejectxx")),
        DomainVerdict::Medium
    );
    assert_eq!(
        calculate_domain_verdict(true, &zero(), Some("v=DMARC1; P=REJECT")),
        DomainVerdict::Weak
    );
}

struct TxtResolver {
    names: Vec<&'static str>,
}

impl ResolverTrait for TxtResolver {
    fn model(&self) -> email_spoof_detector::dns::ResolverModel {
        // Specification-only; never called at runtime.
        panic!()
    }

    fn resolve_spf(&self, _domain: &str) -> Option<String> {
        None
    }

    fn resolve_dmarc(&self, _domain: &str) -> Option<String> {
        None
    }

    fn domain_exists(&self, _domain: &str) -> bool {
        true
    }

    fn resolve_mx(&self, _domain: &str) -> bool {
        false
    }

    fn resolve_txt(&self, name: &str) -> Option<Vec<String>> {
        if self.names.contains(&name) {
            Some(vec!["k=rsa; p=abc".to_string()])
        } else {
            None
        }
    }
}

#[test]
fn test_resolve_dkim_finds_listed_selector() {
    let r = TxtResolver { names: vec!["google._domainkey.example.com"] };
    assert!(resolve_dkim(&r, "example.com"));
    assert!(!resolve_dkim(&r, "other.com"));
}

#[test]
fn test_resolve_dkim_first_selector() {
    let r = TxtResolver { names: vec!["default._domainkey.example.com"] };
    assert!(resolve_dkim(&r, "example.com"));
}

#[test]
fn test_resolve_dkim_unlisted_selector_not_found() {
    // A selector outside the allow-list is never probed.
    let r = TxtResolver { names: vec!["exotic._domainkey.example.com"] };
    assert!(!resolve_dkim(&r, "example.com"));
}
