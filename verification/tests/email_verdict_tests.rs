use email_spoof_detector::dns::ResolverTrait;
use email_spoof_detector::email_verdict::{analyze_email, Verdict};
use email_spoof_detector::parse::{parse_email, EmailParsed};

struct MockResolver;

impl ResolverTrait for MockResolver {
    fn model(&self) -> email_spoof_detector::dns::ResolverModel {
        // Specification-only; never called at runtime.
        panic!()
    }

    fn resolve_spf(&self, domain: &str) -> Option<String> {
        match domain {
            "example.com" => Some("v=spf1 -all".to_string()),
            "misaligned.com" => Some("v=spf1 -all".to_string()),
            _ => None,
        }
    }

    fn resolve_dmarc(&self, domain: &str) -> Option<String> {
        match domain {
            "example.com" => Some("v=DMARC1; p=reject".to_string()),
            "misaligned.com" => Some("v=DMARC1; p=reject".to_string()),
            _ => None,
        }
    }

    fn domain_exists(&self, domain: &str) -> bool {
        matches!(domain, "example.com" | "misaligned.com")
    }

    fn resolve_mx(&self, domain: &str) -> bool {
        matches!(domain, "example.com" | "misaligned.com")
    }

    fn resolve_txt(&self, _name: &str) -> Option<Vec<String>> {
        None
    }
}

#[test]
fn test_unauthenticated_email() {
    let email = EmailParsed {
        from: Some("user@evil.com".to_string()),
        return_path: Some("bounce@evil.com".to_string()),
        auth_results: None,
        dkim_present: false,
    };

    let alignment_ok = false;
    let verdict = if email.dkim_present && alignment_ok {
        Verdict::Authenticated
    } else {
        Verdict::Unauthenticated
    };

    assert_eq!(verdict, Verdict::Unauthenticated);
}

#[test]
fn test_authenticated_email() {
    let raw = b"From: user@example.com\r\nDKIM-Signature: v=1; a=rsa-sha256;\r\n";
    let parsed: EmailParsed = parse_email(raw).unwrap();
    let resolver = MockResolver;

    let result = analyze_email(&parsed, &resolver);

    assert_eq!(result.verdict, Verdict::Authenticated);
    assert_eq!(result.evidence.dkim_present, true);
    assert_eq!(result.evidence.from_domain.as_deref(), Some("example.com"));
    assert_eq!(result.evidence.spf_policy.as_deref(), Some("v=spf1 -all"));
    assert_eq!(
        result.evidence.dmarc_policy.as_deref(),
        Some("v=DMARC1; p=reject")
    );
    assert_eq!(result.evidence.domain_valid, true);
}

#[test]
fn test_nonexistent_domain() {
    let raw = b"From: user@fake-domain.com\r\n";
    let parsed: EmailParsed = parse_email(raw).unwrap();
    let resolver = MockResolver;

    let result = analyze_email(&parsed, &resolver);

    assert_eq!(result.verdict, Verdict::Suspicious);
    assert_eq!(result.evidence.domain_valid, false);
}

#[test]
fn test_suspicious_email_missing_dkim() {
    // Missing DKIM, domain exists: Suspicious, even though alignment holds.
    let raw = b"From: user@misaligned.com\r\n";
    let parsed: EmailParsed = parse_email(raw).unwrap();
    let resolver = MockResolver;

    let result = analyze_email(&parsed, &resolver);

    assert_eq!(result.verdict, Verdict::Suspicious);
    assert_eq!(result.evidence.dkim_present, false);
    assert_eq!(result.evidence.domain_valid, true);
    assert_eq!(result.evidence.alignment_ok, true);
}

struct RejectingResolver;

impl ResolverTrait for RejectingResolver {
    fn model(&self) -> email_spoof_detector::dns::ResolverModel {
        // Specification-only; never called at runtime.
        panic!()
    }

    fn resolve_spf(&self, _domain: &str) -> Option<String> {
        None
    }

    fn resolve_dmarc(&self, domain: &str) -> Option<String> {
        match domain {
            "strict.example" => Some("v=DMARC1; p=reject".to_string()),
            _ => None,
        }
    }

    fn domain_exists(&self, domain: &str) -> bool {
        matches!(domain, "strict.example" | "bare.example")
    }

    fn resolve_mx(&self, _domain: &str) -> bool {
        false
    }

    fn resolve_txt(&self, _name: &str) -> Option<Vec<String>> {
        None
    }
}

#[test]
fn test_policy_violation_without_alignment() {
    // DMARC p=reject, no SPF record at all: alignment fails, so the reject
    // policy is violated.
    let raw = b"From: user@strict.example\r\nDKIM-Signature: v=1;\r\n";
    let parsed = parse_email(raw).unwrap();

    let result = analyze_email(&parsed, &RejectingResolver);

    assert_eq!(result.verdict, Verdict::PolicyViolation);
    assert_eq!(result.evidence.alignment_ok, false);
    assert_eq!(result.evidence.spf_authorized, false);
}

#[test]
fn test_unauthenticated_no_evidence_at_all() {
    // Domain exists but has no SPF, no DMARC, and the message has no DKIM.
    let raw = b"From: user@bare.example\r\n";
    let parsed = parse_email(raw).unwrap();

    let result = analyze_email(&parsed, &RejectingResolver);

    assert_eq!(result.verdict, Verdict::Unauthenticated);
}

#[test]
fn test_missing_from_header() {
    // No From header: no domain, no evidence, invalid domain.
    let raw = b"Return-Path: <bounce@example.com>\r\n";
    let parsed = parse_email(raw).unwrap();

    let result = analyze_email(&parsed, &MockResolver);

    assert_eq!(result.verdict, Verdict::Suspicious);
    assert_eq!(result.evidence.from_domain, None);
    assert_eq!(result.evidence.domain_valid, false);
}

#[test]
fn test_analysis_idempotent() {
    // Re-running analysis on identical inputs against a deterministic
    // fetcher reproduces the result exactly.
    let raw = b"From: user@example.com\r\nDKIM-Signature: v=1; a=rsa-sha256;\r\n";
    let parsed = parse_email(raw).unwrap();

    let r1 = analyze_email(&parsed, &MockResolver);
    let r2 = analyze_email(&parsed, &MockResolver);

    assert_eq!(r1.verdict, r2.verdict);
    assert_eq!(r1.evidence.from_domain, r2.evidence.from_domain);
    assert_eq!(r1.evidence.spf_policy, r2.evidence.spf_policy);
    assert_eq!(r1.evidence.dmarc_policy, r2.evidence.dmarc_policy);
    assert_eq!(r1.evidence.spf_authorized, r2.evidence.spf_authorized);
    assert_eq!(r1.evidence.dkim_present, r2.evidence.dkim_present);
    assert_eq!(r1.evidence.alignment_ok, r2.evidence.alignment_ok);
    assert_eq!(r1.evidence.domain_valid, r2.evidence.domain_valid);
}
