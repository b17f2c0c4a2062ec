use email_spoof_detector::parse::{extract_domain, parse_email, ParseError};

#[test]
fn test_extract_domain_basic() {
    let email = Some("user@example.com");
    let domain = extract_domain(email);
    assert_eq!(domain, Some("example.com".to_string()));
}

#[test]
fn test_extract_domain_with_angle_brackets() {
    let email = Some("<user@sub.example.org>");
    let domain = extract_domain(email);
    assert_eq!(domain, Some("sub.example.org".to_string()));
}

#[test]
fn test_extract_domain_none() {
    let email: Option<&str> = None;
    let domain = extract_domain(email);
    assert_eq!(domain, None);
}

#[test]
fn test_extract_domain_no_at_sign() {
    let domain = extract_domain(Some("not-an-address"));
    assert_eq!(domain, None);
}

#[test]
fn test_extract_domain_second_segment() {
    let domain = extract_domain(Some("a@b@c"));
    assert_eq!(domain, Some("b".to_string()));
}

#[test]
fn test_extract_domain_punycode() {
    let domain = extract_domain(Some("user@b\u{fc}cher.de"));
    assert_eq!(domain, Some("xn--bcher-kva.de".to_string()));
}

#[test]
fn test_extract_domain_ascii_normalized() {
    let domain = extract_domain(Some("user@EXAMPLE.COM"));
    assert_eq!(domain, Some("example.com".to_string()));
}

#[test]
fn test_parse_email_simple() {
    let raw = b"From: test@example.com\r\nReturn-Path: <bounce@example.com>\r\n";
    let parsed = parse_email(raw).unwrap();
    assert_eq!(parsed.from.unwrap(), "test@example.com");
    assert_eq!(parsed.return_path.unwrap(), "<bounce@example.com>");
    assert!(!parsed.dkim_present);
}

#[test]
fn test_parse_email_with_dkim() {
    let raw = b"From: test@example.com\r\nDKIM-Signature: v=1; a=rsa-sha256;\r\n";
    let parsed = parse_email(raw).unwrap();
    assert!(parsed.dkim_present);
}

#[test]
fn test_parse_email_malformed_is_error() {
    let raw = b" overhanging line with no header before it\r\n";
    let result = parse_email(raw);
    assert!(matches!(result, Err(ParseError)));
}
