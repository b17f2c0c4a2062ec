//! The message reader: header extraction from raw message bytes, and domain
//! extraction from a `From` address. Raw MIME parsing and IDNA conversion
//! are done by outside code behind trusted wrappers; the splitting, trimming
//! and fallback logic around them is verified.

use crate::text::{
    lemma_leading_count_is, not_at_pred, leading_count, spec_trim, spec_trim_end_gt, trim_end_gt_str,
    trim_str,
};
use mailparse::MailHeaderMap;
use vstd::prelude::*;
use vstd::string::*;

verus! {

/// The view of an optional owned string.
pub open spec fn opt_string_view(o: Option<String>) -> Option<Seq<char>> {
    match o {
        Some(s) => Some(s@),
        None => None,
    }
}

/// Raw message bytes that do not form a well-formed message envelope.
#[derive(Debug, PartialEq, Eq, Structural, Clone, Copy)]
pub struct ParseError;

/// Parsed email with extracted headers.
#[derive(Debug)]
pub struct EmailParsed {
    /// First `From` header value, if present.
    pub from: Option<String>,
    /// First `Return-Path` header value, if present.
    pub return_path: Option<String>,
    /// First `Authentication-Results` header value, if present.
    pub auth_results: Option<String>,
    /// Whether a `DKIM-Signature` header is present.
    pub dkim_present: bool,
}

/// The specification-level image of a parsed message.
pub struct EmailParsedView {
    pub from: Option<Seq<char>>,
    pub return_path: Option<Seq<char>>,
    pub auth_results: Option<Seq<char>>,
    pub dkim_present: bool,
}

impl View for EmailParsed {
    type V = EmailParsedView;

    open spec fn view(&self) -> EmailParsedView {
        EmailParsedView {
            from: opt_string_view(self.from),
            return_path: opt_string_view(self.return_path),
            auth_results: opt_string_view(self.auth_results),
            dkim_present: self.dkim_present,
        }
    }
}

/// Whether raw bytes parse as a message envelope.
pub uninterp spec fn mail_parses(raw: Seq<u8>) -> bool;

/// The first value of the header named `key` in a well-formed message.
pub uninterp spec fn mail_header(raw: Seq<u8>, key: Seq<char>) -> Option<Seq<char>>;

#[verifier::external_type_specification]
#[verifier::external_body]
pub struct ExMailParseError(mailparse::MailParseError);

/// Relies on mailparse::parse_mail and MailHeaderMap::get_first_value:
/// whether the bytes parse, and each header's first value, depend on the
/// input bytes and the header name alone.
#[verifier::external_body]
fn read_header(raw: &[u8], key: &str) -> (r: Result<Option<String>, mailparse::MailParseError>)
    ensures
        r is Ok <==> mail_parses(raw@),
        (match r {
            Ok(v) => opt_string_view(v) == mail_header(raw@, key@),
            Err(_) => true,
        }),
{
    let m = mailparse::parse_mail(raw)?;
    Ok(m.headers.get_first_value(key))
}

/// The headers of a well-formed raw message, as the message reader reports
/// them.
pub open spec fn spec_parsed_mail(raw: Seq<u8>) -> EmailParsedView {
    EmailParsedView {
        from: mail_header(raw, "From"@),
        return_path: mail_header(raw, "Return-Path"@),
        auth_results: mail_header(raw, "Authentication-Results"@),
        dkim_present: mail_header(raw, "DKIM-Signature"@) is Some,
    }
}

/// Reads the headers out of raw message bytes. Fails exactly when the bytes
/// are not a well-formed message; an absent optional header is never a
/// failure.
pub fn parse_email(raw: &[u8]) -> (r: Result<EmailParsed, ParseError>)
    ensures
        r is Ok <==> mail_parses(raw@),
        (match r {
            Ok(p) => p@ == spec_parsed_mail(raw@),
            Err(_) => true,
        }),
{
    let from = match read_header(raw, "From") {
        Ok(v) => v,
        Err(_) => {
            return Err(ParseError);
        },
    };
    let return_path = match read_header(raw, "Return-Path") {
        Ok(v) => v,
        Err(_) => {
            return Err(ParseError);
        },
    };
    let auth_results = match read_header(raw, "Authentication-Results") {
        Ok(v) => v,
        Err(_) => {
            return Err(ParseError);
        },
    };
    let dkim = match read_header(raw, "DKIM-Signature") {
        Ok(v) => v,
        Err(_) => {
            return Err(ParseError);
        },
    };
    Ok(EmailParsed { from, return_path, auth_results, dkim_present: dkim.is_some() })
}

/// The ASCII (Punycode) form of a domain, where the IDNA conversion
/// succeeds.
pub uninterp spec fn idna_ascii(domain: Seq<char>) -> Option<Seq<char>>;

/// Relies on idna::domain_to_ascii: the ASCII form of a domain, and whether
/// the conversion succeeds, depend on the input characters alone.
#[verifier::external_body]
fn domain_to_ascii(domain: &str) -> (r: Option<String>)
    ensures
        r is Some <==> idna_ascii(domain@) is Some,
        (match r {
            Some(t) => idna_ascii(domain@) == Some(t@),
            None => true,
        }),
{
    idna::domain_to_ascii(domain).ok()
}

/// The fragment between the first `@` of an address and the next `@` (or
/// the end), trimmed of whitespace and trailing `>`.
pub open spec fn spec_domain_fragment(s: Seq<char>) -> Option<Seq<char>> {
    let i = leading_count(s, not_at_pred()) as int;
    if i == s.len() {
        None
    } else {
        let rest = s.skip(i + 1);
        let seg = rest.take(leading_count(rest, not_at_pred()) as int);
        Some(spec_trim(spec_trim_end_gt(spec_trim(seg))))
    }
}

/// The domain a `From` address names: its cleaned fragment after the first
/// `@`, in ASCII form where the IDNA conversion succeeds and unchanged where
/// it fails; absent when there is no address or no `@`.
pub open spec fn spec_extract_domain(from: Option<Seq<char>>) -> Option<Seq<char>> {
    match from {
        None => None,
        Some(s) => match spec_domain_fragment(s) {
            None => None,
            Some(frag) => match idna_ascii(frag) {
                Some(a) => Some(a),
                None => Some(frag),
            },
        },
    }
}

/// Extracts the domain from an email address, normalized to ASCII.
pub fn extract_domain(from: Option<&str>) -> (r: Option<String>)
    ensures
        opt_string_view(r) == spec_extract_domain(crate::domain_verdict::opt_str_view(from)),
{
    let f = match from {
        Some(f) => f,
        None => {
            return None;
        },
    };
    let len = f.unicode_len();
    let mut i: usize = 0;
    while i < len && f.get_char(i) != '@'
        invariant
            i <= len,
            len == f@.len(),
            forall|k: int| 0 <= k < i ==> #[trigger] f@[k] != '@',
        decreases len - i,
    {
        i = i + 1;
    }
    proof {
        lemma_leading_count_is(f@, not_at_pred(), i as int);
    }
    if i == len {
        return None;
    }
    let mut j: usize = i + 1;
    while j < len && f.get_char(j) != '@'
        invariant
            i + 1 <= j <= len,
            len == f@.len(),
            forall|k: int| i + 1 <= k < j ==> #[trigger] f@[k] != '@',
        decreases len - j,
    {
        j = j + 1;
    }
    let seg = f.substring_char(i + 1, j);
    proof {
        let rest = f@.skip(i + 1);
        assert(forall|k: int| 0 <= k < rest.len() ==> #[trigger] rest[k] == f@[k + i + 1]);
        lemma_leading_count_is(rest, not_at_pred(), j - (i + 1));
        assert(seg@ =~= rest.take(j - (i + 1)));
    }
    let frag = trim_str(trim_end_gt_str(trim_str(seg)));
    match domain_to_ascii(frag) {
        Some(a) => Some(a),
        None => Some(frag.to_owned()),
    }
}

} // verus!
