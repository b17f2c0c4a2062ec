//! The message-level half of the verdict engine: reduces the full evidence
//! set — domain validity, SPF, DMARC, DKIM presence and alignment — to a
//! verdict, and gathers that evidence for a parsed message.

use crate::dns::ResolverTrait;
use crate::parse::{opt_string_view, spec_extract_domain, EmailParsed, EmailParsedView};
use crate::text::{contains_str, spec_contains};
use vstd::prelude::*;

verus! {

/// The final classification of a message after analysis.
///
/// - `Authenticated` – the message passes the checks and aligns with the
///   claimed domain.
/// - `PolicyViolation` – the message violates the domain's DMARC policy.
/// - `Unauthenticated` – nothing vouches for the message (no SPF, DMARC or
///   DKIM evidence at all).
/// - `Suspicious` – the evidence is inconsistent, but not conclusive.
/// - `Indeterminate` – reserved for malformed or missing data; the decision
///   table never produces it for the inputs it is given.
#[derive(Debug, PartialEq, Eq, Structural, Clone, Copy)]
pub enum Verdict {
    Authenticated,
    PolicyViolation,
    Unauthenticated,
    Suspicious,
    Indeterminate,
}

/// The individual evidence collected from a message and its domain's
/// records: the raw extracted data together with the computed indicators
/// that drive the verdict.
#[derive(Debug)]
pub struct Evidence {
    /// The domain extracted from the message's `From` header.
    pub from_domain: Option<String>,
    /// The SPF record retrieved for the sender domain, if available.
    pub spf_policy: Option<String>,
    /// The DMARC record retrieved for the sender domain, if available.
    pub dmarc_policy: Option<String>,
    /// Whether the SPF policy authorizes the sender (the same proxy signal
    /// as `alignment_ok`).
    pub spf_authorized: bool,
    /// Whether a DKIM signature header is present in the message.
    pub dkim_present: bool,
    /// Whether the sender domain's SPF policy hard-fails unlisted senders —
    /// a simplified proxy for DMARC alignment, not a full alignment check.
    pub alignment_ok: bool,
    /// Whether the sender domain exists at all.
    pub domain_valid: bool,
}

/// The specification-level image of the evidence.
pub struct EvidenceView {
    pub from_domain: Option<Seq<char>>,
    pub spf_policy: Option<Seq<char>>,
    pub dmarc_policy: Option<Seq<char>>,
    pub spf_authorized: bool,
    pub dkim_present: bool,
    pub alignment_ok: bool,
    pub domain_valid: bool,
}

impl View for Evidence {
    type V = EvidenceView;

    open spec fn view(&self) -> EvidenceView {
        EvidenceView {
            from_domain: opt_string_view(self.from_domain),
            spf_policy: opt_string_view(self.spf_policy),
            dmarc_policy: opt_string_view(self.dmarc_policy),
            spf_authorized: self.spf_authorized,
            dkim_present: self.dkim_present,
            alignment_ok: self.alignment_ok,
            domain_valid: self.domain_valid,
        }
    }
}

/// The result of analyzing a message: a verdict and the evidence that
/// produced it.
#[derive(Debug)]
pub struct AnalysisResult {
    /// The final classification of the message.
    pub verdict: Verdict,
    /// Detailed evidence supporting the verdict.
    pub evidence: Evidence,
}

/// The specification-level image of an analysis result.
pub struct AnalysisResultView {
    pub verdict: Verdict,
    pub evidence: EvidenceView,
}

impl View for AnalysisResult {
    type V = AnalysisResultView;

    open spec fn view(&self) -> AnalysisResultView {
        AnalysisResultView { verdict: self.verdict, evidence: self.evidence@ }
    }
}

/// The message-level decision table, in priority order: an invalid domain
/// is `Suspicious`; a `p=reject` DMARC policy without alignment is
/// `PolicyViolation`; no SPF, no DMARC and no DKIM is `Unauthenticated`;
/// DKIM presence together with alignment is `Authenticated`; anything else
/// is `Suspicious`.
pub open spec fn spec_decide_verdict(
    spf: Option<Seq<char>>,
    dmarc: Option<Seq<char>>,
    dkim_present: bool,
    alignment_ok: bool,
    domain_valid: bool,
) -> Verdict {
    if !domain_valid {
        Verdict::Suspicious
    } else {
        let reject_violated = match dmarc {
            Some(d) => spec_contains(d, "p=reject"@) && !alignment_ok,
            None => false,
        };
        if reject_violated {
            Verdict::PolicyViolation
        } else if spf is None && dmarc is None && !dkim_present {
            Verdict::Unauthenticated
        } else if dkim_present && alignment_ok {
            Verdict::Authenticated
        } else {
            Verdict::Suspicious
        }
    }
}

/// Reduces the evidence set to a verdict. The `From` domain itself carries
/// no weight beyond having produced the other evidence.
pub fn decide_verdict(
    from_domain: &Option<String>,
    spf: &Option<String>,
    dmarc: &Option<String>,
    dkim_present: bool,
    alignment_ok: bool,
    domain_valid: bool,
) -> (r: Verdict)
    ensures
        r == spec_decide_verdict(
            opt_string_view(*spf),
            opt_string_view(*dmarc),
            dkim_present,
            alignment_ok,
            domain_valid,
        ),
{
    let _ = from_domain;
    if !domain_valid {
        return Verdict::Suspicious;
    }
    if let Some(dmarc_policy) = dmarc {
        if contains_str(dmarc_policy.as_str(), "p=reject") && !alignment_ok {
            return Verdict::PolicyViolation;
        }
    }
    if spf.is_none() && dmarc.is_none() && !dkim_present {
        return Verdict::Unauthenticated;
    }
    if dkim_present && alignment_ok {
        return Verdict::Authenticated;
    }
    Verdict::Suspicious
}

/// What analyzing a parsed message against the fetcher's tables produces:
/// every evidence field and the verdict, as a function of the message's
/// headers and the record tables alone.
pub open spec fn spec_analyze(
    parsed: EmailParsedView,
    spf: Map<Seq<char>, Seq<char>>,
    dmarc: Map<Seq<char>, Seq<char>>,
    exists: Set<Seq<char>>,
) -> AnalysisResultView {
    let from_domain = spec_extract_domain(parsed.from);
    let spf_policy = match from_domain {
        Some(d) => if spf.contains_key(d) {
            Some(spf[d])
        } else {
            None
        },
        None => None,
    };
    let dmarc_policy = match from_domain {
        Some(d) => if dmarc.contains_key(d) {
            Some(dmarc[d])
        } else {
            None
        },
        None => None,
    };
    let domain_valid = match from_domain {
        Some(d) => exists.contains(d),
        None => false,
    };
    let alignment_ok = match (from_domain, spf_policy) {
        (Some(_), Some(p)) => spec_contains(p, "-all"@),
        _ => false,
    };
    AnalysisResultView {
        verdict: spec_decide_verdict(
            spf_policy,
            dmarc_policy,
            parsed.dkim_present,
            alignment_ok,
            domain_valid,
        ),
        evidence: EvidenceView {
            from_domain,
            spf_policy,
            dmarc_policy,
            spf_authorized: alignment_ok,
            dkim_present: parsed.dkim_present,
            alignment_ok,
            domain_valid,
        },
    }
}

/// Analyzes a parsed message: extracts the sender domain, fetches its SPF
/// and DMARC records and its existence, computes the alignment proxy, and
/// reduces everything to a verdict with its evidence. Absence of DNS data is
/// evidence, never an error.
pub fn analyze_email<R: ResolverTrait>(parsed: &EmailParsed, dns: &R) -> (r: AnalysisResult)
    ensures
        r@ == spec_analyze(parsed@, dns.model().spf, dns.model().dmarc, dns.model().exists),
{
    let from_ref: Option<&str> = match &parsed.from {
        Some(s) => Some(s.as_str()),
        None => None,
    };
    let from_domain = crate::parse::extract_domain(from_ref);

    let spf_policy: Option<String> = match &from_domain {
        Some(d) => dns.resolve_spf(d.as_str()),
        None => None,
    };
    let dmarc_policy: Option<String> = match &from_domain {
        Some(d) => dns.resolve_dmarc(d.as_str()),
        None => None,
    };
    let domain_valid: bool = match &from_domain {
        Some(d) => dns.domain_exists(d.as_str()),
        None => false,
    };
    let alignment_ok: bool = match (&from_domain, &spf_policy) {
        (Some(_), Some(p)) => contains_str(p.as_str(), "-all"),
        _ => false,
    };
    let spf_authorized = alignment_ok;
    let dkim_present = parsed.dkim_present;

    let verdict = decide_verdict(
        &from_domain,
        &spf_policy,
        &dmarc_policy,
        dkim_present,
        alignment_ok,
        domain_valid,
    );

    AnalysisResult {
        verdict,
        evidence: Evidence {
            from_domain,
            spf_policy,
            dmarc_policy,
            spf_authorized,
            dkim_present,
            alignment_ok,
            domain_valid,
        },
    }
}

/// Law: analysis is deterministic. Any two results that satisfy the
/// analysis relation for the same parsed message and the same fetcher
/// tables are identical, so re-running analysis on identical inputs against
/// a deterministic fetcher reproduces the same result.
pub proof fn lemma_analyze_deterministic(
    a: AnalysisResultView,
    b: AnalysisResultView,
    parsed: EmailParsedView,
    spf: Map<Seq<char>, Seq<char>>,
    dmarc: Map<Seq<char>, Seq<char>>,
    exists: Set<Seq<char>>,
)
    requires
        a == spec_analyze(parsed, spf, dmarc, exists),
        b == spec_analyze(parsed, spf, dmarc, exists),
    ensures
        a == b,
{
}

} // verus!
