//! The record-fetcher seam. DNS lookups are an external collaborator: this
//! trait is the one interface the verdict engine consumes, so a real resolver
//! (outside this library) and deterministic stand-ins (in tests) are
//! interchangeable.

use vstd::prelude::*;

verus! {

/// The specification-level image of a record fetcher: the immutable tables
/// it answers from.
pub struct ResolverModel {
    /// The SPF record text of each domain that has one (the first TXT
    /// record beginning with `v=spf1`).
    pub spf: Map<Seq<char>, Seq<char>>,
    /// The DMARC record text of each domain that has one (the first TXT
    /// record at `_dmarc.<domain>` beginning with `v=DMARC1`).
    pub dmarc: Map<Seq<char>, Seq<char>>,
    /// The domains that exist: an A/AAAA or MX lookup gets an answer.
    pub exists: Set<Seq<char>>,
    /// The domains that have MX records.
    pub mx: Set<Seq<char>>,
    /// The names that have at least one TXT record.
    pub txt: Set<Seq<char>>,
}

/// A source of sender-authentication records for domains.
///
/// The specification models an implementation as a set of immutable record
/// tables. Each query method promises to answer consistently with those
/// tables, and every verified caller states its own result against the same
/// tables. Lookup failure is absence: a name whose lookup fails has no
/// record and does not exist, and no query ever raises an error into the
/// verdict logic. Implementations outside the library (a live resolver, a
/// test stand-in) give `model` a body that is never run; what is proved
/// through this trait holds of an implementation in so far as its answers
/// fit some fixed set of tables.
pub trait ResolverTrait {
    /// The record tables this fetcher answers from.
    spec fn model(&self) -> ResolverModel;

    /// The SPF record of `domain`, if it has one.
    fn resolve_spf(&self, domain: &str) -> (r: Option<String>)
        ensures
            (match r {
                Some(t) => self.model().spf.contains_key(domain@) && t@
                    == self.model().spf[domain@],
                None => !self.model().spf.contains_key(domain@),
            }),
    ;

    /// The DMARC record of `domain`, if it has one.
    fn resolve_dmarc(&self, domain: &str) -> (r: Option<String>)
        ensures
            (match r {
                Some(t) => self.model().dmarc.contains_key(domain@) && t@
                    == self.model().dmarc[domain@],
                None => !self.model().dmarc.contains_key(domain@),
            }),
    ;

    /// Whether `domain` exists (has A, AAAA, or MX records). Invalid input
    /// yields `false`, never an error.
    fn domain_exists(&self, domain: &str) -> (r: bool)
        ensures
            r == self.model().exists.contains(domain@),
    ;

    /// Whether `domain` has MX records.
    fn resolve_mx(&self, domain: &str) -> (r: bool)
        ensures
            r == self.model().mx.contains(domain@),
    ;

    /// All TXT record strings of `name`, or `None` when it has none. Only
    /// presence is promised; the strings themselves carry no specification.
    fn resolve_txt(&self, name: &str) -> (r: Option<Vec<String>>)
        ensures
            r is Some <==> self.model().txt.contains(name@),
    ;
}

} // verus!
