//! The domain-level half of the verdict engine: the recursive SPF-chain
//! evaluator, the DKIM selector probe, and the decision table that reduces a
//! bare domain's records to a verdict.

use crate::dns::ResolverTrait;
use crate::text::{
    contains_str, spec_contains, spec_starts_with, spec_tokens, split_tokens, starts_with_str,
    str_eq, views_of,
};
use vstd::prelude::*;
use vstd::string::*;

verus! {

/// Hard bound on `include:` recursion: a chain this deep (or a cycle) is
/// treated as carrying no usable signal rather than as an error.
pub const MAX_SPF_DEPTH: usize = 10;

/// How strongly a bare domain's records vouch for it.
#[derive(Debug, PartialEq, Eq, Structural, Clone, Copy)]
pub enum DomainVerdict {
    Strong,
    Medium,
    Weak,
    Invalid,
}

/// Structured evaluation of SPF: which kinds of `all` mechanism were seen
/// anywhere in the resolved chain.
#[derive(Debug, PartialEq, Eq, Structural, Clone, Copy)]
pub struct SpfEvaluation {
    /// A `-all` token was found somewhere in the chain.
    pub has_strict_all: bool,
    /// A `~all` or `?all` token was found somewhere in the chain.
    pub has_soft_all: bool,
}

/// The zero evaluation: no signal found.
pub open spec fn spf_zero() -> SpfEvaluation {
    SpfEvaluation { has_strict_all: false, has_soft_all: false }
}

impl Default for SpfEvaluation {
    /// Both flags start false.
    fn default() -> (r: Self)
        ensures
            r == spf_zero(),
    {
        SpfEvaluation { has_strict_all: false, has_soft_all: false }
    }
}

/// The OR-reduction that merges a child chain's signals into its parent's.
pub open spec fn spf_or(a: SpfEvaluation, b: SpfEvaluation) -> SpfEvaluation {
    SpfEvaluation {
        has_strict_all: a.has_strict_all || b.has_strict_all,
        has_soft_all: a.has_soft_all || b.has_soft_all,
    }
}

/// What resolving `domain` against the record table `spf` yields with `fuel`
/// levels of recursion left: the zero value once fuel is exhausted or when
/// the domain has no record, otherwise the merged signals of its tokens.
pub open spec fn spec_spf_domain(
    spf: Map<Seq<char>, Seq<char>>,
    domain: Seq<char>,
    fuel: nat,
) -> SpfEvaluation
    decreases fuel, 2nat, 0nat,
{
    if fuel == 0 {
        spf_zero()
    } else if !spf.contains_key(domain) {
        spf_zero()
    } else {
        spec_spf_tokens(spf, spec_tokens(spf[domain]), fuel)
    }
}

/// The merged signals of a token list, left to right.
pub open spec fn spec_spf_tokens(
    spf: Map<Seq<char>, Seq<char>>,
    toks: Seq<Seq<char>>,
    fuel: nat,
) -> SpfEvaluation
    decreases fuel, 1nat, toks.len(),
{
    if toks.len() == 0 {
        spf_zero()
    } else {
        spf_or(spec_spf_token(spf, toks[0], fuel), spec_spf_tokens(spf, toks.skip(1), fuel))
    }
}

/// One token's contribution: the two `all` forms set their flag, an
/// `include:` token contributes its child chain's evaluation at one less
/// fuel, and every other mechanism is ignored.
pub open spec fn spec_spf_token(
    spf: Map<Seq<char>, Seq<char>>,
    tok: Seq<char>,
    fuel: nat,
) -> SpfEvaluation
    decreases fuel, 0nat, 0nat,
{
    if tok == "-all"@ {
        SpfEvaluation { has_strict_all: true, has_soft_all: false }
    } else if tok == "~all"@ || tok == "?all"@ {
        SpfEvaluation { has_strict_all: false, has_soft_all: true }
    } else if spec_starts_with(tok, "include:"@) && fuel > 0 {
        spec_spf_domain(spf, tok.skip("include:"@.len() as int), (fuel - 1) as nat)
    } else {
        spf_zero()
    }
}

/// Fuel remaining at `depth`: recursion stops where depth reaches the bound.
pub open spec fn fuel_at(depth: int) -> nat {
    if depth >= MAX_SPF_DEPTH {
        0
    } else {
        (MAX_SPF_DEPTH - depth) as nat
    }
}

/// The evaluation that the recursive SPF resolution of `domain` produces
/// when entered at `depth`, given the fetcher's SPF table.
pub open spec fn spec_evaluate_spf(
    spf: Map<Seq<char>, Seq<char>>,
    domain: Seq<char>,
    depth: int,
) -> SpfEvaluation {
    spec_spf_domain(spf, domain, fuel_at(depth))
}

/// Recursively resolves `domain`'s SPF record, walking `include:` chains to
/// the depth bound and merging every branch's signals. Absence of data at
/// any level degrades to the zero evaluation; no error is ever raised.
/// Scanning stops early once both flags are set — the contract shows this
/// cannot change the result, since no token can clear a flag.
pub fn resolve_spf_structured<R: ResolverTrait>(resolver: &R, domain: &str, depth: usize) -> (r:
    SpfEvaluation)
    ensures
        r == spec_evaluate_spf(resolver.model().spf, domain@, depth as int),
    decreases MAX_SPF_DEPTH - depth,
{
    if depth >= MAX_SPF_DEPTH {
        return SpfEvaluation::default();
    }
    let txt = match resolver.resolve_spf(domain) {
        Some(t) => t,
        None => {
            return SpfEvaluation::default();
        },
    };
    let toks = split_tokens(txt.as_str());
    let ghost m = resolver.model().spf;
    let ghost fuel = fuel_at(depth as int);
    let ghost tvs = views_of(toks@);
    let mut eval = SpfEvaluation::default();
    let n = toks.len();
    let mut i: usize = 0;
    proof {
        assert(tvs.skip(0) =~= tvs);
    }
    while i < n && !(eval.has_strict_all && eval.has_soft_all)
        invariant
            i <= n,
            n == toks.len(),
            tvs == views_of(toks@),
            depth < MAX_SPF_DEPTH,
            fuel == fuel_at(depth as int),
            fuel > 0,
            m == resolver.model().spf,
            spf_or(eval, spec_spf_tokens(m, tvs.skip(i as int), fuel)) == spec_spf_tokens(
                m,
                tvs,
                fuel,
            ),
        decreases n - i,
    {
        let ghost eval0 = eval;
        let tok: &String = &toks[i];
        proof {
            assert(tvs[i as int] == toks@[i as int]@);
            assert(tvs.skip(i as int)[0] == tvs[i as int]);
            assert(tvs.skip(i as int).skip(1) =~= tvs.skip(i as int + 1));
        }
        if str_eq(tok.as_str(), "-all") {
            eval.has_strict_all = true;
        } else if str_eq(tok.as_str(), "~all") || str_eq(tok.as_str(), "?all") {
            eval.has_soft_all = true;
        } else if starts_with_str(tok.as_str(), "include:") {
            proof {
                reveal_strlit("include:");
            }
            let tok_len = tok.as_str().unicode_len();
            let child = tok.as_str().substring_char(8, tok_len);
            proof {
                assert(child@ =~= tok@.skip("include:"@.len() as int));
            }
            let child_eval = resolve_spf_structured(resolver, child, depth + 1);
            proof {
                assert(fuel_at(depth as int + 1) == (fuel - 1) as nat);
            }
            eval.has_strict_all = eval.has_strict_all || child_eval.has_strict_all;
            eval.has_soft_all = eval.has_soft_all || child_eval.has_soft_all;
        } else {
            // any other mechanism carries no signal and is ignored
        }
        proof {
            assert(eval == spf_or(eval0, spec_spf_token(m, tvs[i as int], fuel)));
        }
        i = i + 1;
    }
    proof {
        if i == n {
            assert(tvs.skip(n as int) =~= Seq::<Seq<char>>::empty());
        }
    }
    eval
}

/// Law: a fetcher with no SPF record anywhere yields the zero evaluation for
/// every domain at every depth.
pub proof fn lemma_no_spf_records_zero(
    spf: Map<Seq<char>, Seq<char>>,
    domain: Seq<char>,
    depth: int,
)
    requires
        spf.dom() == Set::<Seq<char>>::empty(),
    ensures
        spec_evaluate_spf(spf, domain, depth) == spf_zero(),
{
    assert(!spf.dom().contains(domain));
}

/// Law: the OR-reduction is commutative, so two chains' signals may be
/// merged in either order.
pub proof fn lemma_spf_or_commutative(a: SpfEvaluation, b: SpfEvaluation)
    ensures
        spf_or(a, b) == spf_or(b, a),
{
}

/// Law: the OR-reduction is associative, so a record's children may be
/// merged in any grouping.
pub proof fn lemma_spf_or_associative(a: SpfEvaluation, b: SpfEvaluation, c: SpfEvaluation)
    ensures
        spf_or(spf_or(a, b), c) == spf_or(a, spf_or(b, c)),
{
}

/// Law: a token list evaluates to the merge of its parts: splitting it
/// anywhere and OR-ing the halves' evaluations gives the whole list's.
pub proof fn lemma_spf_tokens_concat(
    spf: Map<Seq<char>, Seq<char>>,
    a: Seq<Seq<char>>,
    b: Seq<Seq<char>>,
    fuel: nat,
)
    ensures
        spec_spf_tokens(spf, a + b, fuel) == spf_or(
            spec_spf_tokens(spf, a, fuel),
            spec_spf_tokens(spf, b, fuel),
        ),
    decreases a.len(),
{
    if a.len() == 0 {
        assert(a + b =~= b);
    } else {
        assert((a + b)[0] == a[0]);
        assert((a + b).skip(1) =~= a.skip(1) + b);
        lemma_spf_tokens_concat(spf, a.skip(1), b, fuel);
    }
}

/// Law: evaluating two groups of tokens in either order yields the same
/// final evaluation; with commutativity and associativity this makes the
/// result independent of the order in which `include:` children are merged.
pub proof fn lemma_spf_tokens_order(
    spf: Map<Seq<char>, Seq<char>>,
    a: Seq<Seq<char>>,
    b: Seq<Seq<char>>,
    fuel: nat,
)
    ensures
        spec_spf_tokens(spf, a + b, fuel) == spec_spf_tokens(spf, b + a, fuel),
{
    lemma_spf_tokens_concat(spf, a, b, fuel);
    lemma_spf_tokens_concat(spf, b, a, fuel);
}

/// A token list containing `-all` evaluates with the strict flag set,
/// whatever else it holds.
pub proof fn lemma_spf_tokens_strict(spf: Map<Seq<char>, Seq<char>>, toks: Seq<Seq<char>>, fuel: nat)
    requires
        toks.contains("-all"@),
    ensures
        spec_spf_tokens(spf, toks, fuel).has_strict_all,
    decreases toks.len(),
{
    let k = choose|k: int| 0 <= k < toks.len() && toks[k] == "-all"@;
    assert(0 <= k < toks.len());
    if toks[0] == "-all"@ {
        assert(spec_spf_token(spf, toks[0], fuel).has_strict_all);
    } else {
        assert(k >= 1);
        assert(toks.skip(1)[k - 1] == "-all"@);
        assert(toks.skip(1).contains("-all"@));
        lemma_spf_tokens_strict(spf, toks.skip(1), fuel);
    }
}

/// Law: walking a straight `include:` chain. `doms` is a chain of domains in
/// which each record is exactly `include:` followed by the next domain, and
/// the terminal record's tokens carry `-all`. Entered at `doms[i]` with
/// `fuel` levels left, the evaluation reports the strict flag when the
/// remaining chain fits in the fuel, and is the zero value otherwise —
/// truncation at the bound is silent, not an error.
pub proof fn lemma_spf_chain(spf: Map<Seq<char>, Seq<char>>, doms: Seq<Seq<char>>, i: int, fuel: nat)
    requires
        0 <= i < doms.len(),
        forall|k: int| 0 <= k < doms.len() - 1 ==> spf.contains_key(#[trigger] doms[k]),
        forall|k: int|
            0 <= k < doms.len() - 1 ==> spf[#[trigger] doms[k]] == "include:"@ + doms[k + 1],
        forall|k: int| 0 <= k < doms.len() ==> (#[trigger] doms[k]).len() > 0,
        forall|k: int, c: int|
            0 <= k < doms.len() && 0 <= c < doms[k].len() ==> !crate::text::is_space(
                #[trigger] doms[k][c],
            ),
        spf.contains_key(doms.last()),
        spec_tokens(spf[doms.last()]).contains("-all"@),
    ensures
        doms.len() - 1 - i < fuel ==> spec_spf_domain(spf, doms[i], fuel).has_strict_all,
        doms.len() - 1 - i >= fuel ==> spec_spf_domain(spf, doms[i], fuel) == spf_zero(),
    decreases fuel,
{
    reveal_strlit("include:");
    reveal_strlit("-all");
    reveal_strlit("~all");
    reveal_strlit("?all");
    if fuel == 0 {
    } else if i == doms.len() - 1 {
        lemma_spf_tokens_strict(spf, spec_tokens(spf[doms.last()]), fuel);
    } else {
        let rec = spf[doms[i]];
        let next = doms[i + 1];
        assert(rec == "include:"@ + next);
        assert(forall|c: int| 0 <= c < rec.len() ==> !crate::text::is_space(#[trigger] rec[c])) by {
            assert(forall|c: int|
                0 <= c < next.len() ==> !crate::text::is_space(#[trigger] next[c]));
            assert(forall|c: int|
                0 <= c < rec.len() && c >= 8 ==> #[trigger] rec[c] == next[c - 8]);
        }
        crate::text::lemma_tokens_single(rec);
        assert(spec_tokens(rec) == seq![rec]);
        let toks = seq![rec];
        assert(toks[0] == rec);
        assert(toks.skip(1) =~= Seq::<Seq<char>>::empty());
        assert(rec != "-all"@ && rec != "~all"@ && rec != "?all"@) by {
            assert(rec.len() == 8 + next.len());
        }
        assert(spec_starts_with(rec, "include:"@)) by {
            assert(rec.subrange(0, 8) =~= "include:"@);
        }
        assert(rec.skip("include:"@.len() as int) =~= next);
        lemma_spf_chain(spf, doms, i + 1, (fuel - 1) as nat);
        assert(spec_spf_domain(spf, doms[i], fuel) == spf_or(
            spec_spf_domain(spf, next, (fuel - 1) as nat),
            spf_zero(),
        ));
    }
}

/// Law: a straight `include:` chain entered at its head at depth zero
/// reports the strict flag when the whole chain fits under the depth limit,
/// and evaluates to the zero value when it does not.
pub proof fn lemma_spf_chain_top(spf: Map<Seq<char>, Seq<char>>, doms: Seq<Seq<char>>)
    requires
        doms.len() >= 1,
        forall|k: int| 0 <= k < doms.len() - 1 ==> spf.contains_key(#[trigger] doms[k]),
        forall|k: int|
            0 <= k < doms.len() - 1 ==> spf[#[trigger] doms[k]] == "include:"@ + doms[k + 1],
        forall|k: int| 0 <= k < doms.len() ==> (#[trigger] doms[k]).len() > 0,
        forall|k: int, c: int|
            0 <= k < doms.len() && 0 <= c < doms[k].len() ==> !crate::text::is_space(
                #[trigger] doms[k][c],
            ),
        spf.contains_key(doms.last()),
        spec_tokens(spf[doms.last()]).contains("-all"@),
    ensures
        doms.len() <= MAX_SPF_DEPTH ==> spec_evaluate_spf(spf, doms[0], 0).has_strict_all,
        doms.len() > MAX_SPF_DEPTH ==> spec_evaluate_spf(spf, doms[0], 0) == spf_zero(),
{
    lemma_spf_chain(spf, doms, 0, fuel_at(0));
}

/// The decision table for a bare domain: nonexistence is `Invalid`
/// unconditionally; otherwise a `p=reject` DMARC policy together with a
/// strict SPF `all` is `Strong`, `p=reject` alone or a soft SPF `all` is
/// `Medium`, and anything else is `Weak`. A `p=quarantine` policy is
/// deliberately not consulted: a domain with only a quarantine policy falls
/// through to `Weak`.
pub open spec fn spec_domain_verdict(
    exists: bool,
    spf: SpfEvaluation,
    dmarc: Option<Seq<char>>,
) -> DomainVerdict {
    if !exists {
        DomainVerdict::Invalid
    } else {
        let text = match dmarc {
            Some(t) => t,
            None => Seq::empty(),
        };
        let dmarc_strong = spec_contains(text, "p=reject"@);
        if spf.has_strict_all && dmarc_strong {
            DomainVerdict::Strong
        } else if dmarc_strong {
            DomainVerdict::Medium
        } else if spf.has_soft_all {
            DomainVerdict::Medium
        } else {
            DomainVerdict::Weak
        }
    }
}

/// The view of an optional borrowed record text.
pub open spec fn opt_str_view(o: Option<&str>) -> Option<Seq<char>> {
    match o {
        Some(t) => Some(t@),
        None => None,
    }
}

/// Computes the verdict for a bare domain from its existence, its structured
/// SPF evaluation and its raw DMARC record text.
pub fn calculate_domain_verdict(exists: bool, spf_eval: &SpfEvaluation, dmarc: Option<&str>) -> (r:
    DomainVerdict)
    ensures
        r == spec_domain_verdict(exists, *spf_eval, opt_str_view(dmarc)),
{
    if !exists {
        return DomainVerdict::Invalid;
    }
    let dmarc_policy: &str = match dmarc {
        Some(t) => t,
        None => "",
    };
    proof {
        reveal_strlit("");
        if dmarc is None {
            assert(dmarc_policy@ =~= Seq::<char>::empty());
        }
    }
    let dmarc_strong = contains_str(dmarc_policy, "p=reject");
    if spf_eval.has_strict_all && dmarc_strong {
        DomainVerdict::Strong
    } else if dmarc_strong {
        DomainVerdict::Medium
    } else if spf_eval.has_soft_all {
        DomainVerdict::Medium
    } else {
        DomainVerdict::Weak
    }
}

/// Law: a domain that does not exist is `Invalid`, whatever its SPF
/// evaluation and DMARC text say.
pub proof fn lemma_nonexistent_is_invalid(spf: SpfEvaluation, dmarc: Option<Seq<char>>)
    ensures
        spec_domain_verdict(false, spf, dmarc) == DomainVerdict::Invalid,
{
}

/// The TXT name probed for a DKIM selector: `<selector>._domainkey.<domain>`.
pub open spec fn spec_dkim_name(sel: Seq<char>, domain: Seq<char>) -> Seq<char> {
    sel + "._domainkey."@ + domain
}

/// Whether any selector of the allow-list has a TXT record for `domain`.
pub open spec fn spec_dkim_found(txt: Set<Seq<char>>, domain: Seq<char>) -> bool {
    ||| txt.contains(spec_dkim_name("default"@, domain))
    ||| txt.contains(spec_dkim_name("google"@, domain))
    ||| txt.contains(spec_dkim_name("selector1"@, domain))
    ||| txt.contains(spec_dkim_name("selector2"@, domain))
}

/// Probes one selector name for a TXT record.
fn probe_selector<R: ResolverTrait>(resolver: &R, selector: &str, domain: &str) -> (r: bool)
    ensures
        r == resolver.model().txt.contains(spec_dkim_name(selector@, domain@)),
{
    let name = selector.to_owned().concat("._domainkey.").concat(domain);
    resolver.resolve_txt(name.as_str()).is_some()
}

/// Checks DKIM selector presence: probes a small fixed allow-list of common
/// selector names and reports whether any of them has a TXT record.
pub fn resolve_dkim<R: ResolverTrait>(resolver: &R, domain: &str) -> (r: bool)
    ensures
        r == spec_dkim_found(resolver.model().txt, domain@),
{
    if probe_selector(resolver, "default", domain) {
        return true;
    }
    if probe_selector(resolver, "google", domain) {
        return true;
    }
    if probe_selector(resolver, "selector1", domain) {
        return true;
    }
    if probe_selector(resolver, "selector2", domain) {
        return true;
    }
    false
}

} // verus!
