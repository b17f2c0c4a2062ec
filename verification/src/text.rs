//! Verified string utilities: character classification, equality, substring
//! search, prefix tests and whitespace tokenization, each specified over the
//! `Seq<char>` view of the string it works on.

use vstd::prelude::*;
use vstd::string::*;

verus! {

/// The whitespace characters recognized when a record is split into tokens
/// and when an address fragment is trimmed.
pub open spec fn is_space(c: char) -> bool {
    c == ' ' || c == '\t' || c == '\n' || c == '\r'
}

/// Executable test matching `is_space`.
pub fn char_is_space(c: char) -> (r: bool)
    ensures
        r == is_space(c),
{
    c == ' ' || c == '\t' || c == '\n' || c == '\r'
}

/// Whether two string slices hold the same sequence of characters.
pub fn str_eq(a: &str, b: &str) -> (r: bool)
    ensures
        r == (a@ == b@),
{
    let alen = a.unicode_len();
    let blen = b.unicode_len();
    if alen != blen {
        return false;
    }
    let mut i: usize = 0;
    while i < alen
        invariant
            i <= alen,
            alen == a@.len(),
            alen == b@.len(),
            forall|k: int| 0 <= k < i ==> a@[k] == b@[k],
        decreases alen - i,
    {
        if a.get_char(i) != b.get_char(i) {
            return false;
        }
        i = i + 1;
    }
    proof {
        assert(a@ =~= b@);
    }
    true
}

/// Whether `n` occurs in `h` starting at position `i`.
fn match_at(h: &str, n: &str, i: usize, hlen: usize, nlen: usize) -> (r: bool)
    requires
        hlen == h@.len(),
        nlen == n@.len(),
        i + nlen <= hlen,
    ensures
        r == (h@.subrange(i as int, i + nlen) == n@),
{
    let mut j: usize = 0;
    while j < nlen
        invariant
            j <= nlen,
            hlen == h@.len(),
            nlen == n@.len(),
            i + nlen <= hlen,
            forall|k: int| 0 <= k < j ==> h@[i + k] == n@[k],
        decreases nlen - j,
    {
        if h.get_char(i + j) != n.get_char(j) {
            proof {
                let s = h@.subrange(i as int, i + nlen);
                assert(s[j as int] == h@[i + j]);
            }
            return false;
        }
        j = j + 1;
    }
    proof {
        assert(h@.subrange(i as int, i + nlen) =~= n@);
    }
    true
}

/// Whether `n` occurs somewhere in `h` as a contiguous substring.
pub open spec fn spec_contains(h: Seq<char>, n: Seq<char>) -> bool {
    exists|i: int| 0 <= i <= h.len() - n.len() && #[trigger] h.subrange(i, i + n.len()) == n
}

/// Executable substring search matching `spec_contains`.
pub fn contains_str(h: &str, n: &str) -> (r: bool)
    ensures
        r == spec_contains(h@, n@),
{
    let hlen = h.unicode_len();
    let nlen = n.unicode_len();
    if nlen > hlen {
        return false;
    }
    if nlen == 0 {
        proof {
            assert(h@.subrange(0, 0 + n@.len() as int) =~= n@);
        }
        return true;
    }
    let mut i: usize = 0;
    while i <= hlen - nlen
        invariant
            0 < nlen <= hlen,
            hlen == h@.len(),
            nlen == n@.len(),
            i <= hlen - nlen + 1,
            forall|ii: int| 0 <= ii < i ==> #[trigger] h@.subrange(ii, ii + nlen) != n@,
        decreases hlen - nlen - i + 1,
    {
        if match_at(h, n, i, hlen, nlen) {
            assert(spec_contains(h@, n@)) by {
                assert(h@.subrange(i as int, i + nlen) == n@);
            }
            return true;
        }
        i = i + 1;
    }
    assert(!spec_contains(h@, n@)) by {
        assert forall|ii: int| 0 <= ii <= h@.len() - n@.len() implies #[trigger] h@.subrange(
            ii,
            ii + n@.len(),
        ) != n@ by {
            assert(ii < i);
        }
    }
    false
}

/// Whether `p` is a prefix of `s`.
pub open spec fn spec_starts_with(s: Seq<char>, p: Seq<char>) -> bool {
    s.len() >= p.len() && s.subrange(0, p.len() as int) == p
}

/// Executable prefix test matching `spec_starts_with`.
pub fn starts_with_str(s: &str, p: &str) -> (r: bool)
    ensures
        r == spec_starts_with(s@, p@),
{
    let slen = s.unicode_len();
    let plen = p.unicode_len();
    if plen > slen {
        return false;
    }
    match_at(s, p, 0, slen, plen)
}

/// Length of the leading run of characters satisfying `p`.
pub open spec fn leading_count(s: Seq<char>, p: spec_fn(char) -> bool) -> nat
    decreases s.len(),
{
    if s.len() == 0 || !p(s[0]) {
        0
    } else {
        1 + leading_count(s.skip(1), p)
    }
}

/// Length of the trailing run of characters satisfying `p`.
pub open spec fn trailing_count(s: Seq<char>, p: spec_fn(char) -> bool) -> nat
    decreases s.len(),
{
    if s.len() == 0 || !p(s.last()) {
        0
    } else {
        1 + trailing_count(s.drop_last(), p)
    }
}

pub proof fn lemma_leading_count_is(s: Seq<char>, p: spec_fn(char) -> bool, a: int)
    requires
        0 <= a <= s.len(),
        forall|k: int| 0 <= k < a ==> p(#[trigger] s[k]),
        a == s.len() || !p(s[a]),
    ensures
        leading_count(s, p) == a,
    decreases a,
{
    if a == 0 {
    } else {
        assert(s[0] == s[0]);
        lemma_leading_count_is(s.skip(1), p, a - 1);
        assert(forall|k: int| 0 <= k < s.skip(1).len() ==> #[trigger] s.skip(1)[k] == s[k + 1]);
    }
}

pub proof fn lemma_trailing_count_is(s: Seq<char>, p: spec_fn(char) -> bool, b: int)
    requires
        0 <= b <= s.len(),
        forall|k: int| b <= k < s.len() ==> p(#[trigger] s[k]),
        b == 0 || !p(s[b - 1]),
    ensures
        trailing_count(s, p) == s.len() - b,
    decreases s.len(),
{
    if b == s.len() {
        if s.len() > 0 {
            assert(!p(s.last()) || b == 0);
        }
    } else {
        assert(p(s.last()));
        let d = s.drop_last();
        assert(forall|k: int| 0 <= k < d.len() ==> #[trigger] d[k] == s[k]);
        lemma_trailing_count_is(d, p, b);
    }
}

pub proof fn lemma_leading_count_le(s: Seq<char>, p: spec_fn(char) -> bool)
    ensures
        leading_count(s, p) <= s.len(),
    decreases s.len(),
{
    if s.len() > 0 && p(s[0]) {
        lemma_leading_count_le(s.skip(1), p);
    }
}

/// Length of the leading run of non-space characters.
pub open spec fn first_token_len(s: Seq<char>) -> nat {
    leading_count(s, |c: char| !is_space(c))
}

/// The maximal non-space runs of `s`, in order: the tokens a record is
/// split into.
pub open spec fn spec_tokens(s: Seq<char>) -> Seq<Seq<char>>
    decreases s.len(),
    via spec_tokens_decreases
{
    if s.len() == 0 {
        Seq::empty()
    } else if is_space(s[0]) {
        spec_tokens(s.skip(1))
    } else {
        seq![s.take(first_token_len(s) as int)] + spec_tokens(s.skip(first_token_len(s) as int))
    }
}

#[via_fn]
proof fn spec_tokens_decreases(s: Seq<char>) {
    if s.len() > 0 && !is_space(s[0]) {
        lemma_leading_count_le(s, |c: char| !is_space(c));
        assert(first_token_len(s) >= 1);
    }
}

/// Skipping one leading space character leaves the token list unchanged.
proof fn lemma_tokens_skip_space(s: Seq<char>, i: int)
    requires
        0 <= i < s.len(),
        is_space(s[i]),
    ensures
        spec_tokens(s.skip(i)) == spec_tokens(s.skip(i + 1)),
{
    let u = s.skip(i);
    assert(u[0] == s[i]);
    assert(u.skip(1) =~= s.skip(i + 1));
}

/// A maximal non-space run `s[i..j]` contributes exactly one token, followed
/// by the tokens of the remainder.
proof fn lemma_tokens_take_token(s: Seq<char>, i: int, j: int)
    requires
        0 <= i < j <= s.len(),
        forall|k: int| i <= k < j ==> !is_space(#[trigger] s[k]),
        j == s.len() || is_space(s[j]),
    ensures
        spec_tokens(s.skip(i)) == seq![s.subrange(i, j)] + spec_tokens(s.skip(j)),
{
    let u = s.skip(i);
    assert(forall|k: int| 0 <= k < u.len() ==> #[trigger] u[k] == s[k + i]);
    assert(!is_space(u[0]));
    lemma_leading_count_is(u, |c: char| !is_space(c), j - i);
    assert(first_token_len(u) == j - i);
    assert(u.take(j - i) =~= s.subrange(i, j));
    assert(u.skip(j - i) =~= s.skip(j));
}

/// A nonempty string with no space characters is a single token.
pub proof fn lemma_tokens_single(s: Seq<char>)
    requires
        s.len() > 0,
        forall|k: int| 0 <= k < s.len() ==> !is_space(#[trigger] s[k]),
    ensures
        spec_tokens(s) == seq![s],
{
    lemma_tokens_take_token(s, 0, s.len() as int);
    assert(s.skip(0) =~= s);
    assert(s.subrange(0, s.len() as int) =~= s);
    assert(s.skip(s.len() as int) =~= Seq::<char>::empty());
    assert(spec_tokens(Seq::<char>::empty()) == Seq::<Seq<char>>::empty());
    assert(seq![s] + Seq::<Seq<char>>::empty() =~= seq![s]);
}

/// The space predicate as a function value, for the counting functions.
pub open spec fn space_pred() -> spec_fn(char) -> bool {
    |c: char| is_space(c)
}

/// Recognizes a closing angle bracket.
pub open spec fn gt_pred() -> spec_fn(char) -> bool {
    |c: char| c == '>'
}

/// Recognizes anything but the at sign that separates the local part of an
/// address from its domain.
pub open spec fn not_at_pred() -> spec_fn(char) -> bool {
    |c: char| c != '@'
}

/// `s` with leading and trailing whitespace removed.
pub open spec fn spec_trim(s: Seq<char>) -> Seq<char> {
    let a = leading_count(s, space_pred());
    let t = trailing_count(s, space_pred());
    if a == s.len() {
        Seq::empty()
    } else {
        s.subrange(a as int, s.len() - t)
    }
}

/// `s` with every trailing `>` removed.
pub open spec fn spec_trim_end_gt(s: Seq<char>) -> Seq<char> {
    s.subrange(0, s.len() - trailing_count(s, gt_pred()))
}

/// Executable whitespace trim matching `spec_trim`.
pub fn trim_str(s: &str) -> (r: &str)
    ensures
        r@ == spec_trim(s@),
{
    let len = s.unicode_len();
    let mut a: usize = 0;
    while a < len && char_is_space(s.get_char(a))
        invariant
            a <= len,
            len == s@.len(),
            forall|k: int| 0 <= k < a ==> is_space(#[trigger] s@[k]),
        decreases len - a,
    {
        a = a + 1;
    }
    proof {
        lemma_leading_count_is(s@, space_pred(), a as int);
    }
    if a == len {
        let r = s.substring_char(len, len);
        proof {
            assert(r@ =~= spec_trim(s@));
        }
        return r;
    }
    let mut b: usize = len;
    while b > a + 1 && char_is_space(s.get_char(b - 1))
        invariant
            a < b <= len,
            len == s@.len(),
            forall|k: int| b <= k < len ==> is_space(#[trigger] s@[k]),
        decreases b,
    {
        b = b - 1;
    }
    proof {
        if b == a + 1 && is_space(s@[b - 1]) {
            assert(false);
        }
        lemma_trailing_count_is(s@, space_pred(), b as int);
    }
    let r = s.substring_char(a, b);
    proof {
        assert(r@ == spec_trim(s@));
    }
    r
}

/// Executable trailing-bracket trim matching `spec_trim_end_gt`.
pub fn trim_end_gt_str(s: &str) -> (r: &str)
    ensures
        r@ == spec_trim_end_gt(s@),
{
    let len = s.unicode_len();
    let mut b: usize = len;
    while b > 0 && s.get_char(b - 1) == '>'
        invariant
            b <= len,
            len == s@.len(),
            forall|k: int| b <= k < len ==> #[trigger] s@[k] == '>',
        decreases b,
    {
        b = b - 1;
    }
    proof {
        lemma_trailing_count_is(s@, gt_pred(), b as int);
    }
    s.substring_char(0, b)
}

/// The view of each string in a vector of tokens.
pub open spec fn views_of(toks: Seq<String>) -> Seq<Seq<char>> {
    toks.map_values(|t: String| t@)
}

/// Splits a string into its whitespace-separated tokens, matching
/// `spec_tokens`.
pub fn split_tokens(s: &str) -> (toks: Vec<String>)
    ensures
        views_of(toks@) == spec_tokens(s@),
{
    let len = s.unicode_len();
    let mut toks: Vec<String> = Vec::new();
    let mut i: usize = 0;
    proof {
        assert(s@.skip(0) =~= s@);
        assert(views_of(toks@) + spec_tokens(s@) =~= spec_tokens(s@));
    }
    while i < len
        invariant
            i <= len,
            len == s@.len(),
            spec_tokens(s@) == views_of(toks@) + spec_tokens(s@.skip(i as int)),
        decreases len - i,
    {
        let c = s.get_char(i);
        if char_is_space(c) {
            proof {
                lemma_tokens_skip_space(s@, i as int);
            }
            i = i + 1;
        } else {
            let start = i;
            let mut j = i + 1;
            while j < len && !char_is_space(s.get_char(j))
                invariant
                    start < j <= len,
                    len == s@.len(),
                    forall|k: int| start <= k < j ==> !is_space(#[trigger] s@[k]),
                decreases len - j,
            {
                j = j + 1;
            }
            let tok = s.substring_char(start, j).to_owned();
            let ghost prev = toks@;
            proof {
                lemma_tokens_take_token(s@, start as int, j as int);
            }
            toks.push(tok);
            proof {
                assert(views_of(toks@) =~= views_of(prev).push(tok@));
                assert(views_of(prev).push(tok@) =~= views_of(prev) + seq![
                    s@.subrange(start as int, j as int),
                ]);
            }
            i = j;
        }
    }
    proof {
        assert(s@.skip(len as int) =~= Seq::<char>::empty());
        assert(spec_tokens(Seq::<char>::empty()) == Seq::<Seq<char>>::empty());
        assert(views_of(toks@) + Seq::<Seq<char>>::empty() =~= views_of(toks@));
    }
    toks
}

} // verus!
