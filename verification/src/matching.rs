//! Cross-venue market matching by token similarity.
//!
//! Two markets are considered equivalent when the Jaccard similarity of the
//! whitespace-token sets of their lowercased questions strictly exceeds a
//! threshold. The tokenizer and the set counting are verified; only the
//! Unicode lowercasing is delegated to the standard library.

use vstd::prelude::*;
use vstd::seq_lib::*;
use vstd::set_lib::*;
use vstd::string::*;

verus! {

use crate::fixed::{Rat, Ratio, rat_wf, rat_le, rat_lt, rat_eq, rat_zero, rat_one, ratio_wf,
    ratio_small, lemma_rat_le_lt_trans};
use crate::models::{Market, MarketView};

/// A whitespace character, as the tokenizer understands it: the Unicode
/// characters with the White_Space property.
pub open spec fn is_ws_char(c: char) -> bool {
    ||| c == ' '
    ||| c == '\u{9}'
    ||| c == '\u{A}'
    ||| c == '\u{B}'
    ||| c == '\u{C}'
    ||| c == '\u{D}'
    ||| c == '\u{85}'
    ||| c == '\u{A0}'
    ||| c == '\u{1680}'
    ||| c == '\u{2000}'
    ||| c == '\u{2001}'
    ||| c == '\u{2002}'
    ||| c == '\u{2003}'
    ||| c == '\u{2004}'
    ||| c == '\u{2005}'
    ||| c == '\u{2006}'
    ||| c == '\u{2007}'
    ||| c == '\u{2008}'
    ||| c == '\u{2009}'
    ||| c == '\u{200A}'
    ||| c == '\u{2028}'
    ||| c == '\u{2029}'
    ||| c == '\u{202F}'
    ||| c == '\u{205F}'
    ||| c == '\u{3000}'
}

fn char_is_ws(c: char) -> (r: bool)
    ensures
        r == is_ws_char(c),
{
    match c {
        ' ' | '\u{9}' | '\u{A}' | '\u{B}' | '\u{C}' | '\u{D}' | '\u{85}' | '\u{A0}'
            | '\u{1680}' | '\u{2000}' | '\u{2001}' | '\u{2002}' | '\u{2003}' | '\u{2004}'
            | '\u{2005}' | '\u{2006}' | '\u{2007}' | '\u{2008}' | '\u{2009}' | '\u{200A}'
            | '\u{2028}' | '\u{2029}' | '\u{202F}' | '\u{205F}' | '\u{3000}' => true,
        _ => false,
    }
}

/// Length of the leading run of non-whitespace characters.
pub open spec fn non_ws_prefix(s: Seq<char>) -> int
    decreases s.len(),
{
    if s.len() == 0 || is_ws_char(s[0]) {
        0
    } else {
        1 + non_ws_prefix(s.drop_first())
    }
}

pub proof fn lemma_non_ws_prefix_bounds(s: Seq<char>)
    ensures
        0 <= non_ws_prefix(s) <= s.len(),
    decreases s.len(),
{
    if s.len() == 0 || is_ws_char(s[0]) {
    } else {
        lemma_non_ws_prefix_bounds(s.drop_first());
    }
}

/// The sequence of whitespace-separated tokens of a question string, in
/// order of appearance.
pub open spec fn spec_tokens(s: Seq<char>) -> Seq<Seq<char>>
    decreases s.len(),
    via spec_tokens_decreases
{
    if s.len() == 0 {
        Seq::empty()
    } else if is_ws_char(s[0]) {
        spec_tokens(s.drop_first())
    } else {
        seq![s.take(non_ws_prefix(s))] + spec_tokens(s.skip(non_ws_prefix(s)))
    }
}

#[via_fn]
proof fn spec_tokens_decreases(s: Seq<char>) {
    lemma_non_ws_prefix_bounds(s);
    if s.len() > 0 && !is_ws_char(s[0]) {
        lemma_non_ws_prefix_bounds(s.drop_first());
    }
}

/// Characterizes `non_ws_prefix` by its endpoints: `p` is the first
/// whitespace position, or the length when there is none.
proof fn lemma_non_ws_prefix_of(s: Seq<char>, p: int)
    requires
        0 <= p <= s.len(),
        forall|k: int| 0 <= k < p ==> !is_ws_char(s[k]),
        p < s.len() ==> is_ws_char(s[p]),
    ensures
        non_ws_prefix(s) == p,
    decreases s.len(),
{
    if s.len() == 0 {
    } else if is_ws_char(s[0]) {
        assert(p == 0);
    } else {
        let t = s.drop_first();
        assert(forall|k: int| 0 <= k < p - 1 ==> !is_ws_char(t[k]));
        lemma_non_ws_prefix_of(t, p - 1);
    }
}

/// Scans forward from a non-whitespace position to the end of the token.
fn scan_token_end(s: &str, len: usize, j: usize) -> (r: usize)
    requires
        len == s@.len(),
        j <= len,
    ensures
        j <= r <= len,
        forall|k: int| j <= k < r ==> !is_ws_char(s@[k]),
        r < len ==> is_ws_char(s@[r as int]),
    decreases len - j,
{
    if j == len {
        len
    } else {
        let c = s.get_char(j);
        if char_is_ws(c) {
            j
        } else {
            scan_token_end(s, len, j + 1)
        }
    }
}

/// Copies the characters of `s` in positions `[i, j)` into a vector.
fn collect_chars(s: &str, i: usize, j: usize) -> (r: Vec<char>)
    requires
        i <= j <= s@.len(),
    ensures
        r@ == s@.subrange(i as int, j as int),
{
    let mut out: Vec<char> = Vec::new();
    let mut k = i;
    while k < j
        invariant
            i <= k <= j <= s@.len(),
            out@ == s@.subrange(i as int, k as int),
        decreases j - k,
    {
        let c = s.get_char(k);
        out.push(c);
        proof {
            assert(out@ =~= s@.subrange(i as int, k + 1 as int));
        }
        k = k + 1;
    }
    out
}

/// The view of a vector of character vectors: a sequence of token contents.
pub open spec fn toks_view(v: Seq<Vec<char>>) -> Seq<Seq<char>> {
    v.map_values(|t: Vec<char>| t@)
}

/// Splits a question string into its whitespace-separated tokens.
pub fn tokenize(s: &str) -> (toks: Vec<Vec<char>>)
    ensures
        toks_view(toks@) == spec_tokens(s@),
{
    let len = s.unicode_len();
    let mut toks: Vec<Vec<char>> = Vec::new();
    let mut i: usize = 0;
    proof {
        assert(s@.skip(0) =~= s@);
        assert(toks_view(toks@) + spec_tokens(s@.skip(0)) =~= spec_tokens(s@));
    }
    while i < len
        invariant
            i <= len,
            len == s@.len(),
            toks_view(toks@) + spec_tokens(s@.skip(i as int)) =~= spec_tokens(s@),
        decreases len - i,
    {
        let c = s.get_char(i);
        let ghost rest = s@.skip(i as int);
        if char_is_ws(c) {
            proof {
                assert(rest[0] == s@[i as int]);
                assert(rest.drop_first() =~= s@.skip(i + 1 as int));
            }
            i = i + 1;
        } else {
            let j = scan_token_end(s, len, i + 1);
            let tok = collect_chars(s, i, j);
            proof {
                assert(forall|k: int| 0 <= k < j - i ==> rest[k] == s@[i + k]);
                lemma_non_ws_prefix_of(rest, j - i);
                assert(rest.take(j - i) =~= s@.subrange(i as int, j as int));
                assert(rest.skip(j - i) =~= s@.skip(j as int));
                assert(toks_view(toks@.push(tok)) =~= toks_view(toks@).push(tok@));
            }
            toks.push(tok);
            i = j;
        }
    }
    proof {
        assert(s@.skip(len as int) =~= Seq::<char>::empty());
        assert(toks_view(toks@) + spec_tokens(s@.skip(len as int)) =~= toks_view(toks@));
    }
    toks
}

fn vec_chars_eq(a: &Vec<char>, b: &Vec<char>) -> (r: bool)
    ensures
        r == (a@ == b@),
{
    if a.len() != b.len() {
        return false;
    }
    let mut i: usize = 0;
    while i < a.len()
        invariant
            i <= a.len() == b.len(),
            forall|k: int| 0 <= k < i ==> a@[k] == b@[k],
        decreases a.len() - i,
    {
        if a[i] != b[i] {
            return false;
        }
        i = i + 1;
    }
    proof {
        assert(a@ =~= b@);
    }
    true
}

/// Copies one token.
fn clone_tok(t: &Vec<char>) -> (r: Vec<char>)
    ensures
        r@ == t@,
{
    let mut out: Vec<char> = Vec::new();
    let mut k: usize = 0;
    while k < t.len()
        invariant
            k <= t.len(),
            out@ == t@.take(k as int),
        decreases t.len() - k,
    {
        out.push(t[k]);
        proof {
            assert(out@ =~= t@.take(k + 1 as int));
        }
        k = k + 1;
    }
    proof {
        assert(t@.take(t@.len() as int) =~= t@);
    }
    out
}

/// Does some token among the first `upto` entries of `v` have content `x`?
fn contains_upto(v: &Vec<Vec<char>>, upto: usize, x: &Vec<char>) -> (r: bool)
    requires
        upto <= v@.len(),
    ensures
        r == toks_view(v@).take(upto as int).contains(x@),
{
    let mut i: usize = 0;
    while i < upto
        invariant
            i <= upto <= v@.len(),
            forall|k: int| 0 <= k < i ==> toks_view(v@)[k] != x@,
        decreases upto - i,
    {
        if vec_chars_eq(&v[i], x) {
            proof {
                assert(toks_view(v@).take(upto as int)[i as int] == x@);
            }
            return true;
        }
        i = i + 1;
    }
    proof {
        assert forall|k: int| 0 <= k < upto implies toks_view(v@).take(upto as int)[k] != x@ by {
            assert(toks_view(v@).take(upto as int)[k] == toks_view(v@)[k]);
        }
    }
    false
}

fn tok_list_contains(v: &Vec<Vec<char>>, x: &Vec<char>) -> (r: bool)
    ensures
        r == toks_view(v@).contains(x@),
{
    let r = contains_upto(v, v.len(), x);
    proof {
        assert(toks_view(v@).take(v@.len() as int) =~= toks_view(v@));
    }
    r
}

/// Keeps the first occurrence of each token content.
#[verifier::loop_isolation(false)]
fn dedup_tokens(v: &Vec<Vec<char>>) -> (r: Vec<Vec<char>>)
    ensures
        toks_view(r@).no_duplicates(),
        toks_view(r@).to_set() == toks_view(v@).to_set(),
{
    broadcast use vstd::seq_lib::lemma_seq_contains_after_push;

    let mut out: Vec<Vec<char>> = Vec::new();
    let mut i: usize = 0;
    proof {
        assert(toks_view(out@).to_set() =~= toks_view(v@).take(0).to_set());
    }
    while i < v.len()
        invariant
            i <= v@.len(),
            toks_view(out@).no_duplicates(),
            toks_view(out@).to_set() == toks_view(v@).take(i as int).to_set(),
        decreases v.len() - i,
    {
        let ghost pre = toks_view(out@);
        let ghost x = v@[i as int]@;
        if !tok_list_contains(&out, &v[i]) {
            let t = clone_tok(&v[i]);
            out.push(t);
            proof {
                assert(toks_view(out@) =~= pre.push(x));
                assert(toks_view(out@).no_duplicates());
                assert(toks_view(out@).to_set() =~= pre.to_set().insert(x));
            }
        }
        proof {
            assert(toks_view(v@).take(i + 1 as int).to_set() =~= toks_view(v@).take(
                i as int,
            ).to_set().insert(x)) by {
                let tk = toks_view(v@).take(i + 1 as int);
                let pk = toks_view(v@).take(i as int);
                assert forall|y: Seq<char>| tk.contains(y) implies pk.to_set().insert(x).contains(
                    y,
                ) by {
                    let k = choose|k: int| 0 <= k < tk.len() && tk[k] == y;
                    if k < i {
                        assert(pk[k] == y);
                    }
                }
                assert forall|y: Seq<char>| pk.to_set().insert(x).contains(y) implies tk.contains(
                    y,
                ) by {
                    if pk.contains(y) {
                        let k = choose|k: int| 0 <= k < pk.len() && pk[k] == y;
                        assert(tk[k] == y);
                    } else {
                        assert(tk[i as int] == x);
                    }
                }
            }
            if toks_view(out@).to_set() != toks_view(v@).take(i + 1 as int).to_set() {
                assert(toks_view(out@).to_set() =~= toks_view(v@).take(i + 1 as int).to_set());
            }
        }
        i = i + 1;
    }
    proof {
        assert(toks_view(v@).take(v@.len() as int) =~= toks_view(v@));
    }
    out
}

/// Counts `|A ∩ B|` where `A` is the content set of the duplicate-free
/// list `a` and `B` that of `b`.
#[verifier::loop_isolation(false)]
fn count_intersect(a: &Vec<Vec<char>>, b: &Vec<Vec<char>>) -> (n: usize)
    requires
        toks_view(a@).no_duplicates(),
    ensures
        n as int == toks_view(a@).to_set().intersect(toks_view(b@).to_set()).len(),
{
    broadcast use {vstd::seq_lib::seq_to_set_is_finite,
        vstd::seq_lib::lemma_seq_contains_after_push};

    let ghost bs = toks_view(b@).to_set();
    let mut n: usize = 0;
    let mut i: usize = 0;
    proof {
        assert(toks_view(a@).take(0).to_set() =~= Set::<Seq<char>>::empty());
        assert(toks_view(a@).take(0).to_set().intersect(bs) =~= Set::<Seq<char>>::empty());
    }
    while i < a.len()
        invariant
            i <= a@.len(),
            n <= i,
            toks_view(a@).no_duplicates(),
            n as int == toks_view(a@).take(i as int).to_set().intersect(
                toks_view(b@).to_set(),
            ).len(),
        decreases a.len() - i,
    {
        let ghost x = a@[i as int]@;
        let ghost pk = toks_view(a@).take(i as int);
        proof {
            assert(toks_view(a@).take(i + 1 as int) =~= pk.push(x));
            assert(pk.push(x).to_set() =~= pk.to_set().insert(x));
            assert(!pk.to_set().contains(x)) by {
                if pk.contains(x) {
                    let k = choose|k: int| 0 <= k < pk.len() && pk[k] == x;
                    assert(toks_view(a@)[k] == toks_view(a@)[i as int]);
                }
            }
            assert(pk.to_set().finite());
            assert(pk.to_set().intersect(bs).finite());
        }
        if tok_list_contains(b, &a[i]) {
            proof {
                assert(bs.contains(x));
                assert(pk.to_set().insert(x).intersect(bs) =~= pk.to_set().intersect(bs).insert(
                    x,
                ));
                assert(!pk.to_set().intersect(bs).contains(x));
            }
            n = n + 1;
        } else {
            proof {
                assert(!bs.contains(x));
                assert(pk.to_set().insert(x).intersect(bs) =~= pk.to_set().intersect(bs));
            }
        }
        i = i + 1;
    }
    proof {
        assert(toks_view(a@).take(a@.len() as int) =~= toks_view(a@));
    }
    n
}

/// Concatenates two token lists.
fn concat_tokens(a: &Vec<Vec<char>>, b: &Vec<Vec<char>>) -> (r: Vec<Vec<char>>)
    ensures
        toks_view(r@) == toks_view(a@) + toks_view(b@),
{
    let mut out: Vec<Vec<char>> = Vec::new();
    let mut i: usize = 0;
    while i < a.len()
        invariant
            i <= a@.len(),
            toks_view(out@) == toks_view(a@).take(i as int),
        decreases a.len() - i,
    {
        let ghost pre = toks_view(out@);
        let t = clone_tok(&a[i]);
        out.push(t);
        proof {
            assert(toks_view(out@) =~= pre.push(a@[i as int]@));
            assert(toks_view(a@).take(i + 1 as int) =~= pre.push(a@[i as int]@));
        }
        i = i + 1;
    }
    let mut j: usize = 0;
    proof {
        assert(toks_view(a@).take(a@.len() as int) =~= toks_view(a@));
        assert(toks_view(b@).take(0) =~= Seq::<Seq<char>>::empty());
        assert(toks_view(out@) =~= toks_view(a@) + toks_view(b@).take(0));
    }
    while j < b.len()
        invariant
            j <= b@.len(),
            toks_view(out@) == toks_view(a@) + toks_view(b@).take(j as int),
        decreases b.len() - j,
    {
        let ghost pre = toks_view(out@);
        let t = clone_tok(&b[j]);
        out.push(t);
        proof {
            assert(toks_view(out@) =~= pre.push(b@[j as int]@));
            assert(toks_view(a@) + toks_view(b@).take(j + 1 as int) =~= pre.push(b@[j as int]@));
        }
        j = j + 1;
    }
    proof {
        assert(toks_view(b@).take(b@.len() as int) =~= toks_view(b@));
    }
    out
}

/// The set of whitespace-separated tokens of a question string.
pub open spec fn token_set(s: Seq<char>) -> Set<Seq<char>> {
    spec_tokens(s).to_set()
}

/// Jaccard similarity of the token sets of two (already lowercased)
/// question strings: `|A ∩ B| / |A ∪ B|`, and zero when both are empty.
pub open spec fn spec_similarity(s1: Seq<char>, s2: Seq<char>) -> Rat {
    let a = token_set(s1);
    let b = token_set(s2);
    if a.union(b).is_empty() {
        rat_zero()
    } else {
        Rat { num: a.intersect(b).len() as int, den: a.union(b).len() as int }
    }
}

/// Computes the exact Jaccard similarity of the token sets of two
/// question strings. The strings are compared as given; callers lowercase
/// first when case must not matter.
pub fn calculate_similarity(s1: &str, s2: &str) -> (r: Ratio)
    ensures
        r@ == spec_similarity(s1@, s2@),
        ratio_wf(r),
        ratio_small(r),
        rat_wf(r@),
{
    broadcast use vstd::seq_lib::seq_to_set_is_finite;

    let t1 = tokenize(s1);
    let t2 = tokenize(s2);
    let d1 = dedup_tokens(&t1);
    let inter = count_intersect(&d1, &t2);
    let all = concat_tokens(&t1, &t2);
    let du = dedup_tokens(&all);
    let uni = du.len();
    let ghost a = token_set(s1@);
    let ghost b = token_set(s2@);
    proof {
        toks_view(du@).unique_seq_to_set();
        let v1 = toks_view(t1@);
        let v2 = toks_view(t2@);
        assert forall|y: Seq<char>| #[trigger] (v1 + v2).contains(y) implies a.union(b).contains(
            y,
        ) by {
            let k = choose|k: int| 0 <= k < (v1 + v2).len() && (v1 + v2)[k] == y;
            if k < v1.len() {
                assert(v1[k] == y);
            } else {
                assert(v2[k - v1.len()] == y);
            }
        }
        assert forall|y: Seq<char>| a.union(b).contains(y) implies #[trigger] (v1 + v2).contains(
            y,
        ) by {
            if v1.contains(y) {
                let k = choose|k: int| 0 <= k < v1.len() && v1[k] == y;
                assert((v1 + v2)[k] == y);
            } else {
                let k = choose|k: int| 0 <= k < v2.len() && v2[k] == y;
                assert((v1 + v2)[k + v1.len()] == y);
            }
        }
        assert((v1 + v2).to_set() =~= a.union(b));
    }
    if uni == 0 {
        proof {
            assert(a.union(b).finite());
            if !a.union(b).is_empty() {
                let y = a.union(b).choose();
                assert(a.union(b).contains(y));
                assert(a.union(b).remove(y).len() + 1 == a.union(b).len());
            }
        }
        Ratio::zero()
    } else {
        proof {
            assert(inter as int <= uni as int) by {
                vstd::set_lib::lemma_len_subset(a.intersect(b), a.union(b));
            }
            assert(!a.union(b).is_empty());
        }
        Ratio::new(inter as u64, uni as u64)
    }
}

/// Names the result of Unicode lowercasing, which is a pure function of
/// the input characters.
pub uninterp spec fn lower_of(s: Seq<char>) -> Seq<char>;

/// Relies on str::to_lowercase: the result depends on the input characters
/// alone, and an empty string stays empty.
#[verifier::external_body]
fn lowercase(s: &str) -> (r: String)
    ensures
        r@ == lower_of(s@),
        s@.len() == 0 ==> r@.len() == 0,
{
    s.to_lowercase()
}

/// Two markets are equivalent when the similarity of their lowercased
/// questions strictly exceeds the threshold.
pub open spec fn spec_markets_match(q1: Seq<char>, q2: Seq<char>, t: Rat) -> bool {
    rat_lt(t, spec_similarity(lower_of(q1), lower_of(q2)))
}

/// Decides whether two markets represent the same real-world question.
pub fn markets_match(m1: &Market, m2: &Market, threshold: &Ratio) -> (r: bool)
    requires
        ratio_wf(*threshold),
        ratio_small(*threshold),
    ensures
        r == spec_markets_match(m1@.question, m2@.question, threshold@),
{
    let l1 = lowercase(m1.question.as_str());
    let l2 = lowercase(m2.question.as_str());
    let sim = calculate_similarity(l1.as_str(), l2.as_str());
    sim.gt(threshold)
}

/// The default match threshold: similarity must strictly exceed 7/10.
pub fn default_match_threshold() -> (r: Ratio)
    ensures
        r@ == (Rat { num: 7, den: 10 }),
        ratio_wf(r),
        ratio_small(r),
        rat_wf(r@),
{
    Ratio::new(7, 10)
}

/// The matched kalshi indices for one polymarket market, paired with its
/// index `i`, in ascending kalshi order.
pub open spec fn spec_row(i: int, q: Seq<char>, ka: Seq<MarketView>, t: Rat) -> Seq<(int, int)>
    decreases ka.len(),
{
    if ka.len() == 0 {
        Seq::empty()
    } else {
        spec_row(i, q, ka.drop_last(), t) + if spec_markets_match(q, ka.last().question, t) {
            seq![(i, ka.len() - 1 as int)]
        } else {
            Seq::empty()
        }
    }
}

/// Every equivalent cross-venue pair, as index pairs in lexicographic
/// order: one market may match several on the other side.
pub open spec fn spec_matched_pairs(pa: Seq<MarketView>, ka: Seq<MarketView>, t: Rat) -> Seq<
    (int, int),
>
    decreases pa.len(),
{
    if pa.len() == 0 {
        Seq::empty()
    } else {
        spec_matched_pairs(pa.drop_last(), ka, t) + spec_row(
            pa.len() - 1,
            pa.last().question,
            ka,
            t,
        )
    }
}

pub open spec fn market_views(s: Seq<Market>) -> Seq<MarketView> {
    s.map_values(|m: Market| m@)
}

pub open spec fn pairs_view(s: Seq<(usize, usize)>) -> Seq<(int, int)> {
    s.map_values(|p: (usize, usize)| (p.0 as int, p.1 as int))
}

/// Pairs every market of one venue with every equivalent market of the
/// other: the Matching Engine. Pairwise and quadratic by design.
#[verifier::loop_isolation(false)]
pub fn match_markets(poly_markets: &Vec<Market>, kalshi_markets: &Vec<Market>, threshold: &Ratio)
    -> (pairs: Vec<(usize, usize)>)
    requires
        ratio_wf(*threshold),
        ratio_small(*threshold),
    ensures
        pairs_view(pairs@) == spec_matched_pairs(
            market_views(poly_markets@),
            market_views(kalshi_markets@),
            threshold@,
        ),
        forall|k: int| 0 <= k < pairs@.len() ==> (#[trigger] pairs@[k]).0 < poly_markets@.len()
            && pairs@[k].1 < kalshi_markets@.len(),
{
    let ghost pv = market_views(poly_markets@);
    let ghost kv = market_views(kalshi_markets@);
    let mut pairs: Vec<(usize, usize)> = Vec::new();
    let mut i: usize = 0;
    proof {
        assert(pv.take(0) =~= Seq::<MarketView>::empty());
        assert(pairs_view(pairs@) =~= spec_matched_pairs(pv.take(0), kv, threshold@));
    }
    while i < poly_markets.len()
        invariant
            i <= poly_markets@.len(),
            ratio_wf(*threshold),
            ratio_small(*threshold),
            pv == market_views(poly_markets@),
            kv == market_views(kalshi_markets@),
            pairs_view(pairs@) == spec_matched_pairs(pv.take(i as int), kv, threshold@),
            forall|k: int| 0 <= k < pairs@.len() ==> (#[trigger] pairs@[k]).0 < poly_markets@.len()
                && pairs@[k].1 < kalshi_markets@.len(),
        decreases poly_markets.len() - i,
    {
        let mut j: usize = 0;
        proof {
            assert(kv.take(0) =~= Seq::<MarketView>::empty());
            assert(pairs_view(pairs@) + spec_row(i as int, pv[i as int].question, kv.take(0),
                threshold@) =~= pairs_view(pairs@));
        }
        while j < kalshi_markets.len()
            invariant
                i < poly_markets@.len(),
                j <= kalshi_markets@.len(),
                ratio_wf(*threshold),
                ratio_small(*threshold),
                pv == market_views(poly_markets@),
                kv == market_views(kalshi_markets@),
                pairs_view(pairs@) == spec_matched_pairs(pv.take(i as int), kv, threshold@)
                    + spec_row(i as int, pv[i as int].question, kv.take(j as int), threshold@),
                forall|k: int| 0 <= k < pairs@.len() ==> (#[trigger] pairs@[k]).0
                    < poly_markets@.len() && pairs@[k].1 < kalshi_markets@.len(),
            decreases kalshi_markets.len() - j,
        {
            let ghost pre = pairs_view(pairs@);
            proof {
                assert(kv.take(j + 1 as int).drop_last() =~= kv.take(j as int));
                assert(kv.take(j + 1 as int).last() == kv[j as int]);
            }
            if markets_match(&poly_markets[i], &kalshi_markets[j], threshold) {
                pairs.push((i, j));
                proof {
                    assert(pairs_view(pairs@) =~= pre.push((i as int, j as int)));
                    assert(pairs_view(pairs@) =~= spec_matched_pairs(pv.take(i as int), kv,
                        threshold@) + spec_row(i as int, pv[i as int].question, kv.take(
                        j + 1 as int,
                    ), threshold@));
                }
            } else {
                proof {
                    assert(spec_row(i as int, pv[i as int].question, kv.take(j + 1 as int),
                        threshold@) =~= spec_row(i as int, pv[i as int].question, kv.take(j as int),
                        threshold@));
                }
            }
            j = j + 1;
        }
        proof {
            assert(kv.take(kv.len() as int) =~= kv);
            assert(pv.take(i + 1 as int).drop_last() =~= pv.take(i as int));
            assert(pv.take(i + 1 as int).last() == pv[i as int]);
        }
        i = i + 1;
    }
    proof {
        assert(pv.take(pv.len() as int) =~= pv);
    }
    pairs
}

/// Law: similarity is symmetric.
pub proof fn lemma_similarity_symmetric(s1: Seq<char>, s2: Seq<char>)
    ensures
        spec_similarity(s1, s2) == spec_similarity(s2, s1),
{
    assert(token_set(s1).union(token_set(s2)) =~= token_set(s2).union(token_set(s1)));
    assert(token_set(s1).intersect(token_set(s2)) =~= token_set(s2).intersect(token_set(s1)));
}

/// Law: similarity is a well-formed rational bounded by zero and one.
pub proof fn lemma_similarity_bounded(s1: Seq<char>, s2: Seq<char>)
    ensures
        rat_wf(spec_similarity(s1, s2)),
        rat_le(rat_zero(), spec_similarity(s1, s2)),
        rat_le(spec_similarity(s1, s2), rat_one()),
{
    broadcast use vstd::seq_lib::seq_to_set_is_finite;

    let a = token_set(s1);
    let b = token_set(s2);
    if !a.union(b).is_empty() {
        let y = a.union(b).choose();
        assert(a.union(b).contains(y));
        assert(a.union(b).remove(y).len() + 1 == a.union(b).len());
        assert(a.intersect(b).subset_of(a.union(b)));
        vstd::set_lib::lemma_len_subset(a.intersect(b), a.union(b));
    }
}

/// Law: a question with at least one token has similarity one with itself.
/// (A question with no tokens — empty or all whitespace — scores zero
/// instead, by the convention for empty token sets.)
pub proof fn lemma_similarity_identical(s: Seq<char>)
    requires
        spec_tokens(s).len() > 0,
    ensures
        rat_eq(spec_similarity(s, s), rat_one()),
{
    broadcast use vstd::seq_lib::seq_to_set_is_finite;

    let a = token_set(s);
    assert(a.contains(spec_tokens(s)[0]));
    assert(a.union(a) =~= a);
    assert(a.intersect(a) =~= a);
}

/// Law: disjoint token sets have similarity zero.
pub proof fn lemma_similarity_disjoint(s1: Seq<char>, s2: Seq<char>)
    ensures
        token_set(s1).disjoint(token_set(s2)) ==> rat_eq(
            spec_similarity(s1, s2),
            rat_zero(),
        ),
{
    broadcast use {vstd::seq_lib::seq_to_set_is_finite, vstd::set::group_set_axioms};

    let a = token_set(s1);
    let b = token_set(s2);
    if a.disjoint(b) {
        assert(a.intersect(b) =~= Set::<Seq<char>>::empty());
    }
}

/// Law: a question with no tokens at all never matches: its similarity with
/// anything is zero, and a non-negative threshold is never strictly below
/// that similarity.
pub proof fn lemma_empty_question_never_matches(s1: Seq<char>, s2: Seq<char>, t: Rat)
    requires
        spec_tokens(s1).len() == 0,
        rat_wf(t),
    ensures
        rat_eq(spec_similarity(s1, s2), rat_zero()),
        !rat_lt(t, spec_similarity(s1, s2)),
{
    broadcast use {vstd::seq_lib::seq_to_set_is_finite, vstd::set::group_set_axioms};

    let a = token_set(s1);
    let b = token_set(s2);
    assert(spec_tokens(s1) =~= Seq::<Seq<char>>::empty());
    assert(a =~= Set::<Seq<char>>::empty());
    assert(a.intersect(b) =~= Set::<Seq<char>>::empty());
    let sim = spec_similarity(s1, s2);
    lemma_similarity_bounded(s1, s2);
    assert(sim.num == 0);
    crate::fixed::lemma_mul_le(0, 0, t.num, sim.den);
}

/// Law: raising the match threshold never increases the number of matched
/// pairs for a fixed input (row case).
pub proof fn lemma_row_monotone(i: int, q: Seq<char>, ka: Seq<MarketView>, t1: Rat, t2: Rat)
    requires
        rat_wf(t1),
        rat_wf(t2),
        rat_le(t1, t2),
    ensures
        spec_row(i, q, ka, t2).len() <= spec_row(i, q, ka, t1).len(),
    decreases ka.len(),
{
    if ka.len() > 0 {
        lemma_row_monotone(i, q, ka.drop_last(), t1, t2);
        if spec_markets_match(q, ka.last().question, t2) {
            lemma_similarity_bounded(lower_of(q), lower_of(ka.last().question));
            lemma_rat_le_lt_trans(t1, t2, spec_similarity(lower_of(q), lower_of(
                ka.last().question,
            )));
        }
    }
}

/// Law: raising the match threshold never increases the number of matched
/// pairs for a fixed input.
pub proof fn lemma_threshold_monotone(pa: Seq<MarketView>, ka: Seq<MarketView>, t1: Rat, t2: Rat)
    requires
        rat_wf(t1),
        rat_wf(t2),
        rat_le(t1, t2),
    ensures
        spec_matched_pairs(pa, ka, t2).len() <= spec_matched_pairs(pa, ka, t1).len(),
    decreases pa.len(),
{
    if pa.len() > 0 {
        lemma_threshold_monotone(pa.drop_last(), ka, t1, t2);
        lemma_row_monotone(pa.len() - 1, pa.last().question, ka, t1, t2);
    }
}

} // verus!
