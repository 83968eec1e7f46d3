//! Ranking: a blend of reuse quality, textual relevance and registry order.
//!
//! A candidate's blend is
//!
//! ```text
//! 0.45 * score + 35 * hits / terms + 20 * (pool - index) / pool + 1000 if exact
//! ```
//!
//! Within one search `terms` and `pool` are the same for all candidates, so the
//! blends are compared exactly, as whole numbers over the common denominator
//! `20 * terms * pool`.

use vstd::prelude::*;
use vstd::seq_lib::*;
use vstd::set_lib::*;
use crate::model::{Package, PackageView, Quality, QualityView};
use crate::relevance::{
    exact_name, hits_in, law_overlap_is_a_fraction, name_is_exact, searchable, term_overlap, Overlap,
};
use crate::text::terms;

verus! {

/// The base in which a [`RankKey`] is written.
pub const LIMB: u128 = 4_294_967_296;

/// The bound on the first factor of a key's product.
const MAX_FACTOR: u128 = 0x1_0000_0000_0000_0000_0000;

/// The bound on the upper part of a product, two of which can be added.
const MAX_HI: u128 = 0x4000_0000_0000_0000_0000_0000_0000_0000;

/// A natural number beyond 128 bits: `hi * 2^32 + lo`.
#[derive(Debug, Clone, Copy)]
pub struct RankKey {
    pub hi: u128,
    pub lo: u128,
}

impl View for RankKey {
    type V = int;

    open spec fn view(&self) -> int {
        self.hi * LIMB + self.lo
    }
}

impl RankKey {
    pub open spec fn wf(self) -> bool {
        self.lo < LIMB
    }

    /// `a * m`.
    fn product(a: u128, m: u64) -> (r: RankKey)
        requires
            a < MAX_FACTOR,
        ensures
            r.wf(),
            r@ == a * m,
            r.hi < MAX_HI,
    {
        let mh: u128 = m as u128 / LIMB;
        let ml: u128 = m as u128 % LIMB;
        assert(mh < LIMB && ml < LIMB && m == mh * LIMB + ml);
        assert(a * mh <= MAX_FACTOR * LIMB) by (nonlinear_arith)
            requires
                a < MAX_FACTOR,
                mh < LIMB,
        ;
        assert(a * ml <= MAX_FACTOR * LIMB) by (nonlinear_arith)
            requires
                a < MAX_FACTOR,
                ml < LIMB,
        ;
        assert(a * m == (a * mh) * LIMB + a * ml) by (nonlinear_arith)
            requires
                m == mh * LIMB + ml,
        ;
        let high: u128 = a * mh;
        let low: u128 = a * ml;
        RankKey { hi: high + low / LIMB, lo: low % LIMB }
    }

    /// `self + other`.
    fn plus(self, other: RankKey) -> (r: RankKey)
        requires
            self.wf(),
            other.wf(),
            self.hi < MAX_HI,
            other.hi < MAX_HI,
        ensures
            r.wf(),
            r@ == self@ + other@,
    {
        let low: u128 = self.lo + other.lo;
        if low >= LIMB {
            RankKey { hi: self.hi + other.hi + 1, lo: low - LIMB }
        } else {
            RankKey { hi: self.hi + other.hi, lo: low }
        }
    }

    /// Whether `self` is the smaller number.
    pub fn less_than(&self, other: &RankKey) -> (r: bool)
        requires
            self.wf(),
            other.wf(),
        ensures
            r == (self@ < other@),
    {
        self.hi < other.hi || (self.hi == other.hi && self.lo < other.lo)
    }
}

/// A candidate's blend, times `20 * terms * pool`. A query without terms counts
/// as one with a single term that is never hit.
pub open spec fn blend(score: int, hits: int, terms: int, index: int, pool: int, exact: bool) -> int {
    let t = if terms == 0 {
        1
    } else {
        terms
    };
    (9 * score * t + 700 * hits + if exact {
        20000 * t
    } else {
        0
    }) * pool + 400 * (pool - index) * t
}

/// A candidate's blend, times `20 * terms * pool`.
pub fn blend_key(score: u32, overlap: Overlap, index: usize, pool: usize, exact: bool) -> (r:
    RankKey)
    requires
        score <= 100,
        overlap.hits <= overlap.terms,
        index < pool,
    ensures
        r.wf(),
        r@ == blend(
            score as int,
            overlap.hits as int,
            overlap.terms as int,
            index as int,
            pool as int,
            exact,
        ),
{
    let t: u128 = if overlap.terms == 0 {
        1
    } else {
        overlap.terms as u128
    };
    assert(9 * score * t <= 900 * t && 9 * score * t == (9 * score) * t) by (nonlinear_arith)
        requires
            score <= 100,
    ;
    let bonus: u128 = if exact {
        20000 * t
    } else {
        0
    };
    let quality: u128 = 9 * (score as u128) * t + 700 * (overlap.hits as u128) + bonus;
    let order: u128 = 400 * ((pool - index) as u128);
    assert(400 * (pool - index) * t == order * t) by (nonlinear_arith)
        requires
            order == 400 * (pool - index),
    ;
    RankKey::product(quality, pool as u64).plus(RankKey::product(order, t as u64))
}

/// Whether candidate `a` comes before candidate `b`: with the greater key, or,
/// of equal keys, earlier in the registry's own order.
pub open spec fn precedes(keys: Seq<int>, a: int, b: int) -> bool {
    keys[a] > keys[b] || (keys[a] == keys[b] && a < b)
}

/// Whether `order` lists all positions of `keys`, each before those it precedes.
pub open spec fn is_ranking(keys: Seq<int>, order: Seq<usize>) -> bool {
    &&& order.len() == keys.len()
    &&& forall|i: int| 0 <= i < order.len() ==> 0 <= (#[trigger] order[i]) < keys.len()
    &&& forall|i: int, j: int|
        0 <= i < j < order.len() ==> precedes(keys, #[trigger] order[i] as int, #[trigger] order[j] as int)
}

/// The ranking of keys. There is exactly one.
pub open spec fn ranking(keys: Seq<int>) -> Seq<usize> {
    choose|order: Seq<usize>| is_ranking(keys, order)
}

/// The numbers that the keys stand for.
pub open spec fn key_values(keys: Seq<RankKey>) -> Seq<int> {
    keys.map_values(|k: RankKey| k@)
}

/// The positions of the keys, greatest key first; equal keys keep their order.
pub fn rank_order(keys: &Vec<RankKey>) -> (r: Vec<usize>)
    requires
        forall|i: int| 0 <= i < keys.len() ==> (#[trigger] keys[i]).wf(),
    ensures
        is_ranking(key_values(keys@), r@),
{
    let ghost values = key_values(keys@);
    let mut order: Vec<usize> = Vec::new();
    let mut n: usize = 0;
    while n < keys.len()
        invariant
            n <= keys.len(),
            values == key_values(keys@),
            forall|i: int| 0 <= i < keys.len() ==> (#[trigger] keys[i]).wf(),
            order.len() == n,
            forall|i: int| 0 <= i < n ==> 0 <= (#[trigger] order[i]) < n,
            forall|i: int, j: int|
                0 <= i < j < n ==> precedes(
                    values,
                    #[trigger] order[i] as int,
                    #[trigger] order[j] as int,
                ),
        decreases keys.len() - n,
    {
        let mut at: usize = 0;
        while at < n && !keys[order[at]].less_than(&keys[n])
            invariant
                at <= n < keys.len(),
                values == key_values(keys@),
                forall|i: int| 0 <= i < keys.len() ==> (#[trigger] keys[i]).wf(),
                order.len() == n,
                forall|i: int| 0 <= i < n ==> 0 <= (#[trigger] order[i]) < n,
                forall|i: int| 0 <= i < at ==> values[(#[trigger] order[i]) as int] >= values[n as int],
            decreases n - at,
        {
            at += 1;
        }
        let ghost before = order@;
        proof {
            assert(at < n ==> values[before[at as int] as int] < values[n as int]);
            assert forall|i: int| at <= i < n implies values[(#[trigger] before[i]) as int] < values[n as int] by {
                if i > at {
                    assert(precedes(values, before[at as int] as int, before[i] as int));
                }
            }
        }
        order.insert(at, n);
        proof {
            assert forall|i: int, j: int| 0 <= i < j < n + 1 implies precedes(
                values,
                #[trigger] order@[i] as int,
                #[trigger] order@[j] as int,
            ) by {
                let a = if i < at { before[i] } else if i == at { n } else { before[i - 1] };
                let b = if j < at { before[j] } else if j == at { n } else { before[j - 1] };
                assert(order@[i] == a && order@[j] == b);
            }
        }
        n += 1;
    }
    order
}

/// The keys by which the candidates of a search are ranked.
pub open spec fn candidate_keys(
    query: Seq<char>,
    candidates: Seq<PackageView>,
    qualities: Seq<QualityView>,
) -> Seq<int> {
    Seq::new(
        candidates.len(),
        |i: int|
            blend(
                qualities[i].score,
                hits_in(terms(query, 2), searchable(candidates[i])) as int,
                terms(query, 2).len() as int,
                i,
                candidates.len() as int,
                exact_name(query, candidates[i]),
            ),
    )
}

/// The order in which candidates are presented: by a blend of relevance (term
/// overlap and registry order) and reuse quality, exact-name matches first.
pub fn rank_candidates(query: &str, candidates: &Vec<Package>, qualities: &Vec<Quality>) -> (r: Vec<
    usize,
>)
    requires
        candidates.len() == qualities.len(),
        forall|i: int| 0 <= i < qualities.len() ==> (#[trigger] qualities[i]).score <= 100,
    ensures
        is_ranking(
            candidate_keys(query@, candidates.deep_view(), qualities.deep_view()),
            r@,
        ),
{
    let mut keys: Vec<RankKey> = Vec::new();
    let ghost all = candidate_keys(query@, candidates.deep_view(), qualities.deep_view());
    let mut i: usize = 0;
    while i < candidates.len()
        invariant
            i <= candidates.len(),
            candidates.len() == qualities.len(),
            forall|k: int| 0 <= k < qualities.len() ==> (#[trigger] qualities[k]).score <= 100,
            all == candidate_keys(query@, candidates.deep_view(), qualities.deep_view()),
            keys.len() == i,
            forall|k: int| 0 <= k < i ==> (#[trigger] keys[k]).wf() && keys[k]@ == all[k],
        decreases candidates.len() - i,
    {
        let overlap = term_overlap(query, &candidates[i]);
        let exact = name_is_exact(query, &candidates[i]);
        keys.push(blend_key(qualities[i].score, overlap, i, candidates.len(), exact));
        i += 1;
    }
    assert(key_values(keys@) =~= all);
    rank_order(&keys)
}

// --- Laws ------------------------------------------------------------------

/// Keys can be ranked, however many of them are equal.
pub proof fn law_ranking_exists(keys: Seq<int>)
    requires
        keys.len() <= usize::MAX,
    ensures
        is_ranking(keys, ranking(keys)),
{
    let order = lemma_build_ranking(keys);
    assert(is_ranking(keys, order));
}

proof fn lemma_build_ranking(keys: Seq<int>) -> (order: Seq<usize>)
    requires
        keys.len() <= usize::MAX,
    ensures
        is_ranking(keys, order),
    decreases keys.len(),
{
    if keys.len() == 0 {
        Seq::empty()
    } else {
        let n = (keys.len() - 1) as usize;
        let fewer = keys.drop_last();
        let before = lemma_build_ranking(fewer);
        let at = lemma_first_smaller(keys, before, keys[n as int]);
        assert forall|i: int| at <= i < n implies keys[(#[trigger] before[i]) as int]
            < keys[n as int] by {
            if i > at {
                assert(precedes(fewer, before[at] as int, before[i] as int));
            }
        }
        let order = before.insert(at, n);
        assert forall|i: int, j: int| 0 <= i < j < order.len() implies precedes(
            keys,
            #[trigger] order[i] as int,
            #[trigger] order[j] as int,
        ) by {
            let a = if i < at { i } else { i - 1 };
            let b = if j < at { j } else { j - 1 };
            if i != at && j != at {
                assert(precedes(fewer, before[a] as int, before[b] as int));
            }
        }
        order
    }
}

/// The first position in `order` with a key below `key`, or the end.
proof fn lemma_first_smaller(keys: Seq<int>, order: Seq<usize>, key: int) -> (at: int)
    ensures
        0 <= at <= order.len(),
        forall|i: int| 0 <= i < at ==> keys[(#[trigger] order[i]) as int] >= key,
        at < order.len() ==> keys[order[at] as int] < key,
    decreases order.len(),
{
    if order.len() == 0 {
        0
    } else {
        let fewer = order.drop_last();
        let at = lemma_first_smaller(keys, fewer, key);
        assert forall|i: int| 0 <= i < at implies keys[(#[trigger] order[i]) as int] >= key by {
            assert(keys[fewer[i] as int] >= key);
        }
        if at == order.len() - 1 && keys[order[at] as int] >= key {
            order.len() as int
        } else {
            at
        }
    }
}

/// There is only one ranking of given keys.
pub proof fn law_ranking_is_unique(keys: Seq<int>, a: Seq<usize>, b: Seq<usize>)
    requires
        is_ranking(keys, a),
        is_ranking(keys, b),
    ensures
        a == b,
{
    if a != b {
        assert(!(a =~= b));
        let k = first_difference(a, b, 0);
        lemma_ranking_lists_all(keys, a, b[k] as int);
        lemma_ranking_lists_all(keys, b, a[k] as int);
        let x = choose|x: int| 0 <= x < a.len() && a[x] == b[k];
        let y = choose|y: int| 0 <= y < b.len() && b[y] == a[k];
        assert(precedes(keys, a[k] as int, b[k] as int)) by {
            if x < k {
                assert(a[x] == b[x]);
                assert(precedes(keys, b[x] as int, b[k] as int));
            }
        }
        assert(precedes(keys, b[k] as int, a[k] as int)) by {
            if y < k {
                assert(a[y] == b[y]);
                assert(precedes(keys, a[y] as int, a[k] as int));
            }
        }
    }
}

proof fn first_difference(a: Seq<usize>, b: Seq<usize>, from: int) -> (k: int)
    requires
        a.len() == b.len(),
        !(a =~= b),
        0 <= from <= a.len(),
        forall|i: int| 0 <= i < from ==> a[i] == b[i],
    ensures
        0 <= k < a.len(),
        a[k] != b[k],
        forall|i: int| 0 <= i < k ==> a[i] == b[i],
    decreases a.len() - from,
{
    if from == a.len() {
        assert(a =~= b);
        from
    } else if a[from] != b[from] {
        from
    } else {
        first_difference(a, b, from + 1)
    }
}

/// A ranking leaves out no position.
proof fn lemma_ranking_lists_all(keys: Seq<int>, order: Seq<usize>, at: int)
    requires
        is_ranking(keys, order),
        0 <= at < keys.len(),
    ensures
        exists|i: int| 0 <= i < order.len() && order[i] == at,
{
    let ints = order.map_values(|i: usize| i as int);
    assert(ints.no_duplicates()) by {
        assert forall|i: int, j: int| 0 <= i < j < ints.len() implies ints[i] != ints[j] by {
            assert(precedes(keys, order[i] as int, order[j] as int));
        }
    }
    ints.unique_seq_to_set();
    lemma_int_range(0, keys.len() as int);
    let all = set_int_range(0, keys.len() as int);
    assert(ints.to_set().subset_of(all)) by {
        assert forall|x: int| ints.to_set().contains(x) implies all.contains(x) by {
            let i = choose|i: int| 0 <= i < ints.len() && ints[i] == x;
            assert(0 <= order[i] < keys.len());
        }
    }
    seq_to_set_is_finite(ints);
    lemma_subset_equality(ints.to_set(), all);
    assert(ints.to_set().contains(at));
    let i = choose|i: int| 0 <= i < ints.len() && ints[i] == at;
    assert(order[i] == at);
}

/// Every candidate has a place in the ranking.
pub proof fn law_ranking_is_complete(keys: Seq<int>, order: Seq<usize>, at: int)
    requires
        is_ranking(keys, order),
        0 <= at < keys.len(),
    ensures
        exists|i: int| 0 <= i < order.len() && order[i] == at,
{
    lemma_ranking_lists_all(keys, order, at);
}

/// An exact-name match comes before every candidate whose name does not match,
/// whatever their scores, hits and places.
pub proof fn law_exact_match_on_top(
    s1: int,
    h1: int,
    i1: int,
    s2: int,
    h2: int,
    i2: int,
    terms: int,
    pool: int,
)
    requires
        0 <= s1 <= 100,
        0 <= s2 <= 100,
        0 <= h1 <= terms,
        0 <= h2 <= terms,
        0 <= i1 < pool,
        0 <= i2 < pool,
    ensures
        blend(s1, h1, terms, i1, pool, true) > blend(s2, h2, terms, i2, pool, false),
{
    let t = if terms == 0 {
        1
    } else {
        terms
    };
    assert(9 * s2 * t <= 900 * t) by (nonlinear_arith)
        requires
            s2 <= 100,
            t > 0,
    ;
    assert(9 * s1 * t >= 0) by (nonlinear_arith)
        requires
            s1 >= 0,
            t > 0,
    ;
    let x1 = 9 * s1 * t + 700 * h1 + 20000 * t;
    let x2 = 9 * s2 * t + 700 * h2;
    assert(x1 * pool >= 20000 * t * pool) by (nonlinear_arith)
        requires
            x1 >= 20000 * t,
            pool > 0,
    ;
    assert(x2 * pool <= 1600 * t * pool) by (nonlinear_arith)
        requires
            x2 <= 1600 * t,
            pool > 0,
    ;
    assert(400 * (pool - i2) * t <= 400 * pool * t) by (nonlinear_arith)
        requires
            i2 >= 0,
            t > 0,
    ;
    assert(400 * (pool - i1) * t >= 0) by (nonlinear_arith)
        requires
            i1 < pool,
            t > 0,
    ;
    assert(400 * pool * t == 400 * (t * pool) && 20000 * t * pool == 20000 * (t * pool) && 1600 * t
        * pool == 1600 * (t * pool)) by (nonlinear_arith);
    assert(t * pool > 0) by (nonlinear_arith)
        requires
            t > 0,
            pool > 0,
    ;
}

/// Of two blends that differ in one ingredient alone, the one with the higher
/// score, more hits or the earlier place is the greater.
pub proof fn law_blend_grows(
    score: int,
    hits: int,
    terms: int,
    index: int,
    pool: int,
    exact: bool,
    better_score: int,
    better_hits: int,
    better_index: int,
)
    requires
        0 <= terms,
        0 < pool,
        score < better_score,
        hits < better_hits,
        better_index < index,
    ensures
        blend(score, hits, terms, index, pool, exact) < blend(
            better_score,
            hits,
            terms,
            index,
            pool,
            exact,
        ),
        blend(score, hits, terms, index, pool, exact) < blend(
            score,
            better_hits,
            terms,
            index,
            pool,
            exact,
        ),
        blend(score, hits, terms, index, pool, exact) < blend(
            score,
            hits,
            terms,
            better_index,
            pool,
            exact,
        ),
{
    let t = if terms == 0 {
        1
    } else {
        terms
    };
    let bonus = if exact {
        20000 * t
    } else {
        0
    };
    assert(9 * score * t < 9 * better_score * t) by (nonlinear_arith)
        requires
            score < better_score,
            t > 0,
    ;
    let x = 9 * score * t + 700 * hits + bonus;
    let y = 9 * better_score * t + 700 * hits + bonus;
    let z = 9 * score * t + 700 * better_hits + bonus;
    assert(x * pool < y * pool && x * pool < z * pool) by (nonlinear_arith)
        requires
            x < y,
            x < z,
            pool > 0,
    ;
    assert(400 * (pool - index) * t < 400 * (pool - better_index) * t) by (nonlinear_arith)
        requires
            better_index < index,
            t > 0,
    ;
}

/// In a search, a candidate whose name matches exactly comes before every one
/// whose name does not.
pub proof fn law_exact_names_rank_first(
    query: Seq<char>,
    candidates: Seq<PackageView>,
    qualities: Seq<QualityView>,
    i: int,
    j: int,
)
    requires
        candidates.len() == qualities.len(),
        forall|k: int| 0 <= k < qualities.len() ==> 0 <= (#[trigger] qualities[k]).score <= 100,
        0 <= i < candidates.len(),
        0 <= j < candidates.len(),
        exact_name(query, candidates[i]),
        !exact_name(query, candidates[j]),
    ensures
        precedes(candidate_keys(query, candidates, qualities), i, j),
{
    let t = terms(query, 2);
    law_overlap_is_a_fraction(t, searchable(candidates[i]));
    law_overlap_is_a_fraction(t, searchable(candidates[j]));
    law_exact_match_on_top(
        qualities[i].score,
        hits_in(t, searchable(candidates[i])) as int,
        i,
        qualities[j].score,
        hits_in(t, searchable(candidates[j])) as int,
        j,
        t.len() as int,
        candidates.len() as int,
    );
}

/// A candidate whose score sinks gets ahead of no candidate that it was behind.
pub proof fn law_lower_score_ranks_lower(
    query: Seq<char>,
    candidates: Seq<PackageView>,
    qualities: Seq<QualityView>,
    i: int,
    lower: QualityView,
    j: int,
)
    requires
        candidates.len() == qualities.len(),
        0 <= i < candidates.len(),
        0 <= j < candidates.len(),
        i != j,
        lower.score < qualities[i].score,
        precedes(candidate_keys(query, candidates, qualities), j, i),
    ensures
        precedes(candidate_keys(query, candidates, qualities.update(i, lower)), j, i),
        candidate_keys(query, candidates, qualities.update(i, lower))[i] < candidate_keys(
            query,
            candidates,
            qualities,
        )[i],
{
    let t = terms(query, 2);
    let h = hits_in(t, searchable(candidates[i])) as int;
    law_blend_grows(
        lower.score,
        h,
        t.len() as int,
        i,
        candidates.len() as int,
        exact_name(query, candidates[i]),
        qualities[i].score,
        h + 1,
        i - 1,
    );
}

} // verus!
