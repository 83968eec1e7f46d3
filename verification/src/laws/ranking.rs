//! Laws of relevance and ranking: which candidate of a search comes first.

use vstd::prelude::*;
use crate::model::{PackageView, QualityView};
use crate::rank::{candidate_keys, is_ranking, law_ranking_exists, law_ranking_is_complete, ranking};
use crate::relevance::{exact_name, hits_in, keyword_text, searchable};
use crate::text::{lowercase, occurs_in, terms, trimmed};
use crate::tools::shown;

verus! {

// --- Relevance -------------------------------------------------------------

/// Each term that occurs in a text is one hit, any other none.
pub proof fn law_hits_are_counted(v: Seq<Seq<char>>, t: Seq<char>, text: Seq<char>)
    ensures
        hits_in(Seq::empty(), text) == 0,
        occurs_in(t, text) ==> hits_in(v.push(t), text) == hits_in(v, text) + 1,
        !occurs_in(t, text) ==> hits_in(v.push(t), text) == hits_in(v, text),
{
    assert(v.push(t).drop_last() =~= v);
}

/// A term without a space in it hits a package exactly where it occurs, in lower
/// case, in the name, the description or one of the keywords.
pub proof fn law_where_terms_are_looked_up(t: Seq<char>, p: PackageView)
    requires
        !t.contains(' '),
    ensures
        occurs_in(t, searchable(p)) <==> {
            ||| occurs_in(t, lowercase(p.name))
            ||| p.description is Some && occurs_in(t, lowercase(p.description->0))
            ||| exists|i: int|
                0 <= i < p.keywords.len() && occurs_in(t, #[trigger] lowercase(p.keywords[i]))
        },
    decreases p.keywords.len(),
{
    reveal_strlit(" ");
    if p.keywords.len() == 0 {
        assert(keyword_text(p.keywords) =~= Seq::<char>::empty());
        match p.description {
            Some(d) => {
                lemma_occurs_in_either(t, lowercase(p.name), lowercase(d));
                assert(searchable(p) =~= lowercase(p.name) + seq![' '] + lowercase(d));
            },
            None => {
                assert(searchable(p) =~= lowercase(p.name));
            },
        }
    } else {
        let n = p.keywords.len() - 1;
        let fewer = PackageView { keywords: p.keywords.drop_last(), ..p };
        law_where_terms_are_looked_up(t, fewer);
        lemma_occurs_in_either(t, searchable(fewer), lowercase(p.keywords.last()));
        assert(searchable(p) =~= searchable(fewer) + seq![' '] + lowercase(p.keywords.last()));
        if exists|i: int|
            0 <= i < fewer.keywords.len() && occurs_in(t, #[trigger] lowercase(fewer.keywords[i])) {
            let i = choose|i: int|
                0 <= i < fewer.keywords.len() && occurs_in(
                    t,
                    #[trigger] lowercase(fewer.keywords[i]),
                );
            assert(occurs_in(t, lowercase(p.keywords[i])));
        }
        if occurs_in(t, lowercase(p.keywords.last())) {
            assert(occurs_in(t, lowercase(p.keywords[n])));
        }
        if exists|i: int|
            0 <= i < p.keywords.len() && occurs_in(t, #[trigger] lowercase(p.keywords[i])) {
            let i = choose|i: int|
                0 <= i < p.keywords.len() && occurs_in(t, #[trigger] lowercase(p.keywords[i]));
            if i < n {
                assert(occurs_in(t, lowercase(fewer.keywords[i])));
            }
        }
    }
}

/// A text without a space occurs in two that a space parts where it occurs in
/// one of them.
proof fn lemma_occurs_in_either(t: Seq<char>, a: Seq<char>, b: Seq<char>)
    requires
        !t.contains(' '),
    ensures
        occurs_in(t, a + seq![' '] + b) <==> occurs_in(t, a) || occurs_in(t, b),
{
    let s = a + seq![' '] + b;
    if occurs_in(t, s) {
        let i = choose|i: int|
            0 <= i <= s.len() - t.len() && #[trigger] s.subrange(i, i + t.len()) == t;
        if i + t.len() <= a.len() {
            assert(a.subrange(i, i + t.len()) =~= s.subrange(i, i + t.len()));
        } else if i > a.len() {
            let k = i - a.len() - 1;
            assert(b.subrange(k, k + t.len()) =~= s.subrange(i, i + t.len()));
        } else {
            assert(s.subrange(i, i + t.len())[a.len() - i] == ' ');
            assert(t.contains(t[a.len() - i]));
        }
    }
    if occurs_in(t, a) {
        let i = choose|i: int|
            0 <= i <= a.len() - t.len() && #[trigger] a.subrange(i, i + t.len()) == t;
        assert(s.subrange(i, i + t.len()) =~= a.subrange(i, i + t.len()));
    }
    if occurs_in(t, b) {
        let i = choose|i: int|
            0 <= i <= b.len() - t.len() && #[trigger] b.subrange(i, i + t.len()) == t;
        let k = i + a.len() + 1;
        assert(s.subrange(k, k + t.len()) =~= b.subrange(i, i + t.len()));
    }
}

/// A name is exact where it is, in lower case, one of the query's terms or the
/// whole query without the white space around it.
pub proof fn law_exact_names(query: Seq<char>, p: PackageView)
    ensures
        exact_name(query, p) <==> (exists|i: int|
            0 <= i < terms(query, 2).len() && #[trigger] terms(query, 2)[i] == lowercase(p.name))
            || lowercase(trimmed(query)) == lowercase(p.name),
{
}

// --- Keys ------------------------------------------------------------------

/// A candidate's key weighs its score with 9, the share of terms that hit it
/// with 700 and its place with 400, and an exact name with 20000, over a common
/// denominator: 45, 35, 20 and 1000 in a hundred.
pub proof fn law_key_of_a_candidate(
    query: Seq<char>,
    candidates: Seq<PackageView>,
    qualities: Seq<QualityView>,
    i: int,
)
    requires
        0 <= i < candidates.len(),
        candidates.len() == qualities.len(),
    ensures
        ({
            let v = terms(query, 2);
            let t = if v.len() == 0 {
                1
            } else {
                v.len() as int
            };
            let n = candidates.len() as int;
            let exact = v.contains(lowercase(candidates[i].name)) || lowercase(trimmed(query))
                == lowercase(candidates[i].name);
            candidate_keys(query, candidates, qualities)[i] == 9 * (qualities[i].score * (t * n))
                + 700 * (hits_in(v, searchable(candidates[i])) * n) + 400 * ((n - i) * t) + if exact {
                20000 * (t * n)
            } else {
                0
            }
        }),
{
    let v = terms(query, 2);
    let t = if v.len() == 0 {
        1
    } else {
        v.len() as int
    };
    let n = candidates.len() as int;
    let s = qualities[i].score;
    let h = hits_in(v, searchable(candidates[i])) as int;
    let b = if exact_name(query, candidates[i]) {
        20000 * t
    } else {
        0
    };
    assert((9 * s * t + 700 * h + b) * n + 400 * (n - i) * t == 9 * (s * (t * n)) + 700 * (h * n)
        + 400 * ((n - i) * t) + b * n) by (nonlinear_arith);
    assert((20000 * t) * n == 20000 * (t * n)) by (nonlinear_arith);
    assert(0 * n == 0);
}

/// Of two candidates with equal scores, both or neither with an exact name, the
/// earlier one has the greater key whenever at least as many of the query's
/// terms hit it.
pub proof fn law_relevant_candidates_keep_their_place(
    query: Seq<char>,
    candidates: Seq<PackageView>,
    qualities: Seq<QualityView>,
    i: int,
    j: int,
)
    requires
        0 <= i < j < candidates.len(),
        candidates.len() == qualities.len(),
        qualities[i].score == qualities[j].score,
        exact_name(query, candidates[i]) == exact_name(query, candidates[j]),
        hits_in(terms(query, 2), searchable(candidates[i])) >= hits_in(
            terms(query, 2),
            searchable(candidates[j]),
        ),
    ensures
        candidate_keys(query, candidates, qualities)[i] > candidate_keys(
            query,
            candidates,
            qualities,
        )[j],
{
    law_key_of_a_candidate(query, candidates, qualities, i);
    law_key_of_a_candidate(query, candidates, qualities, j);
    law_exact_names(query, candidates[i]);
    law_exact_names(query, candidates[j]);
    let v = terms(query, 2);
    let t = if v.len() == 0 {
        1
    } else {
        v.len() as int
    };
    let n = candidates.len() as int;
    let h = hits_in(v, searchable(candidates[i])) as int;
    let k = hits_in(v, searchable(candidates[j])) as int;
    assert(h * n >= k * n && (n - i) * t > (n - j) * t) by (nonlinear_arith)
        requires
            h >= k,
            n > 0,
            t > 0,
            i < j,
    ;
}

/// With everything else equal a candidate's key grows with the number of query
/// terms that hit it, and with its score.
pub proof fn law_keys_grow(
    query: Seq<char>,
    some: Seq<PackageView>,
    others: Seq<PackageView>,
    qualities: Seq<QualityView>,
    better: Seq<QualityView>,
    i: int,
)
    requires
        0 <= i < some.len(),
        some.len() == others.len(),
        some.len() == qualities.len(),
        some.len() == better.len(),
        exact_name(query, some[i]) == exact_name(query, others[i]),
    ensures
        ({
            let v = terms(query, 2);
            let fewer = hits_in(v, searchable(some[i]));
            let more = hits_in(v, searchable(others[i]));
            let low = candidate_keys(query, some, qualities)[i];
            let high = candidate_keys(query, others, better)[i];
            &&& fewer < more && qualities[i].score == better[i].score ==> low < high
            &&& fewer == more && qualities[i].score < better[i].score ==> low < high
            &&& fewer == more && qualities[i].score == better[i].score ==> low == high
        }),
{
    law_key_of_a_candidate(query, some, qualities, i);
    law_key_of_a_candidate(query, others, better, i);
    law_exact_names(query, some[i]);
    law_exact_names(query, others[i]);
    let v = terms(query, 2);
    let t = if v.len() == 0 {
        1
    } else {
        v.len() as int
    };
    let n = some.len() as int;
    let h = hits_in(v, searchable(some[i])) as int;
    let k = hits_in(v, searchable(others[i])) as int;
    let s = qualities[i].score;
    let b = better[i].score;
    if h < k {
        assert(h * n < k * n) by (nonlinear_arith)
            requires
                h < k,
                n > 0,
        ;
    }
    assert(t * n > 0) by (nonlinear_arith)
        requires
            t > 0,
            n > 0,
    ;
    let d = t * n;
    if s < b {
        assert(s * d < b * d) by (nonlinear_arith)
            requires
                s < b,
                d > 0,
        ;
    }
}

// --- Order -----------------------------------------------------------------

/// A ranking lists every candidate once, by falling key; equal keys keep the
/// registry's order.
pub proof fn law_rankings(keys: Seq<int>, order: Seq<usize>, at: int)
    requires
        is_ranking(keys, order),
        0 <= at < keys.len(),
    ensures
        order.len() == keys.len(),
        exists|i: int| 0 <= i < order.len() && #[trigger] order[i] == at,
        forall|i: int, j: int|
            0 <= i < j < order.len() ==> {
                ||| keys[(#[trigger] order[i]) as int] > keys[(#[trigger] order[j]) as int]
                ||| keys[order[i] as int] == keys[order[j] as int] && order[i] < order[j]
            },
{
    law_ranking_is_complete(keys, order, at);
}

/// What is shown of a search are as many candidates as the limit allows, by
/// falling key, equal keys in the registry's order, and none that is left out
/// has a greater key.
pub proof fn law_what_is_shown(keys: Seq<int>, limit: nat)
    requires
        keys.len() <= usize::MAX,
    ensures
        ({
            let s = shown(keys, limit);
            &&& s.len() == if keys.len() < limit {
                keys.len()
            } else {
                limit
            }
            &&& forall|i: int| 0 <= i < s.len() ==> (#[trigger] s[i]) < keys.len()
            &&& forall|i: int, j: int|
                0 <= i < j < s.len() ==> {
                    ||| keys[(#[trigger] s[i]) as int] > keys[(#[trigger] s[j]) as int]
                    ||| keys[s[i] as int] == keys[s[j] as int] && s[i] < s[j]
                }
            &&& forall|i: int, out: usize|
                0 <= i < s.len() && out < keys.len() && !(#[trigger] s.contains(out)) ==> {
                    ||| keys[(#[trigger] s[i]) as int] > keys[out as int]
                    ||| keys[s[i] as int] == keys[out as int] && s[i] < out
                }
        }),
{
    law_ranking_exists(keys);
    let order = ranking(keys);
    let s = shown(keys, limit);
    assert(s =~= order.take(s.len() as int));
    assert forall|i: int, out: usize|
        0 <= i < s.len() && out < keys.len() && !(#[trigger] s.contains(out)) implies {
        ||| keys[(#[trigger] s[i]) as int] > keys[out as int]
        ||| keys[s[i] as int] == keys[out as int] && s[i] < out
    } by {
        law_ranking_is_complete(keys, order, out as int);
        let k = choose|k: int| 0 <= k < order.len() && order[k] == out;
        if k < s.len() {
            assert(s[k] == out);
        }
        assert(s[i] == order[i]);
    }
}

} // verus!
