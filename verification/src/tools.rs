//! The tools: what each takes, asks for and replies.

use vstd::prelude::*;
use crate::clock::{age_in_days, Timestamp};
use crate::model::{Ecosystem, Package, PackageView, Quality, QualityView, Vuln, VulnView};
use crate::rank::{
    candidate_keys, is_ranking, law_exact_names_rank_first, law_lower_score_ranks_lower,
    law_ranking_exists, law_ranking_is_complete, law_ranking_is_unique, precedes, rank_candidates, ranking,
};
use crate::relevance::exact_name;
use crate::report::{
    found, found_text, inspection, inspection_text, nothing_found, nothing_found_text, servers,
    servers_text,
};
use crate::score::{assess_at, assessment, law_advisories_sink_score, law_score_range};
use crate::sources::mcp::{McpServer, McpServerView};
use crate::sources::osv::{
    advisories, batch_ids, package_advisories, queries_about, OsvBatchResp,
};
use crate::text::{cat, cat3, trim, trimmed};

verus! {

/// Why a tool has no reply.
#[derive(Debug)]
pub enum ToolError {
    /// The caller's arguments make no sense.
    InvalidParams(String),
    /// A registry could not be asked.
    Internal(String),
}

impl ToolError {
    pub open spec fn spec_message(self) -> Seq<char> {
        match self {
            ToolError::InvalidParams(s) => s@,
            ToolError::Internal(s) => s@,
        }
    }

    /// What went wrong, in words.
    pub fn message(&self) -> (r: &str)
        ensures
            r@ == self.spec_message(),
            self matches ToolError::InvalidParams(s) ==> r@ == s@,
            self matches ToolError::Internal(s) ==> r@ == s@,
    {
        match self {
            ToolError::InvalidParams(s) => s.as_str(),
            ToolError::Internal(s) => s.as_str(),
        }
    }
}

/// How many results a tool gives: 8 where the caller names no limit, and from 1
/// to 25 where it does.
pub open spec fn limit_for(limit: Option<u32>) -> u32 {
    match limit {
        Some(n) => if n < 1 {
            1
        } else if n > 25 {
            25
        } else {
            n
        },
        None => 8,
    }
}

/// How many results a tool gives.
pub fn effective_limit(limit: Option<u32>) -> (r: u32)
    ensures
        r == limit_for(limit),
{
    match limit {
        Some(n) => if n < 1 {
            1
        } else if n > 25 {
            25
        } else {
            n
        },
        None => 8,
    }
}

fn checked<'a>(s: &'a str, complaint: &str) -> (r: Result<&'a str, ToolError>)
    ensures
        trimmed(s@).len() > 0 ==> (r matches Ok(t) && t@ == trimmed(s@)),
        trimmed(s@).len() == 0 ==> (r matches Err(ToolError::InvalidParams(m)) && m@ == complaint@),
{
    let t = trim(s);
    if t.is_empty() {
        Err(ToolError::InvalidParams(complaint.to_owned()))
    } else {
        Ok(t)
    }
}

// --- find_packages ---------------------------------------------------------

/// A search for packages.
#[derive(Debug)]
pub struct FindPackages {
    pub ecosystem: Ecosystem,
    pub query: String,
    pub limit: u32,
}

/// The assessments of packages at a point in time, given the advisories on each.
pub open spec fn assessments(
    candidates: Seq<PackageView>,
    ids: Seq<Seq<Seq<char>>>,
    now: Timestamp,
) -> Seq<QualityView> {
    Seq::new(
        candidates.len(),
        |i: int|
            assessment(candidates[i], age_in_days(candidates[i].updated_at, now), ids[i]),
    )
}

/// The first so many of the candidates in their ranking.
pub open spec fn shown(keys: Seq<int>, limit: nat) -> Seq<usize> {
    if ranking(keys).len() <= limit {
        ranking(keys)
    } else {
        ranking(keys).take(limit as int)
    }
}

/// The reply to a search that found these candidates, with the advisories on
/// each.
pub open spec fn search_reply(
    eco: Ecosystem,
    query: Seq<char>,
    limit: nat,
    candidates: Seq<PackageView>,
    ids: Seq<Seq<Seq<char>>>,
    now: Timestamp,
) -> Seq<char> {
    if candidates.len() == 0 {
        nothing_found_text(eco, query)
    } else {
        let qualities = assessments(candidates, ids, now);
        let keys = candidate_keys(query, candidates, qualities);
        found_text(eco, query, candidates, qualities, shown(keys, limit))
    }
}

impl FindPackages {
    /// Takes up a search, unless the query is blank.
    pub fn new(ecosystem: Ecosystem, query: &str, limit: Option<u32>) -> (r: Result<
        FindPackages,
        ToolError,
    >)
        ensures
            trimmed(query@).len() > 0 ==> (r matches Ok(f) && f.ecosystem == ecosystem && f.query@
                == trimmed(query@) && f.limit == limit_for(limit)),
            trimmed(query@).len() == 0 ==> (r matches Err(ToolError::InvalidParams(m)) && m@
                == "query must not be empty"@),
    {
        match checked(query, "query must not be empty") {
            Ok(q) => Ok(
                FindPackages { ecosystem, query: q.to_owned(), limit: effective_limit(limit) },
            ),
            Err(e) => Err(e),
        }
    }

    /// Replies to what the registry found and to what OSV answered to the
    /// queries about it, as of `now`: the best candidates, or why there are
    /// none.
    pub fn reply(
        &self,
        outcome: Result<Vec<Package>, String>,
        answer: Option<OsvBatchResp>,
        now: Timestamp,
    ) -> (r: Result<String, ToolError>)
        ensures
            match outcome {
                Ok(candidates) => r matches Ok(s) && s@ == search_reply(
                    self.ecosystem,
                    self.query@,
                    self.limit as nat,
                    candidates.deep_view(),
                    advisories(
                        candidates.deep_view(),
                        batch_ids(queries_about(candidates.deep_view()).len(), answer),
                    ),
                    now,
                ),
                Err(e) => r matches Err(ToolError::Internal(m)) && m@ == "search failed: "@ + e@,
            },
    {
        match outcome {
            Ok(candidates) => {
                let ids = package_advisories(&candidates, answer);
                assert(ids.deep_view().len() == candidates.deep_view().len());
                Ok(self.present(&candidates, &ids, now))
            },
            Err(e) => Err(ToolError::Internal(cat("search failed: ", &e))),
        }
    }

    fn present(&self, candidates: &Vec<Package>, ids: &Vec<Vec<String>>, now: Timestamp) -> (r:
        String)
        requires
            ids.len() == candidates.len(),
        ensures
            r@ == search_reply(
                self.ecosystem,
                self.query@,
                self.limit as nat,
                candidates.deep_view(),
                ids.deep_view(),
                now,
            ),
    {
        if candidates.len() == 0 {
            return nothing_found(self.ecosystem, &self.query);
        }
        let qualities = assess_all(candidates, ids, now);
        let order = rank_candidates(&self.query, candidates, &qualities);
        let wanted: usize = if order.len() as u64 <= self.limit as u64 {
            order.len()
        } else {
            self.limit as usize
        };
        proof {
            let keys = candidate_keys(self.query@, candidates.deep_view(), qualities.deep_view());
            lemma_the_ranking(keys, order@);
            assert(order@.take(wanted as int) =~= shown(keys, self.limit as nat));
            assert forall|i: int| 0 <= i < order.len() implies (#[trigger] order[i])
                < candidates.len() by {
                assert(order@[i] < keys.len());
            }
        }
        found(self.ecosystem, &self.query, candidates, &qualities, &order, wanted)
    }
}

fn assess_all(candidates: &Vec<Package>, ids: &Vec<Vec<String>>, now: Timestamp) -> (r: Vec<
    Quality,
>)
    requires
        ids.len() == candidates.len(),
    ensures
        r.deep_view() == assessments(candidates.deep_view(), ids.deep_view(), now),
        r.len() == candidates.len(),
        forall|i: int| 0 <= i < r.len() ==> (#[trigger] r[i]).score <= 100,
{
    let mut out: Vec<Quality> = Vec::new();
    let ghost all = assessments(candidates.deep_view(), ids.deep_view(), now);
    let mut i: usize = 0;
    while i < candidates.len()
        invariant
            i <= candidates.len(),
            ids.len() == candidates.len(),
            all == assessments(candidates.deep_view(), ids.deep_view(), now),
            out.len() == i,
            out.deep_view() == all.take(i as int),
            forall|k: int| 0 <= k < i ==> (#[trigger] out[k]).score <= 100,
        decreases candidates.len() - i,
    {
        let ghost before = out.deep_view();
        let q = assess_at(&candidates[i], &ids[i], now);
        proof {
            assert(candidates.deep_view()[i as int] == candidates[i as int]@);
            assert(ids.deep_view()[i as int] == ids[i as int].deep_view());
            assert(q@ == all[i as int]);
            assert(q.score == q@.score);
        }
        out.push(q);
        assert(out.deep_view() =~= before.push(q@));
        i += 1;
    }
    assert(all.take(i as int) =~= all);
    out
}

proof fn lemma_the_ranking(keys: Seq<int>, order: Seq<usize>)
    requires
        is_ranking(keys, order),
    ensures
        ranking(keys) == order,
{
    law_ranking_is_unique(keys, ranking(keys), order);
}

// --- inspect_package -------------------------------------------------------

/// An inspection of one package.
#[derive(Debug)]
pub struct InspectPackage {
    pub ecosystem: Ecosystem,
    pub name: String,
}

/// The identifiers of advisories.
pub open spec fn advisory_ids(vulns: Seq<VulnView>) -> Seq<Seq<char>> {
    vulns.map_values(|v: VulnView| v.id)
}

/// The reply to an inspection of a package, with the advisories on it.
pub open spec fn inspection_reply(
    p: PackageView,
    vulns: Seq<VulnView>,
    now: Timestamp,
) -> Seq<char> {
    inspection_text(
        p,
        assessment(p, age_in_days(p.updated_at, now), advisory_ids(vulns)),
        vulns,
    )
}

impl InspectPackage {
    /// Takes up an inspection, unless the name is blank.
    pub fn new(ecosystem: Ecosystem, name: &str) -> (r: Result<InspectPackage, ToolError>)
        ensures
            trimmed(name@).len() > 0 ==> (r matches Ok(f) && f.ecosystem == ecosystem && f.name@
                == trimmed(name@)),
            trimmed(name@).len() == 0 ==> (r matches Err(ToolError::InvalidParams(m)) && m@
                == "name must not be empty"@),
    {
        match checked(name, "name must not be empty") {
            Ok(n) => Ok(InspectPackage { ecosystem, name: n.to_owned() }),
            Err(e) => Err(e),
        }
    }

    /// Replies to what the registry says of the package and to the advisories on
    /// it, as of `now`.
    pub fn reply(
        &self,
        outcome: Result<Package, String>,
        vulns: &Vec<Vuln>,
        now: Timestamp,
    ) -> (r: Result<String, ToolError>)
        ensures
            match outcome {
                Ok(p) => r matches Ok(s) && s@ == inspection_reply(p@, vulns.deep_view(), now),
                Err(e) => r matches Err(ToolError::Internal(m)) && m@ == "could not fetch '"@
                    + self.name@ + "': "@ + e@,
            },
    {
        match outcome {
            Ok(p) => {
                let q = assess_at(&p, &ids_of(vulns), now);
                Ok(inspection(&p, &q, vulns))
            },
            Err(e) => Err(
                ToolError::Internal(cat(&cat3("could not fetch '", &self.name, "': "), &e)),
            ),
        }
    }
}

fn ids_of(vulns: &Vec<Vuln>) -> (r: Vec<String>)
    ensures
        r.deep_view() == advisory_ids(vulns.deep_view()),
{
    let mut out: Vec<String> = Vec::new();
    let mut i: usize = 0;
    while i < vulns.len()
        invariant
            i <= vulns.len(),
            out.deep_view() == advisory_ids(vulns.deep_view()).take(i as int),
        decreases vulns.len() - i,
    {
        let ghost before = out.deep_view();
        out.push(vulns[i].id.clone());
        assert(vulns.deep_view()[i as int] == vulns[i as int]@);
        assert(out.deep_view() =~= before.push(vulns[i as int].id@));
        i += 1;
    }
    assert(advisory_ids(vulns.deep_view()).take(i as int) =~= advisory_ids(vulns.deep_view()));
    out
}

// --- find_mcp_servers ------------------------------------------------------

/// A search of the MCP registry.
#[derive(Debug)]
pub struct FindMcpServers {
    pub query: String,
    pub limit: u32,
}

/// The first so many of the servers found.
pub open spec fn first_servers(v: Seq<McpServerView>, limit: nat) -> Seq<McpServerView> {
    if v.len() <= limit {
        v
    } else {
        v.take(limit as int)
    }
}

impl FindMcpServers {
    /// Takes up a search, unless the query is blank.
    pub fn new(query: &str, limit: Option<u32>) -> (r: Result<FindMcpServers, ToolError>)
        ensures
            trimmed(query@).len() > 0 ==> (r matches Ok(f) && f.query@ == trimmed(query@) && f.limit
                == limit_for(limit)),
            trimmed(query@).len() == 0 ==> (r matches Err(ToolError::InvalidParams(m)) && m@
                == "query must not be empty"@),
    {
        match checked(query, "query must not be empty") {
            Ok(q) => Ok(FindMcpServers { query: q.to_owned(), limit: effective_limit(limit) }),
            Err(e) => Err(e),
        }
    }

    /// Replies to what the registry found, with no more servers than the limit.
    pub fn reply(&self, outcome: Result<Vec<McpServer>, String>) -> (r: Result<String, ToolError>)
        ensures
            match outcome {
                Ok(v) => r matches Ok(s) && s@ == servers_text(
                    self.query@,
                    first_servers(v.deep_view(), self.limit as nat),
                ),
                Err(e) => r matches Err(ToolError::Internal(m)) && m@
                    == "MCP registry search failed: "@ + e@,
            },
    {
        match outcome {
            Ok(v) => {
                let mut shown = v;
                if shown.len() as u64 > self.limit as u64 {
                    shown.truncate(self.limit as usize);
                }
                assert(shown.deep_view() =~= first_servers(v.deep_view(), self.limit as nat));
                Ok(servers(&self.query, &shown))
            },
            Err(e) => Err(ToolError::Internal(cat("MCP registry search failed: ", &e))),
        }
    }
}

// --- Laws ------------------------------------------------------------------

/// A tool gives at least one result and at most 25, and as many as asked for in
/// between.
pub proof fn law_limit_is_bounded(limit: Option<u32>)
    ensures
        1 <= limit_for(limit) <= 25,
        limit matches Some(n) ==> (1 <= n <= 25 ==> limit_for(limit) == n),
{
}

/// A search presents the best of its candidates: as many as the limit allows,
/// none twice, each before those that it precedes, and none that a candidate
/// left out precedes.
pub proof fn law_best_candidates_are_shown(keys: Seq<int>, limit: nat)
    requires
        keys.len() <= usize::MAX,
    ensures
        ({
            let s = shown(keys, limit);
            &&& s.len() == if keys.len() <= limit {
                keys.len()
            } else {
                limit
            }
            &&& forall|i: int| 0 <= i < s.len() ==> (#[trigger] s[i]) < keys.len()
            &&& s.no_duplicates()
            &&& forall|i: int, j: int|
                0 <= i < j < s.len() ==> precedes(keys, #[trigger] s[i] as int, #[trigger] s[j] as int)
            &&& forall|i: int, out: usize|
                0 <= i < s.len() && out < keys.len() && !s.contains(out) ==> #[trigger] precedes(
                    keys,
                    s[i] as int,
                    out as int,
                )
        }),
{
    law_ranking_exists(keys);
    let order = ranking(keys);
    let s = shown(keys, limit);
    assert(s =~= order.take(s.len() as int));
    assert forall|i: int, j: int| 0 <= i < j < s.len() implies precedes(
        keys,
        #[trigger] s[i] as int,
        #[trigger] s[j] as int,
    ) by {
        assert(precedes(keys, order[i] as int, order[j] as int));
    }
    assert forall|i: int, out: usize|
        0 <= i < s.len() && out < keys.len() && !s.contains(out) implies #[trigger] precedes(
        keys,
        s[i] as int,
        out as int,
    ) by {
        law_ranking_is_complete(keys, order, out as int);
        let k = order.index_of(out);
        assert(order[k] == out);
        assert(k >= s.len()) by {
            if k < s.len() {
                assert(s[k] == out);
            }
        }
        assert(precedes(keys, order[i] as int, order[k] as int));
    }
}

/// A search of the MCP registry presents no more servers than the limit, and
/// those that the registry lists first.
pub proof fn law_servers_within_limit(v: Seq<McpServerView>, limit: nat)
    ensures
        first_servers(v, limit).len() <= limit,
        first_servers(v, limit).is_prefix_of(v),
        v.len() <= limit ==> first_servers(v, limit) == v,
{
}

/// In a search, a candidate with exactly the name asked for precedes every
/// candidate without, whatever their scores and advisories.
pub proof fn law_exact_name_precedes(
    query: Seq<char>,
    candidates: Seq<PackageView>,
    ids: Seq<Seq<Seq<char>>>,
    now: Timestamp,
    i: int,
    j: int,
)
    requires
        0 <= i < candidates.len(),
        0 <= j < candidates.len(),
        exact_name(query, candidates[i]),
        !exact_name(query, candidates[j]),
    ensures
        precedes(candidate_keys(query, candidates, assessments(candidates, ids, now)), i, j),
{
    let qualities = assessments(candidates, ids, now);
    assert forall|k: int| 0 <= k < qualities.len() implies 0 <= (#[trigger] qualities[k]).score
        <= 100 by {
        law_score_range(candidates[k], age_in_days(candidates[k].updated_at, now), ids[k]);
    }
    law_exact_names_rank_first(query, candidates, qualities, i, j);
}

/// Known advisories de-rank a candidate: its score sinks unless it is 0 already,
/// and it gets ahead of no candidate that it was behind without them.
pub proof fn law_advisories_derank(
    query: Seq<char>,
    candidates: Seq<PackageView>,
    ids: Seq<Seq<Seq<char>>>,
    now: Timestamp,
    i: int,
    j: int,
)
    requires
        ids.len() == candidates.len(),
        0 <= i < candidates.len(),
        0 <= j < candidates.len(),
        i != j,
        ids[i].len() > 0,
    ensures
        ({
            let clean = assessments(candidates, ids.update(i, seq![]), now);
            let flagged = assessments(candidates, ids, now);
            &&& clean[i].score > 0 ==> flagged[i].score < clean[i].score
            &&& precedes(candidate_keys(query, candidates, clean), j, i) ==> precedes(
                candidate_keys(query, candidates, flagged),
                j,
                i,
            )
        }),
{
    let clean = assessments(candidates, ids.update(i, seq![]), now);
    let flagged = assessments(candidates, ids, now);
    let age = age_in_days(candidates[i].updated_at, now);
    law_advisories_sink_score(candidates[i], age, ids[i]);
    assert(ids.update(i, seq![])[i] == Seq::<Seq<char>>::empty());
    law_score_range(candidates[i], age, seq![]);
    assert(flagged =~= clean.update(i, flagged[i]));
    if precedes(candidate_keys(query, candidates, clean), j, i) {
        if flagged[i].score < clean[i].score {
            law_lower_score_ranks_lower(query, candidates, clean, i, flagged[i], j);
        } else {
            assert(candidate_keys(query, candidates, flagged)
                =~= candidate_keys(query, candidates, clean));
        }
    }
}

} // verus!
