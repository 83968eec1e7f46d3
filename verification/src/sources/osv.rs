//! OSV.dev: known security advisories.

use vstd::prelude::*;
use crate::model::{Ecosystem, Package, PackageView, Vuln, VulnView};
use crate::text::{
    law_trimmed_is_tight, lemma_strip_start, strip_start, trim, trimmed, white_space,
    without_start, Strip,
};

verus! {

/// Where one package version is asked about.
pub const QUERY_URL: &'static str = "https://api.osv.dev/v1/query";

/// Where many package versions are asked about at once.
pub const BATCH_URL: &'static str = "https://api.osv.dev/v1/querybatch";

/// What is asked about one package version.
#[derive(Debug)]
pub struct OsvQuery {
    pub version: String,
    pub name: String,
    pub ecosystem: &'static str,
}

/// An [`OsvQuery`] with its texts as sequences of characters.
#[verifier::ext_equal]
pub struct OsvQueryView {
    pub version: Seq<char>,
    pub name: Seq<char>,
    pub ecosystem: Seq<char>,
}

impl View for OsvQuery {
    type V = OsvQueryView;

    open spec fn view(&self) -> OsvQueryView {
        OsvQueryView { version: self.version@, name: self.name@, ecosystem: self.ecosystem@ }
    }
}

impl DeepView for OsvQuery {
    type V = OsvQueryView;

    open spec fn deep_view(&self) -> OsvQueryView {
        self@
    }
}

/// A version as OSV writes it: without the "v" in front that Go modules have.
pub open spec fn bare_version(version: Seq<char>) -> Seq<char> {
    strip_start(trimmed(version), Strip::LowerV)
}

/// OSV uses plain semver; Go module versions carry a leading "v".
pub fn osv_version<'a>(version: &'a str) -> (r: &'a str)
    ensures
        r@ == bare_version(version@),
{
    without_start(trim(version), Strip::LowerV)
}

/// The query about a package version.
pub open spec fn query_about(eco: Ecosystem, name: Seq<char>, version: Seq<char>) -> OsvQueryView {
    OsvQueryView { version: bare_version(version), name, ecosystem: eco.spec_osv_name() }
}

impl OsvQuery {
    /// The query about a package version.
    pub fn new(eco: Ecosystem, name: &str, version: &str) -> (r: OsvQuery)
        ensures
            r@ == query_about(eco, name@, version@),
            r.name@ == name@,
            r.version@ == bare_version(version@),
            r.ecosystem@ == eco.spec_osv_name(),
    {
        OsvQuery {
            version: osv_version(version).to_owned(),
            name: name.to_owned(),
            ecosystem: eco.osv_name(),
        }
    }
}

// --- One package -----------------------------------------------------------

/// The answer to a query.
#[derive(Debug)]
pub struct OsvResp {
    pub vulns: Vec<OsvVuln>,
}

#[derive(Debug)]
pub struct OsvVuln {
    pub id: String,
    pub summary: Option<String>,
    pub database_specific: OsvDbSpecific,
}

#[derive(Debug)]
pub struct OsvDbSpecific {
    pub severity: Option<String>,
}

/// The advisory that an entry of an answer describes.
pub open spec fn advisory(v: OsvVuln) -> VulnView {
    VulnView {
        id: v.id@,
        summary: v.summary.deep_view(),
        severity: v.database_specific.severity.deep_view(),
    }
}

/// The query about the version of a package that would be installed, if it has
/// one.
pub fn package_query(p: &Package) -> (r: Option<OsvQuery>)
    ensures
        match p@.resolved_version() {
            Some(v) => r matches Some(q) && q@ == query_about(p@.ecosystem, p@.name, v),
            None => r is None,
        },
        p.stable_version matches Some(v) ==> (r matches Some(q) && q.name@ == p.name@ && q.version@
            == bare_version(v@) && q.ecosystem@ == p.ecosystem.spec_osv_name()),
        p.stable_version is None && p.latest_version is Some ==> (r matches Some(q) && q.name@
            == p.name@ && q.version@ == bare_version(p.latest_version->0@) && q.ecosystem@
            == p.ecosystem.spec_osv_name()),
        p.stable_version is None && p.latest_version is None ==> r is None,
{
    match p.resolved_version() {
        Some(v) => Some(OsvQuery::new(p.ecosystem, &p.name, v)),
        None => None,
    }
}

impl OsvResp {
    /// The advisories, in order.
    pub fn into_vulns(self) -> (r: Vec<Vuln>)
        ensures
            r.deep_view() == self.vulns@.map_values(|v: OsvVuln| advisory(v)),
            r.len() == self.vulns.len(),
            forall|i: int|
                0 <= i < r.len() ==> {
                    &&& (#[trigger] r@[i]).id@ == self.vulns@[i].id@
                    &&& r@[i].summary.deep_view() == self.vulns@[i].summary.deep_view()
                    &&& r@[i].severity.deep_view()
                        == self.vulns@[i].database_specific.severity.deep_view()
                },
    {
        let mut out: Vec<Vuln> = Vec::new();
        for v in it: self.vulns
            invariant
                it.seq() == self.vulns@,
                out.deep_view() == it.seq().take(it.index()).map_values(|v: OsvVuln| advisory(v)),
        {
            let ghost before = out.deep_view();
            out.push(
                Vuln { id: v.id, summary: v.summary, severity: v.database_specific.severity },
            );
            assert(out.deep_view() =~= before.push(advisory(v)));
        }
        assert forall|i: int| 0 <= i < out.len() implies {
            &&& (#[trigger] out@[i]).id@ == self.vulns@[i].id@
            &&& out@[i].summary.deep_view() == self.vulns@[i].summary.deep_view()
            &&& out@[i].severity.deep_view()
                == self.vulns@[i].database_specific.severity.deep_view()
        } by {
            assert(out.deep_view()[i] == out@[i]@);
            assert(out.deep_view()[i] == advisory(self.vulns@[i]));
        }
        out
    }
}

// --- Many packages ---------------------------------------------------------

/// The answer to a batch of queries.
#[derive(Debug)]
pub struct OsvBatchResp {
    pub results: Vec<OsvBatchResult>,
}

#[derive(Debug)]
pub struct OsvBatchResult {
    pub vulns: Vec<OsvBatchVuln>,
}

#[derive(Debug)]
pub struct OsvBatchVuln {
    pub id: String,
}

/// The identifiers in one result of a batch.
pub open spec fn ids_in(r: OsvBatchResult) -> Seq<Seq<char>> {
    r.vulns@.map_values(|v: OsvBatchVuln| v.id@)
}

/// The identifiers for each of so many queries: what the answer holds where it
/// has a result for every query, else none.
pub open spec fn batch_ids(asked: nat, answer: Option<OsvBatchResp>) -> Seq<Seq<Seq<char>>> {
    if answer is Some && answer->0.results@.len() == asked {
        answer->0.results@.map_values(|r: OsvBatchResult| ids_in(r))
    } else {
        Seq::new(asked, |i: int| Seq::empty())
    }
}

fn ids_of(r: OsvBatchResult) -> (ids: Vec<String>)
    ensures
        ids.deep_view() == ids_in(r),
{
    let mut out: Vec<String> = Vec::new();
    for v in it: r.vulns
        invariant
            it.seq() == r.vulns@,
            out.deep_view() == it.seq().take(it.index()).map_values(|v: OsvBatchVuln| v.id@),
    {
        let ghost before = out.deep_view();
        out.push(v.id);
        assert(out.deep_view() =~= before.push(v.id@));
    }
    out
}

/// The list of identifiers for each query of a batch, in the same order. No
/// answer, or one for another number of queries, counts as no advisories.
pub fn batch_advisories(asked: usize, answer: Option<OsvBatchResp>) -> (r: Vec<Vec<String>>)
    ensures
        r.deep_view() == batch_ids(asked as nat, answer),
        r.len() == asked,
        answer is Some && answer->0.results@.len() == asked ==> forall|i: int, k: int|
            0 <= i < asked && 0 <= k < answer->0.results@[i].vulns@.len() ==> #[trigger]
                r.deep_view()[i][k] == answer->0.results@[i].vulns@[k].id@,
        answer is Some && answer->0.results@.len() == asked ==> forall|i: int|
            0 <= i < asked ==> (#[trigger] r.deep_view()[i]).len()
                == answer->0.results@[i].vulns@.len(),
        answer is None || answer->0.results@.len() != asked ==> forall|i: int|
            0 <= i < asked ==> (#[trigger] r.deep_view()[i]).len() == 0,
{
    let mut out: Vec<Vec<String>> = Vec::new();
    if let Some(resp) = answer {
        if resp.results.len() == asked {
            for x in it: resp.results
                invariant
                    it.seq() == resp.results@,
                    out.deep_view() == it.seq().take(it.index()).map_values(
                        |r: OsvBatchResult| ids_in(r),
                    ),
            {
                let ghost before = out.deep_view();
                out.push(ids_of(x));
                assert(out.deep_view() =~= before.push(ids_in(x)));
            }
            return out;
        }
    }
    let mut i: usize = 0;
    while i < asked
        invariant
            i <= asked,
            out.deep_view() == Seq::new(i as nat, |j: int| Seq::<Seq<char>>::empty()),
        decreases asked - i,
    {
        let ghost before = out.deep_view();
        let none: Vec<String> = Vec::new();
        assert(none.deep_view() =~= Seq::<Seq<char>>::empty());
        out.push(none);
        assert(out.deep_view() =~= before.push(Seq::<Seq<char>>::empty()));
        i += 1;
    }
    out
}

/// The queries about those of the packages that have a version, in order.
pub open spec fn queries_about(v: Seq<PackageView>) -> Seq<OsvQueryView>
    decreases v.len(),
{
    if v.len() == 0 {
        Seq::empty()
    } else {
        let before = queries_about(v.drop_last());
        match v.last().resolved_version() {
            Some(version) => before.push(query_about(v.last().ecosystem, v.last().name, version)),
            None => before,
        }
    }
}

/// The queries about those of the packages that have a version, in order.
pub fn batch_queries(packages: &Vec<Package>) -> (r: Vec<OsvQuery>)
    ensures
        r.deep_view() == queries_about(packages.deep_view()),
{
    let mut out: Vec<OsvQuery> = Vec::new();
    let mut i: usize = 0;
    while i < packages.len()
        invariant
            i <= packages.len(),
            out.deep_view() == queries_about(packages.deep_view().take(i as int)),
        decreases packages.len() - i,
    {
        let ghost before = out.deep_view();
        let ghost upto = packages.deep_view().take(i + 1);
        assert(upto.drop_last() =~= packages.deep_view().take(i as int));
        assert(upto.last() == packages[i as int]@);
        if let Some(q) = package_query(&packages[i]) {
            out.push(q);
            assert(out.deep_view() =~= before.push(q@));
        }
        i += 1;
    }
    assert(packages.deep_view().take(i as int) =~= packages.deep_view());
    out
}

/// The advisories of the package at a place, where `ids` holds those of the
/// packages that have a version.
pub open spec fn advisories_at(v: Seq<PackageView>, ids: Seq<Seq<Seq<char>>>, i: int) -> Seq<
    Seq<char>,
> {
    let at = queries_about(v.take(i)).len() as int;
    if v[i].resolved_version() is Some && at < ids.len() {
        ids[at]
    } else {
        Seq::empty()
    }
}

/// The advisories of each package, where `ids` holds those of the packages that
/// have a version.
pub open spec fn advisories(v: Seq<PackageView>, ids: Seq<Seq<Seq<char>>>) -> Seq<Seq<Seq<char>>> {
    Seq::new(v.len(), |i: int| advisories_at(v, ids, i))
}

/// The advisories of each package, from the answer to the batch of queries
/// about those that have a version. A package without a version has none.
pub fn package_advisories(packages: &Vec<Package>, answer: Option<OsvBatchResp>) -> (r: Vec<
    Vec<String>,
>)
    ensures
        r.deep_view() == advisories(
            packages.deep_view(),
            batch_ids(queries_about(packages.deep_view()).len(), answer),
        ),
{
    let mut asked: usize = 0;
    let mut i: usize = 0;
    while i < packages.len()
        invariant
            asked <= i <= packages.len(),
            asked == queries_about(packages.deep_view().take(i as int)).len(),
        decreases packages.len() - i,
    {
        let ghost upto = packages.deep_view().take(i + 1);
        assert(upto.drop_last() =~= packages.deep_view().take(i as int));
        assert(upto.last() == packages[i as int]@);
        if packages[i].resolved_version().is_some() {
            asked += 1;
        }
        i += 1;
    }
    assert(packages.deep_view().take(i as int) =~= packages.deep_view());
    let ids = batch_advisories(asked, answer);
    let ghost all = ids.deep_view();
    let mut out: Vec<Vec<String>> = Vec::new();
    let mut at: usize = 0;
    let mut j: usize = 0;
    while j < packages.len()
        invariant
            at <= j <= packages.len(),
            at == queries_about(packages.deep_view().take(j as int)).len(),
            all == ids.deep_view(),
            out.deep_view() == Seq::new(
                j as nat,
                |k: int| advisories_at(packages.deep_view(), all, k),
            ),
        decreases packages.len() - j,
    {
        let ghost before = out.deep_view();
        let ghost upto = packages.deep_view().take(j + 1);
        assert(upto.drop_last() =~= packages.deep_view().take(j as int));
        assert(upto.last() == packages[j as int]@);
        assert(packages.deep_view()[j as int] == packages[j as int]@);
        let found = if packages[j].resolved_version().is_some() {
            let list = if at < ids.len() {
                copies(&ids[at])
            } else {
                Vec::new()
            };
            at += 1;
            list
        } else {
            Vec::new()
        };
        assert(found.deep_view() =~= advisories_at(packages.deep_view(), all, j as int));
        out.push(found);
        assert(out.deep_view() =~= before.push(found.deep_view()));
        j += 1;
    }
    out
}

fn copies(v: &Vec<String>) -> (r: Vec<String>)
    ensures
        r.deep_view() == v.deep_view(),
{
    let mut out: Vec<String> = Vec::new();
    let mut i: usize = 0;
    while i < v.len()
        invariant
            i <= v.len(),
            out.deep_view() == v.deep_view().take(i as int),
        decreases v.len() - i,
    {
        let ghost before = out.deep_view();
        out.push(v[i].clone());
        assert(out.deep_view() =~= before.push(v[i as int]@));
        i += 1;
    }
    out
}

// --- Laws ------------------------------------------------------------------

/// A batch gives one list for each query, in the same order: as many lists as
/// queries whatever the answer is, and empty ones where it does not fit.
pub proof fn law_batch_matches_queries(asked: nat, answer: Option<OsvBatchResp>, i: int)
    requires
        0 <= i < asked,
    ensures
        batch_ids(asked, answer).len() == asked,
        match answer {
            Some(r) => batch_ids(asked, answer)[i] == if r.results@.len() == asked {
                ids_in(r.results@[i])
            } else {
                Seq::empty()
            },
            None => batch_ids(asked, answer)[i] == Seq::<Seq<char>>::empty(),
        },
{
}

/// The advisories that a package gets are those of the query about its own
/// version.
pub proof fn law_advisories_reach_their_package(
    v: Seq<PackageView>,
    ids: Seq<Seq<Seq<char>>>,
    i: int,
)
    requires
        0 <= i < v.len(),
        ids.len() == queries_about(v).len(),
    ensures
        advisories(v, ids).len() == v.len(),
        match v[i].resolved_version() {
            Some(version) => exists|k: int|
                0 <= k < ids.len() && #[trigger] queries_about(v)[k] == query_about(
                    v[i].ecosystem,
                    v[i].name,
                    version,
                ) && advisories(v, ids)[i] == ids[k],
            None => advisories(v, ids)[i] == Seq::<Seq<char>>::empty(),
        },
{
    if let Some(version) = v[i].resolved_version() {
        let k = queries_about(v.take(i)).len() as int;
        let q = query_about(v[i].ecosystem, v[i].name, version);
        assert(v.take(i + 1).drop_last() =~= v.take(i));
        assert(queries_about(v.take(i + 1)) == queries_about(v.take(i)).push(q));
        lemma_queries_extend(v, i + 1);
        assert(queries_about(v.take(i + 1))[k] == q);
    }
}

/// The queries about the first packages come first.
proof fn lemma_queries_extend(v: Seq<PackageView>, n: int)
    requires
        0 <= n <= v.len(),
    ensures
        queries_about(v.take(n)).len() <= queries_about(v).len(),
        forall|k: int|
            0 <= k < queries_about(v.take(n)).len() ==> #[trigger] queries_about(v.take(n))[k]
                == queries_about(v)[k],
    decreases v.len(),
{
    if n == v.len() {
        assert(v.take(n) =~= v);
    } else {
        lemma_queries_extend(v.drop_last(), n);
        assert(v.drop_last().take(n) =~= v.take(n));
    }
}

/// What OSV is asked about has no "v" in front.
pub proof fn law_osv_version_is_bare(version: Seq<char>)
    ensures
        bare_version(version).len() == 0 || bare_version(version)[0] != 'v',
{
    lemma_strip_start(trimmed(version), Strip::LowerV);
}

/// A Go module's version is asked about without its "v", a plain version as it
/// is.
pub proof fn law_osv_version_drops_go_prefix(version: Seq<char>)
    requires
        trimmed(version) == version,
        version.len() > 0 ==> version[0] != 'v',
    ensures
        bare_version(version) == version,
        bare_version(seq!['v'] + version) == version,
{
    let go = seq!['v'] + version;
    law_trimmed_is_tight(version);
    assert(version.len() > 0 ==> go.last() == version.last());
    assert(!white_space('v'));
    assert(trimmed(go) == go);
    assert(go.drop_first() =~= version);
    lemma_strip_start(version, Strip::LowerV);
}

} // verus!
