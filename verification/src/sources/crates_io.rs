//! crates.io (Rust).

use vstd::prelude::*;
use crate::model::{Ecosystem, Package, PackageView};
use crate::request::{lemma_pairs, plain_get, HttpRequest, RequestView};
use crate::text::{cat, copy_of, decimal, decimal_text, same_text};

verus! {

/// The answer to a search.
#[derive(Debug)]
pub struct CratesSearchResp {
    pub crates: Vec<RawCrate>,
}

/// The answer for one crate.
#[derive(Debug)]
pub struct CrateResp {
    pub krate: RawCrate,
    pub versions: Vec<RawCrateVersion>,
}

/// A crate as the registry describes it.
#[derive(Debug)]
pub struct RawCrate {
    pub name: String,
    pub description: Option<String>,
    pub downloads: u64,
    pub recent_downloads: Option<u64>,
    pub newest_version: Option<String>,
    pub max_stable_version: Option<String>,
    pub updated_at: Option<String>,
    pub repository: Option<String>,
    pub homepage: Option<String>,
    pub keywords: Option<Vec<String>>,
}

/// One version of a crate.
#[derive(Debug)]
pub struct RawCrateVersion {
    pub num: String,
    pub yanked: bool,
    pub license: Option<String>,
    pub rust_version: Option<String>,
}

/// The package that a crate is normalised into.
pub open spec fn crate_package(c: RawCrate) -> PackageView {
    PackageView {
        description: c.description.deep_view(),
        keywords: match c.keywords {
            Some(k) => k.deep_view(),
            None => Seq::empty(),
        },
        recent_downloads_90d: c.recent_downloads,
        total_downloads: Some(c.downloads),
        updated_at: c.updated_at.deep_view(),
        latest_version: c.newest_version.deep_view(),
        stable_version: c.max_stable_version.deep_view(),
        repository: c.repository.deep_view(),
        homepage: c.homepage.deep_view(),
        ..PackageView::bare(Ecosystem::Rust, c.name@)
    }
}

impl RawCrate {
    /// Normalises the crate.
    pub fn into_package(self) -> (r: Package)
        ensures
            r@ == crate_package(self),
            r.ecosystem == Ecosystem::Rust,
            r.name@ == self.name@,
            r.description.deep_view() == self.description.deep_view(),
            self.keywords matches Some(k) ==> r.keywords.deep_view() == k.deep_view(),
            self.keywords is None ==> r.keywords.len() == 0,
            r.recent_downloads_90d == self.recent_downloads,
            r.total_downloads == Some(self.downloads),
            r.updated_at.deep_view() == self.updated_at.deep_view(),
            r.latest_version.deep_view() == self.newest_version.deep_view(),
            r.stable_version.deep_view() == self.max_stable_version.deep_view(),
            r.repository.deep_view() == self.repository.deep_view(),
            r.homepage.deep_view() == self.homepage.deep_view(),
            r.stars is None && r.license is None && r.deprecated is None && r.min_runtime is None,
    {
        let mut p = Package::new(Ecosystem::Rust, self.name);
        p.description = self.description;
        p.keywords = match self.keywords {
            Some(k) => k,
            None => Vec::new(),
        };
        p.recent_downloads_90d = self.recent_downloads;
        p.total_downloads = Some(self.downloads);
        p.updated_at = self.updated_at;
        p.latest_version = self.newest_version;
        p.stable_version = self.max_stable_version;
        p.repository = self.repository;
        p.homepage = self.homepage;
        p
    }
}

impl CratesSearchResp {
    /// The crates found, in the registry's order.
    pub fn into_packages(self) -> (r: Vec<Package>)
        ensures
            r.deep_view() == self.crates@.map_values(|c: RawCrate| crate_package(c)),
            r.len() == self.crates.len(),
    {
        let mut out: Vec<Package> = Vec::new();
        for c in it: self.crates
            invariant
                it.seq() == self.crates@,
                out.deep_view() == it.seq().take(it.index()).map_values(
                    |c: RawCrate| crate_package(c),
                ),
        {
            let ghost before = out.deep_view();
            out.push(c.into_package());
            assert(out.deep_view() =~= before.push(crate_package(c)));
        }
        out
    }
}

// --- Searching -------------------------------------------------------------

/// How the registry is asked to sort what it finds.
#[derive(Debug, Clone, Copy, PartialEq, Eq, Structural)]
pub enum Sort {
    Relevance,
    Downloads,
}

impl Sort {
    pub open spec fn spec_name(self) -> Seq<char> {
        match self {
            Sort::Relevance => "relevance"@,
            Sort::Downloads => "downloads"@,
        }
    }

    fn name(self) -> (r: &'static str)
        ensures
            r@ == self.spec_name(),
    {
        match self {
            Sort::Relevance => "relevance",
            Sort::Downloads => "downloads",
        }
    }
}

/// How many crates a search asks for: four times the limit, from 15 to 40.
pub open spec fn page_size(limit: u32) -> nat {
    if limit * 4 < 15 {
        15
    } else if limit * 4 > 40 {
        40
    } else {
        (limit * 4) as nat
    }
}

/// The request that searches for crates.
pub open spec fn crates_query(query: Seq<char>, limit: u32, sort: Sort) -> RequestView {
    RequestView {
        query: seq![
            ("q"@, query),
            ("per_page"@, decimal(page_size(limit))),
            ("sort"@, sort.spec_name()),
        ],
        ..plain_get("https://crates.io/api/v1/crates"@)
    }
}

/// The request that searches for crates.
pub fn search_request(query: &str, limit: u32, sort: Sort) -> (r: HttpRequest)
    ensures
        r@ == crates_query(query@, limit, sort),
        r.url@ == "https://crates.io/api/v1/crates"@,
        r.user_agent is None,
        r.query.len() == 3,
        r.query@[0].0@ == "q"@ && r.query@[0].1@ == query@,
        r.query@[1].0@ == "per_page"@,
        limit <= 3 ==> r.query@[1].1@ == decimal(15),
        4 <= limit <= 10 ==> r.query@[1].1@ == decimal(4 * limit as nat),
        limit > 10 ==> r.query@[1].1@ == decimal(40),
        r.query@[2].0@ == "sort"@,
        sort == Sort::Relevance ==> r.query@[2].1@ == "relevance"@,
        sort == Sort::Downloads ==> r.query@[2].1@ == "downloads"@,
{
    let wanted: u64 = limit as u64 * 4;
    let per_page: u64 = if wanted < 15 {
        15
    } else if wanted > 40 {
        40
    } else {
        wanted
    };
    let r = HttpRequest::get("https://crates.io/api/v1/crates".to_owned()).with("q", query).with(
        "per_page",
        &decimal_text(per_page),
    ).with("sort", sort.name());
    assert(r@.query =~= crates_query(query@, limit, sort).query);
    proof {
        lemma_pairs(r.query@);
    }
    r
}

/// The names of packages.
pub open spec fn names_of(v: Seq<PackageView>) -> Seq<Seq<char>> {
    v.map_values(|p: PackageView| p.name)
}

/// The packages without those whose name came up before.
pub open spec fn first_of_each_name(v: Seq<PackageView>) -> Seq<PackageView>
    decreases v.len(),
{
    if v.len() == 0 {
        v
    } else {
        let before = first_of_each_name(v.drop_last());
        if names_of(before).contains(v.last().name) {
            before
        } else {
            before.push(v.last())
        }
    }
}

/// What the two searches, where they went through, found together.
pub open spec fn merged<E>(
    by_relevance: Result<Seq<PackageView>, E>,
    by_downloads: Result<Seq<PackageView>, E>,
) -> Result<Seq<PackageView>, E> {
    match (by_relevance, by_downloads) {
        (Ok(a), Ok(b)) => Ok(first_of_each_name(a + b)),
        (Ok(a), Err(_)) => Ok(first_of_each_name(a)),
        (Err(_), Ok(b)) => Ok(first_of_each_name(b)),
        (Err(e), Err(_)) => Err(e),
    }
}

/// The packages of an answer, where one came.
pub open spec fn found<E>(r: Result<Vec<Package>, E>) -> Result<Seq<PackageView>, E> {
    match r {
        Ok(v) => Ok(v.deep_view()),
        Err(e) => Err(e),
    }
}

fn has_name(v: &Vec<Package>, name: &str) -> (r: bool)
    ensures
        r == names_of(v.deep_view()).contains(name@),
{
    let mut i: usize = 0;
    while i < v.len()
        invariant
            i <= v.len(),
            forall|k: int| 0 <= k < i ==> #[trigger] names_of(v.deep_view())[k] != name@,
        decreases v.len() - i,
    {
        if same_text(&v[i].name, name) {
            assert(names_of(v.deep_view())[i as int] == name@);
            return true;
        }
        i += 1;
    }
    false
}

fn add_new(out: &mut Vec<Package>, more: Vec<Package>, Ghost(done): Ghost<Seq<PackageView>>)
    requires
        old(out).deep_view() == first_of_each_name(done),
    ensures
        final(out).deep_view() == first_of_each_name(done + more.deep_view()),
{
    let ghost all = more.deep_view();
    assert(done + all.take(0) =~= done);
    for p in it: more
        invariant
            it.seq() == more@,
            all == more.deep_view(),
            out.deep_view() == first_of_each_name(done + all.take(it.index())),
    {
        let ghost before = out.deep_view();
        let ghost upto = done + all.take(it.index() + 1);
        assert(upto.drop_last() =~= done + all.take(it.index()));
        assert(upto.last() == p@);
        if !has_name(out, &p.name) {
            out.push(p);
            assert(out.deep_view() =~= before.push(p@));
        }
    }
    assert(all.take(all.len() as int) =~= all);
}

/// Merges relevance-sorted and downloads-sorted results so popular head crates
/// (e.g. reqwest for "http client") aren't missed by raw relevance alone.
/// A real failure of *both* sorts is surfaced rather than masked as "no results".
pub fn merge_results<E>(
    by_relevance: Result<Vec<Package>, E>,
    by_downloads: Result<Vec<Package>, E>,
) -> (r: Result<Vec<Package>, E>)
    ensures
        found(r) == merged(found(by_relevance), found(by_downloads)),
{
    let (primary, secondary) = match (by_relevance, by_downloads) {
        (Ok(a), Ok(b)) => (a, b),
        (Ok(a), Err(_)) => (a, Vec::new()),
        (Err(_), Ok(b)) => (b, Vec::new()),
        (Err(e), Err(_)) => {
            return Err(e);
        },
    };
    let ghost first = primary.deep_view();
    let ghost second = secondary.deep_view();
    let mut out: Vec<Package> = Vec::new();
    let ghost none = Seq::<PackageView>::empty();
    assert(out.deep_view() =~= first_of_each_name(none));
    add_new(&mut out, primary, Ghost(none));
    assert(none + first =~= first);
    add_new(&mut out, secondary, Ghost(first));
    assert(second.len() == 0 ==> first + second =~= first);
    Ok(out)
}

// --- One crate -------------------------------------------------------------

/// The request for one crate.
pub fn crate_request(name: &str) -> (r: HttpRequest)
    ensures
        r@ == plain_get("https://crates.io/api/v1/crates/"@ + name@),
{
    HttpRequest::get(cat("https://crates.io/api/v1/crates/", name))
}

/// A crate with what its newest version adds: license, required Rust version,
/// whether it was yanked, and its number where the crate names no version.
pub open spec fn crate_details(c: RawCrate, versions: Seq<RawCrateVersion>) -> PackageView {
    let p = crate_package(c);
    if versions.len() > 0 {
        let latest = versions[0];
        PackageView {
            deprecated: Some(latest.yanked),
            license: latest.license.deep_view(),
            min_runtime: latest.rust_version.deep_view(),
            latest_version: match p.latest_version {
                Some(v) => Some(v),
                None => Some(latest.num@),
            },
            ..p
        }
    } else {
        p
    }
}

impl CrateResp {
    /// Normalises the answer for one crate.
    pub fn into_package(self) -> (r: Package)
        ensures
            r@ == crate_details(self.krate, self.versions@),
            r.ecosystem == Ecosystem::Rust,
            r.name@ == self.krate.name@,
            r.description.deep_view() == self.krate.description.deep_view(),
            r.recent_downloads_90d == self.krate.recent_downloads,
            r.total_downloads == Some(self.krate.downloads),
            r.updated_at.deep_view() == self.krate.updated_at.deep_view(),
            r.stable_version.deep_view() == self.krate.max_stable_version.deep_view(),
            r.repository.deep_view() == self.krate.repository.deep_view(),
            r.homepage.deep_view() == self.krate.homepage.deep_view(),
            self.krate.keywords matches Some(k) ==> r.keywords.deep_view() == k.deep_view(),
            self.krate.keywords is None ==> r.keywords.len() == 0,
            r.stars is None,
            self.versions@.len() > 0 ==> {
                &&& r.deprecated == Some(self.versions@[0].yanked)
                &&& r.license.deep_view() == self.versions@[0].license.deep_view()
                &&& r.min_runtime.deep_view() == self.versions@[0].rust_version.deep_view()
            },
            self.versions@.len() == 0 ==> r.deprecated is None && r.license is None
                && r.min_runtime is None,
            self.krate.newest_version is Some ==> r.latest_version.deep_view()
                == self.krate.newest_version.deep_view(),
            self.krate.newest_version is None && self.versions@.len() > 0
                ==> r.latest_version.deep_view() == Some(self.versions@[0].num@),
            self.krate.newest_version is None && self.versions@.len() == 0
                ==> r.latest_version is None,
    {
        let mut p = self.krate.into_package();
        if self.versions.len() > 0 {
            let latest = &self.versions[0];
            p.deprecated = Some(latest.yanked);
            p.license = copy_of(&latest.license);
            p.min_runtime = copy_of(&latest.rust_version);
            if p.latest_version.is_none() {
                p.latest_version = Some(latest.num.clone());
            }
        }
        p
    }
}

// --- Laws ------------------------------------------------------------------

/// Merging leaves each name once.
pub proof fn law_merged_names_are_distinct(v: Seq<PackageView>)
    ensures
        names_of(first_of_each_name(v)).no_duplicates(),
    decreases v.len(),
{
    if v.len() > 0 {
        law_merged_names_are_distinct(v.drop_last());
        let before = first_of_each_name(v.drop_last());
        if !names_of(before).contains(v.last().name) {
            let after = names_of(before.push(v.last()));
            assert(after =~= names_of(before).push(v.last().name));
        }
    }
}

/// Merging drops no name and invents no package.
pub proof fn law_merging_keeps_all_names(v: Seq<PackageView>, i: int)
    requires
        0 <= i < v.len(),
    ensures
        names_of(first_of_each_name(v)).contains(v[i].name),
        forall|k: int|
            0 <= k < first_of_each_name(v).len() ==> v.contains(#[trigger] first_of_each_name(v)[k]),
    decreases v.len(),
{
    let before = first_of_each_name(v.drop_last());
    let after = first_of_each_name(v);
    if v.len() > 1 {
        let j = if i < v.len() - 1 { i } else { 0 };
        law_merging_keeps_all_names(v.drop_last(), j);
    }
    assert(names_of(before.push(v.last())) =~= names_of(before).push(v.last().name));
    assert(names_of(before.push(v.last()))[before.len() as int] == v.last().name);
    if i < v.len() - 1 {
        let k = choose|k: int| 0 <= k < before.len() && names_of(before)[k] == v[i].name;
        assert(names_of(after)[k] == v[i].name);
    }
    assert forall|k: int| 0 <= k < after.len() implies v.contains(#[trigger] after[k]) by {
        if k < before.len() {
            assert(v.drop_last().contains(before[k]));
            let m = choose|m: int| 0 <= m < v.drop_last().len() && v.drop_last()[m] == before[k];
            assert(v[m] == after[k]);
        } else {
            assert(v[v.len() - 1] == after[k]);
        }
    }
}

/// What was found by relevance comes first: merging more results behind it only
/// appends.
pub proof fn law_merging_appends(a: Seq<PackageView>, b: Seq<PackageView>)
    ensures
        first_of_each_name(a).is_prefix_of(first_of_each_name(a + b)),
    decreases b.len(),
{
    if b.len() == 0 {
        assert(a + b =~= a);
    } else {
        law_merging_appends(a, b.drop_last());
        assert((a + b).drop_last() =~= a + b.drop_last());
    }
}

} // verus!
