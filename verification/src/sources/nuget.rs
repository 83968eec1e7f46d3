//! NuGet (.NET): the search answers carry total downloads.

use vstd::prelude::*;
use crate::model::{Ecosystem, Package, PackageView};
use crate::request::{lemma_pairs, plain_get, HttpRequest, RequestView};
use crate::sources::json::JsonValue;
use crate::text::{cat, cat3, copy_of, decimal, decimal_text, if_not_empty, non_empty};

verus! {

/// The answer to a query.
#[derive(Debug)]
pub struct NugetSearchResp {
    pub data: Vec<NugetData>,
}

/// A package as the registry describes it.
#[derive(Debug)]
pub struct NugetData {
    pub id: String,
    pub version: Option<String>,
    pub description: Option<String>,
    pub total_downloads: Option<u64>,
    pub license_expression: Option<String>,
    pub project_url: Option<String>,
    pub tags: Vec<String>,
    pub deprecation: Option<JsonValue>,
}

/// The package that an entry is normalised into.
pub open spec fn nuget_package(d: NugetData) -> PackageView {
    PackageView {
        description: d.description.deep_view(),
        keywords: d.tags.deep_view(),
        total_downloads: d.total_downloads,
        latest_version: d.version.deep_view(),
        stable_version: d.version.deep_view(),
        license: non_empty(d.license_expression.deep_view()),
        repository: d.project_url.deep_view(),
        deprecated: Some(d.deprecation is Some),
        ..PackageView::bare(Ecosystem::Nuget, d.id@)
    }
}

impl NugetData {
    /// Normalises the entry.
    pub fn into_package(self) -> (r: Package)
        ensures
            r@ == nuget_package(self),
            r.ecosystem == Ecosystem::Nuget,
            r.name@ == self.id@,
            r.description.deep_view() == self.description.deep_view(),
            r.keywords.deep_view() == self.tags.deep_view(),
            r.total_downloads == self.total_downloads,
            r.latest_version.deep_view() == self.version.deep_view(),
            r.stable_version.deep_view() == self.version.deep_view(),
            self.license_expression is Some && self.license_expression->0@.len() > 0
                ==> r.license.deep_view() == self.license_expression.deep_view(),
            self.license_expression is None || self.license_expression->0@.len() == 0
                ==> r.license is None,
            r.repository.deep_view() == self.project_url.deep_view(),
            r.deprecated == Some(self.deprecation is Some),
            r.recent_downloads_90d is None && r.stars is None && r.updated_at is None
                && r.homepage is None && r.min_runtime is None,
    {
        let mut p = Package::new(Ecosystem::Nuget, self.id);
        p.description = self.description;
        p.keywords = self.tags;
        p.total_downloads = self.total_downloads;
        p.latest_version = copy_of(&self.version);
        p.stable_version = self.version;
        p.license = if_not_empty(self.license_expression);
        p.repository = self.project_url;
        p.deprecated = Some(self.deprecation.is_some());
        p
    }
}

// --- Requests --------------------------------------------------------------

/// How many packages a search asks for: three times the limit, from 10 to 30.
pub open spec fn page_size(limit: u32) -> nat {
    if limit * 3 < 10 {
        10
    } else if limit * 3 > 30 {
        30
    } else {
        (limit * 3) as nat
    }
}

/// A query for so many packages, without pre-releases.
pub open spec fn nuget_query(q: Seq<char>, take: nat) -> RequestView {
    RequestView {
        query: seq![
            ("q"@, q),
            ("take"@, decimal(take)),
            ("prerelease"@, "false"@),
            ("semVerLevel"@, "2.0.0"@),
        ],
        ..plain_get("https://azuresearch-usnc.nuget.org/query"@)
    }
}

fn query_request(q: &str, take: u64) -> (r: HttpRequest)
    ensures
        r@ == nuget_query(q@, take as nat),
        r.url@ == "https://azuresearch-usnc.nuget.org/query"@,
        r.user_agent is None,
        r.query.len() == 4,
        r.query@[0].0@ == "q"@ && r.query@[0].1@ == q@,
        r.query@[1].0@ == "take"@ && r.query@[1].1@ == decimal(take as nat),
        r.query@[2].0@ == "prerelease"@ && r.query@[2].1@ == "false"@,
        r.query@[3].0@ == "semVerLevel"@ && r.query@[3].1@ == "2.0.0"@,
{
    let r = HttpRequest::get("https://azuresearch-usnc.nuget.org/query".to_owned()).with(
        "q",
        q,
    ).with("take", &decimal_text(take)).with("prerelease", "false").with("semVerLevel", "2.0.0");
    assert(r@.query =~= nuget_query(q@, take as nat).query);
    proof {
        lemma_pairs(r.query@);
    }
    r
}

/// The request that searches for packages.
pub fn search_request(query: &str, limit: u32) -> (r: HttpRequest)
    ensures
        r@ == nuget_query(query@, page_size(limit)),
        r.url@ == "https://azuresearch-usnc.nuget.org/query"@,
        r.query.len() == 4,
        r.query@[0].0@ == "q"@ && r.query@[0].1@ == query@,
        r.query@[1].0@ == "take"@,
        limit <= 3 ==> r.query@[1].1@ == decimal(10),
        4 <= limit <= 10 ==> r.query@[1].1@ == decimal(3 * limit as nat),
        limit > 10 ==> r.query@[1].1@ == decimal(30),
        r.query@[2].0@ == "prerelease"@ && r.query@[2].1@ == "false"@,
        r.query@[3].0@ == "semVerLevel"@ && r.query@[3].1@ == "2.0.0"@,
{
    let wanted: u64 = limit as u64 * 3;
    let take: u64 = if wanted < 10 {
        10
    } else if wanted > 30 {
        30
    } else {
        wanted
    };
    query_request(query, take)
}

/// The request for one package by its name.
pub fn package_request(name: &str) -> (r: HttpRequest)
    ensures
        r@ == nuget_query("packageid:"@ + name@, 1),
        r.url@ == "https://azuresearch-usnc.nuget.org/query"@,
        r.query.len() == 4,
        r.query@[0].0@ == "q"@ && r.query@[0].1@ == "packageid:"@ + name@,
        r.query@[1].0@ == "take"@ && r.query@[1].1@ == decimal(1),
        r.query@[2].0@ == "prerelease"@ && r.query@[2].1@ == "false"@,
        r.query@[3].0@ == "semVerLevel"@ && r.query@[3].1@ == "2.0.0"@,
{
    query_request(&cat("packageid:", name), 1)
}

// --- Answers ---------------------------------------------------------------

/// A package that the registry does not have.
#[derive(Debug)]
pub struct NotFound {
    pub name: String,
}

impl NotFound {
    /// What went wrong, in words.
    pub fn message(&self) -> (r: String)
        ensures
            r@ == "NuGet package '"@ + self.name@ + "' not found"@,
    {
        cat3("NuGet package '", &self.name, "' not found")
    }
}

impl NugetSearchResp {
    /// The packages found, in the registry's order.
    pub fn into_packages(self) -> (r: Vec<Package>)
        ensures
            r.deep_view() == self.data@.map_values(|d: NugetData| nuget_package(d)),
            r.len() == self.data.len(),
    {
        let mut out: Vec<Package> = Vec::new();
        for d in it: self.data
            invariant
                it.seq() == self.data@,
                out.deep_view() == it.seq().take(it.index()).map_values(
                    |d: NugetData| nuget_package(d),
                ),
        {
            let ghost before = out.deep_view();
            out.push(d.into_package());
            assert(out.deep_view() =~= before.push(nuget_package(d)));
        }
        out
    }

    /// The package of that name: the first entry of the answer to its request.
    pub fn into_package(self, name: &str) -> (r: Result<Package, NotFound>)
        ensures
            self.data@.len() > 0 ==> (r matches Ok(p) && p@ == nuget_package(self.data@[0])),
            self.data@.len() == 0 ==> (r matches Err(e) && e.name@ == name@),
    {
        let mut data = self.data;
        if data.len() > 0 {
            Ok(data.remove(0).into_package())
        } else {
            Err(NotFound { name: name.to_owned() })
        }
    }
}

} // verus!
