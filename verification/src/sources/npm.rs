//! npm (JavaScript / TypeScript / frontend).

use vstd::prelude::*;
use crate::model::{Ecosystem, Package, PackageView};
use crate::request::{lemma_pairs, plain_get, HttpRequest, RequestView};
use crate::sources::json::{extract_license, license_text, JsonValue};
use crate::text::{
    cat, cat3, copy_of, decimal, decimal_text, same_ignoring_ascii_case, same_text,
    same_text_ignoring_case,
};

verus! {

/// The answer to a search.
#[derive(Debug)]
pub struct NpmSearchResp {
    pub objects: Vec<NpmObject>,
}

#[derive(Debug)]
pub struct NpmObject {
    pub package: NpmSearchPkg,
    pub downloads: Option<NpmDownloads>,
}

#[derive(Debug)]
pub struct NpmDownloads {
    pub monthly: Option<u64>,
}

#[derive(Debug)]
pub struct NpmSearchPkg {
    pub name: String,
    pub version: Option<String>,
    pub description: Option<String>,
    pub keywords: Vec<String>,
    pub date: Option<String>,
    pub license: Option<String>,
    pub links: Option<NpmLinks>,
}

#[derive(Debug)]
pub struct NpmLinks {
    pub homepage: Option<String>,
    pub repository: Option<String>,
}

#[derive(Debug)]
pub struct NpmRepo {
    pub url: Option<String>,
}

/// The manifest of a package's latest version — small and complete, even for
/// packages with thousands of versions.
#[derive(Debug)]
pub struct NpmManifest {
    pub version: Option<String>,
    pub description: Option<String>,
    pub license: Option<JsonValue>,
    pub homepage: Option<String>,
    pub repository: Option<NpmRepo>,
    pub keywords: Vec<String>,
    /// Runtimes and the versions of them that the package asks for; no runtime
    /// occurs twice.
    pub engines: Vec<(String, String)>,
    pub deprecated: Option<JsonValue>,
}

// --- Searching -------------------------------------------------------------

/// A month's downloads as an estimate for 90 days.
pub open spec fn three_months(m: u64) -> u64 {
    if m * 3 > u64::MAX {
        u64::MAX
    } else {
        (m * 3) as u64
    }
}

/// A month's downloads as an estimate for 90 days, at most the greatest number.
pub fn quarter_of(m: u64) -> (r: u64)
    ensures
        r == three_months(m),
        m * 3 <= u64::MAX ==> r == m * 3,
        m * 3 > u64::MAX ==> r == u64::MAX,
{
    if m > u64::MAX / 3 {
        u64::MAX
    } else {
        m * 3
    }
}

/// How many packages a search asks for: three times the limit, from 10 to 40.
pub open spec fn page_size(limit: u32) -> nat {
    if limit * 3 < 10 {
        10
    } else if limit * 3 > 40 {
        40
    } else {
        (limit * 3) as nat
    }
}

/// The request that searches for packages.
pub open spec fn npm_query(query: Seq<char>, limit: u32) -> RequestView {
    RequestView {
        query: seq![("text"@, query), ("size"@, decimal(page_size(limit)))],
        ..plain_get("https://registry.npmjs.org/-/v1/search"@)
    }
}

/// The request that searches for packages.
pub fn search_request(query: &str, limit: u32) -> (r: HttpRequest)
    ensures
        r@ == npm_query(query@, limit),
        r.url@ == "https://registry.npmjs.org/-/v1/search"@,
        r.user_agent is None,
        r.query.len() == 2,
        r.query@[0].0@ == "text"@ && r.query@[0].1@ == query@,
        r.query@[1].0@ == "size"@,
        limit <= 3 ==> r.query@[1].1@ == decimal(10),
        4 <= limit <= 13 ==> r.query@[1].1@ == decimal(3 * limit as nat),
        limit > 13 ==> r.query@[1].1@ == decimal(40),
{
    let wanted: u64 = limit as u64 * 3;
    let size: u64 = if wanted < 10 {
        10
    } else if wanted > 40 {
        40
    } else {
        wanted
    };
    let r = HttpRequest::get("https://registry.npmjs.org/-/v1/search".to_owned()).with(
        "text",
        query,
    ).with("size", &decimal_text(size));
    assert(r@.query =~= npm_query(query@, limit).query);
    proof {
        lemma_pairs(r.query@);
    }
    r
}

/// How many packages a search for one package's own hit is limited to.
pub const LOOKUP_LIMIT: u32 = 5;

/// The request that looks for the search hit of one package.
pub fn hit_request(name: &str) -> (r: HttpRequest)
    ensures
        r@ == npm_query(name@, LOOKUP_LIMIT),
        r.url@ == "https://registry.npmjs.org/-/v1/search"@,
        r.query.len() == 2,
        r.query@[0].0@ == "text"@ && r.query@[0].1@ == name@,
        r.query@[1].0@ == "size"@ && r.query@[1].1@ == decimal(15),
{
    search_request(name, LOOKUP_LIMIT)
}

/// The package that a search hit is normalised into.
pub open spec fn hit_package(o: NpmObject) -> PackageView {
    PackageView {
        description: o.package.description.deep_view(),
        keywords: o.package.keywords.deep_view(),
        recent_downloads_90d: match o.downloads {
            Some(d) => match d.monthly {
                Some(m) => Some(three_months(m)),
                None => None,
            },
            None => None,
        },
        updated_at: o.package.date.deep_view(),
        latest_version: o.package.version.deep_view(),
        stable_version: o.package.version.deep_view(),
        license: o.package.license.deep_view(),
        homepage: match o.package.links {
            Some(l) => l.homepage.deep_view(),
            None => None,
        },
        repository: match o.package.links {
            Some(l) => l.repository.deep_view(),
            None => None,
        },
        ..PackageView::bare(Ecosystem::Npm, o.package.name@)
    }
}

impl NpmObject {
    /// Normalises a search hit.
    pub fn into_package(self) -> (r: Package)
        ensures
            r@ == hit_package(self),
            r.ecosystem == Ecosystem::Npm,
            r.name@ == self.package.name@,
            r.description.deep_view() == self.package.description.deep_view(),
            r.keywords.deep_view() == self.package.keywords.deep_view(),
            r.updated_at.deep_view() == self.package.date.deep_view(),
            r.latest_version.deep_view() == self.package.version.deep_view(),
            r.stable_version.deep_view() == self.package.version.deep_view(),
            r.license.deep_view() == self.package.license.deep_view(),
            self.package.links matches Some(l) ==> r.homepage.deep_view() == l.homepage.deep_view()
                && r.repository.deep_view() == l.repository.deep_view(),
            self.package.links is None ==> r.homepage is None && r.repository is None,
            self.downloads matches Some(d) ==> match d.monthly {
                Some(m) => r.recent_downloads_90d == Some(
                    if m * 3 <= u64::MAX {
                        (m * 3) as u64
                    } else {
                        u64::MAX
                    },
                ),
                None => r.recent_downloads_90d is None,
            },
            self.downloads is None ==> r.recent_downloads_90d is None,
            r.total_downloads is None && r.stars is None && r.deprecated is None
                && r.min_runtime is None,
    {
        let mut p = Package::new(Ecosystem::Npm, self.package.name);
        p.description = self.package.description;
        p.keywords = self.package.keywords;
        p.recent_downloads_90d = match self.downloads {
            Some(d) => match d.monthly {
                Some(m) => Some(quarter_of(m)),
                None => None,
            },
            None => None,
        };
        p.updated_at = self.package.date;
        p.latest_version = copy_of(&self.package.version);
        p.stable_version = self.package.version;
        p.license = self.package.license;
        if let Some(links) = self.package.links {
            p.homepage = links.homepage;
            p.repository = links.repository;
        }
        p
    }
}

impl NpmSearchResp {
    /// The packages found, in the registry's order.
    pub fn into_packages(self) -> (r: Vec<Package>)
        ensures
            r.deep_view() == self.objects@.map_values(|o: NpmObject| hit_package(o)),
            r.len() == self.objects.len(),
    {
        let mut out: Vec<Package> = Vec::new();
        for o in it: self.objects
            invariant
                it.seq() == self.objects@,
                out.deep_view() == it.seq().take(it.index()).map_values(
                    |o: NpmObject| hit_package(o),
                ),
        {
            let ghost before = out.deep_view();
            out.push(o.into_package());
            assert(out.deep_view() =~= before.push(hit_package(o)));
        }
        out
    }
}

// --- One package -----------------------------------------------------------

/// The request for the latest manifest of a package.
pub fn manifest_request(name: &str) -> (r: HttpRequest)
    ensures
        r@ == plain_get("https://registry.npmjs.org/"@ + name@ + "/latest"@),
{
    HttpRequest::get(cat3("https://registry.npmjs.org/", name, "/latest"))
}

/// The request for a package's downloads of last month.
pub fn downloads_request(name: &str) -> (r: HttpRequest)
    ensures
        r@ == plain_get("https://api.npmjs.org/downloads/point/last-month/"@ + name@),
{
    HttpRequest::get(cat("https://api.npmjs.org/downloads/point/last-month/", name))
}

/// The first package whose name is `name`, ignoring the case of ASCII letters.
pub open spec fn named_like(v: Seq<PackageView>, name: Seq<char>) -> Option<PackageView>
    decreases v.len(),
{
    if v.len() == 0 {
        None
    } else if same_ignoring_ascii_case(v[0].name, name) {
        Some(v[0])
    } else {
        named_like(v.drop_first(), name)
    }
}

/// The version asked of a runtime, where one is.
pub open spec fn engine_version(engines: Seq<(String, String)>, runtime: Seq<char>) -> Option<
    Seq<char>,
>
    decreases engines.len(),
{
    if engines.len() == 0 {
        None
    } else if engines[0].0@ == runtime {
        Some(engines[0].1@)
    } else {
        engine_version(engines.drop_first(), runtime)
    }
}

/// A package with what its manifest says of it: version, deprecation and
/// runtime always, the rest where the manifest has it.
pub open spec fn with_manifest(p: PackageView, m: NpmManifest) -> PackageView {
    PackageView {
        latest_version: m.version.deep_view(),
        stable_version: m.version.deep_view(),
        deprecated: Some(
            match m.deprecated {
                Some(v) => v !is Null,
                None => false,
            },
        ),
        min_runtime: match engine_version(m.engines@, "node"@) {
            Some(v) => Some("node "@ + v),
            None => None,
        },
        description: match m.description {
            Some(d) => Some(d@),
            None => p.description,
        },
        keywords: if m.keywords@.len() > 0 {
            m.keywords.deep_view()
        } else {
            p.keywords
        },
        license: match m.license {
            Some(l) => match license_text(l) {
                Some(t) => Some(t),
                None => p.license,
            },
            None => p.license,
        },
        homepage: match m.homepage {
            Some(h) => Some(h@),
            None => p.homepage,
        },
        repository: match m.repository {
            Some(r) => match r.url {
                Some(u) => Some(u@),
                None => p.repository,
            },
            None => p.repository,
        },
        ..p
    }
}

/// A package put together from a search, its manifest and its download count,
/// as far as each could be had.
pub open spec fn npm_details(
    name: Seq<char>,
    manifest: Option<NpmManifest>,
    from_search: Option<Seq<PackageView>>,
    downloads: Option<u64>,
) -> PackageView {
    let hit = match from_search {
        Some(v) => named_like(v, name),
        None => None,
    };
    let base = match hit {
        Some(p) => p,
        None => PackageView::bare(Ecosystem::Npm, name),
    };
    let full = match manifest {
        Some(m) => with_manifest(base, m),
        None => base,
    };
    match downloads {
        Some(m) => PackageView { recent_downloads_90d: Some(three_months(m)), ..full },
        None => full,
    }
}

fn find_named_like(v: Vec<Package>, name: &str) -> (r: Option<Package>)
    ensures
        r.deep_view() == named_like(v.deep_view(), name@),
{
    let ghost all = v.deep_view();
    assert(all.skip(0) =~= all);
    for p in it: v
        invariant
            it.seq() == v@,
            all == v.deep_view(),
            named_like(all, name@) == named_like(all.skip(it.index()), name@),
    {
        assert(all.skip(it.index()).drop_first() =~= all.skip(it.index() + 1));
        assert(all.skip(it.index())[0] == p@);
        if same_text_ignoring_case(&p.name, name) {
            return Some(p);
        }
    }
    None
}

fn node_version(engines: &Vec<(String, String)>) -> (r: Option<String>)
    ensures
        r.deep_view() == engine_version(engines@, "node"@),
{
    let mut i: usize = 0;
    assert(engines@.skip(0) =~= engines@);
    while i < engines.len()
        invariant
            i <= engines.len(),
            engine_version(engines@, "node"@) == engine_version(engines@.skip(i as int), "node"@),
        decreases engines.len() - i,
    {
        assert(engines@.skip(i as int).drop_first() =~= engines@.skip(i + 1));
        if same_text(&engines[i].0, "node") {
            return Some(engines[i].1.clone());
        }
        i += 1;
    }
    None
}

fn apply_manifest(base: Package, m: NpmManifest) -> (r: Package)
    ensures
        r@ == with_manifest(base@, m),
{
    let mut p = base;
    p.latest_version = copy_of(&m.version);
    p.stable_version = m.version;
    p.deprecated = Some(
        match &m.deprecated {
            Some(JsonValue::Null) => false,
            Some(_) => true,
            None => false,
        },
    );
    p.min_runtime = match node_version(&m.engines) {
        Some(v) => Some(cat("node ", &v)),
        None => None,
    };
    if let Some(d) = m.description {
        p.description = Some(d);
    }
    if m.keywords.len() > 0 {
        p.keywords = m.keywords;
    }
    if let Some(l) = &m.license {
        if let Some(t) = extract_license(l) {
            p.license = Some(t);
        }
    }
    if let Some(h) = m.homepage {
        p.homepage = Some(h);
    }
    if let Some(repo) = m.repository {
        if let Some(u) = repo.url {
            p.repository = Some(u);
        }
    }
    p
}

/// Starts from the search hit (which carries the last-publish date), then lets
/// the authoritative manifest fill in or override the rest.
pub fn compose_package(
    name: &str,
    manifest: Option<NpmManifest>,
    from_search: Option<Vec<Package>>,
    downloads: Option<u64>,
) -> (r: Package)
    ensures
        r@ == npm_details(name@, manifest, from_search.deep_view(), downloads),
        downloads matches Some(m) ==> r.recent_downloads_90d == Some(
            if m * 3 <= u64::MAX {
                (m * 3) as u64
            } else {
                u64::MAX
            },
        ),
        manifest matches Some(m) ==> {
            &&& r.latest_version.deep_view() == m.version.deep_view()
            &&& r.stable_version.deep_view() == m.version.deep_view()
            &&& r.deprecated == Some(m.deprecated is Some && m.deprecated->0 !is Null)
            &&& m.description is Some ==> r.description.deep_view() == m.description.deep_view()
            &&& m.keywords@.len() > 0 ==> r.keywords.deep_view() == m.keywords.deep_view()
            &&& m.homepage is Some ==> r.homepage.deep_view() == m.homepage.deep_view()
            &&& m.repository is Some && m.repository->0.url is Some ==> r.repository.deep_view()
                == m.repository->0.url.deep_view()
        },
{
    let hit = match from_search {
        Some(v) => find_named_like(v, name),
        None => None,
    };
    let base = match hit {
        Some(p) => p,
        None => Package::new(Ecosystem::Npm, name.to_owned()),
    };
    let mut p = match manifest {
        Some(m) => apply_manifest(base, m),
        None => base,
    };
    if let Some(m) = downloads {
        p.recent_downloads_90d = Some(quarter_of(m));
    }
    p
}

} // verus!
