use dep_scout::model::{Ecosystem, Package};
use dep_scout::request::HttpRequest;
use dep_scout::sources::collect::Collector;
use dep_scout::sources::crates_io::{
    self, CrateResp, CratesSearchResp, RawCrate, RawCrateVersion, Sort,
};
use dep_scout::sources::deps_dev::{
    self, DdLink, DdPackage, DdPackageVersion, DdProject, DdProjectKey, DdRelatedProject, DdVersion,
    DdVersionKey, DepsDevResult, DepsDevSearch, NameSearch, PackageLookup,
};
use dep_scout::sources::json::{extract_license, JsonValue};
use dep_scout::sources::maven::{self, MavenDoc, MavenResponse, MavenSearchResp};
use dep_scout::sources::mcp::{
    self, McpMeta, McpOfficial, McpPackage, McpRepo, McpServerEntry, McpServerObj, McpServersResp,
};
use dep_scout::sources::npm::{
    self, NpmDownloads, NpmLinks, NpmManifest, NpmObject, NpmRepo, NpmSearchPkg, NpmSearchResp,
};
use dep_scout::sources::nuget::{self, NugetData, NugetSearchResp};
use dep_scout::sources::osv::{
    self, batch_advisories, batch_queries, osv_version, package_advisories, package_query,
    OsvBatchResp, OsvBatchResult, OsvBatchVuln, OsvDbSpecific, OsvQuery, OsvResp, OsvVuln,
};
use dep_scout::sources::pypi::{
    self, is_repository_label, names_for, pypi_name_candidates, pypi_repo_url, search_names,
    PyPiInfo, PyPiResp, PyPiStats, PyPiStatsData, PyPiUrl,
};

fn text(s: &str) -> Option<String> {
    Some(s.to_string())
}

fn named(name: &str) -> Package {
    Package::new(Ecosystem::Rust, name.to_string())
}

fn names(v: &[Package]) -> Vec<&str> {
    v.iter().map(|p| p.name.as_str()).collect()
}

fn strings(v: &[&str]) -> Vec<String> {
    v.iter().map(|s| s.to_string()).collect()
}

fn query(r: &HttpRequest) -> Vec<(&str, &str)> {
    r.query.iter().map(|(k, v)| (k.as_str(), v.as_str())).collect()
}

// --- crates.io -------------------------------------------------------------

fn raw_crate(name: &str) -> RawCrate {
    RawCrate {
        name: name.to_string(),
        description: text("d"),
        downloads: 80,
        recent_downloads: Some(9),
        newest_version: None,
        max_stable_version: text("1.0.0"),
        updated_at: text("2024-01-01T00:00:00Z"),
        repository: text("r"),
        homepage: None,
        keywords: None,
    }
}

#[test]
fn crates_search_requests() {
    let r = crates_io::search_request("http client", 8, Sort::Relevance);
    assert_eq!(r.url, "https://crates.io/api/v1/crates");
    assert_eq!(query(&r), vec![("q", "http client"), ("per_page", "32"), ("sort", "relevance")]);
    assert_eq!(r.user_agent, None);
    let r = crates_io::search_request("x", 1, Sort::Downloads);
    assert_eq!(query(&r), vec![("q", "x"), ("per_page", "15"), ("sort", "downloads")]);
    assert_eq!(query(&crates_io::search_request("x", 25, Sort::Downloads))[1].1, "40");
    assert_eq!(query(&crates_io::search_request("x", u32::MAX, Sort::Downloads))[1].1, "40");
}

#[test]
fn crates_become_packages() {
    let found = CratesSearchResp { crates: vec![raw_crate("a"), raw_crate("b")] }.into_packages();
    assert_eq!(names(&found), vec!["a", "b"]);
    let p = &found[0];
    assert_eq!(p.ecosystem, Ecosystem::Rust);
    assert_eq!((p.total_downloads, p.recent_downloads_90d), (Some(80), Some(9)));
    assert_eq!(p.stable_version, text("1.0.0"));
    assert_eq!(p.latest_version, None);
    assert_eq!(p.keywords, Vec::<String>::new());
}

#[test]
fn crate_details_come_from_the_first_version() {
    assert_eq!(crates_io::crate_request("serde").url, "https://crates.io/api/v1/crates/serde");
    let version = |num: &str, yanked: bool| RawCrateVersion {
        num: num.to_string(),
        yanked,
        license: text("MIT"),
        rust_version: text("1.70"),
    };
    let p = CrateResp {
        krate: raw_crate("a"),
        versions: vec![version("2.0.0", true), version("1.0.0", false)],
    }
    .into_package();
    assert_eq!(p.deprecated, Some(true));
    assert_eq!(p.license, text("MIT"));
    assert_eq!(p.min_runtime, text("1.70"));
    assert_eq!(p.latest_version, text("2.0.0"));
    let p = CrateResp { krate: raw_crate("a"), versions: Vec::new() }.into_package();
    assert_eq!(p.deprecated, None);
    assert_eq!(p.latest_version, None);
    let mut k = raw_crate("a");
    k.newest_version = text("3.0.0");
    let p = CrateResp { krate: k, versions: vec![version("2.0.0", false)] }.into_package();
    assert_eq!(p.latest_version, text("3.0.0"));
}

#[test]
fn sorted_results_are_merged_by_name() {
    let a = vec![named("x"), named("y"), named("x")];
    let b = vec![named("z"), named("y"), named("X")];
    let r: Result<Vec<Package>, &str> = crates_io::merge_results(Ok(a), Ok(b));
    assert_eq!(names(&r.unwrap()), vec!["x", "y", "z", "X"]);
}

#[test]
fn one_failed_sort_is_passed_over_and_two_are_surfaced() {
    let r = crates_io::merge_results(Err("first"), Ok(vec![named("y"), named("y")]));
    assert_eq!(names(&r.unwrap()), vec!["y"]);
    let r = crates_io::merge_results(Ok(vec![named("x")]), Err("second"));
    assert_eq!(names(&r.unwrap()), vec!["x"]);
    let r: Result<Vec<Package>, &str> = crates_io::merge_results(Err("first"), Err("second"));
    assert_eq!(r.unwrap_err(), "first");
}

// --- npm -------------------------------------------------------------------

fn hit(name: &str, monthly: Option<u64>) -> NpmObject {
    NpmObject {
        package: NpmSearchPkg {
            name: name.to_string(),
            version: text("1.0.0"),
            description: text("from search"),
            keywords: strings(&["k"]),
            date: text("2024-02-02T00:00:00Z"),
            license: text("ISC"),
            links: Some(NpmLinks { homepage: text("home"), repository: text("repo") }),
        },
        downloads: Some(NpmDownloads { monthly }),
    }
}

fn manifest() -> NpmManifest {
    NpmManifest {
        version: text("2.0.0"),
        description: None,
        license: None,
        homepage: None,
        repository: None,
        keywords: Vec::new(),
        engines: Vec::new(),
        deprecated: None,
    }
}

#[test]
fn npm_requests() {
    let r = npm::search_request("date picker", 8);
    assert_eq!(r.url, "https://registry.npmjs.org/-/v1/search");
    assert_eq!(query(&r), vec![("text", "date picker"), ("size", "24")]);
    assert_eq!(query(&npm::search_request("x", 1))[1].1, "10");
    assert_eq!(query(&npm::search_request("x", 25))[1].1, "40");
    assert_eq!(query(&npm::hit_request("react")), vec![("text", "react"), ("size", "15")]);
    assert_eq!(npm::manifest_request("react").url, "https://registry.npmjs.org/react/latest");
    assert_eq!(
        npm::downloads_request("react").url,
        "https://api.npmjs.org/downloads/point/last-month/react"
    );
}

#[test]
fn npm_hits_become_packages() {
    let v = NpmSearchResp { objects: vec![hit("a", Some(5)), hit("b", Some(u64::MAX))] }
        .into_packages();
    assert_eq!(names(&v), vec!["a", "b"]);
    assert_eq!(v[0].recent_downloads_90d, Some(15));
    // An estimate beyond 64 bits stays at the greatest number.
    assert_eq!(v[1].recent_downloads_90d, Some(u64::MAX));
    assert_eq!(v[0].latest_version, text("1.0.0"));
    assert_eq!(v[0].stable_version, text("1.0.0"));
    assert_eq!(v[0].homepage, text("home"));
    assert_eq!(v[0].repository, text("repo"));
    let mut o = hit("c", None);
    o.package.links = None;
    o.downloads = None;
    let p = o.into_package();
    assert_eq!((p.homepage, p.repository, p.recent_downloads_90d), (None, None, None));
}

#[test]
fn the_manifest_overrides_the_search_hit() {
    let found = || Some(vec![hit("other", Some(1)).into_package(), hit("React", Some(5)).into_package()]);
    let p = npm::compose_package("react", Some(manifest()), found(), None);
    assert_eq!(p.name, "React");
    assert_eq!(p.updated_at, text("2024-02-02T00:00:00Z"));
    assert_eq!(p.latest_version, text("2.0.0"));
    assert_eq!(p.description, text("from search"));
    assert_eq!(p.keywords, vec!["k"]);
    assert_eq!(p.license, text("ISC"));
    assert_eq!(p.deprecated, Some(false));
    assert_eq!(p.recent_downloads_90d, Some(15));
    let mut m = manifest();
    m.description = text("new");
    m.keywords = strings(&["n"]);
    m.license = Some(JsonValue::Text("MIT".to_string()));
    m.homepage = text("h2");
    m.repository = Some(NpmRepo { url: text("r2") });
    m.engines = vec![
        ("npm".to_string(), "9".to_string()),
        ("node".to_string(), ">=18".to_string()),
    ];
    m.deprecated = Some(JsonValue::Text("use y".to_string()));
    let p = npm::compose_package("react", Some(m), found(), Some(7));
    assert_eq!(p.description, text("new"));
    assert_eq!(p.keywords, vec!["n"]);
    assert_eq!(p.license, text("MIT"));
    assert_eq!(p.homepage, text("h2"));
    assert_eq!(p.repository, text("r2"));
    assert_eq!(p.min_runtime, text("node >=18"));
    assert_eq!(p.deprecated, Some(true));
    assert_eq!(p.recent_downloads_90d, Some(21));
}

#[test]
fn npm_packages_without_answers_are_bare() {
    let p = npm::compose_package("react", None, None, None);
    assert_eq!(p.name, "react");
    assert_eq!((p.latest_version, p.deprecated, p.recent_downloads_90d), (None, None, None));
    let p = npm::compose_package("react", None, Some(vec![hit("preact", None).into_package()]), None);
    assert_eq!(p.name, "react");
    let mut m = manifest();
    m.deprecated = Some(JsonValue::Null);
    assert_eq!(npm::compose_package("x", Some(m), None, None).deprecated, Some(false));
    let mut m = manifest();
    m.deprecated = Some(JsonValue::Other);
    assert_eq!(npm::compose_package("x", Some(m), None, None).deprecated, Some(true));
}

#[test]
fn licenses_of_manifests() {
    assert_eq!(extract_license(&JsonValue::Text("MIT".to_string())), text("MIT"));
    assert_eq!(extract_license(&JsonValue::Text(String::new())), None);
    assert_eq!(extract_license(&JsonValue::Null), None);
    assert_eq!(extract_license(&JsonValue::Other), None);
    let object = |name: &str, v: JsonValue| JsonValue::Object(vec![
        ("url".to_string(), JsonValue::Text("u".to_string())),
        (name.to_string(), v),
    ]);
    assert_eq!(extract_license(&object("type", JsonValue::Text("BSD".to_string()))), text("BSD"));
    assert_eq!(extract_license(&object("type", JsonValue::Text(String::new()))), text(""));
    assert_eq!(extract_license(&object("type", JsonValue::Other)), None);
    assert_eq!(extract_license(&object("kind", JsonValue::Text("BSD".to_string()))), None);
}

// --- PyPI ------------------------------------------------------------------

fn info() -> PyPiInfo {
    PyPiInfo {
        summary: text("s"),
        version: text("2.0"),
        license: None,
        license_expression: None,
        home_page: text("home"),
        project_urls: Vec::new(),
        requires_python: None,
        keywords: None,
        yanked: false,
    }
}

fn pair(k: &str, v: &str) -> (String, String) {
    (k.to_string(), v.to_string())
}

#[test]
fn pypi_requests() {
    assert_eq!(pypi::metadata_request("requests").url, "https://pypi.org/pypi/requests/json");
    assert_eq!(
        pypi::downloads_request("requests").url,
        "https://pypistats.org/api/packages/requests/recent"
    );
    let stats = PyPiStats { data: Some(PyPiStatsData { last_month: Some(3) }) };
    assert_eq!(stats.last_month(), Some(3));
    assert_eq!(PyPiStats { data: None }.last_month(), None);
}

#[test]
fn pypi_repositories() {
    let mut i = info();
    assert_eq!(pypi_repo_url(&i), text("home"));
    i.project_urls = vec![pair("Docs", "d"), pair("Source Code", "s"), pair("GitHub", "g")];
    assert_eq!(pypi_repo_url(&i), text("s"));
    i.project_urls = vec![pair("REPOSITORY", "r")];
    assert_eq!(pypi_repo_url(&i), text("r"));
    i.project_urls = vec![pair("Docs", "d")];
    i.home_page = None;
    assert_eq!(pypi_repo_url(&i), None);
    assert!(is_repository_label("my codebase"));
    assert!(!is_repository_label("Source"));
}

#[test]
fn pypi_answers_become_packages() {
    let mut i = info();
    i.keywords = text("web, http client");
    i.requires_python = text(">=3.8");
    i.license = text("MIT");
    i.yanked = true;
    let urls = vec![
        PyPiUrl { upload_time_iso_8601: None },
        PyPiUrl { upload_time_iso_8601: text("2024-03-03T00:00:00Z") },
        PyPiUrl { upload_time_iso_8601: text("2023-03-03T00:00:00Z") },
    ];
    let p = pypi::compose_package("Requests", PyPiResp { info: i, urls }, Some(4));
    assert_eq!(p.ecosystem, Ecosystem::Python);
    assert_eq!(p.name, "Requests");
    assert_eq!(p.keywords, vec!["web", "http", "client"]);
    assert_eq!(p.min_runtime, text("Python >=3.8"));
    assert_eq!(p.license, text("MIT"));
    assert_eq!(p.deprecated, Some(true));
    assert_eq!(p.updated_at, text("2024-03-03T00:00:00Z"));
    assert_eq!(p.recent_downloads_90d, Some(12));
    assert_eq!(p.latest_version, text("2.0"));
    assert_eq!(p.stable_version, text("2.0"));
    assert_eq!(p.homepage, text("home"));
}

#[test]
fn the_last_update_is_the_newest_files() {
    let updated = |times: &[Option<&str>]| {
        let urls = times
            .iter()
            .map(|t| PyPiUrl { upload_time_iso_8601: t.map(String::from) })
            .collect();
        pypi::compose_package("x", PyPiResp { info: info(), urls }, None).updated_at
    };
    let old = "2020-03-03T00:00:00.000000Z";
    let new = "2024-03-03T00:00:00Z";
    assert_eq!(updated(&[Some(old), Some(new)]), text(new));
    assert_eq!(updated(&[Some(new), None, Some(old)]), text(new));
    // A fraction of a second later, in another notation.
    let newer = "2024-03-03T01:00:00.5+01:00";
    assert_eq!(updated(&[Some(new), Some(newer)]), text(newer));
    assert_eq!(updated(&[Some("soon"), Some(old)]), text(old));
    assert_eq!(updated(&[Some("soon"), Some("later")]), text("soon"));
    assert_eq!(updated(&[None]), None);
    assert_eq!(updated(&[]), None);
}

#[test]
fn pypi_licenses() {
    let license = |expression: Option<&str>, license: Option<&str>| {
        let mut i = info();
        i.license_expression = expression.map(String::from);
        i.license = license.map(String::from);
        pypi::compose_package("x", PyPiResp { info: i, urls: Vec::new() }, None).license
    };
    let long = "x".repeat(80);
    let short = "x".repeat(79);
    assert_eq!(license(Some("MIT"), Some("BSD")), text("MIT"));
    assert_eq!(license(Some(""), Some("BSD")), text("BSD"));
    assert_eq!(license(None, Some("")), None);
    // A longer text is the license itself, not its name.
    assert_eq!(license(None, Some(&long)), None);
    assert_eq!(license(None, Some(&short)), Some(short.clone()));
    // The length is counted in bytes.
    assert_eq!(license(None, Some(&"é".repeat(40))), None);
}

#[test]
fn likely_names_of_a_query() {
    assert_eq!(
        pypi_name_candidates("  HTTP Requests "),
        vec!["http-requests", "http_requests", "httprequests", "http requests", "http", "requests"]
    );
    assert_eq!(pypi_name_candidates("Flask"), vec!["flask"]);
    assert_eq!(pypi_name_candidates("   "), Vec::<String>::new());
    // A word stands on its own from three characters on, however many bytes.
    assert_eq!(pypi_name_candidates("é1 x"), vec!["é1-x", "é1_x", "é1x", "é1 x"]);
    assert_eq!(pypi_name_candidates("é1b x"), vec!["é1b-x", "é1b_x", "é1bx", "é1b x", "é1b"]);
    assert_eq!(
        names_for("aa bbb ccc ddd eee"),
        vec![
            "aa-bbb-ccc-ddd-eee",
            "aa_bbb_ccc_ddd_eee",
            "aabbbcccdddeee",
            "aa bbb ccc ddd eee",
            "bbb",
            "ccc",
            "ddd",
        ]
    );
}

#[test]
fn python_searches_fall_back_to_likely_names() {
    assert_eq!(search_names(Some(strings(&["numpy"])), "Arrays"), vec!["numpy"]);
    assert_eq!(search_names(Some(Vec::new()), "Arrays"), vec!["arrays"]);
    assert_eq!(search_names(None, "Arrays"), vec!["arrays"]);
}

// --- Collecting ------------------------------------------------------------

#[test]
fn names_are_resolved_until_enough_are_found() {
    let mut c = Collector::new(strings(&["a", "b", "B", "c", "d", "e", "f"]), 3);
    let mut asked: Vec<String> = Vec::new();
    while let Some(n) = c.pending() {
        let n = n.to_string();
        asked.push(n.clone());
        c.record(if n == "a" { None } else { Some(named(&n)) });
    }
    assert_eq!(asked, vec!["a", "b", "B", "c", "d"]);
    // "B" is "b" in another case.
    assert_eq!(names(&c.finish()), vec!["b", "c", "d"]);
}

#[test]
fn few_names_beyond_the_limit_are_tried() {
    let mut c = Collector::new(strings(&["a", "b", "c", "d", "e", "f"]), 1);
    let mut asked = 0;
    while c.pending().is_some() {
        asked += 1;
        c.record(None);
    }
    assert_eq!(asked, 4);
    assert!(c.finish().is_empty());
}

#[test]
fn a_limit_of_none_asks_for_nothing() {
    let c = Collector::new(strings(&["a"]), 0);
    assert!(c.pending().is_none());
}

// --- deps.dev --------------------------------------------------------------

#[test]
fn name_searches_present_a_browser() {
    let r = deps_dev::search_request("http");
    assert_eq!(r.url, "https://deps.dev/_/search");
    assert_eq!(query(&r), vec![("q", "http")]);
    assert!(r.user_agent.unwrap().starts_with("Mozilla/5.0 "));
}

#[test]
fn deps_dev_systems() {
    assert_eq!(deps_dev::search_system(Ecosystem::Python), Some("PYPI"));
    assert_eq!(deps_dev::search_system(Ecosystem::Go), Some("GO"));
    assert_eq!(deps_dev::search_system(Ecosystem::Maven), None);
    assert_eq!(deps_dev::lookup_system(Ecosystem::Go), Some("go"));
    assert_eq!(deps_dev::lookup_system(Ecosystem::Maven), Some("maven"));
    assert_eq!(deps_dev::lookup_system(Ecosystem::Python), None);
}

#[test]
fn names_of_other_systems_are_left_out() {
    let result = |name: &str, system: Option<&str>| DepsDevResult {
        name: name.to_string(),
        system: system.map(String::from),
    };
    let found = DepsDevSearch {
        results: vec![
            result("a", Some("PYPI")),
            result("b", Some("NPM")),
            result("c", None),
            result("d", Some("PYPI")),
        ],
    };
    assert_eq!(found.into_names("PYPI"), vec!["a", "d"]);
}

#[test]
fn a_direct_hit_ends_the_name_search() {
    let mut s = NameSearch::new("http requests");
    assert_eq!(s.pending(), Some("http requests"));
    s.record(Some(strings(&["Requests", "httpx", "requests"])));
    assert_eq!(s.pending(), None);
    assert_eq!(s.finish(), Some(strings(&["Requests", "httpx"])));
}

#[test]
fn terms_are_searched_where_the_phrase_finds_nothing() {
    let mut s = NameSearch::new("HTTP of requests");
    s.record(Some(Vec::new()));
    assert_eq!(s.pending(), Some("http"));
    s.record(None);
    assert_eq!(s.pending(), Some("requests"));
    s.record(Some(strings(&["requests", "REQUESTS", "grequests"])));
    assert_eq!(s.pending(), None);
    assert_eq!(s.finish(), Some(strings(&["requests", "grequests"])));
}

#[test]
fn a_failed_direct_request_fails_the_name_search() {
    let mut s = NameSearch::new("http");
    s.record(None);
    assert_eq!(s.pending(), None);
    assert_eq!(s.finish(), None);
}

fn version(v: &str, is_default: bool) -> DdPackageVersion {
    DdPackageVersion { version_key: DdVersionKey { version: v.to_string() }, is_default }
}

fn details() -> DdVersion {
    DdVersion {
        published_at: text("2024-04-04T00:00:00Z"),
        is_deprecated: false,
        licenses: strings(&["MIT", "BSD"]),
        links: vec![
            DdLink { label: text("HOMEPAGE"), url: text("https://h") },
            DdLink { label: text("SOURCE_REPO"), url: text("https://github.com/a/b//") },
            DdLink { label: text("SOURCE_REPO"), url: text("https://other") },
        ],
        related_projects: Vec::new(),
    }
}

#[test]
fn go_modules_are_looked_up_step_by_step() {
    let first = PackageLookup::new(Ecosystem::Go, "go", "github.com/a/b");
    assert_eq!(
        first.request().url,
        "https://api.deps.dev/v3/systems/go/packages/github.com%2Fa%2Fb"
    );
    let found = DdPackage {
        versions: vec![version("v1.0.0", false), version("v1.2.0+x", true), version("v1.3.0", true)],
    };
    let second = first.with_versions(found).unwrap();
    assert_eq!(
        second.request().url,
        "https://api.deps.dev/v3/systems/go/packages/github.com%2Fa%2Fb/versions/v1.2.0%2Bx"
    );
    let third = second.with_details(details());
    assert_eq!(
        third.request().unwrap().url,
        "https://api.deps.dev/v3/projects/github.com%2Fa%2Fb"
    );
    let p = third.finish(Some(DdProject { stars_count: Some(7), description: text("d") }));
    assert_eq!(p.ecosystem, Ecosystem::Go);
    assert_eq!(p.name, "github.com/a/b");
    assert_eq!(p.latest_version, text("v1.2.0+x"));
    assert_eq!(p.stable_version, text("v1.2.0+x"));
    assert_eq!(p.updated_at, text("2024-04-04T00:00:00Z"));
    assert_eq!(p.deprecated, Some(false));
    assert_eq!(p.license, text("MIT"));
    assert_eq!(p.repository, text("https://github.com/a/b//"));
    assert_eq!((p.stars, p.description), (Some(7), text("d")));
}

#[test]
fn the_last_version_stands_in_for_a_default() {
    let start = || PackageLookup::new(Ecosystem::Maven, "maven", "g:a");
    let found = DdPackage { versions: vec![version("1", false), version("2", false)] };
    let second = start().with_versions(found).unwrap();
    assert!(second.request().url.ends_with("/systems/maven/packages/g%3Aa/versions/2"));
    let mut none = details();
    none.links = vec![DdLink { label: text("SOURCE_REPO"), url: text("git://x") }];
    none.licenses = Vec::new();
    let third = second.with_details(none);
    // Only an https address stands for a project.
    assert!(third.request().is_none());
    let p = third.finish(None);
    assert_eq!((p.license, p.stars, p.description), (None, None, None));
    let e = start().with_versions(DdPackage { versions: Vec::new() }).unwrap_err();
    assert_eq!(e.message(), "no versions found for g:a");
}

#[test]
fn related_projects_come_before_the_repository() {
    let found = DdPackage { versions: vec![version("1", true)] };
    let second =
        PackageLookup::new(Ecosystem::Go, "go", "m").with_versions(found).unwrap();
    let mut d = details();
    d.related_projects = vec![
        DdRelatedProject { project_key: None },
        DdRelatedProject { project_key: Some(DdProjectKey { id: None }) },
        DdRelatedProject { project_key: Some(DdProjectKey { id: text("github.com/p/q") }) },
    ];
    let third = second.with_details(d);
    assert_eq!(third.project, text("github.com/p/q"));
}

// --- Maven Central and NuGet -----------------------------------------------

#[test]
fn maven_searches() {
    let r = maven::search_request("json", 8);
    assert_eq!(r.url, "https://search.maven.org/solrsearch/select");
    assert_eq!(query(&r), vec![("q", "json"), ("rows", "24"), ("wt", "json")]);
    assert_eq!(query(&maven::search_request("x", 0))[1].1, "10");
    assert_eq!(query(&maven::search_request("x", 25))[1].1, "30");
    let doc = |id: &str| MavenDoc { id: id.to_string() };
    let found = MavenSearchResp { response: MavenResponse { docs: vec![doc("g:a"), doc("g:b")] } };
    assert_eq!(found.into_names(), vec!["g:a", "g:b"]);
}

fn nuget_entry(id: &str) -> NugetData {
    NugetData {
        id: id.to_string(),
        version: text("1.0"),
        description: text("d"),
        total_downloads: Some(5),
        license_expression: text(""),
        project_url: text("u"),
        tags: strings(&["t"]),
        deprecation: None,
    }
}

#[test]
fn nuget_queries() {
    let r = nuget::search_request("json", 8);
    assert_eq!(r.url, "https://azuresearch-usnc.nuget.org/query");
    assert_eq!(
        query(&r),
        vec![("q", "json"), ("take", "24"), ("prerelease", "false"), ("semVerLevel", "2.0.0")]
    );
    assert_eq!(query(&nuget::search_request("json", 25))[1].1, "30");
    let r = nuget::package_request("Newtonsoft.Json");
    assert_eq!(query(&r)[0].1, "packageid:Newtonsoft.Json");
    assert_eq!(query(&r)[1].1, "1");
}

#[test]
fn nuget_entries_become_packages() {
    let v = NugetSearchResp { data: vec![nuget_entry("A"), nuget_entry("B")] }.into_packages();
    assert_eq!(names(&v), vec!["A", "B"]);
    assert_eq!(v[0].ecosystem, Ecosystem::Nuget);
    assert_eq!(v[0].license, None);
    assert_eq!(v[0].total_downloads, Some(5));
    assert_eq!(v[0].recent_downloads_90d, None);
    assert_eq!(v[0].deprecated, Some(false));
    assert_eq!(v[0].repository, text("u"));
    assert_eq!(v[0].keywords, vec!["t"]);
    let mut d = nuget_entry("C");
    d.deprecation = Some(JsonValue::Object(Vec::new()));
    d.license_expression = text("MIT");
    let p = d.into_package();
    assert_eq!((p.deprecated, p.license), (Some(true), text("MIT")));
}

#[test]
fn nuget_packages_by_name() {
    let found = NugetSearchResp { data: vec![nuget_entry("A"), nuget_entry("B")] };
    assert_eq!(found.into_package("a").unwrap().name, "A");
    let e = NugetSearchResp { data: Vec::new() }.into_package("Nope").unwrap_err();
    assert_eq!(e.message(), "NuGet package 'Nope' not found");
}

// --- OSV -------------------------------------------------------------------

#[test]
fn osv_versions() {
    assert_eq!(osv_version(" v1.2.3 "), "1.2.3");
    assert_eq!(osv_version("vv1"), "1");
    assert_eq!(osv_version("V1"), "V1");
    assert_eq!(osv_version("1.0v"), "1.0v");
}

#[test]
fn osv_queries() {
    assert_eq!(osv::QUERY_URL, "https://api.osv.dev/v1/query");
    assert_eq!(osv::BATCH_URL, "https://api.osv.dev/v1/querybatch");
    let q = OsvQuery::new(Ecosystem::Go, "m", "v1.0");
    assert_eq!((q.version.as_str(), q.name.as_str(), q.ecosystem), ("1.0", "m", "Go"));
    let mut p = named("serde");
    assert!(package_query(&p).is_none());
    p.latest_version = text("2.0.0-rc1");
    assert_eq!(package_query(&p).unwrap().version, "2.0.0-rc1");
    p.stable_version = text("1.0.0");
    let q = package_query(&p).unwrap();
    assert_eq!((q.version.as_str(), q.name.as_str(), q.ecosystem), ("1.0.0", "serde", "crates.io"));
}

#[test]
fn osv_answers() {
    let v = OsvResp {
        vulns: vec![OsvVuln {
            id: "GHSA-1".to_string(),
            summary: text("bad"),
            database_specific: OsvDbSpecific { severity: text("HIGH") },
        }],
    }
    .into_vulns();
    assert_eq!(v.len(), 1);
    assert_eq!(v[0].id, "GHSA-1");
    assert_eq!((v[0].summary.clone(), v[0].severity.clone()), (text("bad"), text("HIGH")));
}

fn result(ids: &[&str]) -> OsvBatchResult {
    OsvBatchResult {
        vulns: ids.iter().map(|s| OsvBatchVuln { id: s.to_string() }).collect(),
    }
}

#[test]
fn batches_answer_each_query_in_order() {
    let answer = OsvBatchResp { results: vec![result(&["A", "B"]), result(&[])] };
    assert_eq!(batch_advisories(2, Some(answer)), vec![strings(&["A", "B"]), Vec::new()]);
    let answer = OsvBatchResp { results: vec![result(&["A"])] };
    assert_eq!(batch_advisories(2, Some(answer)), vec![Vec::<String>::new(), Vec::new()]);
    assert_eq!(batch_advisories(1, None), vec![Vec::<String>::new()]);
    assert_eq!(batch_advisories(0, None), Vec::<Vec<String>>::new());
}

#[test]
fn advisories_reach_their_packages() {
    let mut a = named("a");
    a.stable_version = text("1");
    let b = named("b");
    let mut c = named("c");
    c.latest_version = text("2");
    let v = vec![a, b, c];
    let asked: Vec<String> = batch_queries(&v).into_iter().map(|q| q.name).collect();
    assert_eq!(asked, vec!["a", "c"]);
    let answer = OsvBatchResp { results: vec![result(&["X"]), result(&["Y", "Z"])] };
    assert_eq!(
        package_advisories(&v, Some(answer)),
        vec![strings(&["X"]), Vec::new(), strings(&["Y", "Z"])]
    );
    let answer = OsvBatchResp { results: vec![result(&["X"]), result(&[]), result(&["Y"])] };
    assert_eq!(package_advisories(&v, Some(answer)), vec![Vec::<String>::new(); 3]);
}

// --- The MCP registry ------------------------------------------------------

fn entry(packages: Vec<McpPackage>) -> McpServerEntry {
    McpServerEntry {
        server: McpServerObj {
            name: "io.github/x".to_string(),
            description: text("d"),
            version: text("1.0"),
            repository: Some(McpRepo { url: text("r") }),
            packages,
        },
        meta: Some(McpMeta { official: Some(McpOfficial { status: text("active") }) }),
    }
}

#[test]
fn mcp_searches() {
    let r = mcp::search_request("postgres", 8);
    assert_eq!(r.url, "https://registry.modelcontextprotocol.io/v0/servers");
    assert_eq!(query(&r), vec![("search", "postgres"), ("limit", "8"), ("version", "latest")]);
    assert_eq!(query(&mcp::search_request("x", 0))[1].1, "1");
    assert_eq!(query(&mcp::search_request("x", 31))[1].1, "30");
}

#[test]
fn mcp_install_texts() {
    let pkg = |t: Option<&str>, id: Option<&str>, hint: Option<&str>| McpPackage {
        registry_type: t.map(String::from),
        identifier: id.map(String::from),
        runtime_hint: hint.map(String::from),
    };
    assert_eq!(pkg(Some("npm"), Some("x"), Some("npx")).install(), "npm: x (runtime: npx)");
    assert_eq!(pkg(Some("pypi"), Some("x"), None).install(), "pypi: x");
    assert_eq!(pkg(None, None, None).install(), "?: ?");
}

#[test]
fn mcp_entries_become_servers() {
    let first = McpPackage {
        registry_type: text("npm"),
        identifier: text("a"),
        runtime_hint: None,
    };
    let second = McpPackage {
        registry_type: text("oci"),
        identifier: text("b"),
        runtime_hint: None,
    };
    let mut bare = entry(Vec::new());
    bare.server.repository = None;
    bare.meta = Some(McpMeta { official: None });
    let v = McpServersResp { servers: vec![entry(vec![first, second]), bare] }.into_servers();
    assert_eq!(v[0].name, "io.github/x");
    assert_eq!(v[0].install, text("npm: a"));
    assert_eq!(v[0].repository, text("r"));
    assert_eq!(v[0].status, text("active"));
    assert_eq!((v[1].install.clone(), v[1].repository.clone()), (None, None));
    assert_eq!(v[1].status, None);
}
