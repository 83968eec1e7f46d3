//! deps.dev: package names for a query, and the details of Go modules and Maven
//! artifacts.

use vstd::prelude::*;
use vstd::utf8::encode_utf8;
use crate::model::{Ecosystem, Package, PackageView};
use crate::request::{lemma_pairs, plain_get, HttpRequest, RequestView};
use crate::sources::seen::Seen;
use crate::sources::url::{pct_encode, pct_encoded};
use crate::text::{
    after_prefix, behind_prefix, cat, cat3, copy_of, lowercase, same_text, strip_end, terms,
    terms_of, to_lowercase, without_end, Strip,
};

verus! {

// --- Systems ---------------------------------------------------------------

/// What the name search calls an ecosystem whose names are searched for there.
pub open spec fn name_system(eco: Ecosystem) -> Option<Seq<char>> {
    match eco {
        Ecosystem::Python => Some("PYPI"@),
        Ecosystem::Go => Some("GO"@),
        _ => None,
    }
}

/// What the name search calls an ecosystem whose names are searched for there.
pub fn search_system(eco: Ecosystem) -> (r: Option<&'static str>)
    ensures
        match name_system(eco) {
            Some(s) => r matches Some(t) && t@ == s,
            None => r is None,
        },
        eco == Ecosystem::Python ==> (r matches Some(t) && t@ == "PYPI"@),
        eco == Ecosystem::Go ==> (r matches Some(t) && t@ == "GO"@),
        eco != Ecosystem::Python && eco != Ecosystem::Go ==> r is None,
{
    match eco {
        Ecosystem::Python => Some("PYPI"),
        Ecosystem::Go => Some("GO"),
        _ => None,
    }
}

/// What the look-up calls an ecosystem whose packages are described there.
pub open spec fn details_system(eco: Ecosystem) -> Option<Seq<char>> {
    match eco {
        Ecosystem::Go => Some("go"@),
        Ecosystem::Maven => Some("maven"@),
        _ => None,
    }
}

/// What the look-up calls an ecosystem whose packages are described there.
pub fn lookup_system(eco: Ecosystem) -> (r: Option<&'static str>)
    ensures
        match details_system(eco) {
            Some(s) => r matches Some(t) && t@ == s,
            None => r is None,
        },
        eco == Ecosystem::Go ==> (r matches Some(t) && t@ == "go"@),
        eco == Ecosystem::Maven ==> (r matches Some(t) && t@ == "maven"@),
        eco != Ecosystem::Go && eco != Ecosystem::Maven ==> r is None,
{
    match eco {
        Ecosystem::Go => Some("go"),
        Ecosystem::Maven => Some("maven"),
        _ => None,
    }
}

// --- Names for a query -----------------------------------------------------

/// The answer to a search.
#[derive(Debug)]
pub struct DepsDevSearch {
    pub results: Vec<DepsDevResult>,
}

#[derive(Debug)]
pub struct DepsDevResult {
    pub name: String,
    pub system: Option<String>,
}

/// The `User-Agent` of a browser: the search endpoint turns others away.
pub open spec fn browser_user_agent() -> Seq<char> {
    "Mozilla/5.0 (Windows NT 10.0; Win64; x64) AppleWebKit/537.36 (KHTML, like Gecko) Chrome/126.0 Safari/537.36"@
}

/// The request that searches for names.
pub open spec fn names_query(query: Seq<char>) -> RequestView {
    RequestView {
        url: "https://deps.dev/_/search"@,
        query: seq![("q"@, query)],
        user_agent: Some(browser_user_agent()),
    }
}

/// The request that searches for names.
pub fn search_request(query: &str) -> (r: HttpRequest)
    ensures
        r@ == names_query(query@),
        r.url@ == "https://deps.dev/_/search"@,
        r.query.len() == 1,
        r.query@[0].0@ == "q"@ && r.query@[0].1@ == query@,
        r.user_agent.deep_view() == Some(
            "Mozilla/5.0 (Windows NT 10.0; Win64; x64) AppleWebKit/537.36 (KHTML, like Gecko) Chrome/126.0 Safari/537.36"@,
        ),
{
    let mut r = HttpRequest::get("https://deps.dev/_/search".to_owned()).with("q", query);
    r.user_agent = Some(
        "Mozilla/5.0 (Windows NT 10.0; Win64; x64) AppleWebKit/537.36 (KHTML, like Gecko) Chrome/126.0 Safari/537.36".to_owned(),
    );
    assert(r@.query =~= names_query(query@).query);
    proof {
        lemma_pairs(r.query@);
    }
    r
}

/// The names among the results that belong to one system, in order.
pub open spec fn names_in(results: Seq<DepsDevResult>, system: Seq<char>) -> Seq<Seq<char>>
    decreases results.len(),
{
    if results.len() == 0 {
        Seq::empty()
    } else {
        let before = names_in(results.drop_last(), system);
        if results.last().system.deep_view() == Some(system) {
            before.push(results.last().name@)
        } else {
            before
        }
    }
}

impl DepsDevSearch {
    /// The names that belong to one system (e.g. "PYPI", "GO"), in order.
    pub fn into_names(self, system: &str) -> (r: Vec<String>)
        ensures
            r.deep_view() == names_in(self.results@, system@),
    {
        let mut out: Vec<String> = Vec::new();
        let ghost all = self.results@;
        for x in it: self.results
            invariant
                it.seq() == all,
                out.deep_view() == names_in(all.take(it.index()), system@),
        {
            let ghost before = out.deep_view();
            let ghost name = x.name@;
            assert(all.take(it.index() + 1).drop_last() =~= all.take(it.index()));
            let wanted = match &x.system {
                Some(s) => same_text(s, system),
                None => false,
            };
            if wanted {
                out.push(x.name);
                assert(out.deep_view() =~= before.push(name));
            }
        }
        assert(all.take(all.len() as int) =~= all);
        out
    }
}

/// The names with those that are new, ignoring case, behind them.
pub open spec fn with_new_names(names: Seq<Seq<char>>, more: Seq<Seq<char>>) -> Seq<Seq<char>>
    decreases more.len(),
{
    if more.len() == 0 {
        names
    } else {
        let before = with_new_names(names, more.drop_last());
        if all_lower(before).contains(lowercase(more.last())) {
            before
        } else {
            before.push(more.last())
        }
    }
}

/// Texts in lower case.
pub open spec fn all_lower(v: Seq<Seq<char>>) -> Seq<Seq<char>> {
    v.map_values(|s: Seq<char>| lowercase(s))
}

/// A search for names: the whole query first. Names are all that the endpoint
/// matches on, so where a phrase finds nothing, each of its terms of at least
/// three bytes is searched for.
#[derive(Debug)]
pub struct NameSearch {
    query: String,
    terms: Vec<String>,
    started: bool,
    next_term: usize,
    failed: bool,
    by_terms: bool,
    names: Vec<String>,
    seen: Seen,
}

/// A [`NameSearch`] with its texts as sequences of characters.
#[verifier::ext_equal]
pub struct NameSearchView {
    pub query: Seq<char>,
    pub terms: Seq<Seq<char>>,
    /// How many requests have been answered.
    pub asked: nat,
    /// Whether the request for the whole query failed.
    pub failed: bool,
    /// Whether the whole query found nothing, so that its terms are searched.
    pub by_terms: bool,
    pub names: Seq<Seq<char>>,
}

impl NameSearchView {
    pub open spec fn start(query: Seq<char>) -> NameSearchView {
        NameSearchView {
            query,
            terms: terms(query, 3),
            asked: 0,
            failed: false,
            by_terms: false,
            names: Seq::empty(),
        }
    }

    /// What to search for next; nothing when the search is over.
    pub open spec fn pending(self) -> Option<Seq<char>> {
        if self.asked == 0 {
            Some(self.query)
        } else if self.by_terms && self.asked <= self.terms.len() {
            Some(self.terms[self.asked - 1])
        } else {
            None
        }
    }

    /// The search after an answer to the pending request: the names found, or
    /// nothing where the request failed.
    pub open spec fn step(self, outcome: Option<Seq<Seq<char>>>) -> NameSearchView {
        let names = match outcome {
            Some(more) => with_new_names(self.names, more),
            None => self.names,
        };
        if self.asked == 0 {
            NameSearchView {
                asked: 1,
                failed: outcome is None,
                by_terms: outcome is Some && names.len() == 0,
                names,
                ..self
            }
        } else {
            NameSearchView { asked: self.asked + 1, names, ..self }
        }
    }

    /// The names found; nothing where the request for the whole query failed.
    pub open spec fn result(self) -> Option<Seq<Seq<char>>> {
        if self.failed {
            None
        } else {
            Some(self.names)
        }
    }

    /// The search after the given answers, as long as it asks for them.
    pub open spec fn run(self, outcomes: Seq<Option<Seq<Seq<char>>>>) -> NameSearchView
        decreases outcomes.len(),
    {
        if outcomes.len() == 0 {
            self
        } else {
            let before = self.run(outcomes.drop_last());
            if before.pending() is Some {
                before.step(outcomes.last())
            } else {
                before
            }
        }
    }
}

impl View for NameSearch {
    type V = NameSearchView;

    closed spec fn view(&self) -> NameSearchView {
        NameSearchView {
            query: self.query@,
            terms: self.terms.deep_view(),
            asked: if self.started {
                self.next_term as nat + 1
            } else {
                0
            },
            failed: self.failed,
            by_terms: self.by_terms,
            names: self.names.deep_view(),
        }
    }
}

impl NameSearch {
    pub closed spec fn wf(self) -> bool {
        &&& self.seen@ == all_lower(self.names.deep_view())
        &&& self.by_terms ==> self.started
        &&& !self.started ==> self.next_term == 0
    }

    /// Starts a search.
    pub fn new(query: &str) -> (r: NameSearch)
        ensures
            r.wf(),
            r@ == NameSearchView::start(query@),
    {
        let r = NameSearch {
            query: query.to_owned(),
            terms: terms_of(query, 3),
            started: false,
            next_term: 0,
            failed: false,
            by_terms: false,
            names: Vec::new(),
            seen: Seen::new(),
        };
        assert(r.seen@ =~= all_lower(r.names.deep_view()));
        r
    }

    /// What to search for next; nothing when the search is over.
    pub fn pending(&self) -> (r: Option<&str>)
        requires
            self.wf(),
        ensures
            (match r {
                Some(q) => Some(q@),
                None => None,
            }) == self@.pending(),
    {
        if !self.started {
            Some(self.query.as_str())
        } else if self.by_terms && self.next_term < self.terms.len() {
            Some(self.terms[self.next_term].as_str())
        } else {
            None
        }
    }

    fn add(&mut self, more: Vec<String>)
        requires
            old(self).wf(),
        ensures
            final(self).wf(),
            final(self)@ == (NameSearchView {
                names: with_new_names(old(self)@.names, more.deep_view()),
                ..old(self)@
            }),
            final(self).next_term == old(self).next_term,
            final(self).started == old(self).started,
    {
        let ghost all = more.deep_view();
        let ghost first = self.names.deep_view();
        for n in it: more
            invariant
                it.seq() == more@,
                all == more.deep_view(),
                first == old(self)@.names,
                self.wf(),
                self.next_term == old(self).next_term,
                self.started == old(self).started,
                self@ == (NameSearchView {
                    names: with_new_names(first, all.take(it.index())),
                    ..old(self)@
                }),
        {
            let ghost names = self.names.deep_view();
            assert(all.take(it.index() + 1).drop_last() =~= all.take(it.index()));
            assert(all.take(it.index() + 1).last() == n@);
            let ghost name = n@;
            if self.seen.insert(to_lowercase(&n)) {
                self.names.push(n);
                proof {
                    assert(self.names.deep_view() =~= names.push(name));
                    assert(all_lower(names.push(name)) =~= all_lower(names).push(lowercase(name)));
                }
            }
        }
        assert(all.take(all.len() as int) =~= all);
    }

    /// Takes the answer to the pending request: the names found, or nothing
    /// where the request failed.
    pub fn record(&mut self, outcome: Option<Vec<String>>)
        requires
            old(self).wf(),
            old(self)@.pending() is Some,
        ensures
            final(self).wf(),
            final(self)@ == old(self)@.step(outcome.deep_view()),
    {
        let first = !self.started;
        assert(!first ==> self.next_term < self.terms.len());
        let answered = outcome.is_some();
        if let Some(more) = outcome {
            self.add(more);
        }
        if first {
            self.started = true;
            self.failed = !answered;
            self.by_terms = answered && self.names.len() == 0;
        } else {
            self.next_term = self.next_term + 1;
        }
    }

    /// The names found, in the order of relevance and without duplicates;
    /// nothing where the request for the whole query failed.
    pub fn finish(self) -> (r: Option<Vec<String>>)
        ensures
            r.deep_view() == self@.result(),
    {
        if self.failed {
            None
        } else {
            Some(self.names)
        }
    }
}

// --- Details of one package ------------------------------------------------

/// The versions of a package.
#[derive(Debug)]
pub struct DdPackage {
    pub versions: Vec<DdPackageVersion>,
}

#[derive(Debug)]
pub struct DdPackageVersion {
    pub version_key: DdVersionKey,
    pub is_default: bool,
}

#[derive(Debug)]
pub struct DdVersionKey {
    pub version: String,
}

/// One version of a package.
#[derive(Debug)]
pub struct DdVersion {
    pub published_at: Option<String>,
    pub is_deprecated: bool,
    pub licenses: Vec<String>,
    pub links: Vec<DdLink>,
    pub related_projects: Vec<DdRelatedProject>,
}

#[derive(Debug)]
pub struct DdLink {
    pub label: Option<String>,
    pub url: Option<String>,
}

#[derive(Debug)]
pub struct DdRelatedProject {
    pub project_key: Option<DdProjectKey>,
}

#[derive(Debug)]
pub struct DdProjectKey {
    pub id: Option<String>,
}

/// A source project.
#[derive(Debug)]
pub struct DdProject {
    pub stars_count: Option<u64>,
    pub description: Option<String>,
}

/// The address of a package's description.
pub open spec fn package_url(system: Seq<char>, name: Seq<char>) -> Seq<char> {
    "https://api.deps.dev/v3/systems/"@ + system + "/packages/"@ + pct_encoded(encode_utf8(name))
}

/// The version to describe: the first default one, else the last one.
pub open spec fn chosen_version(versions: Seq<DdPackageVersion>) -> Option<Seq<char>> {
    match default_version(versions) {
        Some(v) => Some(v),
        None => if versions.len() > 0 {
            Some(versions.last().version_key.version@)
        } else {
            None
        },
    }
}

/// The first version that is marked as the default.
pub open spec fn default_version(versions: Seq<DdPackageVersion>) -> Option<Seq<char>>
    decreases versions.len(),
{
    if versions.len() == 0 {
        None
    } else if versions[0].is_default {
        Some(versions[0].version_key.version@)
    } else {
        default_version(versions.drop_first())
    }
}

/// The address behind the first link with the label of a source repository.
pub open spec fn source_link(links: Seq<DdLink>) -> Option<Seq<char>>
    decreases links.len(),
{
    if links.len() == 0 {
        None
    } else if links[0].label.deep_view() == Some("SOURCE_REPO"@) {
        links[0].url.deep_view()
    } else {
        source_link(links.drop_first())
    }
}

/// The first identifier among the related projects.
pub open spec fn related_id(projects: Seq<DdRelatedProject>) -> Option<Seq<char>>
    decreases projects.len(),
{
    if projects.len() == 0 {
        None
    } else {
        match projects[0].project_key {
            Some(k) => match k.id {
                Some(id) => Some(id@),
                None => related_id(projects.drop_first()),
            },
            None => related_id(projects.drop_first()),
        }
    }
}

/// The project that a repository's address stands for: the address without
/// `https://` and without slashes at its end.
pub open spec fn repository_id(repository: Option<Seq<char>>) -> Option<Seq<char>> {
    match repository {
        Some(u) => match behind_prefix(u, "https://"@) {
            Some(s) => Some(strip_end(s, Strip::Slash)),
            None => None,
        },
        None => None,
    }
}

/// The project to ask for stars and a description.
pub open spec fn project_of(v: DdVersion) -> Option<Seq<char>> {
    match related_id(v.related_projects@) {
        Some(id) => Some(id),
        None => repository_id(source_link(v.links@)),
    }
}

/// A package at the chosen version.
pub open spec fn at_version(eco: Ecosystem, name: Seq<char>, version: Seq<char>) -> PackageView {
    PackageView {
        latest_version: Some(version),
        stable_version: Some(version),
        ..PackageView::bare(eco, name)
    }
}

/// A package with the details of its version.
pub open spec fn with_version(p: PackageView, v: DdVersion) -> PackageView {
    PackageView {
        updated_at: v.published_at.deep_view(),
        deprecated: Some(v.is_deprecated),
        license: if v.licenses@.len() > 0 {
            Some(v.licenses@[0]@)
        } else {
            None
        },
        repository: source_link(v.links@),
        ..p
    }
}

/// A package with what its project says of it, where that could be had.
pub open spec fn with_project(p: PackageView, project: Option<DdProject>) -> PackageView {
    match project {
        Some(x) => PackageView {
            stars: x.stars_count,
            description: match p.description {
                Some(d) => Some(d),
                None => x.description.deep_view(),
            },
            ..p
        },
        None => p,
    }
}

/// The first step of a look-up: the versions of a package.
#[derive(Debug)]
pub struct PackageLookup {
    pub ecosystem: Ecosystem,
    pub system: String,
    pub name: String,
}

/// The second step of a look-up: the details of the chosen version.
#[derive(Debug)]
pub struct VersionLookup {
    pub system: String,
    pub version: String,
    pub package: Package,
}

/// The last step of a look-up: the project that the package comes from.
#[derive(Debug)]
pub struct ProjectLookup {
    pub project: Option<String>,
    pub package: Package,
}

/// A package that has no versions.
#[derive(Debug)]
pub struct NoVersions {
    pub name: String,
}

impl NoVersions {
    /// What went wrong, in words.
    pub fn message(&self) -> (r: String)
        ensures
            r@ == "no versions found for "@ + self.name@,
    {
        cat("no versions found for ", &self.name)
    }
}

fn choose_version(versions: &Vec<DdPackageVersion>) -> (r: Option<String>)
    ensures
        r.deep_view() == chosen_version(versions@),
{
    let mut i: usize = 0;
    assert(versions@.skip(0) =~= versions@);
    while i < versions.len()
        invariant
            i <= versions.len(),
            default_version(versions@) == default_version(versions@.skip(i as int)),
        decreases versions.len() - i,
    {
        assert(versions@.skip(i as int).drop_first() =~= versions@.skip(i + 1));
        if versions[i].is_default {
            return Some(versions[i].version_key.version.clone());
        }
        i += 1;
    }
    if versions.len() > 0 {
        Some(versions[versions.len() - 1].version_key.version.clone())
    } else {
        None
    }
}

fn find_source_link(links: &Vec<DdLink>) -> (r: Option<String>)
    ensures
        r.deep_view() == source_link(links@),
{
    let mut i: usize = 0;
    assert(links@.skip(0) =~= links@);
    while i < links.len()
        invariant
            i <= links.len(),
            source_link(links@) == source_link(links@.skip(i as int)),
        decreases links.len() - i,
    {
        assert(links@.skip(i as int).drop_first() =~= links@.skip(i + 1));
        let wanted = match &links[i].label {
            Some(l) => same_text(l, "SOURCE_REPO"),
            None => false,
        };
        if wanted {
            return copy_of(&links[i].url);
        }
        i += 1;
    }
    None
}

fn find_related_id(projects: &Vec<DdRelatedProject>) -> (r: Option<String>)
    ensures
        r.deep_view() == related_id(projects@),
{
    let mut i: usize = 0;
    assert(projects@.skip(0) =~= projects@);
    while i < projects.len()
        invariant
            i <= projects.len(),
            related_id(projects@) == related_id(projects@.skip(i as int)),
        decreases projects.len() - i,
    {
        assert(projects@.skip(i as int).drop_first() =~= projects@.skip(i + 1));
        if let Some(k) = &projects[i].project_key {
            if let Some(id) = &k.id {
                return Some(id.clone());
            }
        }
        i += 1;
    }
    None
}

fn id_of_repository(repository: &Option<String>) -> (r: Option<String>)
    ensures
        r.deep_view() == repository_id(repository.deep_view()),
{
    match repository {
        Some(u) => match after_prefix(u, "https://") {
            Some(s) => Some(without_end(s, Strip::Slash).to_owned()),
            None => None,
        },
        None => None,
    }
}

impl PackageLookup {
    /// Starts the look-up of a Go module ("go") or a Maven artifact ("maven").
    pub fn new(ecosystem: Ecosystem, system: &str, name: &str) -> (r: PackageLookup)
        ensures
            r.ecosystem == ecosystem,
            r.system@ == system@,
            r.name@ == name@,
    {
        PackageLookup { ecosystem, system: system.to_owned(), name: name.to_owned() }
    }

    /// The request for the package's versions.
    pub fn request(&self) -> (r: HttpRequest)
        ensures
            r@ == plain_get(package_url(self.system@, self.name@)),
            r.url@ == "https://api.deps.dev/v3/systems/"@ + self.system@ + "/packages/"@
                + pct_encoded(encode_utf8(self.name@)),
    {
        HttpRequest::get(
            cat(
                &cat3("https://api.deps.dev/v3/systems/", &self.system, "/packages/"),
                &pct_encode(&self.name),
            ),
        )
    }

    /// Goes on with the default version, else with the last one.
    pub fn with_versions(self, found: DdPackage) -> (r: Result<VersionLookup, NoVersions>)
        ensures
            match chosen_version(found.versions@) {
                Some(v) => r matches Ok(next) && next.system@ == self.system@ && next.version@ == v
                    && next.package@ == at_version(self.ecosystem, self.name@, v),
                None => r matches Err(e) && e.name@ == self.name@,
            },
            found.versions@.len() > 0 ==> r is Ok,
            found.versions@.len() == 0 ==> r is Err,
            r matches Ok(next) ==> {
                &&& next.package.ecosystem == self.ecosystem
                &&& next.package.name@ == self.name@
                &&& next.package.latest_version.deep_view() == Some(next.version@)
                &&& next.package.stable_version.deep_view() == Some(next.version@)
                &&& next.package.description is None && next.package.stars is None
                &&& next.package.keywords.len() == 0 && next.package.homepage is None
                &&& next.package.recent_downloads_90d is None
                &&& next.package.total_downloads is None && next.package.min_runtime is None
                &&& next.package.license is None && next.package.repository is None
                &&& next.package.updated_at is None && next.package.deprecated is None
            },
    {
        match choose_version(&found.versions) {
            Some(v) => {
                let mut p = Package::new(self.ecosystem, self.name);
                p.latest_version = Some(v.clone());
                p.stable_version = Some(v.clone());
                Ok(VersionLookup { system: self.system, version: v, package: p })
            },
            None => Err(NoVersions { name: self.name }),
        }
    }
}

impl VersionLookup {
    /// The request for the version's details.
    pub fn request(&self) -> (r: HttpRequest)
        ensures
            r@ == plain_get(
                package_url(self.system@, self.package@.name) + "/versions/"@ + pct_encoded(
                    encode_utf8(self.version@),
                ),
            ),
            r.url@ == "https://api.deps.dev/v3/systems/"@ + self.system@ + "/packages/"@
                + pct_encoded(encode_utf8(self.package.name@)) + "/versions/"@ + pct_encoded(
                encode_utf8(self.version@),
            ),
    {
        let base = cat(
            &cat3("https://api.deps.dev/v3/systems/", &self.system, "/packages/"),
            &pct_encode(&self.package.name),
        );
        HttpRequest::get(cat3(&base, "/versions/", &pct_encode(&self.version)))
    }

    /// Goes on with the project that the version comes from.
    pub fn with_details(self, details: DdVersion) -> (r: ProjectLookup)
        ensures
            r.package@ == with_version(self.package@, details),
            r.project.deep_view() == project_of(details),
            r.package.ecosystem == self.package.ecosystem,
            r.package.name@ == self.package.name@,
            r.package.latest_version.deep_view() == self.package.latest_version.deep_view(),
            r.package.stable_version.deep_view() == self.package.stable_version.deep_view(),
            r.package.updated_at.deep_view() == details.published_at.deep_view(),
            r.package.deprecated == Some(details.is_deprecated),
            details.licenses@.len() > 0 ==> r.package.license.deep_view() == Some(
                details.licenses@[0]@,
            ),
            details.licenses@.len() == 0 ==> r.package.license is None,
            r.package.repository.deep_view() == source_link(details.links@),
            r.package.description.deep_view() == self.package.description.deep_view(),
            r.package.stars == self.package.stars,
            r.package.keywords.deep_view() == self.package.keywords.deep_view(),
            r.package.recent_downloads_90d == self.package.recent_downloads_90d,
            r.package.total_downloads == self.package.total_downloads,
            r.package.homepage.deep_view() == self.package.homepage.deep_view(),
            r.package.min_runtime.deep_view() == self.package.min_runtime.deep_view(),
    {
        let mut p = self.package;
        p.updated_at = details.published_at;
        p.deprecated = Some(details.is_deprecated);
        p.license = if details.licenses.len() > 0 {
            Some(details.licenses[0].clone())
        } else {
            None
        };
        p.repository = find_source_link(&details.links);
        let project = match find_related_id(&details.related_projects) {
            Some(id) => Some(id),
            None => id_of_repository(&p.repository),
        };
        ProjectLookup { project, package: p }
    }
}

impl ProjectLookup {
    /// The request for the project, where one is known.
    pub fn request(&self) -> (r: Option<HttpRequest>)
        ensures
            match self.project {
                Some(id) => r matches Some(x) && x@ == plain_get(
                    "https://api.deps.dev/v3/projects/"@ + pct_encoded(encode_utf8(id@)),
                ),
                None => r is None,
            },
    {
        match &self.project {
            Some(id) => Some(
                HttpRequest::get(cat("https://api.deps.dev/v3/projects/", &pct_encode(id))),
            ),
            None => None,
        }
    }

    /// The package, with its project's stars and description where the project
    /// could be had.
    pub fn finish(self, project: Option<DdProject>) -> (r: Package)
        ensures
            r@ == with_project(self.package@, project),
            project matches Some(x) ==> r.stars == x.stars_count,
            project is Some && self.package.description is None ==> r.description.deep_view()
                == project->0.description.deep_view(),
            project is None || self.package.description is Some ==> r.description.deep_view()
                == self.package.description.deep_view(),
            project is None ==> r@ == self.package@,
            r.ecosystem == self.package.ecosystem,
            r.name@ == self.package.name@,
            r.updated_at.deep_view() == self.package.updated_at.deep_view(),
            r.license.deep_view() == self.package.license.deep_view(),
            r.repository.deep_view() == self.package.repository.deep_view(),
            r.deprecated == self.package.deprecated,
            project is None ==> r.stars == self.package.stars,
            r.keywords.deep_view() == self.package.keywords.deep_view(),
            r.recent_downloads_90d == self.package.recent_downloads_90d,
            r.total_downloads == self.package.total_downloads,
            r.homepage.deep_view() == self.package.homepage.deep_view(),
            r.min_runtime.deep_view() == self.package.min_runtime.deep_view(),
            r.latest_version.deep_view() == self.package.latest_version.deep_view(),
            r.stable_version.deep_view() == self.package.stable_version.deep_view(),
    {
        let mut p = self.package;
        if let Some(x) = project {
            p.stars = x.stars_count;
            if p.description.is_none() {
                p.description = x.description;
            }
        }
        p
    }
}

// --- Laws ------------------------------------------------------------------

/// No two of the names found differ in case alone.
pub proof fn law_new_names_are_distinct(names: Seq<Seq<char>>, more: Seq<Seq<char>>)
    requires
        all_lower(names).no_duplicates(),
    ensures
        all_lower(with_new_names(names, more)).no_duplicates(),
    decreases more.len(),
{
    if more.len() > 0 {
        law_new_names_are_distinct(names, more.drop_last());
        let before = with_new_names(names, more.drop_last());
        assert(all_lower(before.push(more.last())) =~= all_lower(before).push(
            lowercase(more.last()),
        ));
    }
}

/// Names found keep their order: those already there come first, then those
/// that are new, in the order in which they were found; and every name found is
/// there, if only in another case.
pub proof fn law_new_names_keep_order(names: Seq<Seq<char>>, more: Seq<Seq<char>>)
    ensures
        ({
            let all = with_new_names(names, more);
            &&& names.is_prefix_of(all)
            &&& in_order(all.skip(names.len() as int), more)
            &&& forall|i: int|
                0 <= i < more.len() ==> all_lower(all).contains(lowercase(#[trigger] more[i]))
        }),
    decreases more.len(),
{
    let all = with_new_names(names, more);
    if more.len() == 0 {
        assert(all.skip(names.len() as int) =~= Seq::empty());
    } else {
        let fewer = more.drop_last();
        let before = with_new_names(names, fewer);
        law_new_names_keep_order(names, fewer);
        if all != before {
            assert(all.skip(names.len() as int).drop_last() =~= before.skip(names.len() as int));
            assert(names =~= all.take(names.len() as int));
        }
        assert forall|i: int| 0 <= i < more.len() implies all_lower(all).contains(
            lowercase(#[trigger] more[i]),
        ) by {
            if all != before {
                assert(all_lower(all) =~= all_lower(before).push(lowercase(more.last())));
                assert(all_lower(all)[before.len() as int] == lowercase(more.last()));
            }
            if i < more.len() - 1 {
                assert(all_lower(before).contains(lowercase(fewer[i])));
                let k = all_lower(before).index_of(lowercase(fewer[i]));
                assert(all_lower(all)[k] == lowercase(fewer[i]));
            }
        }
    }
}

/// Whether `part` can be had from `whole` by leaving names out.
pub open spec fn in_order(part: Seq<Seq<char>>, whole: Seq<Seq<char>>) -> bool
    decreases whole.len(),
{
    if whole.len() == 0 {
        part.len() == 0
    } else {
        ||| in_order(part, whole.drop_last())
        ||| part.len() > 0 && part.last() == whole.last() && in_order(
            part.drop_last(),
            whole.drop_last(),
        )
    }
}

/// Whatever the answers are, no two of the names found differ in case alone.
pub proof fn law_name_search_is_distinct(
    query: Seq<char>,
    outcomes: Seq<Option<Seq<Seq<char>>>>,
)
    ensures
        all_lower(NameSearchView::start(query).run(outcomes).names).no_duplicates(),
    decreases outcomes.len(),
{
    let start = NameSearchView::start(query);
    assert(all_lower(start.names) =~= Seq::empty());
    if outcomes.len() > 0 {
        law_name_search_is_distinct(query, outcomes.drop_last());
        let before = start.run(outcomes.drop_last());
        if let Some(more) = outcomes.last() {
            law_new_names_are_distinct(before.names, more);
        }
    }
}

/// Where the whole query finds something, the search is over after one request
/// and the names are what was found; where the request fails, so does the
/// search.
pub proof fn law_name_search_stops_at_direct_hits(query: Seq<char>, direct: Option<Seq<Seq<char>>>)
    ensures
        ({
            let after = NameSearchView::start(query).step(direct);
            match direct {
                Some(more) => {
                    &&& after.result() == Some(with_new_names(Seq::empty(), more))
                    &&& more.len() > 0 ==> after.pending() is None
                    &&& more.len() == 0 && terms(query, 3).len() > 0 ==> after.pending() == Some(
                        terms(query, 3)[0],
                    )
                },
                None => after.pending() is None && after.result() is None,
            }
        }),
{
    if let Some(more) = direct {
        if more.len() > 0 {
            lemma_new_names_not_empty(Seq::empty(), more);
        }
    }
}

proof fn lemma_new_names_not_empty(names: Seq<Seq<char>>, more: Seq<Seq<char>>)
    requires
        more.len() > 0,
    ensures
        with_new_names(names, more).len() > 0,
    decreases more.len(),
{
    let before = with_new_names(names, more.drop_last());
    if more.len() > 1 {
        lemma_new_names_not_empty(names, more.drop_last());
    }
    if before.len() == 0 {
        assert(all_lower(before).len() == 0);
    }
}

/// A search sends at most one request for the query and one for each term.
pub proof fn law_name_search_ends(query: Seq<char>, outcomes: Seq<Option<Seq<Seq<char>>>>)
    requires
        outcomes.len() > terms(query, 3).len(),
    ensures
        NameSearchView::start(query).run(outcomes).pending() is None,
{
    lemma_name_search_counts(query, outcomes);
}

proof fn lemma_name_search_counts(query: Seq<char>, outcomes: Seq<Option<Seq<Seq<char>>>>)
    ensures
        ({
            let r = NameSearchView::start(query).run(outcomes);
            &&& r.terms == terms(query, 3)
            &&& r.pending() is None || r.asked == outcomes.len()
        }),
    decreases outcomes.len(),
{
    if outcomes.len() > 0 {
        lemma_name_search_counts(query, outcomes.drop_last());
    }
}

} // verus!
