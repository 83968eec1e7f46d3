//! PyPI (Python).
//!
//! PyPI has no public keyword-search API, so a search ranks candidate names by
//! other means and then resolves each name.

use vstd::prelude::*;
use crate::clock::{
    comes_after, latest, latest_at, law_latest_exists, law_latest_is_unique, timestamp_of, Timestamp,
};
use crate::model::{Ecosystem, Package, PackageView};
use crate::request::{plain_get, HttpRequest};
use crate::sources::npm::{quarter_of, three_months};
use crate::text::{
    byte_len, cat, cat3, commas_and_spaces, contains_text, copy_of, holds, if_not_empty,
    listed_in, long_pieces, lowercase, non_empty, occurs_in, pieces, replace_char, replaced,
    to_lowercase, trim, trimmed, words, words_of,
};
use vstd::string::*;
use vstd::utf8::encode_utf8;

verus! {

/// The answer for one package.
#[derive(Debug)]
pub struct PyPiResp {
    pub info: PyPiInfo,
    /// Distribution files for the latest release (used for last-update time).
    pub urls: Vec<PyPiUrl>,
}

#[derive(Debug)]
pub struct PyPiUrl {
    pub upload_time_iso_8601: Option<String>,
}

#[derive(Debug)]
pub struct PyPiInfo {
    pub summary: Option<String>,
    pub version: Option<String>,
    pub license: Option<String>,
    pub license_expression: Option<String>,
    pub home_page: Option<String>,
    /// Labels and addresses, in the order in which they are considered.
    pub project_urls: Vec<(String, String)>,
    pub requires_python: Option<String>,
    pub keywords: Option<String>,
    pub yanked: bool,
}

/// Download statistics.
#[derive(Debug)]
pub struct PyPiStats {
    pub data: Option<PyPiStatsData>,
}

#[derive(Debug)]
pub struct PyPiStatsData {
    pub last_month: Option<u64>,
}

impl PyPiStats {
    /// The downloads of last month, where known.
    pub fn last_month(&self) -> (r: Option<u64>)
        ensures
            r == (match self.data {
                Some(d) => d.last_month,
                None => None,
            }),
    {
        match &self.data {
            Some(d) => d.last_month,
            None => None,
        }
    }
}

// --- One package -----------------------------------------------------------

/// The request for a package's metadata.
pub fn metadata_request(name: &str) -> (r: HttpRequest)
    ensures
        r@ == plain_get("https://pypi.org/pypi/"@ + name@ + "/json"@),
{
    HttpRequest::get(cat3("https://pypi.org/pypi/", name, "/json"))
}

/// The request for a package's recent downloads.
pub fn downloads_request(name: &str) -> (r: HttpRequest)
    ensures
        r@ == plain_get("https://pypistats.org/api/packages/"@ + name@ + "/recent"@),
{
    HttpRequest::get(cat3("https://pypistats.org/api/packages/", name, "/recent"))
}

/// Whether a lower-case label stands for a source repository.
pub open spec fn labels_repository(label: Seq<char>) -> bool {
    ||| occurs_in("source"@, label)
    ||| occurs_in("repository"@, label)
    ||| occurs_in("github"@, label)
    ||| occurs_in("code"@, label)
}

/// Whether a lower-case label stands for a source repository.
pub fn is_repository_label(label: &str) -> (r: bool)
    ensures
        r == labels_repository(label@),
        r == (occurs_in("source"@, label@) || occurs_in("repository"@, label@) || occurs_in(
            "github"@,
            label@,
        ) || occurs_in("code"@, label@)),
{
    contains_text(label, "source") || contains_text(label, "repository") || contains_text(
        label,
        "github",
    ) || contains_text(label, "code")
}

/// The first address with a label for a source repository.
pub open spec fn labelled_repository(urls: Seq<(String, String)>) -> Option<Seq<char>>
    decreases urls.len(),
{
    if urls.len() == 0 {
        None
    } else if labels_repository(lowercase(urls[0].0@)) {
        Some(urls[0].1@)
    } else {
        labelled_repository(urls.drop_first())
    }
}

/// The repository of a package: the first address so labelled, else the home
/// page.
pub open spec fn repository_of(info: PyPiInfo) -> Option<Seq<char>> {
    match labelled_repository(info.project_urls@) {
        Some(u) => Some(u),
        None => info.home_page.deep_view(),
    }
}

/// The repository of a package: the first address so labelled, else the home
/// page.
pub fn pypi_repo_url(info: &PyPiInfo) -> (r: Option<String>)
    ensures
        r.deep_view() == repository_of(*info),
{
    let urls = &info.project_urls;
    let mut i: usize = 0;
    assert(urls@.skip(0) =~= urls@);
    while i < urls.len()
        invariant
            i <= urls.len(),
            urls == info.project_urls,
            labelled_repository(urls@) == labelled_repository(urls@.skip(i as int)),
        decreases urls.len() - i,
    {
        assert(urls@.skip(i as int).drop_first() =~= urls@.skip(i + 1));
        if is_repository_label(&to_lowercase(&urls[i].0)) {
            return Some(urls[i].1.clone());
        }
        i += 1;
    }
    copy_of(&info.home_page)
}

/// A license text of fewer than 80 bytes; a longer one is a license's full text.
pub open spec fn short_license(o: Option<Seq<char>>) -> Option<Seq<char>> {
    match non_empty(o) {
        Some(s) => if encode_utf8(s).len() < 80 {
            Some(s)
        } else {
            None
        },
        None => None,
    }
}

/// The license: the license expression, else the license field if it is short.
pub open spec fn license_of(info: PyPiInfo) -> Option<Seq<char>> {
    match non_empty(info.license_expression.deep_view()) {
        Some(s) => Some(s),
        None => short_license(info.license.deep_view()),
    }
}

/// The upload times that the files have, in order.
pub open spec fn upload_times(urls: Seq<PyPiUrl>) -> Seq<Seq<char>>
    decreases urls.len(),
{
    if urls.len() == 0 {
        Seq::empty()
    } else {
        let before = upload_times(urls.drop_last());
        match urls.last().upload_time_iso_8601 {
            Some(t) => before.push(t@),
            None => before,
        }
    }
}

/// The points in time that texts denote.
pub open spec fn instants(times: Seq<Seq<char>>) -> Seq<Option<Timestamp>> {
    times.map_values(|t: Seq<char>| timestamp_of(t))
}

/// The newest file's upload time. A text that is no date counts as older than
/// every date.
pub open spec fn upload_time(urls: Seq<PyPiUrl>) -> Option<Seq<char>> {
    let times = upload_times(urls);
    if times.len() == 0 {
        None
    } else {
        Some(times[latest(instants(times))])
    }
}

/// The package that an answer and the downloads of last month are normalised
/// into.
pub open spec fn pypi_details(
    name: Seq<char>,
    info: PyPiInfo,
    urls: Seq<PyPiUrl>,
    downloads: Option<u64>,
) -> PackageView {
    PackageView {
        description: info.summary.deep_view(),
        keywords: match info.keywords {
            Some(k) => long_pieces(pieces(k@, commas_and_spaces(k@)), 1),
            None => Seq::empty(),
        },
        latest_version: info.version.deep_view(),
        stable_version: info.version.deep_view(),
        repository: repository_of(info),
        homepage: info.home_page.deep_view(),
        min_runtime: match info.requires_python {
            Some(r) => Some("Python "@ + r@),
            None => None,
        },
        deprecated: Some(info.yanked),
        license: license_of(info),
        updated_at: upload_time(urls),
        recent_downloads_90d: match downloads {
            Some(m) => Some(three_months(m)),
            None => None,
        },
        ..PackageView::bare(Ecosystem::Python, name)
    }
}

fn choose_license(expression: Option<String>, license: Option<String>) -> (r: Option<String>)
    ensures
        r.deep_view() == (match non_empty(expression.deep_view()) {
            Some(s) => Some(s),
            None => short_license(license.deep_view()),
        }),
{
    match if_not_empty(expression) {
        Some(s) => Some(s),
        None => match if_not_empty(license) {
            Some(s) => if byte_len(&s) < 80 {
                Some(s)
            } else {
                None
            },
            None => None,
        },
    }
}

fn newest_upload_time(urls: &Vec<PyPiUrl>) -> (r: Option<String>)
    ensures
        r.deep_view() == upload_time(urls@),
{
    let mut texts: Vec<String> = Vec::new();
    let mut times: Vec<Option<Timestamp>> = Vec::new();
    let mut i: usize = 0;
    assert(times@ =~= instants(texts.deep_view()));
    while i < urls.len()
        invariant
            i <= urls.len(),
            texts.deep_view() == upload_times(urls@.take(i as int)),
            times@ == instants(texts.deep_view()),
        decreases urls.len() - i,
    {
        let ghost before = texts.deep_view();
        assert(urls@.take(i + 1).drop_last() =~= urls@.take(i as int));
        if let Some(t) = &urls[i].upload_time_iso_8601 {
            times.push(Timestamp::parse(t));
            texts.push(t.clone());
            assert(texts.deep_view() =~= before.push(t@));
            assert(times@ =~= instants(texts.deep_view()));
        }
        i += 1;
    }
    assert(urls@.take(i as int) =~= urls@);
    match latest_at(&times) {
        Some(at) => {
            proof {
                law_latest_is_unique(times@, at as int);
            }
            assert(texts.deep_view()[at as int] == texts[at as int]@);
            Some(texts[at].clone())
        },
        None => None,
    }
}

/// Normalises the answer for one package, with its downloads of last month.
pub fn compose_package(name: &str, resp: PyPiResp, downloads: Option<u64>) -> (r: Package)
    ensures
        r@ == pypi_details(name@, resp.info, resp.urls@, downloads),
        r.ecosystem == Ecosystem::Python,
        r.name@ == name@,
        r.description.deep_view() == resp.info.summary.deep_view(),
        resp.info.keywords is None ==> r.keywords.len() == 0,
        r.latest_version.deep_view() == resp.info.version.deep_view(),
        r.stable_version.deep_view() == resp.info.version.deep_view(),
        r.homepage.deep_view() == resp.info.home_page.deep_view(),
        resp.info.requires_python matches Some(v) ==> r.min_runtime.deep_view() == Some(
            "Python "@ + v@,
        ),
        resp.info.requires_python is None ==> r.min_runtime is None,
        r.deprecated == Some(resp.info.yanked),
        resp.info.license_expression is Some && resp.info.license_expression->0@.len() > 0
            ==> r.license.deep_view() == resp.info.license_expression.deep_view(),
        resp.info.license_expression is None || resp.info.license_expression->0@.len() == 0 ==> {
            if resp.info.license is Some && resp.info.license->0@.len() > 0 && encode_utf8(
                resp.info.license->0@,
            ).len() < 80 {
                r.license.deep_view() == resp.info.license.deep_view()
            } else {
                r.license is None
            }
        },
        downloads matches Some(m) ==> r.recent_downloads_90d == Some(
            if m * 3 <= u64::MAX {
                (m * 3) as u64
            } else {
                u64::MAX
            },
        ),
        downloads is None ==> r.recent_downloads_90d is None,
        r.total_downloads is None && r.stars is None,
{
    let info = resp.info;
    let mut p = Package::new(Ecosystem::Python, name.to_owned());
    p.repository = pypi_repo_url(&info);
    p.description = info.summary;
    p.keywords = match &info.keywords {
        Some(k) => listed_in(k),
        None => Vec::new(),
    };
    p.latest_version = copy_of(&info.version);
    p.stable_version = info.version;
    p.homepage = info.home_page;
    p.min_runtime = match &info.requires_python {
        Some(r) => Some(cat("Python ", r)),
        None => None,
    };
    p.deprecated = Some(info.yanked);
    p.license = choose_license(info.license_expression, info.license);
    p.updated_at = newest_upload_time(&resp.urls);
    p.recent_downloads_90d = match downloads {
        Some(m) => Some(quarter_of(m)),
        None => None,
    };
    p
}

// --- Candidate names -------------------------------------------------------

/// The texts without empty ones and without those that came up before.
pub open spec fn distinct_texts(v: Seq<Seq<char>>) -> Seq<Seq<char>>
    decreases v.len(),
{
    if v.len() == 0 {
        v
    } else {
        let before = distinct_texts(v.drop_last());
        if v.last().len() == 0 || before.contains(v.last()) {
            before
        } else {
            before.push(v.last())
        }
    }
}

/// The forms under which a lower-case query could be published: with its spaces
/// as dashes, as underscores, without them, as it is, and each word of at least
/// three characters.
pub open spec fn name_forms(q: Seq<char>) -> Seq<Seq<char>> {
    seq![replaced(q, ' ', "-"@), replaced(q, ' ', "_"@), replaced(q, ' ', ""@), q] + words(q, 3)
}

/// At most seven names under which a lower-case query could be published.
pub open spec fn likely_names(q: Seq<char>) -> Seq<Seq<char>> {
    let all = distinct_texts(name_forms(q));
    if all.len() > 7 {
        all.take(7)
    } else {
        all
    }
}

fn push_new(v: &mut Vec<String>, s: String, Ghost(done): Ghost<Seq<Seq<char>>>)
    requires
        old(v).deep_view() == distinct_texts(done),
    ensures
        final(v).deep_view() == distinct_texts(done.push(s@)),
{
    let ghost before = v.deep_view();
    assert(done.push(s@).drop_last() =~= done);
    if !s.as_str().is_empty() && !holds(v, &s) {
        v.push(s);
        assert(v.deep_view() =~= before.push(s@));
    }
}

/// At most seven names under which a lower-case query could be published.
pub fn names_for(q: &str) -> (r: Vec<String>)
    ensures
        r.deep_view() == likely_names(q@),
        r.len() <= 7,
{
    let mut v: Vec<String> = Vec::new();
    let ghost mut done = Seq::<Seq<char>>::empty();
    assert(v.deep_view() =~= distinct_texts(done));
    let dashed = replace_char(q, ' ', "-");
    push_new(&mut v, dashed, Ghost(done));
    proof {
        done = done.push(replaced(q@, ' ', "-"@));
    }
    let underscored = replace_char(q, ' ', "_");
    push_new(&mut v, underscored, Ghost(done));
    proof {
        done = done.push(replaced(q@, ' ', "_"@));
    }
    let closed_up = replace_char(q, ' ', "");
    push_new(&mut v, closed_up, Ghost(done));
    proof {
        done = done.push(replaced(q@, ' ', ""@));
    }
    push_new(&mut v, q.to_owned(), Ghost(done));
    proof {
        done = done.push(q@);
    }
    // Individual words — the query word is often the package name.
    let long_words = words_of(q, 3);
    let ghost all = long_words.deep_view();
    let ghost head = done;
    assert(head + all.take(0) =~= head);
    let mut i: usize = 0;
    while i < long_words.len()
        invariant
            i <= long_words.len(),
            all == long_words.deep_view(),
            v.deep_view() == distinct_texts(head + all.take(i as int)),
        decreases long_words.len() - i,
    {
        push_new(&mut v, long_words[i].clone(), Ghost(head + all.take(i as int)));
        assert((head + all.take(i as int)).push(all[i as int]) =~= head + all.take(i + 1));
        i += 1;
    }
    assert(head + all.take(i as int) =~= name_forms(q@));
    let ghost full = v.deep_view();
    if v.len() > 7 {
        v.truncate(7);
        assert(v.deep_view() =~= full.take(7));
    }
    v
}

/// Generates likely PyPI package names from a free-text query (normalised
/// separators, joined forms, and individual significant tokens).
pub fn pypi_name_candidates(query: &str) -> (r: Vec<String>)
    ensures
        r.deep_view() == likely_names(lowercase(trimmed(query@))),
{
    names_for(&to_lowercase(trim(query)))
}

/// The names to resolve for a search: those found, else likely ones.
pub open spec fn names_to_resolve(found: Option<Seq<Seq<char>>>, query: Seq<char>) -> Seq<Seq<char>> {
    match found {
        Some(v) => if v.len() > 0 {
            v
        } else {
            likely_names(lowercase(trimmed(query)))
        },
        None => likely_names(lowercase(trimmed(query))),
    }
}

/// The names to resolve for a search: those that a name search found; where it
/// failed or found nothing, names made from the query itself.
pub fn search_names(found: Option<Vec<String>>, query: &str) -> (r: Vec<String>)
    ensures
        r.deep_view() == names_to_resolve(found.deep_view(), query@),
        found is Some && found->0@.len() > 0 ==> r.deep_view() == found->0.deep_view(),
        found is None || found->0@.len() == 0 ==> r.deep_view() == likely_names(
            lowercase(trimmed(query@)),
        ),
{
    match found {
        Some(v) => if v.len() > 0 {
            v
        } else {
            pypi_name_candidates(query)
        },
        None => pypi_name_candidates(query),
    }
}

// --- Laws ------------------------------------------------------------------

/// The last update is the upload time of one of the files, and none of the files
/// has a later one. It is known where any file has a time.
pub proof fn law_last_update_is_the_newest(urls: Seq<PyPiUrl>)
    ensures
        upload_time(urls) is Some <==> upload_times(urls).len() > 0,
        upload_time(urls) matches Some(t) ==> {
            &&& upload_times(urls).contains(t)
            &&& forall|i: int|
                0 <= i < upload_times(urls).len() ==> !comes_after(
                    timestamp_of(#[trigger] upload_times(urls)[i]),
                    timestamp_of(t),
                )
        },
{
    let times = upload_times(urls);
    if times.len() > 0 {
        law_latest_exists(instants(times));
        let at = latest(instants(times));
        assert(times[at] == upload_time(urls)->0);
        assert forall|i: int| 0 <= i < times.len() implies !comes_after(
            timestamp_of(#[trigger] times[i]),
            timestamp_of(times[at]),
        ) by {
            assert(instants(times)[i] == timestamp_of(times[i]));
        }
    }
}

/// The texts that are kept are distinct, and none is empty.
pub proof fn law_distinct_texts(v: Seq<Seq<char>>)
    ensures
        distinct_texts(v).no_duplicates(),
        forall|i: int|
            0 <= i < distinct_texts(v).len() ==> (#[trigger] distinct_texts(v)[i]).len() > 0,
    decreases v.len(),
{
    if v.len() > 0 {
        law_distinct_texts(v.drop_last());
    }
}

/// A query yields at most seven names, all distinct and none empty, and at least
/// one where it is not empty itself.
pub proof fn law_likely_names(q: Seq<char>)
    ensures
        likely_names(q).len() <= 7,
        likely_names(q).no_duplicates(),
        forall|i: int| 0 <= i < likely_names(q).len() ==> (#[trigger] likely_names(q)[i]).len() > 0,
        q.len() > 0 ==> likely_names(q).len() > 0,
{
    let f = name_forms(q);
    law_distinct_texts(f);
    if q.len() > 0 {
        lemma_distinct_not_empty(f, 3);
    }
}

proof fn lemma_distinct_not_empty(v: Seq<Seq<char>>, i: int)
    requires
        0 <= i < v.len(),
        v[i].len() > 0,
    ensures
        distinct_texts(v).len() > 0,
    decreases v.len(),
{
    if i < v.len() - 1 {
        lemma_distinct_not_empty(v.drop_last(), i);
    }
}

} // verus!
