//! Laws of the registries: what is asked of each, and what of its answers goes
//! into a package.

use vstd::prelude::*;
use vstd::utf8::encode_utf8;
use crate::clock::{latest, rfc3339_instant, timestamp_of};
use crate::laws::scoring::law_latest_time;
use crate::laws::texts::{law_behind_prefix, law_strip_end};
use crate::model::{ecosystem_named, Ecosystem, PackageView};
use crate::sources::collect::CollectorView;
use crate::sources::crates_io::{crate_details, crate_package, first_of_each_name, merged};
use crate::sources::crates_io::{RawCrate, RawCrateVersion};
use crate::sources::deps_dev::{
    chosen_version, names_in, project_of, related_id, repository_id, source_link, with_new_names,
    DdLink, DdPackageVersion, DdRelatedProject, DdVersion, DepsDevResult, NameSearchView,
};
use crate::sources::json::{license_text, member_text, JsonValue};
use crate::sources::npm::{engine_version, named_like, npm_details, NpmManifest};
use crate::sources::osv::{
    advisories, advisories_at, bare_version, queries_about, query_about,
};
use crate::sources::pypi::{
    distinct_texts, labelled_repository, likely_names, name_forms, pypi_details, repository_of,
    upload_times, PyPiInfo, PyPiUrl,
};
use crate::sources::url::{pct_byte, pct_encoded};
use crate::text::{
    long_pieces, lowercase, occurs_in, pieces, replaced, same_ignoring_ascii_case, terms, trimmed,
    words, Strip,
};

verus! {

// --- Ecosystems ------------------------------------------------------------

/// Every name and alias stands for its ecosystem, and no other text for any.
pub proof fn law_aliases(s: Seq<char>)
    ensures
        ecosystem_named("rust"@) == Some(Ecosystem::Rust),
        ecosystem_named("rs"@) == Some(Ecosystem::Rust),
        ecosystem_named("cargo"@) == Some(Ecosystem::Rust),
        ecosystem_named("crates"@) == Some(Ecosystem::Rust),
        ecosystem_named("crates.io"@) == Some(Ecosystem::Rust),
        ecosystem_named("npm"@) == Some(Ecosystem::Npm),
        ecosystem_named("js"@) == Some(Ecosystem::Npm),
        ecosystem_named("ts"@) == Some(Ecosystem::Npm),
        ecosystem_named("javascript"@) == Some(Ecosystem::Npm),
        ecosystem_named("typescript"@) == Some(Ecosystem::Npm),
        ecosystem_named("node"@) == Some(Ecosystem::Npm),
        ecosystem_named("nodejs"@) == Some(Ecosystem::Npm),
        ecosystem_named("frontend"@) == Some(Ecosystem::Npm),
        ecosystem_named("web"@) == Some(Ecosystem::Npm),
        ecosystem_named("python"@) == Some(Ecosystem::Python),
        ecosystem_named("py"@) == Some(Ecosystem::Python),
        ecosystem_named("pip"@) == Some(Ecosystem::Python),
        ecosystem_named("pypi"@) == Some(Ecosystem::Python),
        ecosystem_named("go"@) == Some(Ecosystem::Go),
        ecosystem_named("golang"@) == Some(Ecosystem::Go),
        ecosystem_named("maven"@) == Some(Ecosystem::Maven),
        ecosystem_named("java"@) == Some(Ecosystem::Maven),
        ecosystem_named("kotlin"@) == Some(Ecosystem::Maven),
        ecosystem_named("gradle"@) == Some(Ecosystem::Maven),
        ecosystem_named("jvm"@) == Some(Ecosystem::Maven),
        ecosystem_named("nuget"@) == Some(Ecosystem::Nuget),
        ecosystem_named("dotnet"@) == Some(Ecosystem::Nuget),
        ecosystem_named("csharp"@) == Some(Ecosystem::Nuget),
        ecosystem_named("c#"@) == Some(Ecosystem::Nuget),
        ecosystem_named("net"@) == Some(Ecosystem::Nuget),
        ecosystem_named(".net"@) == Some(Ecosystem::Nuget),
        ecosystem_named(s) is Some ==> {
            ||| s == "rust"@
            ||| s == "rs"@
            ||| s == "cargo"@
            ||| s == "crates"@
            ||| s == "crates.io"@
            ||| s == "npm"@
            ||| s == "js"@
            ||| s == "ts"@
            ||| s == "javascript"@
            ||| s == "typescript"@
            ||| s == "node"@
            ||| s == "nodejs"@
            ||| s == "frontend"@
            ||| s == "web"@
            ||| s == "python"@
            ||| s == "py"@
            ||| s == "pip"@
            ||| s == "pypi"@
            ||| s == "go"@
            ||| s == "golang"@
            ||| s == "maven"@
            ||| s == "java"@
            ||| s == "kotlin"@
            ||| s == "gradle"@
            ||| s == "jvm"@
            ||| s == "nuget"@
            ||| s == "dotnet"@
            ||| s == "csharp"@
            ||| s == "c#"@
            ||| s == "net"@
            ||| s == ".net"@
        },
{
    reveal_strlit("rust");
    assert("rust"@.len() == 4 && "rust"@[0] == 'r' && "rust"@[1] == 'u');
    reveal_strlit("rs");
    assert("rs"@.len() == 2 && "rs"@[0] == 'r' && "rs"@[1] == 's');
    reveal_strlit("cargo");
    assert("cargo"@.len() == 5 && "cargo"@[0] == 'c' && "cargo"@[1] == 'a');
    reveal_strlit("crates");
    assert("crates"@.len() == 6 && "crates"@[0] == 'c' && "crates"@[1] == 'r');
    reveal_strlit("crates.io");
    assert("crates.io"@.len() == 9 && "crates.io"@[0] == 'c' && "crates.io"@[1] == 'r');
    reveal_strlit("npm");
    assert("npm"@.len() == 3 && "npm"@[0] == 'n' && "npm"@[1] == 'p');
    reveal_strlit("js");
    assert("js"@.len() == 2 && "js"@[0] == 'j' && "js"@[1] == 's');
    reveal_strlit("ts");
    assert("ts"@.len() == 2 && "ts"@[0] == 't' && "ts"@[1] == 's');
    reveal_strlit("javascript");
    assert("javascript"@.len() == 10 && "javascript"@[0] == 'j' && "javascript"@[1] == 'a');
    reveal_strlit("typescript");
    assert("typescript"@.len() == 10 && "typescript"@[0] == 't' && "typescript"@[1] == 'y');
    reveal_strlit("node");
    assert("node"@.len() == 4 && "node"@[0] == 'n' && "node"@[1] == 'o');
    reveal_strlit("nodejs");
    assert("nodejs"@.len() == 6 && "nodejs"@[0] == 'n' && "nodejs"@[1] == 'o');
    reveal_strlit("frontend");
    assert("frontend"@.len() == 8 && "frontend"@[0] == 'f' && "frontend"@[1] == 'r');
    reveal_strlit("web");
    assert("web"@.len() == 3 && "web"@[0] == 'w' && "web"@[1] == 'e');
    reveal_strlit("python");
    assert("python"@.len() == 6 && "python"@[0] == 'p' && "python"@[1] == 'y');
    reveal_strlit("py");
    assert("py"@.len() == 2 && "py"@[0] == 'p' && "py"@[1] == 'y');
    reveal_strlit("pip");
    assert("pip"@.len() == 3 && "pip"@[0] == 'p' && "pip"@[1] == 'i');
    reveal_strlit("pypi");
    assert("pypi"@.len() == 4 && "pypi"@[0] == 'p' && "pypi"@[1] == 'y');
    reveal_strlit("go");
    assert("go"@.len() == 2 && "go"@[0] == 'g' && "go"@[1] == 'o');
    reveal_strlit("golang");
    assert("golang"@.len() == 6 && "golang"@[0] == 'g' && "golang"@[1] == 'o');
    reveal_strlit("maven");
    assert("maven"@.len() == 5 && "maven"@[0] == 'm' && "maven"@[1] == 'a');
    reveal_strlit("java");
    assert("java"@.len() == 4 && "java"@[0] == 'j' && "java"@[1] == 'a');
    reveal_strlit("kotlin");
    assert("kotlin"@.len() == 6 && "kotlin"@[0] == 'k' && "kotlin"@[1] == 'o');
    reveal_strlit("gradle");
    assert("gradle"@.len() == 6 && "gradle"@[0] == 'g' && "gradle"@[1] == 'r');
    reveal_strlit("jvm");
    assert("jvm"@.len() == 3 && "jvm"@[0] == 'j' && "jvm"@[1] == 'v');
    reveal_strlit("nuget");
    assert("nuget"@.len() == 5 && "nuget"@[0] == 'n' && "nuget"@[1] == 'u');
    reveal_strlit("dotnet");
    assert("dotnet"@.len() == 6 && "dotnet"@[0] == 'd' && "dotnet"@[1] == 'o');
    reveal_strlit("csharp");
    assert("csharp"@.len() == 6 && "csharp"@[0] == 'c' && "csharp"@[1] == 's');
    reveal_strlit("c#");
    assert("c#"@.len() == 2 && "c#"@[0] == 'c' && "c#"@[1] == '#');
    reveal_strlit("net");
    assert("net"@.len() == 3 && "net"@[0] == 'n' && "net"@[1] == 'e');
    reveal_strlit(".net");
    assert(".net"@.len() == 4 && ".net"@[0] == '.' && ".net"@[1] == 'n');
}

// --- crates.io -------------------------------------------------------------

/// A crate's own data are the package's, field by field.
pub proof fn law_crates_are_normalised(c: RawCrate, versions: Seq<RawCrateVersion>)
    ensures
        ({
            let p = crate_package(c);
            &&& p.ecosystem == Ecosystem::Rust
            &&& p.name == c.name@
            &&& p.description == c.description.deep_view()
            &&& p.keywords == if c.keywords is Some {
                c.keywords->0.deep_view()
            } else {
                seq![]
            }
            &&& p.recent_downloads_90d == c.recent_downloads
            &&& p.total_downloads == Some(c.downloads)
            &&& p.updated_at == c.updated_at.deep_view()
            &&& p.latest_version == c.newest_version.deep_view()
            &&& p.stable_version == c.max_stable_version.deep_view()
            &&& p.repository == c.repository.deep_view()
            &&& p.homepage == c.homepage.deep_view()
            &&& p.stars is None && p.license is None && p.deprecated is None
            &&& p.min_runtime is None
        }),
        versions.len() == 0 ==> crate_details(c, versions) == crate_package(c),
        versions.len() > 0 ==> ({
            let p = crate_details(c, versions);
            &&& p.deprecated == Some(versions[0].yanked)
            &&& p.license == versions[0].license.deep_view()
            &&& p.min_runtime == versions[0].rust_version.deep_view()
            &&& c.newest_version is Some ==> p.latest_version == c.newest_version.deep_view()
            &&& c.newest_version is None ==> p.latest_version == Some(versions[0].num@)
            &&& p.updated_at == c.updated_at.deep_view()
            &&& p.stable_version == c.max_stable_version.deep_view()
            &&& p.total_downloads == Some(c.downloads)
            &&& p.recent_downloads_90d == c.recent_downloads
        }),
{
}

/// Going through packages in order, a package stays where no package before it
/// has its name.
pub proof fn law_first_of_each_name(v: Seq<PackageView>, p: PackageView)
    ensures
        first_of_each_name(Seq::empty()) == Seq::<PackageView>::empty(),
        (exists|i: int| 0 <= i < v.len() && (#[trigger] v[i]).name == p.name) ==> first_of_each_name(
            v.push(p),
        ) == first_of_each_name(v),
        (forall|i: int| 0 <= i < v.len() ==> (#[trigger] v[i]).name != p.name)
            ==> first_of_each_name(v.push(p)) == first_of_each_name(v).push(p),
{
    assert(v.push(p).drop_last() =~= v);
    let kept = crate::sources::crates_io::names_of(first_of_each_name(v));
    if exists|i: int| 0 <= i < v.len() && (#[trigger] v[i]).name == p.name {
        let i = choose|i: int| 0 <= i < v.len() && (#[trigger] v[i]).name == p.name;
        crate::sources::crates_io::law_merging_keeps_all_names(v, i);
        assert(kept.contains(p.name));
    } else {
        if kept.contains(p.name) {
            let k = choose|k: int| 0 <= k < kept.len() && kept[k] == p.name;
            assert(v.len() > 0);
            crate::sources::crates_io::law_merging_keeps_all_names(v, 0);
            assert(v.contains(first_of_each_name(v)[k]));
        }
    }
}

/// Two sorted searches are merged, relevance first; one that failed is passed
/// over, and where both did, the first failure is what is left.
pub proof fn law_sorted_searches<E>(a: Seq<PackageView>, b: Seq<PackageView>, e: E, f: E)
    ensures
        merged(Ok::<Seq<PackageView>, E>(a), Ok(b)) == Ok::<Seq<PackageView>, E>(
            first_of_each_name(a + b),
        ),
        merged(Ok(a), Err(f)) == Ok::<Seq<PackageView>, E>(first_of_each_name(a)),
        merged(Err(e), Ok(b)) == Ok::<Seq<PackageView>, E>(first_of_each_name(b)),
        merged(Err::<Seq<PackageView>, E>(e), Err(f)) == Err::<Seq<PackageView>, E>(e),
{
}

// --- npm -------------------------------------------------------------------

/// The hit of a package is the first one with its name, whatever the ASCII case.
pub proof fn law_own_hit(a: Seq<PackageView>, p: PackageView, b: Seq<PackageView>, name: Seq<char>)
    requires
        forall|i: int|
            0 <= i < a.len() ==> !same_ignoring_ascii_case((#[trigger] a[i]).name, name),
    ensures
        named_like(a, name) is None,
        same_ignoring_ascii_case(p.name, name) ==> named_like(a + seq![p] + b, name) == Some(p),
    decreases a.len(),
{
    let v = a + seq![p] + b;
    if a.len() > 0 {
        assert(!same_ignoring_ascii_case(a[0].name, name));
        let rest = a.drop_first();
        assert forall|i: int| 0 <= i < rest.len() implies !same_ignoring_ascii_case(
            (#[trigger] rest[i]).name,
            name,
        ) by {
            assert(!same_ignoring_ascii_case(a[i + 1].name, name));
        }
        law_own_hit(rest, p, b, name);
        assert(v.drop_first() =~= rest + seq![p] + b);
        assert(v[0] == a[0]);
    } else {
        assert(v[0] == p);
    }
}

/// A runtime's version is that of the first entry for it.
pub proof fn law_engine_version(
    a: Seq<(String, String)>,
    x: (String, String),
    b: Seq<(String, String)>,
    runtime: Seq<char>,
)
    requires
        forall|i: int| 0 <= i < a.len() ==> (#[trigger] a[i]).0@ != runtime,
    ensures
        engine_version(a, runtime) is None,
        x.0@ == runtime ==> engine_version(a + seq![x] + b, runtime) == Some(x.1@),
    decreases a.len(),
{
    let v = a + seq![x] + b;
    if a.len() > 0 {
        assert(a[0].0@ != runtime);
        let rest = a.drop_first();
        assert forall|i: int| 0 <= i < rest.len() implies (#[trigger] rest[i]).0@ != runtime by {
            assert(a[i + 1].0@ != runtime);
        }
        law_engine_version(rest, x, b, runtime);
        assert(v.drop_first() =~= rest + seq![x] + b);
        assert(v[0] == a[0]);
    } else {
        assert(v[0] == x);
    }
}

/// A package on npm starts from its search hit, where there is one, and keeps
/// of it what neither the manifest nor the download count says.
pub proof fn law_npm_details(
    name: Seq<char>,
    manifest: Option<NpmManifest>,
    found: Option<Seq<PackageView>>,
    downloads: Option<u64>,
)
    ensures
        ({
            let p = npm_details(name, manifest, found, downloads);
            let hit = if found is Some {
                named_like(found->0, name)
            } else {
                None
            };
            &&& hit is None ==> {
                &&& p.ecosystem == Ecosystem::Npm
                &&& p.name == name
                &&& p.updated_at is None && p.total_downloads is None && p.stars is None
                &&& downloads is None ==> p.recent_downloads_90d is None
                &&& manifest is None ==> p.description is None && p.keywords.len() == 0
                    && p.license is None && p.homepage is None && p.repository is None
                    && p.latest_version is None && p.stable_version is None && p.deprecated is None
                    && p.min_runtime is None
            }
            &&& hit matches Some(h) ==> {
                &&& p.ecosystem == h.ecosystem
                &&& p.name == h.name
                &&& p.updated_at == h.updated_at
                &&& p.total_downloads == h.total_downloads
                &&& p.stars == h.stars
                &&& downloads is None ==> p.recent_downloads_90d == h.recent_downloads_90d
                &&& manifest is None ==> p.description == h.description && p.keywords == h.keywords
                    && p.license == h.license && p.homepage == h.homepage && p.repository
                    == h.repository && p.latest_version == h.latest_version && p.stable_version
                    == h.stable_version && p.deprecated == h.deprecated && p.min_runtime
                    == h.min_runtime
                &&& manifest matches Some(m) ==> {
                    &&& m.description is None ==> p.description == h.description
                    &&& m.keywords@.len() == 0 ==> p.keywords == h.keywords
                    &&& m.homepage is None ==> p.homepage == h.homepage
                    &&& m.repository is None || m.repository->0.url is None ==> p.repository
                        == h.repository
                    &&& m.license is None || license_text(m.license->0) is None ==> p.license
                        == h.license
                }
            }
            &&& downloads matches Some(n) ==> p.recent_downloads_90d == Some(
                if n * 3 <= u64::MAX {
                    (n * 3) as u64
                } else {
                    u64::MAX
                },
            )
            &&& manifest matches Some(m) ==> {
                &&& p.latest_version == m.version.deep_view()
                &&& p.stable_version == m.version.deep_view()
                &&& p.deprecated == Some(m.deprecated is Some && m.deprecated->0 !is Null)
                &&& p.min_runtime == if engine_version(m.engines@, "node"@) is Some {
                    Some("node "@ + engine_version(m.engines@, "node"@)->0)
                } else {
                    None
                }
                &&& m.description is Some ==> p.description == Some(m.description->0@)
                &&& m.keywords@.len() > 0 ==> p.keywords == m.keywords.deep_view()
                &&& m.homepage is Some ==> p.homepage == Some(m.homepage->0@)
                &&& m.repository is Some && m.repository->0.url is Some ==> p.repository == Some(
                    m.repository->0.url->0@,
                )
                &&& m.license is Some && license_text(m.license->0) is Some ==> p.license
                    == license_text(m.license->0)
            }
        }),
{
}

/// A license field names a license where it is a text that is not empty, or an
/// object whose first "type" is a text.
pub proof fn law_license_fields(
    s: String,
    a: Seq<(String, JsonValue)>,
    x: (String, JsonValue),
    b: Seq<(String, JsonValue)>,
    o: Vec<(String, JsonValue)>,
)
    requires
        forall|i: int| 0 <= i < a.len() ==> (#[trigger] a[i]).0@ != "type"@,
    ensures
        license_text(JsonValue::Text(s)) == if s@.len() > 0 {
            Some(s@)
        } else {
            None
        },
        license_text(JsonValue::Null) is None,
        license_text(JsonValue::Other) is None,
        o@ == a ==> license_text(JsonValue::Object(o)) is None,
        o@ == a + seq![x] + b && x.0@ == "type"@ ==> license_text(JsonValue::Object(o))
            == if x.1 is Text {
            Some(x.1->Text_0@)
        } else {
            None
        },
    decreases a.len(),
{
    lemma_first_member(a, x, b, "type"@);
}

proof fn lemma_first_member(
    a: Seq<(String, JsonValue)>,
    x: (String, JsonValue),
    b: Seq<(String, JsonValue)>,
    name: Seq<char>,
)
    requires
        forall|i: int| 0 <= i < a.len() ==> (#[trigger] a[i]).0@ != name,
    ensures
        member_text(a, name) is None,
        x.0@ == name ==> member_text(a + seq![x] + b, name) == if x.1 is Text {
            Some(x.1->Text_0@)
        } else {
            None
        },
    decreases a.len(),
{
    let v = a + seq![x] + b;
    if a.len() > 0 {
        assert(a[0].0@ != name);
        let rest = a.drop_first();
        assert forall|i: int| 0 <= i < rest.len() implies (#[trigger] rest[i]).0@ != name by {
            assert(a[i + 1].0@ != name);
        }
        lemma_first_member(rest, x, b, name);
        assert(v.drop_first() =~= rest + seq![x] + b);
        assert(v[0] == a[0]);
    } else {
        assert(v[0] == x);
    }
}

// --- PyPI ------------------------------------------------------------------

/// The repository of a package is the first address whose label, in lower case,
/// holds one of four words; without such a label it is the home page.
pub proof fn law_repository_label(
    a: Seq<(String, String)>,
    x: (String, String),
    b: Seq<(String, String)>,
    info: PyPiInfo,
)
    requires
        forall|i: int|
            0 <= i < a.len() ==> {
                &&& !occurs_in("source"@, lowercase((#[trigger] a[i]).0@))
                &&& !occurs_in("repository"@, lowercase(a[i].0@))
                &&& !occurs_in("github"@, lowercase(a[i].0@))
                &&& !occurs_in("code"@, lowercase(a[i].0@))
            },
    ensures
        info.project_urls@ == a ==> repository_of(info) == info.home_page.deep_view(),
        info.project_urls@ == a + seq![x] + b && (occurs_in("source"@, lowercase(x.0@))
            || occurs_in("repository"@, lowercase(x.0@)) || occurs_in("github"@, lowercase(x.0@))
            || occurs_in("code"@, lowercase(x.0@))) ==> repository_of(info) == Some(x.1@),
{
    lemma_first_label(a, x, b);
}

proof fn lemma_first_label(
    a: Seq<(String, String)>,
    x: (String, String),
    b: Seq<(String, String)>,
)
    requires
        forall|i: int|
            0 <= i < a.len() ==> !crate::sources::pypi::labels_repository(
                lowercase((#[trigger] a[i]).0@),
            ),
    ensures
        labelled_repository(a) is None,
        crate::sources::pypi::labels_repository(lowercase(x.0@)) ==> labelled_repository(
            a + seq![x] + b,
        ) == Some(x.1@),
    decreases a.len(),
{
    let v = a + seq![x] + b;
    if a.len() > 0 {
        assert(!crate::sources::pypi::labels_repository(lowercase(a[0].0@)));
        let rest = a.drop_first();
        assert forall|i: int| 0 <= i < rest.len() implies !crate::sources::pypi::labels_repository(
            lowercase((#[trigger] rest[i]).0@),
        ) by {
            assert(!crate::sources::pypi::labels_repository(lowercase(a[i + 1].0@)));
        }
        lemma_first_label(rest, x, b);
        assert(v.drop_first() =~= rest + seq![x] + b);
        assert(v[0] == a[0]);
    } else {
        assert(v[0] == x);
    }
}

/// What the metadata say of a package goes into it, field by field; its
/// keywords are the entries of a list.
pub proof fn law_pypi_details(
    name: Seq<char>,
    info: PyPiInfo,
    urls: Seq<PyPiUrl>,
    downloads: Option<u64>,
)
    ensures
        ({
            let p = pypi_details(name, info, urls, downloads);
            &&& p.ecosystem == Ecosystem::Python
            &&& p.name == name
            &&& p.description == info.summary.deep_view()
            &&& info.keywords is None ==> p.keywords.len() == 0
            &&& info.keywords is Some ==> p.keywords == long_pieces(
                pieces(
                    info.keywords->0@,
                    crate::text::commas_and_spaces(info.keywords->0@),
                ),
                1,
            )
            &&& p.latest_version == info.version.deep_view()
            &&& p.stable_version == info.version.deep_view()
            &&& p.repository == repository_of(info)
            &&& p.homepage == info.home_page.deep_view()
            &&& p.min_runtime == if info.requires_python is Some {
                Some("Python "@ + info.requires_python->0@)
            } else {
                None
            }
            &&& p.deprecated == Some(info.yanked)
            &&& p.license == if info.license_expression is Some && info.license_expression->0@.len()
                > 0 {
                Some(info.license_expression->0@)
            } else if info.license is Some && info.license->0@.len() > 0 && encode_utf8(
                info.license->0@,
            ).len() < 80 {
                Some(info.license->0@)
            } else {
                None
            }
            &&& p.recent_downloads_90d == if downloads is Some {
                Some(
                    if downloads->0 * 3 <= u64::MAX {
                        (downloads->0 * 3) as u64
                    } else {
                        u64::MAX
                    },
                )
            } else {
                None
            }
            &&& p.updated_at is Some <==> upload_times(urls).len() > 0
            &&& p.total_downloads is None && p.stars is None
        }),
{
}

/// The upload times are those of the files that have one, in order.
pub proof fn law_upload_times(urls: Seq<PyPiUrl>, u: PyPiUrl)
    ensures
        upload_times(Seq::empty()) == Seq::<Seq<char>>::empty(),
        u.upload_time_iso_8601 is None ==> upload_times(urls.push(u)) == upload_times(urls),
        u.upload_time_iso_8601 matches Some(t) ==> upload_times(urls.push(u)) == upload_times(
            urls,
        ).push(t@),
{
    assert(urls.push(u).drop_last() =~= urls);
}

/// The last update of a package is one of its files' upload times, and no file's
/// time denotes a later moment.
pub proof fn law_last_update(
    name: Seq<char>,
    info: PyPiInfo,
    urls: Seq<PyPiUrl>,
    downloads: Option<u64>,
    i: int,
)
    requires
        0 <= i < upload_times(urls).len(),
    ensures
        ({
            let times = upload_times(urls);
            let p = pypi_details(name, info, urls, downloads);
            &&& p.updated_at is Some && times.contains(p.updated_at->0)
            &&& rfc3339_instant(times[i]) matches Some(t) ==> {
                &&& rfc3339_instant(p.updated_at->0) matches Some(u)
                &&& t.0 * 1_000_000_000 + t.1 <= u.0 * 1_000_000_000 + u.1
            }
        }),
{
    let times = upload_times(urls);
    let instants = crate::sources::pypi::instants(times);
    law_latest_time(instants, i);
    let at = latest(instants);
    assert(instants[i] == timestamp_of(times[i]));
    assert(instants[at] == timestamp_of(times[at]));
}

/// Likely names are the first seven of the query with dashes, with underscores,
/// closed up, as it is, and its words of three characters and more, without
/// empty ones and repetitions.
pub proof fn law_forms_of_a_name(q: Seq<char>, v: Seq<Seq<char>>, x: Seq<char>)
    ensures
        name_forms(q).len() == 4 + words(q, 3).len(),
        name_forms(q)[0] == replaced(q, ' ', seq!['-']),
        name_forms(q)[1] == replaced(q, ' ', seq!['_']),
        name_forms(q)[2] == replaced(q, ' ', Seq::empty()),
        name_forms(q)[3] == q,
        name_forms(q).skip(4) == words(q, 3),
        likely_names(q).is_prefix_of(distinct_texts(name_forms(q))),
        likely_names(q).len() == if distinct_texts(name_forms(q)).len() < 7 {
            distinct_texts(name_forms(q)).len()
        } else {
            7
        },
        distinct_texts(Seq::empty()) == Seq::<Seq<char>>::empty(),
        x.len() == 0 || v.contains(x) ==> distinct_texts(v.push(x)) == distinct_texts(v),
        x.len() > 0 && !v.contains(x) ==> distinct_texts(v.push(x)) == distinct_texts(v).push(x),
{
    reveal_strlit("-");
    reveal_strlit("_");
    reveal_strlit("");
    assert("-"@ =~= seq!['-']);
    assert("_"@ =~= seq!['_']);
    assert(""@ =~= Seq::<char>::empty());
    assert(name_forms(q).skip(4) =~= words(q, 3));
    assert(v.push(x).drop_last() =~= v);
    lemma_distinct_texts_hold(v, x);
}

proof fn lemma_distinct_texts_hold(v: Seq<Seq<char>>, x: Seq<char>)
    ensures
        distinct_texts(v).contains(x) <==> x.len() > 0 && v.contains(x),
    decreases v.len(),
{
    if v.len() > 0 {
        let head = v.drop_last();
        let before = distinct_texts(head);
        lemma_distinct_texts_hold(head, x);
        lemma_distinct_texts_hold(head, v.last());
        assert(v =~= head.push(v.last()));
        if head.contains(x) {
            let i = choose|i: int| 0 <= i < head.len() && head[i] == x;
            assert(v[i] == x);
        }
        assert(v[v.len() - 1] == v.last());
        if before.contains(x) {
            let i = choose|i: int| 0 <= i < before.len() && before[i] == x;
            assert(before.push(v.last())[i] == x);
        }
        assert(before.push(v.last())[before.len() as int] == v.last());
        if v.contains(x) && x != v.last() {
            let i = choose|i: int| 0 <= i < v.len() && v[i] == x;
            assert(head[i] == x);
        }
        if distinct_texts(v).contains(x) && x != v.last() {
            let i = choose|i: int| 0 <= i < distinct_texts(v).len() && distinct_texts(v)[i] == x;
            assert(before[i] == x);
        }
    }
}

// --- deps.dev --------------------------------------------------------------

/// Names are taken over where they belong to the system asked for, in order.
pub proof fn law_names_of_a_system(v: Seq<DepsDevResult>, x: DepsDevResult, system: Seq<char>)
    ensures
        names_in(Seq::empty(), system) == Seq::<Seq<char>>::empty(),
        x.system is Some && x.system->0@ == system ==> names_in(v.push(x), system) == names_in(
            v,
            system,
        ).push(x.name@),
        x.system is None || x.system->0@ != system ==> names_in(v.push(x), system) == names_in(
            v,
            system,
        ),
{
    assert(v.push(x).drop_last() =~= v);
}

/// A further name is added where none that is there equals it in lower case.
pub proof fn law_new_names(names: Seq<Seq<char>>, more: Seq<Seq<char>>, x: Seq<char>)
    ensures
        with_new_names(names, Seq::empty()) == names,
        (exists|i: int|
            0 <= i < with_new_names(names, more).len() && lowercase(
                #[trigger] with_new_names(names, more)[i],
            ) == lowercase(x)) ==> with_new_names(names, more.push(x)) == with_new_names(names, more),
        (forall|i: int|
            0 <= i < with_new_names(names, more).len() ==> lowercase(
                #[trigger] with_new_names(names, more)[i],
            ) != lowercase(x)) ==> with_new_names(names, more.push(x)) == with_new_names(
            names,
            more,
        ).push(x),
{
    assert(more.push(x).drop_last() =~= more);
    let all = with_new_names(names, more);
    let low = crate::sources::deps_dev::all_lower(all);
    if exists|i: int| 0 <= i < all.len() && lowercase(#[trigger] all[i]) == lowercase(x) {
        let i = choose|i: int| 0 <= i < all.len() && lowercase(#[trigger] all[i]) == lowercase(x);
        assert(low[i] == lowercase(x));
    } else if low.contains(lowercase(x)) {
        let i = choose|i: int| 0 <= i < low.len() && low[i] == lowercase(x);
        assert(lowercase(all[i]) == lowercase(x));
    }
}

/// A name search asks for the whole query first; where that was answered and
/// found nothing, for each term of three bytes and more in turn. A failed first
/// request ends it without a result, a failed later one adds nothing.
pub proof fn law_name_search(
    query: Seq<char>,
    s: NameSearchView,
    more: Seq<Seq<char>>,
)
    ensures
        ({
            let start = NameSearchView::start(query);
            &&& start.pending() == Some(query)
            &&& start.terms == terms(query, 3)
            &&& start.names.len() == 0
            &&& start.step(None).pending() is None
            &&& start.step(None).result() is None
            &&& start.step(Some(more)).result() == Some(with_new_names(Seq::empty(), more))
            &&& with_new_names(Seq::empty(), more).len() > 0 ==> start.step(
                Some(more),
            ).pending() is None
            &&& with_new_names(Seq::empty(), more).len() == 0 ==> start.step(Some(more)).pending()
                == if terms(query, 3).len() > 0 {
                Some(terms(query, 3)[0])
            } else {
                None
            }
        }),
        s.asked > 0 && s.pending() is Some ==> {
            &&& s.pending() == Some(s.terms[s.asked - 1])
            &&& s.step(Some(more)).names == with_new_names(s.names, more)
            &&& s.step(None).names == s.names
            &&& s.step(Some(more)).result() is Some <==> s.result() is Some
            &&& s.step(None).result() == s.result()
            &&& s.asked < s.terms.len() ==> s.step(None).pending() == Some(
                s.terms[s.asked as int],
            ) && s.step(Some(more)).pending() == Some(s.terms[s.asked as int])
            &&& s.asked >= s.terms.len() ==> s.step(None).pending() is None && s.step(
                Some(more),
            ).pending() is None
        },
{
}

/// The version to describe is the first default one; without a default the last;
/// there is one unless the list is empty.
pub proof fn law_chosen_version(
    a: Seq<DdPackageVersion>,
    x: DdPackageVersion,
    b: Seq<DdPackageVersion>,
)
    requires
        forall|i: int| 0 <= i < a.len() ==> !(#[trigger] a[i]).is_default,
    ensures
        x.is_default ==> chosen_version(a + seq![x] + b) == Some(x.version_key.version@),
        a.len() > 0 ==> chosen_version(a) == Some(a.last().version_key.version@),
        a.len() == 0 ==> chosen_version(a) is None,
{
    lemma_first_default(a, x, b);
}

proof fn lemma_first_default(
    a: Seq<DdPackageVersion>,
    x: DdPackageVersion,
    b: Seq<DdPackageVersion>,
)
    requires
        forall|i: int| 0 <= i < a.len() ==> !(#[trigger] a[i]).is_default,
    ensures
        crate::sources::deps_dev::default_version(a) is None,
        x.is_default ==> crate::sources::deps_dev::default_version(a + seq![x] + b) == Some(
            x.version_key.version@,
        ),
    decreases a.len(),
{
    let v = a + seq![x] + b;
    if a.len() > 0 {
        assert(!a[0].is_default);
        let rest = a.drop_first();
        assert forall|i: int| 0 <= i < rest.len() implies !(#[trigger] rest[i]).is_default by {
            assert(!a[i + 1].is_default);
        }
        lemma_first_default(rest, x, b);
        assert(v.drop_first() =~= rest + seq![x] + b);
        assert(v[0] == a[0]);
    } else {
        assert(v[0] == x);
    }
}

/// The repository is what the first link labelled as the source leads to.
pub proof fn law_source_link(a: Seq<DdLink>, x: DdLink, b: Seq<DdLink>)
    requires
        forall|i: int|
            0 <= i < a.len() ==> (#[trigger] a[i]).label is None || a[i].label->0@
                != "SOURCE_REPO"@,
    ensures
        source_link(a) is None,
        x.label is Some && x.label->0@ == "SOURCE_REPO"@ ==> source_link(a + seq![x] + b)
            == x.url.deep_view(),
    decreases a.len(),
{
    let v = a + seq![x] + b;
    if a.len() > 0 {
        assert(a[0].label is None || a[0].label->0@ != "SOURCE_REPO"@);
        let rest = a.drop_first();
        assert forall|i: int| 0 <= i < rest.len() implies (#[trigger] rest[i]).label is None
            || rest[i].label->0@ != "SOURCE_REPO"@ by {
            assert(a[i + 1].label is None || a[i + 1].label->0@ != "SOURCE_REPO"@);
        }
        law_source_link(rest, x, b);
        assert(v.drop_first() =~= rest + seq![x] + b);
        assert(v[0] == a[0]);
    } else {
        assert(v[0] == x);
    }
}

/// The project of a version is the first related one with an identifier; without
/// one it is the https address of the source, without slashes at its end.
pub proof fn law_project_of_a_version(
    a: Seq<DdRelatedProject>,
    x: DdRelatedProject,
    b: Seq<DdRelatedProject>,
    v: DdVersion,
)
    requires
        forall|i: int|
            0 <= i < a.len() ==> (#[trigger] a[i]).project_key is None
                || a[i].project_key->0.id is None,
    ensures
        v.related_projects@ == a + seq![x] + b && x.project_key is Some && x.project_key->0.id is Some
            ==> project_of(v) == Some(x.project_key->0.id->0@),
        v.related_projects@ == a ==> project_of(v) == repository_id(source_link(v.links@)),
{
    lemma_first_related(a, x, b);
}

proof fn lemma_first_related(
    a: Seq<DdRelatedProject>,
    x: DdRelatedProject,
    b: Seq<DdRelatedProject>,
)
    requires
        forall|i: int|
            0 <= i < a.len() ==> (#[trigger] a[i]).project_key is None
                || a[i].project_key->0.id is None,
    ensures
        related_id(a) is None,
        x.project_key is Some && x.project_key->0.id is Some ==> related_id(a + seq![x] + b)
            == Some(x.project_key->0.id->0@),
    decreases a.len(),
{
    let v = a + seq![x] + b;
    if a.len() > 0 {
        assert(a[0].project_key is None || a[0].project_key->0.id is None);
        let rest = a.drop_first();
        assert forall|i: int| 0 <= i < rest.len() implies (#[trigger] rest[i]).project_key is None
            || rest[i].project_key->0.id is None by {
            assert(a[i + 1].project_key is None || a[i + 1].project_key->0.id is None);
        }
        lemma_first_related(rest, x, b);
        assert(v.drop_first() =~= rest + seq![x] + b);
        assert(v[0] == a[0]);
    } else {
        assert(v[0] == x);
    }
}

/// An https address stands for the project behind `https://`, whatever slashes
/// end it; any other address for none.
pub proof fn law_project_of_an_address(id: Seq<char>, slashes: Seq<char>, other: Seq<char>)
    requires
        id.len() > 0 ==> id.last() != '/',
        forall|i: int| 0 <= i < slashes.len() ==> #[trigger] slashes[i] == '/',
    ensures
        repository_id(Some("https://"@ + id + slashes)) == Some(id),
        !"https://"@.is_prefix_of(other) ==> repository_id(Some(other)) is None,
        repository_id(None) is None,
{
    let rest = id + slashes;
    let all = "https://"@ + id + slashes;
    assert(all =~= "https://"@ + rest);
    law_behind_prefix("https://"@, rest, all);
    let k = law_strip_end(rest, Strip::Slash);
    if k < id.len() {
        assert(rest[id.len() - 1] == id.last());
    }
    if k > id.len() {
        assert(rest[k - 1] == slashes[k - 1 - id.len()]);
    }
    assert(rest.take(k) =~= id);
}

// --- Collecting ------------------------------------------------------------

/// Names are tried in order, at most three more than the limit, until the limit
/// is reached; a package found is kept where none that is kept has its name in
/// lower case.
pub proof fn law_collecting(
    names: Seq<Seq<char>>,
    limit: nat,
    c: CollectorView,
    p: PackageView,
)
    ensures
        ({
            let start = CollectorView::start(names, limit);
            &&& start.names == names.take(
                if names.len() < limit + 3 {
                    names.len() as int
                } else {
                    limit as int + 3
                },
            )
            &&& start.next == 0
            &&& start.limit == limit
            &&& start.found.len() == 0
        }),
        c.found.len() >= c.limit ==> c.pending() is None,
        c.next >= c.names.len() ==> c.pending() is None,
        c.found.len() < c.limit && c.next < c.names.len() ==> c.pending() == Some(
            c.names[c.next as int],
        ),
        c.step(None) == (CollectorView { next: c.next + 1, ..c }),
        (exists|i: int|
            0 <= i < c.found.len() && lowercase((#[trigger] c.found[i]).name) == lowercase(p.name))
            ==> c.step(Some(p)) == (CollectorView { next: c.next + 1, ..c }),
        (forall|i: int|
            0 <= i < c.found.len() ==> lowercase((#[trigger] c.found[i]).name) != lowercase(p.name))
            ==> c.step(Some(p)) == (CollectorView {
            next: c.next + 1,
            found: c.found.push(p),
            ..c
        }),
{
    if names.len() < limit + 3 {
        assert(names.take(names.len() as int) =~= names);
    } else if names.len() == limit + 3 {
        assert(names.take(limit as int + 3) =~= names);
    }
    let low = crate::sources::collect::lower_names(c.found);
    if exists|i: int|
        0 <= i < c.found.len() && lowercase((#[trigger] c.found[i]).name) == lowercase(p.name) {
        let i = choose|i: int|
            0 <= i < c.found.len() && lowercase((#[trigger] c.found[i]).name) == lowercase(p.name);
        assert(low[i] == lowercase(p.name));
    } else if low.contains(lowercase(p.name)) {
        let i = choose|i: int| 0 <= i < low.len() && low[i] == lowercase(p.name);
        assert(lowercase(c.found[i].name) == lowercase(p.name));
    }
}

// --- OSV -------------------------------------------------------------------

/// A query names the package and the version without the "v" in front, under
/// OSV's name of the ecosystem.
pub proof fn law_osv_query(eco: Ecosystem, name: Seq<char>, version: Seq<char>)
    ensures
        query_about(eco, name, version).name == name,
        query_about(eco, name, version).version == bare_version(version),
        eco == Ecosystem::Rust ==> query_about(eco, name, version).ecosystem == "crates.io"@,
        eco == Ecosystem::Npm ==> query_about(eco, name, version).ecosystem == "npm"@,
        eco == Ecosystem::Python ==> query_about(eco, name, version).ecosystem == "PyPI"@,
        eco == Ecosystem::Go ==> query_about(eco, name, version).ecosystem == "Go"@,
        eco == Ecosystem::Maven ==> query_about(eco, name, version).ecosystem == "Maven"@,
        eco == Ecosystem::Nuget ==> query_about(eco, name, version).ecosystem == "NuGet"@,
        exists|k: int|
            0 <= k <= trimmed(version).len() && bare_version(version) == #[trigger] trimmed(
                version,
            ).skip(k) && (forall|i: int| 0 <= i < k ==> #[trigger] trimmed(version)[i] == 'v') && (k
                < trimmed(version).len() ==> trimmed(version)[k] != 'v'),
{
    let k = crate::laws::texts::law_strip_start(trimmed(version), Strip::LowerV);
    assert(bare_version(version) == trimmed(version).skip(k));
    assert forall|i: int| 0 <= i < k implies #[trigger] trimmed(version)[i] == 'v' by {
        assert(Strip::LowerV.spec_has(trimmed(version)[i]));
    }
}

/// Every package with a version, stable or else latest, is asked about, in
/// order; the advisories that a further package gets are those at the place of
/// its query, and none where it has no version.
pub proof fn law_queries_and_answers(
    v: Seq<PackageView>,
    p: PackageView,
    ids: Seq<Seq<Seq<char>>>,
)
    ensures
        queries_about(Seq::empty()).len() == 0,
        p.stable_version matches Some(s) ==> queries_about(v.push(p)) == queries_about(v).push(
            query_about(p.ecosystem, p.name, s),
        ),
        p.stable_version is None && p.latest_version is Some ==> queries_about(v.push(p))
            == queries_about(v).push(query_about(p.ecosystem, p.name, p.latest_version->0)),
        p.stable_version is None && p.latest_version is None ==> queries_about(v.push(p))
            == queries_about(v),
        advisories(v.push(p), ids).len() == v.len() + 1,
        advisories(v.push(p), ids).drop_last() == advisories(v, ids),
        (p.stable_version is Some || p.latest_version is Some) && queries_about(v).len() < ids.len()
            ==> advisories(v.push(p), ids).last() == ids[queries_about(v).len() as int],
        p.stable_version is None && p.latest_version is None ==> advisories(
            v.push(p),
            ids,
        ).last().len() == 0,
{
    assert(v.push(p).drop_last() =~= v);
    assert(v.push(p).take(v.len() as int) =~= v);
    assert forall|i: int| 0 <= i < v.len() implies #[trigger] advisories_at(v.push(p), ids, i)
        == advisories_at(v, ids, i) by {
        assert(v.push(p).take(i) =~= v.take(i));
    }
    assert(advisories(v.push(p), ids).drop_last() =~= advisories(v, ids));
}

// --- URLs ------------------------------------------------------------------

/// Text is encoded byte by byte: letters, digits and `-._~` stand for
/// themselves, any other byte is written as a percent sign and two hexadecimal
/// digits.
pub proof fn law_percent_encoding(a: Seq<u8>, b: Seq<u8>, x: u8)
    ensures
        pct_encoded(Seq::empty()) == Seq::<char>::empty(),
        pct_encoded(a + b) == pct_encoded(a) + pct_encoded(b),
        ('A' as u8 <= x <= 'Z' as u8 || 'a' as u8 <= x <= 'z' as u8 || '0' as u8 <= x <= '9' as u8
            || x == '-' as u8 || x == '.' as u8 || x == '_' as u8 || x == '~' as u8)
            ==> pct_encoded(seq![x]) == seq![x as char],
        !('A' as u8 <= x <= 'Z' as u8 || 'a' as u8 <= x <= 'z' as u8 || '0' as u8 <= x <= '9' as u8
            || x == '-' as u8 || x == '.' as u8 || x == '_' as u8 || x == '~' as u8)
            ==> {
            &&& pct_encoded(seq![x]).len() == 3
            &&& pct_encoded(seq![x])[0] == '%'
            &&& "0123456789ABCDEF"@[x as int / 16] == pct_encoded(seq![x])[1]
            &&& "0123456789ABCDEF"@[x as int % 16] == pct_encoded(seq![x])[2]
        },
    decreases a.len(),
{
    assert(seq![x].drop_first() =~= Seq::<u8>::empty());
    assert(pct_encoded(Seq::<u8>::empty()) == Seq::<char>::empty());
    assert(pct_encoded(seq![x]) =~= pct_byte(x));
    lemma_hex_digits(x as int / 16);
    lemma_hex_digits(x as int % 16);
    if a.len() == 0 {
        assert(a + b =~= b);
        assert(pct_encoded(a) + pct_encoded(b) =~= pct_encoded(b));
    } else {
        law_percent_encoding(a.drop_first(), b, x);
        assert((a + b).drop_first() =~= a.drop_first() + b);
        assert(pct_encoded(a + b) =~= pct_encoded(a) + pct_encoded(b));
    }
}

proof fn lemma_hex_digits(n: int)
    requires
        0 <= n < 16,
    ensures
        "0123456789ABCDEF"@[n] == crate::sources::url::hex_digit(n),
{
    reveal_strlit("0123456789ABCDEF");
    let d = "0123456789ABCDEF"@;
    assert(d[0] == '0' && d[1] == '1' && d[2] == '2' && d[3] == '3' && d[4] == '4' && d[5] == '5'
        && d[6] == '6' && d[7] == '7' && d[8] == '8' && d[9] == '9' && d[10] == 'A' && d[11] == 'B'
        && d[12] == 'C' && d[13] == 'D' && d[14] == 'E' && d[15] == 'F');
}

} // verus!
