//! Ecosystem-agnostic package model.
//!
//! Every registry (crates.io, npm, PyPI, …) is normalised into a [`Package`] so
//! the scoring and ranking logic is written once and shared across languages.

use vstd::prelude::*;
use crate::text::{cat, cat3, first_colon_as_slash, same_text, slash_for_first_colon};

verus! {

/// Supported package ecosystems.
#[derive(Debug, Clone, Copy, PartialEq, Eq, Structural)]
pub enum Ecosystem {
    /// Rust — crates.io.
    Rust,
    /// JavaScript / TypeScript / frontend — npm.
    Npm,
    /// Python — PyPI.
    Python,
    /// Go — pkg.go.dev / Go module proxy.
    Go,
    /// Java / Kotlin / JVM — Maven Central.
    Maven,
    /// .NET / C# — NuGet.
    Nuget,
}

/// The ecosystem that a name or an alias stands for.
pub open spec fn ecosystem_named(s: Seq<char>) -> Option<Ecosystem> {
    if s == "rust"@ || s == "rs"@ || s == "cargo"@ || s == "crates"@ || s == "crates.io"@ {
        Some(Ecosystem::Rust)
    } else if s == "npm"@ || s == "js"@ || s == "ts"@ || s == "javascript"@ || s == "typescript"@
        || s == "node"@ || s == "nodejs"@ || s == "frontend"@ || s == "web"@ {
        Some(Ecosystem::Npm)
    } else if s == "python"@ || s == "py"@ || s == "pip"@ || s == "pypi"@ {
        Some(Ecosystem::Python)
    } else if s == "go"@ || s == "golang"@ {
        Some(Ecosystem::Go)
    } else if s == "maven"@ || s == "java"@ || s == "kotlin"@ || s == "gradle"@ || s == "jvm"@ {
        Some(Ecosystem::Maven)
    } else if s == "nuget"@ || s == "dotnet"@ || s == "csharp"@ || s == "c#"@ || s == "net"@ || s
        == ".net"@ {
        Some(Ecosystem::Nuget)
    } else {
        None
    }
}

impl Ecosystem {
    /// The ecosystem that a name or an alias (such as "js", "py", "dotnet")
    /// stands for.
    pub fn from_name(s: &str) -> (r: Option<Ecosystem>)
        ensures
            r == ecosystem_named(s@),
    {
        if same_text(s, "rust") || same_text(s, "rs") || same_text(s, "cargo") || same_text(
            s,
            "crates",
        ) || same_text(s, "crates.io") {
            Some(Ecosystem::Rust)
        } else if same_text(s, "npm") || same_text(s, "js") || same_text(s, "ts") || same_text(
            s,
            "javascript",
        ) || same_text(s, "typescript") || same_text(s, "node") || same_text(s, "nodejs")
            || same_text(s, "frontend") || same_text(s, "web") {
            Some(Ecosystem::Npm)
        } else if same_text(s, "python") || same_text(s, "py") || same_text(s, "pip") || same_text(
            s,
            "pypi",
        ) {
            Some(Ecosystem::Python)
        } else if same_text(s, "go") || same_text(s, "golang") {
            Some(Ecosystem::Go)
        } else if same_text(s, "maven") || same_text(s, "java") || same_text(s, "kotlin")
            || same_text(s, "gradle") || same_text(s, "jvm") {
            Some(Ecosystem::Maven)
        } else if same_text(s, "nuget") || same_text(s, "dotnet") || same_text(s, "csharp")
            || same_text(s, "c#") || same_text(s, "net") || same_text(s, ".net") {
            Some(Ecosystem::Nuget)
        } else {
            None
        }
    }

    pub open spec fn spec_label(self) -> Seq<char> {
        match self {
            Ecosystem::Rust => "Rust · crates.io"@,
            Ecosystem::Npm => "JS/TS · npm"@,
            Ecosystem::Python => "Python · PyPI"@,
            Ecosystem::Go => "Go · pkg.go.dev"@,
            Ecosystem::Maven => "Java/Kotlin · Maven"@,
            Ecosystem::Nuget => "·NET · NuGet"@,
        }
    }

    /// The language and registry, for people to read.
    pub fn label(&self) -> (r: &'static str)
        ensures
            r@ == self.spec_label(),
            *self == Ecosystem::Rust ==> r@ == "Rust · crates.io"@,
            *self == Ecosystem::Npm ==> r@ == "JS/TS · npm"@,
            *self == Ecosystem::Python ==> r@ == "Python · PyPI"@,
            *self == Ecosystem::Go ==> r@ == "Go · pkg.go.dev"@,
            *self == Ecosystem::Maven ==> r@ == "Java/Kotlin · Maven"@,
            *self == Ecosystem::Nuget ==> r@ == "·NET · NuGet"@,
    {
        match self {
            Ecosystem::Rust => "Rust · crates.io",
            Ecosystem::Npm => "JS/TS · npm",
            Ecosystem::Python => "Python · PyPI",
            Ecosystem::Go => "Go · pkg.go.dev",
            Ecosystem::Maven => "Java/Kotlin · Maven",
            Ecosystem::Nuget => "·NET · NuGet",
        }
    }

    pub open spec fn spec_page_url(self, name: Seq<char>) -> Seq<char> {
        match self {
            Ecosystem::Rust => "https://crates.io/crates/"@ + name,
            Ecosystem::Npm => "https://www.npmjs.com/package/"@ + name,
            Ecosystem::Python => "https://pypi.org/project/"@ + name + "/"@,
            Ecosystem::Go => "https://pkg.go.dev/"@ + name,
            Ecosystem::Maven => "https://central.sonatype.com/artifact/"@ + first_colon_as_slash(
                name,
            ),
            Ecosystem::Nuget => "https://www.nuget.org/packages/"@ + name,
        }
    }

    /// The registry's page for a package.
    pub fn page_url(&self, name: &str) -> (r: String)
        ensures
            r@ == self.spec_page_url(name@),
            *self == Ecosystem::Rust ==> r@ == "https://crates.io/crates/"@ + name@,
            *self == Ecosystem::Npm ==> r@ == "https://www.npmjs.com/package/"@ + name@,
            *self == Ecosystem::Python ==> r@ == "https://pypi.org/project/"@ + name@ + "/"@,
            *self == Ecosystem::Go ==> r@ == "https://pkg.go.dev/"@ + name@,
            *self == Ecosystem::Maven ==> r@ == "https://central.sonatype.com/artifact/"@
                + first_colon_as_slash(name@),
            *self == Ecosystem::Nuget ==> r@ == "https://www.nuget.org/packages/"@ + name@,
    {
        match self {
            Ecosystem::Rust => cat("https://crates.io/crates/", name),
            Ecosystem::Npm => cat("https://www.npmjs.com/package/", name),
            Ecosystem::Python => cat3("https://pypi.org/project/", name, "/"),
            Ecosystem::Go => cat("https://pkg.go.dev/", name),
            // Maven names are "group:artifact"; the site path uses a slash.
            Ecosystem::Maven => cat(
                "https://central.sonatype.com/artifact/",
                &slash_for_first_colon(name),
            ),
            Ecosystem::Nuget => cat("https://www.nuget.org/packages/", name),
        }
    }

    pub open spec fn spec_docs_url(self, name: Seq<char>) -> Option<Seq<char>> {
        match self {
            Ecosystem::Rust => Some("https://docs.rs/"@ + name),
            Ecosystem::Go => Some("https://pkg.go.dev/"@ + name),
            _ => None,
        }
    }

    /// The page with a package's documentation, where the ecosystem has one.
    pub fn docs_url(&self, name: &str) -> (r: Option<String>)
        ensures
            r.deep_view() == self.spec_docs_url(name@),
            *self == Ecosystem::Rust ==> r.deep_view() == Some("https://docs.rs/"@ + name@),
            *self == Ecosystem::Go ==> r.deep_view() == Some("https://pkg.go.dev/"@ + name@),
            *self != Ecosystem::Rust && *self != Ecosystem::Go ==> r is None,
    {
        match self {
            Ecosystem::Rust => Some(cat("https://docs.rs/", name)),
            Ecosystem::Go => Some(cat("https://pkg.go.dev/", name)),
            _ => None,
        }
    }

    pub open spec fn spec_install_hint(self, name: Seq<char>) -> Seq<char> {
        match self {
            Ecosystem::Rust => "cargo add "@ + name,
            Ecosystem::Npm => "npm install "@ + name,
            Ecosystem::Python => "pip install "@ + name,
            Ecosystem::Go => "go get "@ + name,
            Ecosystem::Maven => "加入 Maven/Gradle 依赖: "@ + name,
            Ecosystem::Nuget => "dotnet add package "@ + name,
        }
    }

    /// How a package is added to a project.
    pub fn install_hint(&self, name: &str) -> (r: String)
        ensures
            r@ == self.spec_install_hint(name@),
            *self == Ecosystem::Rust ==> r@ == "cargo add "@ + name@,
            *self == Ecosystem::Npm ==> r@ == "npm install "@ + name@,
            *self == Ecosystem::Python ==> r@ == "pip install "@ + name@,
            *self == Ecosystem::Go ==> r@ == "go get "@ + name@,
            *self == Ecosystem::Maven ==> r@ == "加入 Maven/Gradle 依赖: "@ + name@,
            *self == Ecosystem::Nuget ==> r@ == "dotnet add package "@ + name@,
    {
        match self {
            Ecosystem::Rust => cat("cargo add ", name),
            Ecosystem::Npm => cat("npm install ", name),
            Ecosystem::Python => cat("pip install ", name),
            Ecosystem::Go => cat("go get ", name),
            Ecosystem::Maven => cat("加入 Maven/Gradle 依赖: ", name),
            Ecosystem::Nuget => cat("dotnet add package ", name),
        }
    }

    pub open spec fn spec_deprecation_term(self) -> Seq<char> {
        match self {
            Ecosystem::Rust => "yank（撤回）"@,
            Ecosystem::Npm => "deprecated（弃用）"@,
            Ecosystem::Python => "yank（撤回）"@,
            Ecosystem::Go => "deprecated（弃用）"@,
            Ecosystem::Maven => "deprecated（弃用）"@,
            Ecosystem::Nuget => "deprecated/unlisted（弃用）"@,
        }
    }

    /// What a deprecated/withdrawn latest release is called in this ecosystem.
    pub fn deprecation_term(&self) -> (r: &'static str)
        ensures
            r@ == self.spec_deprecation_term(),
            *self == Ecosystem::Rust ==> r@ == "yank（撤回）"@,
            *self == Ecosystem::Npm ==> r@ == "deprecated（弃用）"@,
            *self == Ecosystem::Python ==> r@ == "yank（撤回）"@,
            *self == Ecosystem::Go ==> r@ == "deprecated（弃用）"@,
            *self == Ecosystem::Maven ==> r@ == "deprecated（弃用）"@,
            *self == Ecosystem::Nuget ==> r@ == "deprecated/unlisted（弃用）"@,
    {
        match self {
            Ecosystem::Rust => "yank（撤回）",
            Ecosystem::Npm => "deprecated（弃用）",
            Ecosystem::Python => "yank（撤回）",
            Ecosystem::Go => "deprecated（弃用）",
            Ecosystem::Maven => "deprecated（弃用）",
            Ecosystem::Nuget => "deprecated/unlisted（弃用）",
        }
    }

    pub open spec fn spec_osv_name(self) -> Seq<char> {
        match self {
            Ecosystem::Rust => "crates.io"@,
            Ecosystem::Npm => "npm"@,
            Ecosystem::Python => "PyPI"@,
            Ecosystem::Go => "Go"@,
            Ecosystem::Maven => "Maven"@,
            Ecosystem::Nuget => "NuGet"@,
        }
    }

    /// The ecosystem's name in the OSV advisory database.
    pub fn osv_name(&self) -> (r: &'static str)
        ensures
            r@ == self.spec_osv_name(),
            *self == Ecosystem::Rust ==> r@ == "crates.io"@,
            *self == Ecosystem::Npm ==> r@ == "npm"@,
            *self == Ecosystem::Python ==> r@ == "PyPI"@,
            *self == Ecosystem::Go ==> r@ == "Go"@,
            *self == Ecosystem::Maven ==> r@ == "Maven"@,
            *self == Ecosystem::Nuget ==> r@ == "NuGet"@,
    {
        match self {
            Ecosystem::Rust => "crates.io",
            Ecosystem::Npm => "npm",
            Ecosystem::Python => "PyPI",
            Ecosystem::Go => "Go",
            Ecosystem::Maven => "Maven",
            Ecosystem::Nuget => "NuGet",
        }
    }
}

/// Normalised facts about a single package, across any ecosystem.
#[derive(Debug, Clone)]
pub struct Package {
    pub ecosystem: Ecosystem,
    pub name: String,
    pub description: Option<String>,
    pub keywords: Vec<String>,
    /// Downloads normalised to a ~90-day window for cross-registry comparison.
    pub recent_downloads_90d: Option<u64>,
    pub total_downloads: Option<u64>,
    /// GitHub stars — a popularity proxy for ecosystems without download stats
    /// (Go, Maven).
    pub stars: Option<u64>,
    /// Last-update timestamp, RFC3339 if available.
    pub updated_at: Option<String>,
    pub latest_version: Option<String>,
    pub stable_version: Option<String>,
    pub repository: Option<String>,
    pub homepage: Option<String>,
    pub license: Option<String>,
    pub deprecated: Option<bool>,
    /// MSRV (Rust), engines.node (npm), or requires_python (PyPI).
    pub min_runtime: Option<String>,
}

/// A [`Package`] with its texts as sequences of characters.
#[verifier::ext_equal]
pub struct PackageView {
    pub ecosystem: Ecosystem,
    pub name: Seq<char>,
    pub description: Option<Seq<char>>,
    pub keywords: Seq<Seq<char>>,
    pub recent_downloads_90d: Option<u64>,
    pub total_downloads: Option<u64>,
    pub stars: Option<u64>,
    pub updated_at: Option<Seq<char>>,
    pub latest_version: Option<Seq<char>>,
    pub stable_version: Option<Seq<char>>,
    pub repository: Option<Seq<char>>,
    pub homepage: Option<Seq<char>>,
    pub license: Option<Seq<char>>,
    pub deprecated: Option<bool>,
    pub min_runtime: Option<Seq<char>>,
}

impl View for Package {
    type V = PackageView;

    open spec fn view(&self) -> PackageView {
        PackageView {
            ecosystem: self.ecosystem,
            name: self.name@,
            description: self.description.deep_view(),
            keywords: self.keywords.deep_view(),
            recent_downloads_90d: self.recent_downloads_90d,
            total_downloads: self.total_downloads,
            stars: self.stars,
            updated_at: self.updated_at.deep_view(),
            latest_version: self.latest_version.deep_view(),
            stable_version: self.stable_version.deep_view(),
            repository: self.repository.deep_view(),
            homepage: self.homepage.deep_view(),
            license: self.license.deep_view(),
            deprecated: self.deprecated,
            min_runtime: self.min_runtime.deep_view(),
        }
    }
}

impl DeepView for Package {
    type V = PackageView;

    open spec fn deep_view(&self) -> PackageView {
        self.view()
    }
}

impl PackageView {
    /// A package of which nothing but its ecosystem and name is known.
    pub open spec fn bare(ecosystem: Ecosystem, name: Seq<char>) -> PackageView {
        PackageView {
            ecosystem,
            name,
            description: None,
            keywords: Seq::empty(),
            recent_downloads_90d: None,
            total_downloads: None,
            stars: None,
            updated_at: None,
            latest_version: None,
            stable_version: None,
            repository: None,
            homepage: None,
            license: None,
            deprecated: None,
            min_runtime: None,
        }
    }

    /// The version that stands for the package: the stable one, else the latest.
    pub open spec fn resolved_version(self) -> Option<Seq<char>> {
        match self.stable_version {
            Some(v) => Some(v),
            None => self.latest_version,
        }
    }

    pub open spec fn display_version(self) -> Seq<char> {
        match self.resolved_version() {
            Some(v) => v,
            None => "?"@,
        }
    }
}

impl Package {
    /// A package of which nothing but its ecosystem and name is known.
    pub fn new(ecosystem: Ecosystem, name: String) -> (r: Self)
        ensures
            r@ == PackageView::bare(ecosystem, name@),
            r.ecosystem == ecosystem,
            r.name@ == name@,
            r.keywords.len() == 0,
            r.description is None && r.recent_downloads_90d is None && r.total_downloads is None
                && r.stars is None && r.updated_at is None,
            r.latest_version is None && r.stable_version is None && r.repository is None
                && r.homepage is None,
            r.license is None && r.deprecated is None && r.min_runtime is None,
    {
        let r = Package {
            ecosystem,
            name,
            description: None,
            keywords: Vec::new(),
            recent_downloads_90d: None,
            total_downloads: None,
            stars: None,
            updated_at: None,
            latest_version: None,
            stable_version: None,
            repository: None,
            homepage: None,
            license: None,
            deprecated: None,
            min_runtime: None,
        };
        r
    }

    /// The version that stands for the package, if one is known: the stable
    /// one, else the latest.
    pub fn resolved_version(&self) -> (r: Option<&str>)
        ensures
            (match r {
                Some(v) => Some(v@),
                None => None,
            }) == self@.resolved_version(),
            self.stable_version matches Some(v) ==> (r matches Some(t) && t@ == v@),
            self.stable_version is None ==> match self.latest_version {
                Some(v) => r matches Some(t) && t@ == v@,
                None => r is None,
            },
    {
        match &self.stable_version {
            Some(v) => Some(v.as_str()),
            None => match &self.latest_version {
                Some(v) => Some(v.as_str()),
                None => None,
            },
        }
    }

    /// The version to show: the stable one, else the latest, else "?".
    pub fn display_version(&self) -> (r: &str)
        ensures
            r@ == self@.display_version(),
            self.stable_version matches Some(v) ==> r@ == v@,
            self.stable_version is None && self.latest_version is Some ==> r@
                == self.latest_version->0@,
            self.stable_version is None && self.latest_version is None ==> r@ == "?"@,
    {
        match self.resolved_version() {
            Some(v) => v,
            None => "?",
        }
    }
}

/// The result of scoring a package for reuse suitability.
#[derive(Debug, Clone)]
pub struct Quality {
    pub score: u32,
    pub verdict: &'static str,
    pub signals: Vec<String>,
    pub warnings: Vec<String>,
}

/// A [`Quality`] with its texts as sequences of characters.
#[verifier::ext_equal]
pub struct QualityView {
    pub score: int,
    pub verdict: Seq<char>,
    pub signals: Seq<Seq<char>>,
    pub warnings: Seq<Seq<char>>,
}

impl View for Quality {
    type V = QualityView;

    open spec fn view(&self) -> QualityView {
        QualityView {
            score: self.score as int,
            verdict: self.verdict@,
            signals: self.signals.deep_view(),
            warnings: self.warnings.deep_view(),
        }
    }
}

impl DeepView for Quality {
    type V = QualityView;

    open spec fn deep_view(&self) -> QualityView {
        self.view()
    }
}

/// A known security advisory that affects a package version.
#[derive(Debug, Clone)]
pub struct Vuln {
    pub id: String,
    pub summary: Option<String>,
    pub severity: Option<String>,
}

/// A [`Vuln`] with its texts as sequences of characters.
#[verifier::ext_equal]
pub struct VulnView {
    pub id: Seq<char>,
    pub summary: Option<Seq<char>>,
    pub severity: Option<Seq<char>>,
}

impl View for Vuln {
    type V = VulnView;

    open spec fn view(&self) -> VulnView {
        VulnView {
            id: self.id@,
            summary: self.summary.deep_view(),
            severity: self.severity.deep_view(),
        }
    }
}

impl DeepView for Vuln {
    type V = VulnView;

    open spec fn deep_view(&self) -> VulnView {
        self.view()
    }
}

} // verus!
