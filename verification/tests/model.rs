use dep_scout::model::{Ecosystem, Package};

const ALL: [Ecosystem; 6] = [
    Ecosystem::Rust,
    Ecosystem::Npm,
    Ecosystem::Python,
    Ecosystem::Go,
    Ecosystem::Maven,
    Ecosystem::Nuget,
];

#[test]
fn every_alias_names_its_ecosystem() {
    let aliases: Vec<(&str, Ecosystem)> = vec![
        ("rust", Ecosystem::Rust),
        ("rs", Ecosystem::Rust),
        ("cargo", Ecosystem::Rust),
        ("npm", Ecosystem::Npm),
        ("js", Ecosystem::Npm),
        ("ts", Ecosystem::Npm),
        ("javascript", Ecosystem::Npm),
        ("typescript", Ecosystem::Npm),
        ("node", Ecosystem::Npm),
        ("frontend", Ecosystem::Npm),
        ("python", Ecosystem::Python),
        ("py", Ecosystem::Python),
        ("pip", Ecosystem::Python),
        ("go", Ecosystem::Go),
        ("golang", Ecosystem::Go),
        ("maven", Ecosystem::Maven),
        ("java", Ecosystem::Maven),
        ("kotlin", Ecosystem::Maven),
        ("gradle", Ecosystem::Maven),
        ("jvm", Ecosystem::Maven),
        ("nuget", Ecosystem::Nuget),
        ("dotnet", Ecosystem::Nuget),
        ("csharp", Ecosystem::Nuget),
        ("net", Ecosystem::Nuget),
    ];
    for (name, eco) in aliases {
        assert_eq!(Ecosystem::from_name(name), Some(eco), "{name}");
    }
}

#[test]
fn unknown_ecosystems_are_refused() {
    for name in ["", "Rust", "rust ", "ruby", "php"] {
        assert_eq!(Ecosystem::from_name(name), None, "{name:?}");
    }
}

#[test]
fn labels_name_language_and_registry() {
    let labels: Vec<&str> = ALL.iter().map(|e| e.label()).collect();
    assert_eq!(
        labels,
        vec![
            "Rust · crates.io",
            "JS/TS · npm",
            "Python · PyPI",
            "Go · pkg.go.dev",
            "Java/Kotlin · Maven",
            "·NET · NuGet",
        ]
    );
}

#[test]
fn page_urls_lead_to_the_registry() {
    let urls: Vec<String> = ALL.iter().map(|e| e.page_url("a:b:c")).collect();
    assert_eq!(
        urls,
        vec![
            "https://crates.io/crates/a:b:c",
            "https://www.npmjs.com/package/a:b:c",
            "https://pypi.org/project/a:b:c/",
            "https://pkg.go.dev/a:b:c",
            // Only the colon between group and artifact becomes a slash.
            "https://central.sonatype.com/artifact/a/b:c",
            "https://www.nuget.org/packages/a:b:c",
        ]
    );
}

#[test]
fn docs_urls_exist_for_rust_and_go() {
    let urls: Vec<Option<String>> = ALL.iter().map(|e| e.docs_url("x")).collect();
    assert_eq!(
        urls,
        vec![
            Some("https://docs.rs/x".to_string()),
            None,
            None,
            Some("https://pkg.go.dev/x".to_string()),
            None,
            None,
        ]
    );
}

#[test]
fn install_hints_and_terms() {
    let hints: Vec<String> = ALL.iter().map(|e| e.install_hint("x")).collect();
    assert_eq!(
        hints,
        vec![
            "cargo add x",
            "npm install x",
            "pip install x",
            "go get x",
            "加入 Maven/Gradle 依赖: x",
            "dotnet add package x",
        ]
    );
    assert_eq!(Ecosystem::Rust.deprecation_term(), "yank（撤回）");
    assert_eq!(Ecosystem::Npm.deprecation_term(), "deprecated（弃用）");
    assert_eq!(Ecosystem::Nuget.deprecation_term(), "deprecated/unlisted（弃用）");
}

#[test]
fn osv_names() {
    let names: Vec<&str> = ALL.iter().map(|e| e.osv_name()).collect();
    assert_eq!(names, vec!["crates.io", "npm", "PyPI", "Go", "Maven", "NuGet"]);
}

#[test]
fn stable_versions_are_shown_first() {
    let mut p = Package::new(Ecosystem::Rust, "x".to_string());
    assert_eq!(p.display_version(), "?");
    assert_eq!(p.resolved_version(), None);
    p.latest_version = Some("2.0.0-rc.1".to_string());
    assert_eq!(p.display_version(), "2.0.0-rc.1");
    p.stable_version = Some("1.4.2".to_string());
    assert_eq!(p.display_version(), "1.4.2");
    assert_eq!(p.resolved_version(), Some("1.4.2"));
}

#[test]
fn new_packages_are_bare() {
    let p = Package::new(Ecosystem::Go, "m".to_string());
    assert_eq!(p.ecosystem, Ecosystem::Go);
    assert_eq!(p.name, "m");
    assert!(p.keywords.is_empty() && p.deprecated.is_none() && p.stars.is_none());
    assert!(p.license.is_none() && p.homepage.is_none() && p.min_runtime.is_none());
}
