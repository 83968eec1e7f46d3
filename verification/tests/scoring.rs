use dep_scout::clock::{days_between, latest_at, whole_months, Timestamp};
use dep_scout::model::{Ecosystem, Package};
use dep_scout::score::{
    assess_aged, assess_at, license_is_restricted, major_of, names_restricted, score, score_aged,
    score_at,
};

fn package() -> Package {
    let mut p = Package::new(Ecosystem::Npm, "x".to_string());
    p.recent_downloads_90d = Some(5_000_000);
    p.stable_version = Some("2.1.0".to_string());
    p.latest_version = Some("2.1.0".to_string());
    p.repository = Some("r".to_string());
    p.homepage = Some("h".to_string());
    p.license = Some("MIT".to_string());
    p
}

fn ids(v: &[&str]) -> Vec<String> {
    v.iter().map(|s| s.to_string()).collect()
}

#[test]
fn a_perfect_package_scores_100() {
    let q = score_aged(&package(), Some(10));
    assert_eq!(q.score, 100);
    assert_eq!(q.verdict, "✅ 强烈推荐复用");
    assert_eq!(
        q.signals,
        vec![
            "人气高（近90天约 5,000,000 次下载）",
            "维护活跃（近 3 个月内有更新）",
            "已发布稳定版 v2.x",
        ]
    );
    assert_eq!(q.warnings, Vec::<String>::new());
}

#[test]
fn a_bare_package() {
    let p = Package::new(Ecosystem::Maven, "g:a".to_string());
    let q = score_aged(&p, None);
    // 18 neutral popularity, 8 for an unknown date, 9 for no stable release.
    assert_eq!(q.score, 35);
    assert_eq!(q.verdict, "🔴 不建议，优先找更成熟的替代");
    assert_eq!(q.signals, vec!["（该来源无公开人气数据，人气分按中性计）"]);
    assert_eq!(
        q.warnings,
        vec!["仍是 0.x 版本，API 可能有破坏性变更", "未提供源码仓库链接"]
    );
}

#[test]
fn download_points() {
    let table: Vec<(u64, u32)> = vec![
        (5_000_000, 40),
        (4_999_999, 36),
        (500_000, 36),
        (499_999, 30),
        (100_000, 30),
        (99_999, 24),
        (20_000, 24),
        (19_999, 18),
        (5_000, 18),
        (4_999, 12),
        (1_000, 12),
        (999, 6),
        (100, 6),
        (99, 2),
        (0, 2),
    ];
    for (d, points) in table {
        let mut p = package();
        p.recent_downloads_90d = Some(d);
        assert_eq!(score_aged(&p, Some(0)).score, 60 + points, "{d}");
        p.recent_downloads_90d = None;
        p.total_downloads = Some(d * 8 + 7);
        assert_eq!(score_aged(&p, Some(0)).score, 60 + points, "{d}");
    }
}

#[test]
fn star_points() {
    let table: Vec<(u64, u32)> = vec![
        (20_000, 40),
        (19_999, 34),
        (5_000, 34),
        (1_000, 28),
        (999, 20),
        (200, 20),
        (50, 12),
        (49, 6),
        (10, 6),
        (9, 2),
    ];
    for (s, points) in table {
        let mut p = package();
        p.recent_downloads_90d = None;
        p.stars = Some(s);
        assert_eq!(score_aged(&p, Some(0)).score, 60 + points, "{s}");
    }
}

#[test]
fn stars_do_not_count_beside_downloads() {
    let mut p = package();
    p.recent_downloads_90d = Some(150);
    let q = score_aged(&p, Some(0));
    p.stars = Some(90_000);
    assert_eq!(score_aged(&p, Some(0)).score, q.score);
    assert_eq!(score_aged(&p, Some(0)).signals, q.signals);
}

#[test]
fn popularity_in_words() {
    let mut p = package();
    p.recent_downloads_90d = Some(999);
    assert_eq!(score_aged(&p, Some(0)).warnings, vec!["下载量偏低（近90天约 999 次）"]);
    p.recent_downloads_90d = None;
    p.stars = Some(49);
    assert_eq!(score_aged(&p, Some(0)).warnings, vec!["关注度偏低（GitHub 49 stars）"]);
    p.stars = Some(1_000);
    assert_eq!(score_aged(&p, Some(0)).signals[0], "人气高（GitHub 1,000 stars）");
}

/// Maintenance points and the warning, computed with floating-point months.
fn maintenance_by_floats(days: i64) -> (u32, Option<String>) {
    let m = days as f64 / 30.4;
    if m <= 3.0 {
        (30, None)
    } else if m <= 6.0 {
        (24, None)
    } else if m <= 12.0 {
        (16, None)
    } else if m <= 18.0 {
        (10, Some(format!("已约 {:.0} 个月未更新", m)))
    } else if m <= 24.0 {
        (5, Some(format!("已约 {:.0} 个月未更新，维护存疑", m)))
    } else {
        (0, Some(format!("已约 {:.0} 个月未更新，疑似停止维护", m)))
    }
}

#[test]
fn maintenance_agrees_with_floating_point_months() {
    let mut p = package();
    p.repository = None;
    let base = score_aged(&p, Some(0)).score - 30;
    let mut days: i64 = -2000;
    while days < 40_000 {
        let (points, warning) = maintenance_by_floats(days);
        let q = score_aged(&p, Some(days));
        assert_eq!(q.score, base + points, "{days}");
        assert_eq!(q.warnings.len(), if warning.is_some() { 2 } else { 1 }, "{days}");
        if let Some(w) = warning {
            assert_eq!(q.warnings[0], w, "{days}");
        }
        days += 1;
    }
}

#[test]
fn months_are_rounded_to_even() {
    // 76 days are two and a half months, 228 days seven and a half.
    assert_eq!(whole_months(76), 2);
    assert_eq!(whole_months(77), 3);
    assert_eq!(whole_months(228), 8);
    assert_eq!(whole_months(0), 0);
    assert_eq!(whole_months(u64::MAX), 606_800_791_898_340_514);
}

#[test]
fn days_are_rounded_towards_zero() {
    let at = |secs: i64| Timestamp { secs, nanos: 0 };
    assert_eq!(days_between(at(86_400), at(0)), 1);
    assert_eq!(days_between(at(86_399), at(0)), 0);
    assert_eq!(days_between(at(0), at(86_399)), 0);
    assert_eq!(days_between(at(0), at(200_000)), -2);
    let late = Timestamp { secs: 86_399, nanos: 999_999_999 };
    assert_eq!(days_between(late, at(0)), 0);
}

#[test]
fn the_latest_of_several_times() {
    let at = |secs: i64, nanos: u32| Some(Timestamp { secs, nanos });
    assert_eq!(latest_at(&Vec::new()), None);
    assert_eq!(latest_at(&vec![None]), Some(0));
    assert_eq!(latest_at(&vec![None, None]), Some(0));
    assert_eq!(latest_at(&vec![None, at(-5, 0), None]), Some(1));
    assert_eq!(latest_at(&vec![at(1, 0), at(3, 0), at(2, 9), at(3, 0)]), Some(1));
    assert_eq!(latest_at(&vec![at(3, 0), at(3, 1)]), Some(1));
}

#[test]
fn dates_in_rfc3339() {
    let t = Timestamp::parse("2024-05-01T12:30:00.25Z").unwrap();
    assert_eq!((t.secs, t.nanos), (1_714_566_600, 250_000_000));
    let t = Timestamp::parse("2024-05-01T14:30:00+02:00").unwrap();
    assert_eq!((t.secs, t.nanos), (1_714_566_600, 0));
    assert!(Timestamp::parse("2024-05-01").is_none());
    assert!(Timestamp::parse("").is_none());
}

#[test]
fn the_clock_runs_past_2024() {
    let t = Timestamp::now();
    assert!(t.secs > 1_700_000_000);
    assert!(t.nanos < 1_000_000_000);
}

#[test]
fn scores_depend_on_the_date_of_the_update() {
    let mut p = package();
    p.updated_at = Some("2024-01-01T00:00:00Z".to_string());
    let now = Timestamp::parse("2024-02-01T00:00:00Z").unwrap();
    assert_eq!(score_at(&p, now).score, 100);
    let later = Timestamp::parse("2024-06-01T00:00:00Z").unwrap();
    assert_eq!(score_at(&p, later).score, 94);
    // A date that cannot be read counts as unknown.
    p.updated_at = Some("yesterday".to_string());
    assert_eq!(score_at(&p, now).score, 78);
    p.updated_at = None;
    assert_eq!(score_at(&p, now).score, 78);
}

#[test]
fn scoring_by_the_clock() {
    let mut p = package();
    p.updated_at = Some("2001-01-01T00:00:00Z".to_string());
    let q = score(&p);
    assert_eq!(q.score, 70);
    assert!(q.warnings[0].ends_with("疑似停止维护"));
    p.updated_at = None;
    assert_eq!(score(&p).score, 78);
}

#[test]
fn major_versions() {
    for (v, m) in [
        ("1.2.3", Some(1)),
        ("v2", Some(2)),
        (" vV3.0 ", Some(3)),
        ("0.9", Some(0)),
        ("+4.1", Some(4)),
        ("1-rc.1", None),
        ("", None),
        ("x.1", None),
        ("18446744073709551616.0", None),
    ] {
        assert_eq!(major_of(v), m, "{v:?}");
    }
}

#[test]
fn stability_and_metadata() {
    let mut p = package();
    p.stable_version = Some("0.9.1".to_string());
    let q = score_aged(&p, Some(0));
    assert_eq!(q.score, 94);
    assert_eq!(q.warnings, vec!["仍是 0.x 版本，API 可能有破坏性变更"]);
    let mut p = package();
    p.license = None;
    assert_eq!(score_aged(&p, Some(0)).score, 96);
    p.homepage = None;
    assert_eq!(score_aged(&p, Some(0)).score, 92);
    p.ecosystem = Ecosystem::Rust;
    assert_eq!(score_aged(&p, Some(0)).score, 96);
    p.repository = None;
    let q = score_aged(&p, Some(0));
    assert_eq!(q.score, 89);
    assert_eq!(q.warnings, vec!["未提供源码仓库链接"]);
}

#[test]
fn withdrawn_releases_lose_forty_points() {
    let mut p = package();
    p.deprecated = Some(false);
    assert_eq!(score_aged(&p, Some(0)).score, 100);
    p.deprecated = Some(true);
    let q = score_aged(&p, Some(0));
    assert_eq!(q.score, 60);
    assert_eq!(q.verdict, "🟡 可用，但留意下方提示");
    assert_eq!(q.warnings, vec!["⚠️ 最新版本已被 deprecated（弃用），不要直接依赖"]);
    let mut bare = Package::new(Ecosystem::Maven, "g:a".to_string());
    bare.deprecated = Some(true);
    assert_eq!(score_aged(&bare, None).score, 0);
}

#[test]
fn verdict_bands() {
    // 60 points besides popularity, which takes the score to the band's edges.
    let mut p = package();
    let with = |p: &mut Package, downloads: u64, age: i64| {
        p.recent_downloads_90d = Some(downloads);
        score_aged(p, Some(age))
    };
    let q = with(&mut p, 5_000, 0);
    assert_eq!((q.score, q.verdict), (78, "✅ 强烈推荐复用"));
    let q = with(&mut p, 1_000, 0);
    assert_eq!((q.score, q.verdict), (72, "🟡 可用，但留意下方提示"));
    let q = with(&mut p, 1_000, 300);
    assert_eq!((q.score, q.verdict), (58, "🟡 可用，但留意下方提示"));
    let q = with(&mut p, 100, 300);
    assert_eq!((q.score, q.verdict), (52, "🟠 谨慎，建议对比替代方案"));
    let q = with(&mut p, 100, 10_000);
    assert_eq!((q.score, q.verdict), (36, "🔴 不建议，优先找更成熟的替代"));
}

#[test]
fn advisories_sink_the_score() {
    let p = package();
    let clean = assess_aged(&p, &ids(&[]), Some(0));
    assert_eq!(clean.score, 100);
    let q = assess_aged(&p, &ids(&["GHSA-1", "RUSTSEC-2"]), Some(0));
    assert_eq!(q.score, 60);
    assert_eq!(q.warnings, vec!["⚠️ 存在已知安全漏洞: GHSA-1、RUSTSEC-2，请升级或更换"]);
    let bare = Package::new(Ecosystem::Maven, "g:a".to_string());
    assert_eq!(assess_aged(&bare, &ids(&["X"]), None).score, 0);
}

#[test]
fn clean_packages_are_assessed_at_their_score() {
    let mut p = package();
    p.updated_at = Some("2024-01-01T00:00:00Z".to_string());
    let now = Timestamp::parse("2025-02-01T00:00:00Z").unwrap();
    let a = assess_at(&p, &ids(&[]), now);
    let s = score_at(&p, now);
    assert_eq!(a.score, s.score);
    assert_eq!(a.score, 80);
    assert_eq!(a.verdict, s.verdict);
    assert_eq!(a.signals, s.signals);
    assert_eq!(a.warnings, s.warnings);
}

#[test]
fn prereleases_cost_points() {
    let mut p = package();
    p.latest_version = Some("3.0.0-beta.1".to_string());
    let s = score_aged(&p, Some(0));
    assert_eq!(s.score, 94);
    assert_eq!(s.warnings, vec!["最新版 3.0.0-beta.1 是预发布版（alpha/beta/rc）"]);
    assert_eq!(assess_aged(&p, &ids(&[]), Some(0)).score, 94);
    // So they do without a stable release.
    p.stable_version = Some("0.3.0".to_string());
    assert_eq!(score_aged(&p, Some(0)).score, 88);
    assert_eq!(assess_aged(&p, &ids(&[]), Some(0)).score, 88);
    p.latest_version = Some("0.3.0".to_string());
    assert_eq!(score_aged(&p, Some(0)).score, 94);
}

#[test]
fn the_poorest_package_still_pays_for_a_prerelease() {
    let mut p = Package::new(Ecosystem::Maven, "g:a".to_string());
    p.stars = Some(0);
    p.latest_version = Some("2.0.0".to_string());
    assert_eq!(score_aged(&p, Some(9_999)).score, 11);
    p.latest_version = Some("2.0.0-rc.1".to_string());
    assert_eq!(score_aged(&p, Some(9_999)).score, 5);
    p.deprecated = Some(true);
    assert_eq!(score_aged(&p, Some(9_999)).score, 0);
}

#[test]
fn restricted_licenses_are_flagged() {
    for l in [
        "GPL-3.0-only",
        "AGPL-3.0",
        "LGPL-2.1-or-later",
        "MPL-2.0",
        "SSPL-1.0",
        "BUSL-1.1",
        "MIT OR GPL-2.0",
        "GPLv3",
        "GPL3",
        "MPLv2.0",
        "BUSL11",
        "gpl",
        "GNU General Public License v3",
        "GNU Affero General Public License v3.0",
        "GNU Lesser General Public Licence, version 2.1",
        "Mozilla Public License 2.0",
        "Server Side Public License",
        "Business Source License 1.1",
    ] {
        assert!(license_is_restricted(l), "{l}");
    }
    for l in ["MIT", "Apache-2.0", "BSD-3-Clause", "ISC", "Unlicense", "", "0BSD"] {
        assert!(!license_is_restricted(l), "{l}");
    }
    for l in [
        "Eclipse Public License 2.0",
        "Open to the general public",
        "General Public",
        "Side Public License",
        "Source Available License",
        "The MIT License",
        "mplus",
        "GPLish",
        "agplx",
    ] {
        assert!(!license_is_restricted(l), "{l}");
    }
    assert!(names_restricted(&ids(&["gnu", "general", "public", "license"])));
    assert!(names_restricted(&ids(&["server", "side", "public", "license"])));
    assert!(!names_restricted(&ids(&["general", "source", "license"])));
    assert!(!names_restricted(&ids(&["mplus"])));
    assert!(names_restricted(&ids(&["mpl2"])));
    assert!(names_restricted(&ids(&["mit", "lgpl"])));
    assert!(!names_restricted(&ids(&["mit", "simpl"])));
    let mut p = package();
    p.license = Some("GPL-3.0".to_string());
    let q = assess_aged(&p, &ids(&[]), Some(0));
    assert_eq!(q.score, 100);
    assert_eq!(
        q.warnings,
        vec!["许可证 GPL-3.0 属于 copyleft/商用受限许可，使用前请确认合规"]
    );
}
