//! Reuse quality: popularity, maintenance, stability and metadata as one score
//! from 0 to 100, with the reasons in words.

use vstd::prelude::*;
use vstd::string::*;
use crate::clock::{age_in_days, days_since, months_of, whole_months, Timestamp};
use crate::model::{Package, PackageView, Quality, QualityView};
use crate::text::{
    after_prefix, before_dot, behind_prefix, cat3, chars_of, contains_char, decimal, decimal_text,
    fmt_num, grouped, is_digit, join, joined, parse_unsigned, same_text, strip_start, terms,
    terms_of, trim, trimmed, unsigned_value, up_to_dot, without_start, Strip,
};

verus! {

/// What a withdrawn release, or a known advisory, takes off the score.
pub const HARD_PENALTY: i64 = 40;

/// What a pre-release as the latest version takes off the score.
pub const PRERELEASE_PENALTY: i64 = 6;

// --- Popularity (max 40) ---------------------------------------------------

/// Downloads over about 90 days; without them, an eighth of all downloads.
pub open spec fn download_basis(p: PackageView) -> Option<u64> {
    match p.recent_downloads_90d {
        Some(d) => Some(d),
        None => match p.total_downloads {
            Some(t) => Some((t / 8) as u64),
            None => None,
        },
    }
}

/// The points for a number of downloads over about 90 days.
pub open spec fn download_points(d: u64) -> int {
    if d >= 5_000_000 {
        40
    } else if d >= 500_000 {
        36
    } else if d >= 100_000 {
        30
    } else if d >= 20_000 {
        24
    } else if d >= 5_000 {
        18
    } else if d >= 1_000 {
        12
    } else if d >= 100 {
        6
    } else {
        2
    }
}

/// The points for a number of GitHub stars.
pub open spec fn star_points(s: u64) -> int {
    if s >= 20_000 {
        40
    } else if s >= 5_000 {
        34
    } else if s >= 1_000 {
        28
    } else if s >= 200 {
        20
    } else if s >= 50 {
        12
    } else if s >= 10 {
        6
    } else {
        2
    }
}

/// Popularity: by downloads, else by stars, else neutral.
pub open spec fn popularity(p: PackageView) -> int {
    match download_basis(p) {
        Some(d) => download_points(d),
        None => match p.stars {
            Some(s) => star_points(s),
            None => 18,
        },
    }
}

pub open spec fn popularity_signals(p: PackageView) -> Seq<Seq<char>> {
    match download_basis(p) {
        Some(d) => if d >= 100_000 {
            seq!["人气高（近90天约 "@ + grouped(decimal(d as nat)) + " 次下载）"@]
        } else {
            seq![]
        },
        None => match p.stars {
            Some(s) => if s >= 1_000 {
                seq!["人气高（GitHub "@ + grouped(decimal(s as nat)) + " stars）"@]
            } else {
                seq![]
            },
            None => seq!["（该来源无公开人气数据，人气分按中性计）"@],
        },
    }
}

pub open spec fn popularity_warnings(p: PackageView) -> Seq<Seq<char>> {
    match download_basis(p) {
        Some(d) => if d < 1_000 {
            seq!["下载量偏低（近90天约 "@ + grouped(decimal(d as nat)) + " 次）"@]
        } else {
            seq![]
        },
        None => match p.stars {
            Some(s) => if s < 50 {
                seq!["关注度偏低（GitHub "@ + grouped(decimal(s as nat)) + " stars）"@]
            } else {
                seq![]
            },
            None => seq![],
        },
    }
}

// --- Maintenance (max 30) --------------------------------------------------

/// Whether so many days are at most `months` months of 30.4 days.
pub open spec fn within_months(days: int, months: int) -> bool {
    days * 5 <= months * 152
}

/// Maintenance, from the days since the last update.
pub open spec fn maintenance(age: Option<int>) -> int {
    match age {
        Some(d) => if within_months(d, 3) {
            30
        } else if within_months(d, 6) {
            24
        } else if within_months(d, 12) {
            16
        } else if within_months(d, 18) {
            10
        } else if within_months(d, 24) {
            5
        } else {
            0
        },
        None => 8,
    }
}

pub open spec fn maintenance_signals(age: Option<int>) -> Seq<Seq<char>> {
    match age {
        Some(d) => if within_months(d, 3) {
            seq!["维护活跃（近 3 个月内有更新）"@]
        } else {
            seq![]
        },
        None => seq![],
    }
}

pub open spec fn maintenance_warnings(age: Option<int>) -> Seq<Seq<char>> {
    match age {
        Some(d) => {
            let months = decimal(months_of(d as nat));
            if within_months(d, 12) {
                seq![]
            } else if within_months(d, 18) {
                seq!["已约 "@ + months + " 个月未更新"@]
            } else if within_months(d, 24) {
                seq!["已约 "@ + months + " 个月未更新，维护存疑"@]
            } else {
                seq!["已约 "@ + months + " 个月未更新，疑似停止维护"@]
            }
        },
        None => seq![],
    }
}

// --- Stability (max 15) ----------------------------------------------------

/// The major number of a version, behind an optional leading `v`.
pub open spec fn major(version: Seq<char>) -> Option<u64> {
    unsigned_value(before_dot(strip_start(trimmed(version), Strip::AnyV)))
}

/// The major number of the stable version, where it is at least 1.
pub open spec fn stable_major(p: PackageView) -> Option<u64> {
    match p.stable_version {
        Some(v) => match major(v) {
            Some(m) => if m >= 1 {
                Some(m)
            } else {
                None
            },
            None => None,
        },
        None => None,
    }
}

/// Whether the latest version is a pre-release (alpha, beta, rc).
pub open spec fn latest_is_prerelease(p: PackageView) -> bool {
    p.latest_version matches Some(v) && v.contains('-')
}

/// What a pre-release as the latest version costs.
pub open spec fn prerelease_penalty(p: PackageView) -> int {
    if latest_is_prerelease(p) {
        PRERELEASE_PENALTY as int
    } else {
        0
    }
}

/// Stability: a stable 1.0+ release or not, less the penalty for a pre-release.
pub open spec fn stability(p: PackageView) -> int {
    (if stable_major(p) is Some {
        15int
    } else {
        9
    }) - prerelease_penalty(p)
}

pub open spec fn stability_signals(p: PackageView) -> Seq<Seq<char>> {
    match stable_major(p) {
        Some(m) => seq!["已发布稳定版 v"@ + decimal(m as nat) + ".x"@],
        None => seq![],
    }
}

pub open spec fn stability_warnings(p: PackageView) -> Seq<Seq<char>> {
    (if stable_major(p) is Some {
        seq![]
    } else {
        seq!["仍是 0.x 版本，API 可能有破坏性变更"@]
    }) + (if latest_is_prerelease(p) {
        seq!["最新版 "@ + p.latest_version->0 + " 是预发布版（alpha/beta/rc）"@]
    } else {
        seq![]
    })
}

// --- Metadata (max 15) -----------------------------------------------------

/// Metadata: a repository, a homepage or documentation, a license.
pub open spec fn metadata(p: PackageView) -> int {
    (if p.repository is Some {
        7int
    } else {
        0
    }) + (if p.homepage is Some || p.ecosystem.spec_docs_url(p.name) is Some {
        4int
    } else {
        0
    }) + (if p.license is Some {
        4int
    } else {
        0
    })
}

pub open spec fn metadata_warnings(p: PackageView) -> Seq<Seq<char>> {
    if p.repository is Some {
        seq![]
    } else {
        seq!["未提供源码仓库链接"@]
    }
}

// --- The score -------------------------------------------------------------

pub open spec fn withdrawal(p: PackageView) -> int {
    if p.deprecated == Some(true) {
        HARD_PENALTY as int
    } else {
        0
    }
}

pub open spec fn withdrawal_warnings(p: PackageView) -> Seq<Seq<char>> {
    if p.deprecated == Some(true) {
        seq!["⚠️ 最新版本已被 "@ + p.ecosystem.spec_deprecation_term() + "，不要直接依赖"@]
    } else {
        seq![]
    }
}

/// All points of a package, before they are cut to the range 0 to 100.
pub open spec fn points(p: PackageView, age: Option<int>) -> int {
    popularity(p) + maintenance(age) + stability(p) + metadata(p) - withdrawal(p)
}

pub open spec fn clamped(n: int) -> int {
    if n < 0 {
        0
    } else if n > 100 {
        100
    } else {
        n
    }
}

/// What a score means.
pub open spec fn verdict(score: int) -> Seq<char> {
    if 78 <= score <= 100 {
        "✅ 强烈推荐复用"@
    } else if 58 <= score <= 77 {
        "🟡 可用，但留意下方提示"@
    } else if 38 <= score <= 57 {
        "🟠 谨慎，建议对比替代方案"@
    } else {
        "🔴 不建议，优先找更成熟的替代"@
    }
}

pub open spec fn all_signals(p: PackageView, age: Option<int>) -> Seq<Seq<char>> {
    popularity_signals(p) + maintenance_signals(age) + stability_signals(p)
}

pub open spec fn all_warnings(p: PackageView, age: Option<int>) -> Seq<Seq<char>> {
    popularity_warnings(p) + maintenance_warnings(age) + stability_warnings(p) + metadata_warnings(
        p,
    ) + withdrawal_warnings(p)
}

/// The quality of a package that was updated `age` days ago, where known.
pub open spec fn quality(p: PackageView, age: Option<int>) -> QualityView {
    let score = clamped(points(p, age));
    QualityView {
        score,
        verdict: verdict(score),
        signals: all_signals(p, age),
        warnings: all_warnings(p, age),
    }
}

/// An age in days as a mathematical number.
pub open spec fn days(age: Option<i64>) -> Option<int> {
    match age {
        Some(d) => Some(d as int),
        None => None,
    }
}

fn note(v: &mut Vec<String>, s: String)
    ensures
        final(v).deep_view() == old(v).deep_view() + seq![s@],
{
    v.push(s);
}

fn score_popularity(p: &Package, signals: &mut Vec<String>, warnings: &mut Vec<String>) -> (r: i64)
    ensures
        r == popularity(p@),
        final(signals).deep_view() == old(signals).deep_view() + popularity_signals(p@),
        final(warnings).deep_view() == old(warnings).deep_view() + popularity_warnings(p@),
{
    let basis: Option<u64> = match p.recent_downloads_90d {
        Some(d) => Some(d),
        None => match p.total_downloads {
            Some(t) => Some(t / 8),
            None => None,
        },
    };
    if let Some(d) = basis {
        if d >= 100_000 {
            note(signals, cat3("人气高（近90天约 ", &fmt_num(d), " 次下载）"));
        } else if d < 1_000 {
            note(warnings, cat3("下载量偏低（近90天约 ", &fmt_num(d), " 次）"));
        }
        if d >= 5_000_000 {
            40
        } else if d >= 500_000 {
            36
        } else if d >= 100_000 {
            30
        } else if d >= 20_000 {
            24
        } else if d >= 5_000 {
            18
        } else if d >= 1_000 {
            12
        } else if d >= 100 {
            6
        } else {
            2
        }
    } else if let Some(s) = p.stars {
        if s >= 1_000 {
            note(signals, cat3("人气高（GitHub ", &fmt_num(s), " stars）"));
        } else if s < 50 {
            note(warnings, cat3("关注度偏低（GitHub ", &fmt_num(s), " stars）"));
        }
        if s >= 20_000 {
            40
        } else if s >= 5_000 {
            34
        } else if s >= 1_000 {
            28
        } else if s >= 200 {
            20
        } else if s >= 50 {
            12
        } else if s >= 10 {
            6
        } else {
            2
        }
    } else {
        // No popularity data for this ecosystem: stay neutral rather than
        // capping the verdict artificially low.
        note(signals, "（该来源无公开人气数据，人气分按中性计）".to_owned());
        18
    }
}

fn score_maintenance(
    age: Option<i64>,
    signals: &mut Vec<String>,
    warnings: &mut Vec<String>,
) -> (r: i64)
    ensures
        r == maintenance(days(age)),
        final(signals).deep_view() == old(signals).deep_view() + maintenance_signals(days(age)),
        final(warnings).deep_view() == old(warnings).deep_view() + maintenance_warnings(days(age)),
{
    match age {
        Some(n) => {
            let d: i128 = n as i128 * 5;
            if d <= 456 {
                note(signals, "维护活跃（近 3 个月内有更新）".to_owned());
                30
            } else if d <= 912 {
                24
            } else if d <= 1824 {
                16
            } else {
                let months = decimal_text(whole_months(n as u64));
                if d <= 2736 {
                    note(warnings, cat3("已约 ", &months, " 个月未更新"));
                    10
                } else if d <= 3648 {
                    note(warnings, cat3("已约 ", &months, " 个月未更新，维护存疑"));
                    5
                } else {
                    note(warnings, cat3("已约 ", &months, " 个月未更新，疑似停止维护"));
                    0
                }
            }
        },
        None => 8,
    }
}

/// The major number of a version, behind an optional leading `v`.
pub fn major_of(version: &str) -> (r: Option<u64>)
    ensures
        r == major(version@),
{
    parse_unsigned(up_to_dot(without_start(trim(version), Strip::AnyV)))
}

fn score_stability(p: &Package, signals: &mut Vec<String>, warnings: &mut Vec<String>) -> (r: i64)
    ensures
        r == stability(p@),
        final(signals).deep_view() == old(signals).deep_view() + stability_signals(p@),
        final(warnings).deep_view() == old(warnings).deep_view() + stability_warnings(p@),
{
    let ghost w0 = warnings.deep_view();
    let found: Option<u64> = match &p.stable_version {
        Some(v) => major_of(v),
        None => None,
    };
    let mut r: i64 = match found {
        Some(m) => if m >= 1 {
            note(signals, cat3("已发布稳定版 v", &decimal_text(m), ".x"));
            15
        } else {
            note(warnings, "仍是 0.x 版本，API 可能有破坏性变更".to_owned());
            9
        },
        None => {
            note(warnings, "仍是 0.x 版本，API 可能有破坏性变更".to_owned());
            9
        },
    };
    if let Some(v) = &p.latest_version {
        if contains_char(v, '-') {
            r -= PRERELEASE_PENALTY;
            note(warnings, cat3("最新版 ", v, " 是预发布版（alpha/beta/rc）"));
        }
    }
    assert(warnings.deep_view() =~= w0 + stability_warnings(p@));
    r
}

fn score_metadata(p: &Package, warnings: &mut Vec<String>) -> (r: i64)
    ensures
        r == metadata(p@),
        final(warnings).deep_view() == old(warnings).deep_view() + metadata_warnings(p@),
{
    let mut meta: i64 = 0;
    if p.repository.is_some() {
        meta += 7;
    } else {
        note(warnings, "未提供源码仓库链接".to_owned());
    }
    if p.homepage.is_some() || p.ecosystem.docs_url(&p.name).is_some() {
        meta += 4;
    }
    if p.license.is_some() {
        meta += 4;
    }
    meta
}

fn score_withdrawal(p: &Package, warnings: &mut Vec<String>) -> (r: i64)
    ensures
        r == withdrawal(p@),
        final(warnings).deep_view() == old(warnings).deep_view() + withdrawal_warnings(p@),
{
    match p.deprecated {
        Some(true) => {
            note(
                warnings,
                cat3("⚠️ 最新版本已被 ", p.ecosystem.deprecation_term(), "，不要直接依赖"),
            );
            HARD_PENALTY
        },
        _ => 0,
    }
}

fn clamp_score(n: i64) -> (r: u32)
    ensures
        r == clamped(n as int),
{
    if n < 0 {
        0
    } else if n > 100 {
        100
    } else {
        n as u32
    }
}

fn verdict_of(score: u32) -> (r: &'static str)
    ensures
        r@ == verdict(score as int),
{
    if 78 <= score && score <= 100 {
        "✅ 强烈推荐复用"
    } else if 58 <= score && score <= 77 {
        "🟡 可用，但留意下方提示"
    } else if 38 <= score && score <= 57 {
        "🟠 谨慎，建议对比替代方案"
    } else {
        "🔴 不建议，优先找更成熟的替代"
    }
}

/// All points of a package, with the reasons.
fn tally(p: &Package, age: Option<i64>) -> (r: (i64, Vec<String>, Vec<String>))
    ensures
        r.0 == points(p@, days(age)),
        r.1.deep_view() == all_signals(p@, days(age)),
        r.2.deep_view() == all_warnings(p@, days(age)),
{
    let mut signals: Vec<String> = Vec::new();
    let mut warnings: Vec<String> = Vec::new();
    let popular = score_popularity(p, &mut signals, &mut warnings);
    let maintained = score_maintenance(age, &mut signals, &mut warnings);
    let stable = score_stability(p, &mut signals, &mut warnings);
    let meta = score_metadata(p, &mut warnings);
    let withdrawn = score_withdrawal(p, &mut warnings);
    (popular + maintained + stable + meta - withdrawn, signals, warnings)
}

/// Scores a package 0–100, given how many whole days ago it was updated.
pub fn score_aged(p: &Package, age: Option<i64>) -> (r: Quality)
    ensures
        r@ == quality(p@, days(age)),
{
    let (total, signals, warnings) = tally(p, age);
    let score = clamp_score(total);
    Quality { score, verdict: verdict_of(score), signals, warnings }
}

/// Scores a package 0–100, as of `now`, on popularity, maintenance, stability
/// and metadata.
pub fn score_at(p: &Package, now: Timestamp) -> (r: Quality)
    ensures
        r@ == quality(p@, age_in_days(p@.updated_at, now)),
{
    score_aged(p, days_since(&p.updated_at, now))
}

/// Scores a package 0–100 on popularity, maintenance, stability and metadata.
/// Maintenance goes by the machine's clock.
pub fn score(p: &Package) -> (r: Quality)
    ensures
        exists|now: Timestamp|
            r@ == quality(p@, #[trigger] age_in_days(p@.updated_at, now)),
{
    let now = Timestamp::now();
    score_at(p, now)
}

// --- Licenses and advisories -----------------------------------------------

/// Whether a term is an abbreviation, alone or with a version behind it: a digit
/// or a "v" follows.
pub open spec fn abbreviates(t: Seq<char>, name: Seq<char>) -> bool {
    match behind_prefix(t, name) {
        Some(rest) => rest.len() == 0 || is_digit(rest[0]) || rest[0] == 'v',
        None => false,
    }
}

/// Whether a term of a license's name stands for a copyleft or commercially
/// restricted license.
pub open spec fn restricted_term(t: Seq<char>) -> bool {
    ||| abbreviates(t, "gpl"@)
    ||| abbreviates(t, "agpl"@)
    ||| abbreviates(t, "lgpl"@)
    ||| abbreviates(t, "mpl"@)
    ||| abbreviates(t, "sspl"@)
    ||| abbreviates(t, "busl"@)
}

/// Whether the term at a place is the word "license", in any form of it.
pub open spec fn license_word(v: Seq<Seq<char>>, i: int) -> bool {
    i < v.len() && "licen"@.is_prefix_of(v[i])
}

/// Whether the name of a restricted license starts at a place, spelled out: the
/// (Affero, Lesser, Library) General Public License, the Mozilla Public License,
/// the Server Side Public License or the Business Source License.
pub open spec fn spelled_out(v: Seq<Seq<char>>, i: int) -> bool {
    ||| license_word(v, i + 2) && v[i] == "general"@ && v[i + 1] == "public"@
    ||| license_word(v, i + 2) && v[i] == "mozilla"@ && v[i + 1] == "public"@
    ||| license_word(v, i + 2) && v[i] == "business"@ && v[i + 1] == "source"@
    ||| license_word(v, i + 3) && v[i] == "server"@ && v[i + 1] == "side"@ && v[i + 2] == "public"@
}

/// Whether the terms name a restricted license, abbreviated or spelled out.
pub open spec fn any_restricted(v: Seq<Seq<char>>) -> bool {
    exists|i: int| 0 <= i < v.len() && (restricted_term(#[trigger] v[i]) || spelled_out(v, i))
}

/// Whether a license is copyleft or commercially restricted (GPL, AGPL, LGPL,
/// MPL, SSPL, BUSL).
pub open spec fn restricted_license(license: Seq<char>) -> bool {
    any_restricted(terms(license, 2))
}

pub open spec fn license_warnings(p: PackageView) -> Seq<Seq<char>> {
    match p.license {
        Some(l) => if restricted_license(l) {
            seq!["许可证 "@ + l + " 属于 copyleft/商用受限许可，使用前请确认合规"@]
        } else {
            seq![]
        },
        None => seq![],
    }
}

/// What known advisories take off the score.
pub open spec fn advisory_penalty(ids: Seq<Seq<char>>) -> int {
    if ids.len() > 0 {
        HARD_PENALTY as int
    } else {
        0
    }
}

pub open spec fn advisory_warnings(ids: Seq<Seq<char>>) -> Seq<Seq<char>> {
    if ids.len() > 0 {
        seq!["⚠️ 存在已知安全漏洞: "@ + joined(ids, "、"@) + "，请升级或更换"@]
    } else {
        seq![]
    }
}

/// The quality of a package with what its license and the advisories on its
/// version say of it.
pub open spec fn assessment(
    p: PackageView,
    age: Option<int>,
    ids: Seq<Seq<char>>,
) -> QualityView {
    let score = clamped(points(p, age) - advisory_penalty(ids));
    QualityView {
        score,
        verdict: verdict(score),
        signals: all_signals(p, age),
        warnings: all_warnings(p, age) + license_warnings(p) + advisory_warnings(ids),
    }
}

fn starts_with(s: &str, prefix: &str) -> (r: bool)
    ensures
        r == prefix@.is_prefix_of(s@),
{
    after_prefix(s, prefix).is_some()
}

fn is_abbreviation(t: &str, name: &str) -> (r: bool)
    ensures
        r == abbreviates(t@, name@),
{
    match after_prefix(t, name) {
        Some(rest) => {
            let c = chars_of(rest);
            c.len() == 0 || ('0' <= c[0] && c[0] <= '9') || c[0] == 'v'
        },
        None => false,
    }
}

fn is_restricted_term(t: &str) -> (r: bool)
    ensures
        r == restricted_term(t@),
{
    is_abbreviation(t, "gpl") || is_abbreviation(t, "agpl") || is_abbreviation(t, "lgpl")
        || is_abbreviation(t, "mpl") || is_abbreviation(t, "sspl") || is_abbreviation(t, "busl")
}

fn is_license_word(v: &Vec<String>, i: usize) -> (r: bool)
    ensures
        r == license_word(v.deep_view(), i as int),
{
    i < v.len() && starts_with(&v[i], "licen")
}

fn starts_spelled_out(v: &Vec<String>, i: usize) -> (r: bool)
    requires
        i < v.len(),
    ensures
        r == spelled_out(v.deep_view(), i as int),
{
    let left = v.len() - i;
    if left < 3 {
        return false;
    }
    let (first, second, third) = (v[i].as_str(), v[i + 1].as_str(), v[i + 2].as_str());
    (is_license_word(v, i + 2) && ((same_text(first, "general") && same_text(second, "public"))
        || (same_text(first, "mozilla") && same_text(second, "public")) || (same_text(
        first,
        "business",
    ) && same_text(second, "source")))) || (left > 3 && is_license_word(v, i + 3) && same_text(
        first,
        "server",
    ) && same_text(second, "side") && same_text(third, "public"))
}

/// Whether the lower-case terms of a license's name stand for a restricted
/// license, abbreviated or spelled out.
pub fn names_restricted(v: &Vec<String>) -> (r: bool)
    ensures
        r == any_restricted(v.deep_view()),
{
    let mut i: usize = 0;
    while i < v.len()
        invariant
            i <= v.len(),
            forall|k: int|
                0 <= k < i ==> !restricted_term(#[trigger] v.deep_view()[k]) && !spelled_out(
                    v.deep_view(),
                    k,
                ),
        decreases v.len() - i,
    {
        if is_restricted_term(&v[i]) || starts_spelled_out(v, i) {
            assert(restricted_term(v.deep_view()[i as int]) || spelled_out(
                v.deep_view(),
                i as int,
            ));
            return true;
        }
        i += 1;
    }
    false
}

/// Whether a license is copyleft or commercially restricted (GPL, AGPL, LGPL,
/// MPL, SSPL, BUSL) and so calls for a compliance check.
pub fn license_is_restricted(license: &str) -> (r: bool)
    ensures
        r == restricted_license(license@),
{
    names_restricted(&terms_of(license, 2))
}

/// Assesses a package as of `now`: its score less the penalty for known
/// advisories, with compliance warnings.
pub fn assess_at(p: &Package, ids: &Vec<String>, now: Timestamp) -> (r: Quality)
    ensures
        r@ == assessment(p@, age_in_days(p@.updated_at, now), ids.deep_view()),
{
    assess_aged(p, ids, days_since(&p.updated_at, now))
}

/// Assesses a package, given how many whole days ago it was updated.
pub fn assess_aged(p: &Package, ids: &Vec<String>, age: Option<i64>) -> (r: Quality)
    ensures
        r@ == assessment(p@, days(age), ids.deep_view()),
{
    let (mut total, signals, mut warnings) = tally(p, age);
    if let Some(l) = &p.license {
        if license_is_restricted(l) {
            note(
                &mut warnings,
                cat3("许可证 ", l, " 属于 copyleft/商用受限许可，使用前请确认合规"),
            );
        }
    }
    if ids.len() > 0 {
        total -= HARD_PENALTY;
        note(
            &mut warnings,
            cat3("⚠️ 存在已知安全漏洞: ", &join(ids, "、"), "，请升级或更换"),
        );
    }
    assert(warnings.deep_view() =~= all_warnings(p@, days(age))
        + license_warnings(p@) + advisory_warnings(ids.deep_view()));
    let score = clamp_score(total);
    Quality { score, verdict: verdict_of(score), signals, warnings }
}

// --- Laws ------------------------------------------------------------------

/// Every part of the score stays within its share, and the score within 0 to
/// 100, with and without the penalties.
pub proof fn law_score_range(p: PackageView, age: Option<int>, ids: Seq<Seq<char>>)
    ensures
        2 <= popularity(p) <= 40,
        0 <= maintenance(age) <= 30,
        3 <= stability(p) <= 15,
        0 <= metadata(p) <= 15,
        0 <= quality(p, age).score <= 100,
        0 <= assessment(p, age, ids).score <= 100,
{
}

/// The verdict goes by the score alone: 78 and up, 58 to 77, 38 to 57, below 38.
pub proof fn law_verdict_bands(p: PackageView, age: Option<int>, ids: Seq<Seq<char>>)
    ensures
        in_its_band(quality(p, age)),
        in_its_band(assessment(p, age, ids)),
{
}

/// Whether the verdict is that of the score's band.
pub open spec fn in_its_band(q: QualityView) -> bool {
    &&& q.score >= 78 ==> q.verdict == "✅ 强烈推荐复用"@
    &&& 58 <= q.score < 78 ==> q.verdict == "🟡 可用，但留意下方提示"@
    &&& 38 <= q.score < 58 ==> q.verdict == "🟠 谨慎，建议对比替代方案"@
    &&& q.score < 38 ==> q.verdict == "🔴 不建议，优先找更成熟的替代"@
}

/// More downloads, or more stars, never score lower.
pub proof fn law_popularity_grows(p: PackageView, age: Option<int>, a: u64, b: u64)
    requires
        a <= b,
    ensures
        quality((PackageView { recent_downloads_90d: Some(a), ..p }), age).score <= quality(
            (PackageView { recent_downloads_90d: Some(b), ..p }),
            age,
        ).score,
        quality((PackageView { total_downloads: Some(a), ..p }), age).score <= quality(
            (PackageView { total_downloads: Some(b), ..p }),
            age,
        ).score,
        quality((PackageView { stars: Some(a), ..p }), age).score <= quality(
            (PackageView { stars: Some(b), ..p }),
            age,
        ).score,
{
    lemma_more_popular(p, Some(a), p.total_downloads, p.stars, Some(b), p.total_downloads, p.stars, age);
    lemma_more_popular(
        p,
        p.recent_downloads_90d,
        Some(a),
        p.stars,
        p.recent_downloads_90d,
        Some(b),
        p.stars,
        age,
    );
    lemma_more_popular(
        p,
        p.recent_downloads_90d,
        p.total_downloads,
        Some(a),
        p.recent_downloads_90d,
        p.total_downloads,
        Some(b),
        age,
    );
}

/// Packages that differ in popularity alone are ordered by it.
proof fn lemma_more_popular(
    p: PackageView,
    recent: Option<u64>,
    total: Option<u64>,
    stars: Option<u64>,
    more_recent: Option<u64>,
    more_total: Option<u64>,
    more_stars: Option<u64>,
    age: Option<int>,
)
    requires
        no_more(recent, more_recent),
        no_more(total, more_total),
        no_more(stars, more_stars),
    ensures
        quality(with_numbers(p, recent, total, stars), age).score <= quality(
            with_numbers(p, more_recent, more_total, more_stars),
            age,
        ).score,
{
    let x = with_numbers(p, recent, total, stars);
    let y = with_numbers(p, more_recent, more_total, more_stars);
    assert(popularity(x) <= popularity(y)) by {
        if let (Some(s), Some(t)) = (total, more_total) {
            assert(s / 8 <= t / 8);
        }
    }
    assert(stability(x) == stability(y));
    assert(metadata(x) == metadata(y));
    assert(withdrawal(x) == withdrawal(y));
}

spec fn no_more(a: Option<u64>, b: Option<u64>) -> bool {
    match (a, b) {
        (Some(x), Some(y)) => x <= y,
        (None, None) => true,
        _ => false,
    }
}

spec fn with_numbers(
    p: PackageView,
    recent: Option<u64>,
    total: Option<u64>,
    stars: Option<u64>,
) -> PackageView {
    PackageView { recent_downloads_90d: recent, total_downloads: total, stars, ..p }
}

/// Stars count only where no download numbers are known.
pub proof fn law_downloads_before_stars(p: PackageView, stars: Option<u64>)
    requires
        p.recent_downloads_90d is Some || p.total_downloads is Some,
    ensures
        popularity((PackageView { stars, ..p })) == popularity(p),
        popularity_signals((PackageView { stars, ..p })) == popularity_signals(p),
        popularity_warnings((PackageView { stars, ..p })) == popularity_warnings(p),
{
}

/// A more recent update never scores lower.
pub proof fn law_recent_updates_score_higher(
    p: PackageView,
    newer: int,
    older: int,
    ids: Seq<Seq<char>>,
)
    requires
        newer <= older,
    ensures
        quality(p, Some(older)).score <= quality(p, Some(newer)).score,
        assessment(p, Some(older), ids).score <= assessment(p, Some(newer), ids).score,
{
}

/// A withdrawn latest release costs 40 points, down to 0 at the least.
pub proof fn law_withdrawal_costs_forty(p: PackageView, age: Option<int>)
    requires
        p.deprecated != Some(true),
    ensures
        ({
            let before = quality(p, age).score;
            let after = quality((PackageView { deprecated: Some(true), ..p }), age).score;
            after == if before >= 40 {
                before - 40
            } else {
                0
            }
        }),
{
    law_score_range(p, age, seq![]);
}

/// Known advisories sink the score: by 40 points, down to 0 at the least, and so
/// below 38 wherever the package would otherwise stay under 78.
pub proof fn law_advisories_sink_score(p: PackageView, age: Option<int>, ids: Seq<Seq<char>>)
    requires
        ids.len() > 0,
    ensures
        ({
            let clean = assessment(p, age, seq![]).score;
            let flagged = assessment(p, age, ids).score;
            &&& flagged == if clean >= 40 {
                clean - 40
            } else {
                0
            }
            &&& clean > 0 ==> flagged < clean
            &&& clean < 78 ==> flagged < 38
        }),
        assessment(p, age, ids).warnings.contains(advisory_warnings(ids)[0]),
{
    let w = assessment(p, age, ids).warnings;
    assert(w.last() == advisory_warnings(ids)[0]);
}

/// A pre-release as the latest version scores lower than a release in its place:
/// always where the package is not withdrawn, and with penalties wherever the
/// release has points left to lose.
pub proof fn law_prerelease_costs(
    p: PackageView,
    release: Option<Seq<char>>,
    age: Option<int>,
    ids: Seq<Seq<char>>,
)
    requires
        latest_is_prerelease(p),
        !latest_is_prerelease((PackageView { latest_version: release, ..p })),
    ensures
        ({
            let n = PackageView { latest_version: release, ..p };
            &&& p.deprecated != Some(true) ==> quality(p, age).score < quality(n, age).score
            &&& quality(n, age).score > 0 ==> quality(p, age).score < quality(n, age).score
            &&& assessment(n, age, ids).score > 0 ==> assessment(p, age, ids).score < assessment(
                n,
                age,
                ids,
            ).score
        }),
{
    let n = PackageView { latest_version: release, ..p };
    assert(points(n, age) == points(p, age) + PRERELEASE_PENALTY);
    law_score_range(n, age, ids);
}

/// A restricted license is flagged in words and costs no points.
pub proof fn law_license_flag(p: PackageView, age: Option<int>, ids: Seq<Seq<char>>)
    requires
        p.license is Some,
        restricted_license(p.license->0),
    ensures
        assessment(p, age, ids).warnings.contains(license_warnings(p)[0]),
        forall|l: Seq<char>| #[trigger]
            assessment((PackageView { license: Some(l), ..p }), age, ids).score == assessment(
                p,
                age,
                ids,
            ).score,
{
    let w = assessment(p, age, ids).warnings;
    assert(w[all_warnings(p, age).len() as int] == license_warnings(p)[0]);
}

/// A package without restricted license or advisory is assessed at its plain
/// quality.
pub proof fn law_assessment_of_clean_package(p: PackageView, age: Option<int>)
    requires
        p.license matches Some(l) ==> !restricted_license(l),
    ensures
        assessment(p, age, seq![]) == quality(p, age),
{
    assert(assessment(p, age, seq![]).warnings =~= quality(p, age).warnings);
}

} // verus!
