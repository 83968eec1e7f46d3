//! Laws of the reuse score: what each fact about a package is worth, and in
//! which words it is told.

use vstd::prelude::*;
use crate::clock::{
    age_in_days, latest, law_latest_exists, months_of, rfc3339_instant, timestamp_of, whole_days,
    Timestamp,
};
use crate::laws::texts::{
    law_before_dot, law_behind_prefix, law_joined, law_occurrence, law_strip_end, law_strip_start,
};
use crate::model::{Ecosystem, PackageView};
use crate::score::{
    abbreviates, any_restricted, assessment, days, maintenance, maintenance_signals,
    maintenance_warnings, major, metadata, metadata_warnings, popularity, popularity_signals,
    popularity_warnings, quality, restricted_license, restricted_term, stability,
    stability_signals, stability_warnings, withdrawal_warnings,
};
use crate::text::{
    behind_prefix, decimal, grouped, is_digit, joined, law_decimal_reads_back,
    lemma_decimal_digits, occurs_in, strip_start, terms, trimmed, unsigned_value,
    white_space, Strip,
};

verus! {

// --- The parts of a score --------------------------------------------------

/// The score is the sum of its parts, less 40 for a withdrawn release, cut off at
/// 0; it never comes to more than 100.
pub proof fn law_score_adds_up(p: PackageView, age: Option<int>)
    ensures
        ({
            let sum = popularity(p) + maintenance(age) + stability(p) + metadata(p);
            let rest = if p.deprecated == Some(true) {
                sum - 40
            } else {
                sum
            };
            &&& sum <= 100
            &&& quality(p, age).score == if rest < 0 {
                0
            } else {
                rest
            }
        }),
{
}

/// The remarks on a package are those on its parts, in order.
pub proof fn law_remarks_add_up(p: PackageView, age: Option<int>)
    ensures
        quality(p, age).signals == popularity_signals(p) + maintenance_signals(age)
            + stability_signals(p),
        quality(p, age).warnings == popularity_warnings(p) + maintenance_warnings(age)
            + stability_warnings(p) + metadata_warnings(p) + withdrawal_warnings(p),
{
}

/// Downloads over 90 days, or an eighth of all downloads where those are not
/// known, earn from 2 to 40 points.
pub proof fn law_points_for_downloads(p: PackageView, d: u64)
    requires
        p.recent_downloads_90d == Some(d) || (p.recent_downloads_90d is None
            && p.total_downloads is Some && 8 * d <= p.total_downloads->0 < 8 * d + 8),
    ensures
        5_000_000 <= d ==> popularity(p) == 40,
        500_000 <= d < 5_000_000 ==> popularity(p) == 36,
        100_000 <= d < 500_000 ==> popularity(p) == 30,
        20_000 <= d < 100_000 ==> popularity(p) == 24,
        5_000 <= d < 20_000 ==> popularity(p) == 18,
        1_000 <= d < 5_000 ==> popularity(p) == 12,
        100 <= d < 1_000 ==> popularity(p) == 6,
        d < 100 ==> popularity(p) == 2,
        d >= 100_000 ==> popularity_signals(p) == seq![
            "人气高（近90天约 "@ + grouped(decimal(d as nat)) + " 次下载）"@,
        ],
        d < 100_000 ==> popularity_signals(p).len() == 0,
        d < 1_000 ==> popularity_warnings(p) == seq![
            "下载量偏低（近90天约 "@ + grouped(decimal(d as nat)) + " 次）"@,
        ],
        d >= 1_000 ==> popularity_warnings(p).len() == 0,
{
    if p.recent_downloads_90d is None {
        assert(p.total_downloads->0 / 8 == d);
    }
}

/// Without download numbers GitHub stars earn from 2 to 40 points; without
/// either a package gets 18, and says so.
pub proof fn law_points_for_stars(p: PackageView)
    requires
        p.recent_downloads_90d is None,
        p.total_downloads is None,
    ensures
        p.stars matches Some(s) ==> {
            &&& 20_000 <= s ==> popularity(p) == 40
            &&& 5_000 <= s < 20_000 ==> popularity(p) == 34
            &&& 1_000 <= s < 5_000 ==> popularity(p) == 28
            &&& 200 <= s < 1_000 ==> popularity(p) == 20
            &&& 50 <= s < 200 ==> popularity(p) == 12
            &&& 10 <= s < 50 ==> popularity(p) == 6
            &&& s < 10 ==> popularity(p) == 2
            &&& s >= 1_000 ==> popularity_signals(p) == seq![
                "人气高（GitHub "@ + grouped(decimal(s as nat)) + " stars）"@,
            ]
            &&& s < 1_000 ==> popularity_signals(p).len() == 0
            &&& s < 50 ==> popularity_warnings(p) == seq![
                "关注度偏低（GitHub "@ + grouped(decimal(s as nat)) + " stars）"@,
            ]
            &&& s >= 50 ==> popularity_warnings(p).len() == 0
        },
        p.stars is None ==> popularity(p) == 18 && popularity_signals(p) == seq![
            "（该来源无公开人气数据，人气分按中性计）"@,
        ] && popularity_warnings(p).len() == 0,
{
}

/// An update within 91, 182, 364, 547 or 729 days — 3, 6, 12, 18 and 24 months
/// of 30.4 days — earns 30, 24, 16, 10 or 5 points, an older one none and an
/// unknown one 8.
pub proof fn law_points_for_updates(d: int)
    ensures
        d <= 91 ==> maintenance(Some(d)) == 30,
        91 < d <= 182 ==> maintenance(Some(d)) == 24,
        182 < d <= 364 ==> maintenance(Some(d)) == 16,
        364 < d <= 547 ==> maintenance(Some(d)) == 10,
        547 < d <= 729 ==> maintenance(Some(d)) == 5,
        729 < d ==> maintenance(Some(d)) == 0,
        maintenance(None) == 8,
        d <= 91 ==> maintenance_signals(Some(d)) == seq!["维护活跃（近 3 个月内有更新）"@],
        d > 91 ==> maintenance_signals(Some(d)).len() == 0,
        maintenance_signals(None).len() == 0,
        d <= 364 ==> maintenance_warnings(Some(d)).len() == 0,
        364 < d <= 547 ==> maintenance_warnings(Some(d)) == seq![
            "已约 "@ + decimal(months_of(d as nat)) + " 个月未更新"@,
        ],
        547 < d <= 729 ==> maintenance_warnings(Some(d)) == seq![
            "已约 "@ + decimal(months_of(d as nat)) + " 个月未更新，维护存疑"@,
        ],
        729 < d ==> maintenance_warnings(Some(d)) == seq![
            "已约 "@ + decimal(months_of(d as nat)) + " 个月未更新，疑似停止维护"@,
        ],
        maintenance_warnings(None).len() == 0,
{
}

/// A stable version whose major number, behind white space and any "v", is 1 or
/// more earns 15 points and is named; major number 0 earns 9 and a warning. A
/// hyphen in the latest version costs 6 points and is told.
pub proof fn law_points_for_stable_versions(
    p: PackageView,
    age: Option<int>,
    white: Seq<char>,
    vs: Seq<char>,
    m: u64,
    rest: Seq<char>,
)
    requires
        p.stable_version == Some(white + vs + decimal(m as nat) + rest),
        forall|i: int| 0 <= i < white.len() ==> white_space(#[trigger] white[i]),
        forall|i: int| 0 <= i < vs.len() ==> #[trigger] vs[i] == 'v' || vs[i] == 'V',
        rest.len() > 0 ==> rest[0] == '.',
    ensures
        ({
            let hyphen = p.latest_version is Some && p.latest_version->0.contains('-');
            let cost = if hyphen {
                6int
            } else {
                0
            };
            &&& m >= 1 ==> {
                &&& stability(p) == 15 - cost
                &&& stability_signals(p) == seq!["已发布稳定版 v"@ + decimal(m as nat) + ".x"@]
                &&& quality(p, age).signals.contains("已发布稳定版 v"@ + decimal(m as nat) + ".x"@)
                &&& stability_warnings(p).len() == if hyphen {
                    1int
                } else {
                    0
                }
                &&& !quality(p, age).warnings.contains("仍是 0.x 版本，API 可能有破坏性变更"@)
            }
            &&& m == 0 ==> {
                &&& stability(p) == 9 - cost
                &&& stability_signals(p).len() == 0
                &&& stability_warnings(p).len() == if hyphen {
                    2int
                } else {
                    1
                }
                &&& stability_warnings(p)[0] == "仍是 0.x 版本，API 可能有破坏性变更"@
                &&& quality(p, age).warnings.contains("仍是 0.x 版本，API 可能有破坏性变更"@)
            }
            &&& hyphen ==> stability_warnings(p).last() == "最新版 "@ + p.latest_version->0
                + " 是预发布版（alpha/beta/rc）"@
        }),
{
    let number = decimal(m as nat);
    lemma_decimal_digits(m as nat);
    law_decimal_reads_back(m);
    assert(is_digit(number[0]) && is_digit(number[number.len() - 1]));
    assert forall|i: int| 0 <= i < number.len() implies number[i] != '.' by {
        assert(is_digit(number[i]));
    }
    law_major_number(white, vs, number, rest);
    let q = quality(p, age);
    if m >= 1 {
        let front = popularity_signals(p) + maintenance_signals(age);
        assert(q.signals[front.len() as int] == stability_signals(p)[0]);
        reveal_strlit("仍是 0.x 版本，API 可能有破坏性变更");
        reveal_strlit("下载量偏低（近90天约 ");
        reveal_strlit("关注度偏低（GitHub ");
        reveal_strlit("已约 ");
        reveal_strlit("最新版 ");
        reveal_strlit("未提供源码仓库链接");
        reveal_strlit("⚠️ 最新版本已被 ");
        assert forall|i: int| 0 <= i < q.warnings.len() implies #[trigger] q.warnings[i]
            != "仍是 0.x 版本，API 可能有破坏性变更"@ by {
            assert(q.warnings[i][0] != '仍');
        }
    } else {
        let front = popularity_warnings(p) + maintenance_warnings(age);
        assert(q.warnings[front.len() as int] == stability_warnings(p)[0]);
    }
}

/// The major number of a version is what stands behind white space and any "v",
/// up to a dot or the end, read as a number.
pub proof fn law_major_number(white: Seq<char>, vs: Seq<char>, x: Seq<char>, rest: Seq<char>)
    requires
        forall|i: int| 0 <= i < white.len() ==> white_space(#[trigger] white[i]),
        forall|i: int| 0 <= i < vs.len() ==> #[trigger] vs[i] == 'v' || vs[i] == 'V',
        x.len() > 0,
        !white_space(x[0]) && x[0] != 'v' && x[0] != 'V',
        !white_space(x.last()),
        !x.contains('.'),
        rest.len() > 0 ==> rest[0] == '.',
    ensures
        major(white + vs + x + rest) == unsigned_value(x),
{
    let all = white + vs + x + rest;
    let a = law_strip_start(all, Strip::White);
    let start = white.len() as int;
    assert(all[start] == if vs.len() > 0 { vs[0] } else { x[0] });
    if a < start {
        assert(all[a] == white[a]);
    }
    assert(a == start);
    let mid = vs + x + rest;
    assert(strip_start(all, Strip::White) =~= mid);
    let b = law_strip_end(mid, Strip::White);
    let n = vs.len() + x.len();
    assert(mid[n - 1] == x.last());
    assert(b >= n);
    let tail = rest.take(b - n);
    let text = vs + x + tail;
    assert(trimmed(all) =~= text);
    let c = law_strip_start(text, Strip::AnyV);
    assert(text[vs.len() as int] == x[0]);
    if c < vs.len() {
        assert(text[c] == vs[c]);
    }
    assert(c == vs.len());
    assert(strip_start(text, Strip::AnyV) =~= x + tail);
    if tail.len() > 0 {
        law_before_dot(x, tail.drop_first());
        assert(x + tail =~= x + seq!['.'] + tail.drop_first());
    } else {
        law_before_dot(x, tail);
        assert(x + tail =~= x);
    }
}

/// Stability goes by the major number of the stable version alone: 15 points
/// where it reads as 1 or more, 9 where it reads as 0 or not at all.
pub proof fn law_stability_goes_by_the_major_number(
    p: PackageView,
    white: Seq<char>,
    vs: Seq<char>,
    x: Seq<char>,
    rest: Seq<char>,
)
    requires
        p.stable_version == Some(white + vs + x + rest),
        forall|i: int| 0 <= i < white.len() ==> white_space(#[trigger] white[i]),
        forall|i: int| 0 <= i < vs.len() ==> #[trigger] vs[i] == 'v' || vs[i] == 'V',
        x.len() > 0,
        !white_space(x[0]) && x[0] != 'v' && x[0] != 'V',
        !white_space(x.last()),
        !x.contains('.'),
        rest.len() > 0 ==> rest[0] == '.',
    ensures
        ({
            let cost = if p.latest_version is Some && p.latest_version->0.contains('-') {
                6int
            } else {
                0
            };
            &&& unsigned_value(x) is Some && unsigned_value(x)->0 >= 1 ==> stability(p) == 15 - cost
                && stability_signals(p) == seq![
                "已发布稳定版 v"@ + decimal(unsigned_value(x)->0 as nat) + ".x"@,
            ]
            &&& unsigned_value(x) is None || unsigned_value(x)->0 == 0 ==> stability(p) == 9 - cost
                && stability_signals(p).len() == 0 && stability_warnings(p)[0]
                == "仍是 0.x 版本，API 可能有破坏性变更"@
        }),
{
    law_major_number(white, vs, x, rest);
}

/// A package without a stable version, or with one that is no number behind
/// white space and any "v", is treated as one below 1.0.
pub proof fn law_points_without_stable_version(
    p: PackageView,
    white: Seq<char>,
    vs: Seq<char>,
    c: char,
    rest: Seq<char>,
)
    requires
        p.stable_version is None || (p.stable_version == Some(white + vs + seq![c] + rest)
            && !white_space(c) && c != 'v' && c != 'V' && c != '+' && !('0' <= c <= '9')),
        forall|i: int| 0 <= i < white.len() ==> white_space(#[trigger] white[i]),
        forall|i: int| 0 <= i < vs.len() ==> #[trigger] vs[i] == 'v' || vs[i] == 'V',
    ensures
        ({
            let hyphen = p.latest_version is Some && p.latest_version->0.contains('-');
            &&& stability(p) == if hyphen {
                3int
            } else {
                9
            }
            &&& stability_warnings(p).len() == if hyphen {
                2int
            } else {
                1
            }
            &&& hyphen ==> stability_warnings(p).last() == "最新版 "@ + p.latest_version->0
                + " 是预发布版（alpha/beta/rc）"@
        }),
        stability_signals(p).len() == 0,
        stability_warnings(p)[0] == "仍是 0.x 版本，API 可能有破坏性变更"@,
{
    if p.stable_version is Some {
        let all = white + vs + seq![c] + rest;
        let a = law_strip_start(all, Strip::White);
        let start = white.len() as int;
        assert(all[start] == if vs.len() > 0 { vs[0] } else { c });
        if a < start {
            assert(all[a] == white[a]);
        }
        let mid = vs + seq![c] + rest;
        assert(strip_start(all, Strip::White) =~= mid);
        let b = law_strip_end(mid, Strip::White);
        assert(mid[vs.len() as int] == c);
        assert(b > vs.len());
        let text = mid.take(b);
        assert(trimmed(all) =~= text);
        let k = law_strip_start(text, Strip::AnyV);
        assert(text[vs.len() as int] == c);
        if k < vs.len() {
            assert(text[k] == vs[k]);
        }
        assert(k == vs.len());
        let t = strip_start(text, Strip::AnyV);
        assert(t[0] == c);
        let d = crate::text::before_dot(t);
        if c == '.' {
            assert(d.len() == 0);
        } else {
            assert(d[0] == c);
            assert(crate::text::without_plus(d) == d);
            assert(!is_digit(d[0]));
        }
        assert(major(all) is None);
    }
}

/// A repository earns 7 points, a homepage or generated documentation 4, a
/// license 4; a missing repository is told.
pub proof fn law_points_for_metadata(p: PackageView)
    ensures
        metadata(p) == (if p.repository is Some {
            7int
        } else {
            0
        }) + (if p.homepage is Some || p.ecosystem == Ecosystem::Rust || p.ecosystem
            == Ecosystem::Go {
            4int
        } else {
            0
        }) + (if p.license is Some {
            4int
        } else {
            0
        }),
        p.repository is Some ==> metadata_warnings(p).len() == 0,
        p.repository is None ==> metadata_warnings(p) == seq!["未提供源码仓库链接"@],
{
}

/// A withdrawn latest release is told in the ecosystem's own term, and no other
/// is.
pub proof fn law_withdrawal_is_told(p: PackageView)
    ensures
        p.deprecated != Some(true) ==> withdrawal_warnings(p).len() == 0,
        p.deprecated == Some(true) && (p.ecosystem == Ecosystem::Rust || p.ecosystem
            == Ecosystem::Python) ==> withdrawal_warnings(p) == seq![
            "⚠️ 最新版本已被 "@ + "yank（撤回）"@ + "，不要直接依赖"@,
        ],
        p.deprecated == Some(true) && (p.ecosystem == Ecosystem::Npm || p.ecosystem
            == Ecosystem::Go || p.ecosystem == Ecosystem::Maven) ==> withdrawal_warnings(p) == seq![
            "⚠️ 最新版本已被 "@ + "deprecated（弃用）"@ + "，不要直接依赖"@,
        ],
        p.deprecated == Some(true) && p.ecosystem == Ecosystem::Nuget ==> withdrawal_warnings(p)
            == seq!["⚠️ 最新版本已被 "@ + "deprecated/unlisted（弃用）"@ + "，不要直接依赖"@],
{
}

/// What a score means: 78 and up, 58 to 77, 38 to 57, below 38.
pub proof fn law_verdicts(p: PackageView, age: Option<int>, ids: Seq<Seq<char>>)
    ensures
        ({
            let q = quality(p, age);
            &&& 78 <= q.score <= 100 ==> q.verdict == "✅ 强烈推荐复用"@
            &&& 58 <= q.score <= 77 ==> q.verdict == "🟡 可用，但留意下方提示"@
            &&& 38 <= q.score <= 57 ==> q.verdict == "🟠 谨慎，建议对比替代方案"@
            &&& q.score <= 37 ==> q.verdict == "🔴 不建议，优先找更成熟的替代"@
        }),
        ({
            let q = assessment(p, age, ids);
            &&& 78 <= q.score <= 100 ==> q.verdict == "✅ 强烈推荐复用"@
            &&& 58 <= q.score <= 77 ==> q.verdict == "🟡 可用，但留意下方提示"@
            &&& 38 <= q.score <= 57 ==> q.verdict == "🟠 谨慎，建议对比替代方案"@
            &&& q.score <= 37 ==> q.verdict == "🔴 不建议，优先找更成熟的替代"@
        }),
{
}

// --- Advisories and licenses -----------------------------------------------

/// An assessment keeps the score and the remarks of a package, takes 40 points
/// off for advisories, down to 0, and adds a warning for a restricted license
/// and one that names the advisories.
pub proof fn law_assessment(p: PackageView, age: Option<int>, ids: Seq<Seq<char>>)
    ensures
        ({
            let plain = quality(p, age);
            let a = assessment(p, age, ids);
            &&& a.signals == plain.signals
            &&& a.score == if ids.len() == 0 {
                plain.score
            } else if plain.score >= 40 {
                plain.score - 40
            } else {
                0
            }
            &&& a.warnings == plain.warnings + (if p.license is Some && restricted_license(
                p.license->0,
            ) {
                seq![
                    "许可证 "@ + p.license->0 + " 属于 copyleft/商用受限许可，使用前请确认合规"@,
                ]
            } else {
                seq![]
            }) + (if ids.len() > 0 {
                seq!["⚠️ 存在已知安全漏洞: "@ + joined(ids, "、"@) + "，请升级或更换"@]
            } else {
                seq![]
            })
        }),
{
    crate::score::law_score_range(p, age, ids);
}

/// Every advisory is named in the last warning.
pub proof fn law_every_advisory_is_named(
    p: PackageView,
    age: Option<int>,
    ids: Seq<Seq<char>>,
    i: int,
)
    requires
        0 <= i < ids.len(),
    ensures
        occurs_in(ids[i], assessment(p, age, ids).warnings.last()),
{
    law_assessment(p, age, ids);
    let (a, b) = lemma_joined_around(ids, "、"@, i);
    let front = "⚠️ 存在已知安全漏洞: "@;
    let behind = "，请升级或更换"@;
    let w = assessment(p, age, ids).warnings.last();
    assert(w == front + joined(ids, "、"@) + behind);
    assert(w =~= (front + a) + ids[i] + (b + behind));
    law_occurrence(front + a, ids[i], b + behind, w);
}

/// What stands before and behind one of several joined texts.
pub(crate) proof fn lemma_joined_around(v: Seq<Seq<char>>, sep: Seq<char>, i: int) -> (r: (
    Seq<char>,
    Seq<char>,
))
    requires
        0 <= i < v.len(),
    ensures
        joined(v, sep) == r.0 + v[i] + r.1,
    decreases v.len(),
{
    let head = v.drop_last();
    assert(head.push(v.last()) =~= v);
    let none = Seq::<char>::empty();
    if head.len() == 0 {
        assert(v =~= seq![v[0]]);
        law_joined(head, v[0], sep);
        assert(joined(v, sep) =~= none + v[i] + none);
        (none, none)
    } else {
        law_joined(head, v.last(), sep);
        if i == v.len() - 1 {
            assert(joined(v, sep) =~= (joined(head, sep) + sep) + v[i] + none);
            (joined(head, sep) + sep, none)
        } else {
            let (a, b) = lemma_joined_around(head, sep, i);
            assert(joined(v, sep) =~= a + v[i] + (b + sep + v.last()));
            (a, b + sep + v.last())
        }
    }
}

/// The abbreviations of restricted licenses, alone or with a digit or a "v"
/// behind them, and nothing else, are restricted terms.
pub proof fn law_restricted_abbreviations(t: Seq<char>)
    ensures
        restricted_term(t) <==> {
            ||| t.len() >= 3 && (t.take(3) == "gpl"@ || t.take(3) == "mpl"@) && (t.len() == 3 || '0'
                <= t[3] <= '9' || t[3] == 'v')
            ||| t.len() >= 4 && (t.take(4) == "agpl"@ || t.take(4) == "lgpl"@ || t.take(4)
                == "sspl"@ || t.take(4) == "busl"@) && (t.len() == 4 || '0' <= t[4] <= '9' || t[4]
                == 'v')
        },
{
    reveal_strlit("gpl");
    reveal_strlit("mpl");
    reveal_strlit("agpl");
    reveal_strlit("lgpl");
    reveal_strlit("sspl");
    reveal_strlit("busl");
    lemma_abbreviation(t, "gpl"@);
    lemma_abbreviation(t, "mpl"@);
    lemma_abbreviation(t, "agpl"@);
    lemma_abbreviation(t, "lgpl"@);
    lemma_abbreviation(t, "sspl"@);
    lemma_abbreviation(t, "busl"@);
}

proof fn lemma_abbreviation(t: Seq<char>, name: Seq<char>)
    ensures
        abbreviates(t, name) <==> {
            let n = name.len() as int;
            t.len() >= n && t.take(n) == name && (t.len() == n || '0' <= t[n] <= '9' || t[n] == 'v')
        },
{
    let n = name.len() as int;
    if t.len() >= n && t.take(n) == name {
        assert(t =~= name + t.skip(n));
        law_behind_prefix(name, t.skip(n), t);
    } else if behind_prefix(t, name) is Some {
        law_behind_prefix(name, t, t);
        assert(t.take(n) =~= name);
    }
}

/// A license is restricted wherever one of its terms is, or where its terms
/// spell out the name of one, whatever stands before and behind.
pub proof fn law_restricted_names(
    license: Seq<char>,
    a: Seq<Seq<char>>,
    t: Seq<char>,
    b: Seq<Seq<char>>,
)
    requires
        terms(license, 2) == a + seq![t] + b || terms(license, 2) == a + seq![
            "general"@,
            "public"@,
            t,
        ] + b || terms(license, 2) == a + seq!["mozilla"@, "public"@, t] + b || terms(license, 2)
            == a + seq!["business"@, "source"@, t] + b || terms(license, 2) == a + seq![
            "server"@,
            "side"@,
            "public"@,
            t,
        ] + b,
    ensures
        restricted_term(t) ==> restricted_license(license),
        terms(license, 2).len() > (a + b).len() + 1 && "licen"@.is_prefix_of(t)
            ==> restricted_license(license),
{
    let v = terms(license, 2);
    let n = a.len() as int;
    let last = v.len() - b.len() - 1;
    assert(v[last] == t);
    if "licen"@.is_prefix_of(t) && v.len() > a.len() + b.len() + 1 {
        if v == a + seq!["server"@, "side"@, "public"@, t] + b {
            assert(v[n] == "server"@ && v[n + 1] == "side"@ && v[n + 2] == "public"@);
        } else {
            assert(v.len() == a.len() + 3 + b.len());
            assert(v[n + 2] == t);
            if v == a + seq!["general"@, "public"@, t] + b {
                assert(v[n] == "general"@ && v[n + 1] == "public"@);
            } else if v == a + seq!["mozilla"@, "public"@, t] + b {
                assert(v[n] == "mozilla"@ && v[n + 1] == "public"@);
            } else {
                assert(v[n] == "business"@ && v[n + 1] == "source"@);
            }
        }
        assert(crate::score::spelled_out(v, n));
        assert(any_restricted(v));
    }
}

/// A restricted license has a restricted term, or the word "license" behind the
/// words of one of four names.
pub proof fn law_only_restricted_names(license: Seq<char>)
    requires
        restricted_license(license),
    ensures
        ({
            let v = terms(license, 2);
            exists|i: int|
                0 <= i < v.len() && {
                    ||| restricted_term(#[trigger] v[i])
                    ||| "licen"@.is_prefix_of(v[i]) && i >= 2 && v[i - 2] == "general"@ && v[i - 1]
                        == "public"@
                    ||| "licen"@.is_prefix_of(v[i]) && i >= 2 && v[i - 2] == "mozilla"@ && v[i - 1]
                        == "public"@
                    ||| "licen"@.is_prefix_of(v[i]) && i >= 2 && v[i - 2] == "business"@ && v[i - 1]
                        == "source"@
                    ||| "licen"@.is_prefix_of(v[i]) && i >= 3 && v[i - 3] == "server"@ && v[i - 2]
                        == "side"@ && v[i - 1] == "public"@
                }
        }),
{
    let v = terms(license, 2);
    let i = choose|i: int|
        0 <= i < v.len() && (restricted_term(#[trigger] v[i]) || crate::score::spelled_out(v, i));
    if !restricted_term(v[i]) {
        if crate::score::license_word(v, i + 2) && v[i] != "server"@ {
            assert(v[i + 2] == v[i + 2]);
            let k = i + 2;
            assert(v[k - 2] == v[i] && v[k - 1] == v[i + 1]);
        } else if v[i] == "server"@ && crate::score::license_word(v, i + 3) && v[i + 1] == "side"@
            && v[i + 2] == "public"@ {
            let k = i + 3;
            assert("licen"@.is_prefix_of(v[k]));
        } else {
            let k = i + 2;
            assert("licen"@.is_prefix_of(v[k]));
            assert(v[k - 2] == v[i] && v[k - 1] == v[i + 1]);
        }
    }
}

// --- Time ------------------------------------------------------------------

/// Days are counted whole, of 86400 seconds each, towards zero, and as many back
/// as forth.
pub proof fn law_whole_days(later: Timestamp, earlier: Timestamp)
    ensures
        ({
            let d = whole_days(later, earlier);
            let n = (later.secs - earlier.secs) * 1_000_000_000 + (later.nanos - earlier.nanos);
            &&& n >= 0 ==> d * 86_400_000_000_000 <= n < (d + 1) * 86_400_000_000_000
            &&& n < 0 ==> (d - 1) * 86_400_000_000_000 < n <= d * 86_400_000_000_000
            &&& whole_days(earlier, later) == -d
        }),
{
    assert(later@ - earlier@ == (later.secs - earlier.secs) * 1_000_000_000 + (later.nanos
        - earlier.nanos));
}

/// The age of a package is counted from the date that it names, where that is a
/// date; an age in 64 bits stands for itself.
pub proof fn law_age(s: Seq<char>, now: Timestamp, d: i64)
    ensures
        rfc3339_instant(s) matches Some(t) ==> age_in_days(Some(s), now) == Some(
            whole_days(now, (Timestamp { secs: t.0, nanos: t.1 })),
        ),
        rfc3339_instant(s) is None ==> age_in_days(Some(s), now) is None,
        age_in_days(None, now) is None,
        timestamp_of(s) is Some <==> rfc3339_instant(s) is Some,
        timestamp_of(s) matches Some(t) ==> rfc3339_instant(s) == Some((t.secs, t.nanos)),
        days(Some(d)) == Some(d as int),
        days(None) is None,
{
}

/// Of several points in time the latest is known where any is; none comes after
/// it, and those as late stand behind it.
pub proof fn law_latest_time(times: Seq<Option<Timestamp>>, i: int)
    requires
        0 <= i < times.len(),
    ensures
        ({
            let at = latest(times);
            &&& 0 <= at < times.len()
            &&& times[i] is Some ==> times[at] is Some
            &&& times[i] is Some ==> times[i]->0.secs * 1_000_000_000 + times[i]->0.nanos
                <= times[at]->0.secs * 1_000_000_000 + times[at]->0.nanos
            &&& i < at && times[i] is Some ==> times[i]->0.secs * 1_000_000_000 + times[i]->0.nanos
                < times[at]->0.secs * 1_000_000_000 + times[at]->0.nanos
            &&& times[at] is None ==> at == 0
        }),
{
    law_latest_exists(times);
    let at = latest(times);
    assert(crate::clock::comes_after(times[i], times[at]) ==> false);
    if times[at] is None && at > 0 {
        assert(crate::clock::comes_after(times[at], times[0]));
    }
}

/// A number of months is the nearest to the days, of 30.4 days each; of two that
/// are as near, the even one.
pub proof fn law_nearest_month(days: nat)
    ensures
        ({
            let off = 10 * days - 304 * months_of(days);
            &&& -152 <= off <= 152
            &&& off == 152 || off == -152 ==> months_of(days) % 2 == 0
        }),
{
}

} // verus!
