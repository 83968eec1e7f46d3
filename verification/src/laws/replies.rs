//! Laws of the replies: what the tools say of what was found.

use vstd::prelude::*;
use crate::clock::{age_in_days, Timestamp};
use crate::laws::scoring::{law_assessment, law_every_advisory_is_named};
use crate::laws::texts::law_behind_prefix;
use crate::model::{Ecosystem, PackageView, QualityView, VulnView};
use crate::rank::candidate_keys;
use crate::report::{
    advisories_text, advisory_text, amount, found_text, framed, inspection_text, listing_text,
    nothing_found_text, package_text, plain_version, server_text, servers_listing, servers_text,
};
use crate::score::{assessment, quality};
use crate::sources::mcp::McpServerView;
use crate::text::{decimal, grouped, joined, occurs_in, trimmed};
use crate::tools::{
    advisory_ids, assessments, first_servers, inspection_reply, limit_for, search_reply, shown,
};

verus! {

// --- One package -----------------------------------------------------------

/// A version is shown without one "v" in front.
pub proof fn law_shown_version(s: Seq<char>)
    ensures
        plain_version(seq!['v'] + s) == s,
        s.len() == 0 || s[0] != 'v' ==> plain_version(s) == s,
{
    reveal_strlit("v");
    assert("v"@ =~= seq!['v']);
    law_behind_prefix("v"@, s, s);
}

/// What is said of a package: its place, where it has one, name, version, score
/// and verdict; then, as far as known, description, repository, documentation
/// and page; then the signals and the warnings, where there are any.
pub proof fn law_package_text(rank: nat, p: PackageView, q: QualityView)
    ensures
        ({
            let none = Seq::<char>::empty();
            let place = if rank == 0 {
                p.name
            } else {
                decimal(rank) + ". "@ + p.name
            };
            let version = if p.stable_version is Some {
                p.stable_version->0
            } else if p.latest_version is Some {
                p.latest_version->0
            } else {
                "?"@
            };
            let description = if p.description is Some {
                "   "@ + trimmed(p.description->0) + "\n"@
            } else {
                none
            };
            let repository = if p.repository is Some {
                "   仓库: "@ + p.repository->0 + "\n"@
            } else {
                none
            };
            let documentation = if p.ecosystem == Ecosystem::Rust {
                "   文档: "@ + ("https://docs.rs/"@ + p.name) + "\n"@
            } else if p.ecosystem == Ecosystem::Go {
                "   文档: "@ + ("https://pkg.go.dev/"@ + p.name) + "\n"@
            } else {
                none
            };
            let good = if q.signals.len() > 0 {
                "   优点: "@ + joined(q.signals, "；"@) + "\n"@
            } else {
                none
            };
            let bad = if q.warnings.len() > 0 {
                "   注意: "@ + joined(q.warnings, "；"@) + "\n"@
            } else {
                none
            };
            package_text(rank, p, q) == place + "  v"@ + plain_version(version) + "  | 复用评分 "@
                + decimal(q.score as nat) + "/100  "@ + q.verdict + "\n"@ + description + repository
                + documentation + "   主页: "@ + p.ecosystem.spec_page_url(p.name) + "\n"@ + good
                + bad
        }),
{
}

// --- A search --------------------------------------------------------------

/// A search that found nothing says where and for what; for Python it explains
/// that names are what is searched for.
pub proof fn law_nothing_found(eco: Ecosystem, query: Seq<char>)
    ensures
        eco != Ecosystem::Python ==> nothing_found_text(eco, query) == "在 "@ + eco.spec_label()
            + " 上没有找到匹配 \""@ + query
            + "\" 的包。\n建议：换更通用的英文关键词；确认 ecosystem 选对了；若确实没有现成方案，再自己实现。"@,
        eco == Ecosystem::Python ==> nothing_found_text(eco, query) == "在 "@ + eco.spec_label()
            + " 上没有找到匹配 \""@ + query
            + "\" 的包。\n建议：换更通用的英文关键词；确认 ecosystem 选对了；若确实没有现成方案，再自己实现。"@
            + "\n注意：PyPI 没有公开的关键词搜索 API，本工具按「包名」解析查询。若你已知道包名，请直接用 inspect_package；否则换成确切的包名再试。"@,
{
    reveal_strlit("");
    let s = "在 "@ + eco.spec_label() + " 上没有找到匹配 \""@ + query
        + "\" 的包。\n建议：换更通用的英文关键词；确认 ecosystem 选对了；若确实没有现成方案，再自己实现。"@;
    assert(s + ""@ =~= s);
}

/// A listing goes on with the next candidate, under the next number.
pub proof fn law_listing(
    candidates: Seq<PackageView>,
    qualities: Seq<QualityView>,
    order: Seq<usize>,
    k: usize,
)
    ensures
        listing_text(candidates, qualities, Seq::empty()) == Seq::<char>::empty(),
        listing_text(candidates, qualities, order.push(k)) == listing_text(
            candidates,
            qualities,
            order,
        ) + package_text(
            order.len() + 1,
            candidates[k as int],
            qualities[k as int],
        ) + "\n"@,
{
    assert(order.push(k).drop_last() =~= order);
}

/// The reply to a search says where and for what was searched and how many
/// candidates follow, and lists them.
pub proof fn law_found(
    eco: Ecosystem,
    query: Seq<char>,
    candidates: Seq<PackageView>,
    qualities: Seq<QualityView>,
    order: Seq<usize>,
)
    ensures
        found_text(eco, query, candidates, qualities, order) == "「先查再造」结果：在 "@
            + eco.spec_label() + " 搜索 \""@ + query + "\"，"@ + decimal(order.len())
            + " 个候选（按相关度 + 复用质量综合排序）。\n优先复用得分高、且确实对口的；动手自己写之前，请确认没有更合适的现成包。\n\n"@
            + listing_text(candidates, qualities, order)
            + "提示：用 `inspect_package` 可看某个包的许可证、弃用状态、运行时要求等细节。"@,
{
}

/// A search replies with the best of its candidates, each assessed with its own
/// advisories; without candidates it says that there are none.
pub proof fn law_search_reply(
    eco: Ecosystem,
    query: Seq<char>,
    limit: nat,
    candidates: Seq<PackageView>,
    ids: Seq<Seq<Seq<char>>>,
    now: Timestamp,
    qualities: Seq<QualityView>,
)
    requires
        qualities.len() == candidates.len(),
        forall|i: int|
            0 <= i < candidates.len() ==> #[trigger] qualities[i] == assessment(
                candidates[i],
                age_in_days(candidates[i].updated_at, now),
                ids[i],
            ),
    ensures
        candidates.len() == 0 ==> search_reply(eco, query, limit, candidates, ids, now)
            == nothing_found_text(eco, query),
        candidates.len() > 0 ==> search_reply(eco, query, limit, candidates, ids, now)
            == found_text(
            eco,
            query,
            candidates,
            qualities,
            shown(candidate_keys(query, candidates, qualities), limit),
        ),
{
    assert(assessments(candidates, ids, now) =~= qualities);
}

// --- An inspection ---------------------------------------------------------

/// An inspection says what a package is and what is thought of it; then, as far
/// as known, license, runtime, downloads, stars and last update; then every
/// advisory, and how the package is installed.
pub proof fn law_inspection_text(p: PackageView, q: QualityView, vulns: Seq<VulnView>)
    ensures
        ({
            let none = Seq::<char>::empty();
            let license = if p.license is Some {
                "\n许可证: "@ + p.license->0
            } else {
                none
            };
            let runtime = if p.min_runtime is Some {
                "\n运行时要求: "@ + p.min_runtime->0
            } else {
                none
            };
            let total = if p.total_downloads is Some {
                "\n累计下载: "@ + grouped(decimal(p.total_downloads->0 as nat))
            } else {
                none
            };
            let recent = if p.recent_downloads_90d is Some {
                "\n近90天下载: "@ + grouped(decimal(p.recent_downloads_90d->0 as nat))
            } else {
                none
            };
            let stars = if p.stars is Some {
                "\nGitHub stars: "@ + grouped(decimal(p.stars->0 as nat))
            } else {
                none
            };
            let updated = if p.updated_at is Some {
                "\n最近更新: "@ + p.updated_at->0
            } else {
                none
            };
            inspection_text(p, q, vulns) == "crate-scout 详细评估："@ + p.name + " ("@
                + p.ecosystem.spec_label() + ")\n\n"@ + package_text(0, p, q) + license + runtime
                + total + recent + stars + updated + advisories_text(vulns) + "\n安装: "@
                + p.ecosystem.spec_install_hint(p.name)
        }),
{
    lemma_framed_at_the_end("\n许可证: "@, p.license);
    lemma_framed_at_the_end("\n运行时要求: "@, p.min_runtime);
    lemma_framed_at_the_end("\n累计下载: "@, amount(p.total_downloads));
    lemma_framed_at_the_end("\n近90天下载: "@, amount(p.recent_downloads_90d));
    lemma_framed_at_the_end("\nGitHub stars: "@, amount(p.stars));
    lemma_framed_at_the_end("\n最近更新: "@, p.updated_at);
}

proof fn lemma_framed_at_the_end(before: Seq<char>, o: Option<Seq<char>>)
    ensures
        framed(before, o, ""@) == if o is Some {
            before + o->0
        } else {
            Seq::empty()
        },
{
    reveal_strlit("");
    if let Some(s) = o {
        assert(before + s + ""@ =~= before + s);
    }
}

/// Every advisory has a line, with its severity and its summary where known.
pub proof fn law_advisory_lines(vulns: Seq<VulnView>, v: VulnView)
    ensures
        advisories_text(Seq::empty()) == Seq::<char>::empty(),
        advisories_text(vulns.push(v)) == advisories_text(vulns) + advisory_text(v),
        advisory_text(v) == "\n安全公告: "@ + v.id + (if v.severity is Some {
            " ["@ + v.severity->0 + "]"@
        } else {
            Seq::empty()
        }) + (if v.summary is Some {
            " "@ + trimmed(v.summary->0)
        } else {
            Seq::empty()
        }),
{
    assert(vulns.push(v).drop_last() =~= vulns);
    lemma_framed_at_the_end(" "@, crate::report::tidy(v.summary));
}

/// An inspection assesses a package with every advisory on it: one identifier
/// for each, in order. So any advisory at all takes 40 points off, down to 0,
/// and each is named in the warnings.
pub proof fn law_inspection_counts_every_advisory(
    p: PackageView,
    vulns: Seq<VulnView>,
    now: Timestamp,
    q: QualityView,
)
    requires
        q == assessment(
            p,
            age_in_days(p.updated_at, now),
            Seq::new(vulns.len(), |i: int| vulns[i].id),
        ),
    ensures
        inspection_reply(p, vulns, now) == inspection_text(p, q, vulns),
        advisory_ids(vulns).len() == vulns.len(),
        forall|i: int| 0 <= i < vulns.len() ==> #[trigger] advisory_ids(vulns)[i] == vulns[i].id,
        ({
            let clean = quality(p, age_in_days(p.updated_at, now)).score;
            &&& vulns.len() == 0 ==> q.score == clean
            &&& vulns.len() > 0 && clean >= 40 ==> q.score == clean - 40
            &&& vulns.len() > 0 && clean < 40 ==> q.score == 0
        }),
        forall|i: int|
            0 <= i < vulns.len() ==> occurs_in((#[trigger] vulns[i]).id, q.warnings.last()),
{
    let ids = Seq::new(vulns.len(), |i: int| vulns[i].id);
    let age = age_in_days(p.updated_at, now);
    assert(advisory_ids(vulns) =~= ids);
    law_assessment(p, age, ids);
    assert forall|i: int| 0 <= i < vulns.len() implies occurs_in(
        (#[trigger] vulns[i]).id,
        q.warnings.last(),
    ) by {
        law_every_advisory_is_named(p, age, ids, i);
        assert(ids[i] == vulns[i].id);
    }
}

// --- MCP servers -----------------------------------------------------------

/// A server is told with its number, name, version and status, and, as far as
/// known, description, installation and repository.
pub proof fn law_server_text(rank: nat, v: McpServerView)
    ensures
        ({
            let none = Seq::<char>::empty();
            let version = if v.version is Some {
                "  v"@ + v.version->0
            } else {
                none
            };
            let status = if v.status is Some {
                "  ["@ + v.status->0 + "]"@
            } else {
                none
            };
            let description = if v.description is Some {
                "   "@ + trimmed(v.description->0) + "\n"@
            } else {
                none
            };
            let install = if v.install is Some {
                "   安装: "@ + v.install->0 + "\n"@
            } else {
                none
            };
            let repository = if v.repository is Some {
                "   仓库: "@ + v.repository->0 + "\n"@
            } else {
                none
            };
            server_text(rank, v) == decimal(rank) + ". "@ + v.name + version + status + "\n"@
                + description + install + repository
        }),
{
    lemma_framed_at_the_end("  v"@, v.version);
}

/// A list of servers goes on with the next one, under the next number.
pub proof fn law_server_listing(v: Seq<McpServerView>, x: McpServerView)
    ensures
        servers_listing(Seq::empty()) == Seq::<char>::empty(),
        servers_listing(v.push(x)) == servers_listing(v) + server_text(v.len() + 1, x),
{
    assert(v.push(x).drop_last() =~= v);
}

/// Wherever servers were found, the reply gives their number and lists every one
/// of them, in the registry's order and numbered from 1; that none matches is
/// said exactly where none was found.
pub proof fn law_servers_found(query: Seq<char>, v: Seq<McpServerView>)
    ensures
        ({
            let no_match = "官方 MCP 注册表里没有名字匹配 \""@ + query
                + "\" 的 server。\n注意：注册表只按 server 名称做子串匹配，换更具体的名词（如 postgres、filesystem、github）再试。"@;
            &&& v.len() == 0 <==> servers_text(query, v) == no_match
            &&& v.len() > 0 ==> servers_text(query, v) == "MCP server 搜索结果：\""@ + query
                + "\" 命中 "@ + decimal(v.len())
                + " 个（来自官方 MCP 注册表）。\n自己写 MCP server 前，先看看有没有现成的可用。\n\n"@
                + servers_listing(v)
        }),
        forall|i: int|
            0 <= i < v.len() ==> occurs_in(
                decimal((i + 1) as nat) + ". "@ + (#[trigger] v[i]).name,
                servers_text(query, v),
            ),
{
    reveal_strlit("官方 MCP 注册表里没有名字匹配 \"");
    reveal_strlit("MCP server 搜索结果：\"");
    if v.len() > 0 {
        assert(servers_text(query, v)[0] == 'M');
    } else {
        assert(servers_text(query, v)[0] == '官');
    }
    assert forall|i: int| 0 <= i < v.len() implies occurs_in(
        decimal((i + 1) as nat) + ". "@ + (#[trigger] v[i]).name,
        servers_text(query, v),
    ) by {
        let front = "MCP server 搜索结果：\""@ + query + "\" 命中 "@ + decimal(v.len())
            + " 个（来自官方 MCP 注册表）。\n自己写 MCP server 前，先看看有没有现成的可用。\n\n"@;
        let part = decimal((i + 1) as nat) + ". "@ + v[i].name;
        let (a, b) = lemma_server_is_listed(v, i);
        assert(servers_text(query, v) =~= (front + a) + part + b);
        crate::laws::texts::law_occurrence(front + a, part, b, part);
    }
}

proof fn lemma_server_is_listed(v: Seq<McpServerView>, i: int) -> (r: (Seq<char>, Seq<char>))
    requires
        0 <= i < v.len(),
    ensures
        servers_listing(v) == r.0 + (decimal((i + 1) as nat) + ". "@ + v[i].name) + r.1,
    decreases v.len(),
{
    let head = v.drop_last();
    let last = server_text(v.len(), v.last());
    if i == v.len() - 1 {
        let part = decimal(v.len()) + ". "@ + v.last().name;
        law_server_text(v.len(), v.last());
        let rest = last.skip(part.len() as int);
        assert(last.take(part.len() as int) =~= part);
        assert(last =~= part + rest);
        assert(servers_listing(v) =~= servers_listing(head) + part + rest);
        (servers_listing(head), rest)
    } else {
        let (a, b) = lemma_server_is_listed(head, i);
        let part = decimal((i + 1) as nat) + ". "@ + v[i].name;
        assert(servers_listing(v) =~= a + part + (b + last));
        (a, b + last)
    }
}

/// Of the servers found the first are shown, as many as the limit allows.
pub proof fn law_servers_shown(v: Seq<McpServerView>, limit: nat)
    ensures
        v.len() <= limit ==> first_servers(v, limit) == v,
        v.len() > limit ==> first_servers(v, limit) == v.take(limit as int),
{
}

/// Without a limit 8 results are given; a limit is kept to from 1 to 25.
pub proof fn law_limits(n: u32)
    ensures
        limit_for(None) == 8,
        n == 0 ==> limit_for(Some(n)) == 1,
        1 <= n <= 25 ==> limit_for(Some(n)) == n,
        n > 25 ==> limit_for(Some(n)) == 25,
{
}

} // verus!
