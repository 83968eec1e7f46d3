//! What is found, in words: the texts that the tools reply with.

use vstd::prelude::*;
use vstd::string::*;
use crate::model::{Ecosystem, Package, PackageView, Quality, QualityView, Vuln, VulnView};
use crate::sources::mcp::{McpServer, McpServerView};
use crate::text::{
    after_prefix, behind_prefix, cat, cat3, decimal, decimal_text, fmt_num, grouped, join, joined,
    trim, trimmed,
};

verus! {

// --- Pieces ----------------------------------------------------------------

/// A text between two others, or nothing where there is none.
pub open spec fn framed(before: Seq<char>, o: Option<Seq<char>>, behind: Seq<char>) -> Seq<char> {
    match o {
        Some(s) => before + s + behind,
        None => Seq::empty(),
    }
}

fn frame_text(before: &str, o: &Option<String>, behind: &str) -> (r: String)
    ensures
        r@ == framed(before@, o.deep_view(), behind@),
{
    match o {
        Some(s) => cat3(before, s, behind),
        None => String::new(),
    }
}

/// A text without white space around it, where there is one.
pub open spec fn tidy(o: Option<Seq<char>>) -> Option<Seq<char>> {
    match o {
        Some(s) => Some(trimmed(s)),
        None => None,
    }
}

fn frame_tidy(before: &str, o: &Option<String>, behind: &str) -> (r: String)
    ensures
        r@ == framed(before@, tidy(o.deep_view()), behind@),
{
    match o {
        Some(s) => cat3(before, trim(s), behind),
        None => String::new(),
    }
}

/// Remarks on one line, or nothing where there are none.
pub open spec fn remarks(before: Seq<char>, items: Seq<Seq<char>>) -> Seq<char> {
    if items.len() > 0 {
        before + joined(items, "；"@) + "\n"@
    } else {
        Seq::empty()
    }
}

fn remark_line(before: &str, items: &Vec<String>) -> (r: String)
    ensures
        r@ == remarks(before@, items.deep_view()),
{
    if items.len() > 0 {
        cat3(before, &join(items, "；"), "\n")
    } else {
        String::new()
    }
}

// --- One package -----------------------------------------------------------

/// A version without one "v" in front.
pub open spec fn plain_version(version: Seq<char>) -> Seq<char> {
    match behind_prefix(version, "v"@) {
        Some(s) => s,
        None => version,
    }
}

/// The place in a ranking and the name; the name alone at place 0.
pub open spec fn heading(rank: nat, name: Seq<char>) -> Seq<char> {
    if rank > 0 {
        decimal(rank) + ". "@ + name
    } else {
        name
    }
}

/// A package and what is thought of it.
pub open spec fn package_text(rank: nat, p: PackageView, q: QualityView) -> Seq<char> {
    heading(rank, p.name) + "  v"@ + plain_version(p.display_version()) + "  | 复用评分 "@ + decimal(
        q.score as nat,
    ) + "/100  "@ + q.verdict + "\n"@ + framed("   "@, tidy(p.description), "\n"@) + framed(
        "   仓库: "@,
        p.repository,
        "\n"@,
    ) + framed("   文档: "@, p.ecosystem.spec_docs_url(p.name), "\n"@) + "   主页: "@
        + p.ecosystem.spec_page_url(p.name) + "\n"@ + remarks("   优点: "@, q.signals) + remarks(
        "   注意: "@,
        q.warnings,
    )
}

/// A package and what is thought of it; without a place in a ranking where
/// `rank` is 0.
pub fn render_package(rank: usize, p: &Package, q: &Quality) -> (r: String)
    ensures
        r@ == package_text(rank as nat, p@, q@),
{
    let mut s = if rank > 0 {
        cat3(&decimal_text(rank as u64), ". ", &p.name)
    } else {
        p.name.clone()
    };
    let shown = p.display_version();
    let version = match after_prefix(shown, "v") {
        Some(v) => v,
        None => shown,
    };
    s.append("  v");
    s.append(version);
    s.append("  | 复用评分 ");
    s.append(&decimal_text(q.score as u64));
    s.append("/100  ");
    s.append(q.verdict);
    s.append("\n");
    s.append(&frame_tidy("   ", &p.description, "\n"));
    s.append(&frame_text("   仓库: ", &p.repository, "\n"));
    s.append(&frame_text("   文档: ", &p.ecosystem.docs_url(&p.name), "\n"));
    s.append("   主页: ");
    s.append(&p.ecosystem.page_url(&p.name));
    s.append("\n");
    s.append(&remark_line("   优点: ", &q.signals));
    s.append(&remark_line("   注意: ", &q.warnings));
    s
}

// --- A search --------------------------------------------------------------

/// What is said where a search finds nothing.
pub open spec fn nothing_found_text(eco: Ecosystem, query: Seq<char>) -> Seq<char> {
    "在 "@ + eco.spec_label() + " 上没有找到匹配 \""@ + query
        + "\" 的包。\n建议：换更通用的英文关键词；确认 ecosystem 选对了；若确实没有现成方案，再自己实现。"@
        + if eco == Ecosystem::Python {
        "\n注意：PyPI 没有公开的关键词搜索 API，本工具按「包名」解析查询。若你已知道包名，请直接用 inspect_package；否则换成确切的包名再试。"@
    } else {
        ""@
    }
}

/// What is said where a search finds nothing.
pub fn nothing_found(eco: Ecosystem, query: &str) -> (r: String)
    ensures
        r@ == nothing_found_text(eco, query@),
{
    let mut s = cat3("在 ", eco.label(), " 上没有找到匹配 \"");
    s.append(query);
    s.append(
        "\" 的包。\n建议：换更通用的英文关键词；确认 ecosystem 选对了；若确实没有现成方案，再自己实现。",
    );
    s.append(
        if eco == Ecosystem::Python {
            "\n注意：PyPI 没有公开的关键词搜索 API，本工具按「包名」解析查询。若你已知道包名，请直接用 inspect_package；否则换成确切的包名再试。"
        } else {
            ""
        },
    );
    s
}

/// The candidates at the given positions, numbered from 1.
pub open spec fn listing_text(
    candidates: Seq<PackageView>,
    qualities: Seq<QualityView>,
    order: Seq<usize>,
) -> Seq<char>
    decreases order.len(),
{
    if order.len() == 0 {
        Seq::empty()
    } else {
        listing_text(candidates, qualities, order.drop_last()) + package_text(
            order.len(),
            candidates[order.last() as int],
            qualities[order.last() as int],
        ) + "\n"@
    }
}

/// What is said of the candidates of a search, in the given order.
pub open spec fn found_text(
    eco: Ecosystem,
    query: Seq<char>,
    candidates: Seq<PackageView>,
    qualities: Seq<QualityView>,
    order: Seq<usize>,
) -> Seq<char> {
    "「先查再造」结果：在 "@ + eco.spec_label() + " 搜索 \""@ + query + "\"，"@ + decimal(order.len())
        + " 个候选（按相关度 + 复用质量综合排序）。\n优先复用得分高、且确实对口的；动手自己写之前，请确认没有更合适的现成包。\n\n"@
        + listing_text(candidates, qualities, order)
        + "提示：用 `inspect_package` 可看某个包的许可证、弃用状态、运行时要求等细节。"@
}

fn listing(
    candidates: &Vec<Package>,
    qualities: &Vec<Quality>,
    order: &Vec<usize>,
    shown: usize,
) -> (r: String)
    requires
        candidates.len() == qualities.len(),
        shown <= order.len(),
        forall|i: int| 0 <= i < order.len() ==> (#[trigger] order[i]) < candidates.len(),
    ensures
        r@ == listing_text(
            candidates.deep_view(),
            qualities.deep_view(),
            order@.take(shown as int),
        ),
{
    let mut s = String::new();
    let mut i: usize = 0;
    while i < shown
        invariant
            i <= shown <= order.len(),
            candidates.len() == qualities.len(),
            forall|i: int| 0 <= i < order.len() ==> (#[trigger] order[i]) < candidates.len(),
            s@ == listing_text(
                candidates.deep_view(),
                qualities.deep_view(),
                order@.take(i as int),
            ),
        decreases shown - i,
    {
        let at: usize = order[i];
        let ghost upto = order@.take(i + 1);
        assert(upto.drop_last() =~= order@.take(i as int));
        assert(upto.last() == at);
        assert(candidates.deep_view()[at as int] == candidates[at as int]@);
        assert(qualities.deep_view()[at as int] == qualities[at as int]@);
        s.append(&render_package(i + 1, &candidates[at], &qualities[at]));
        s.append("\n");
        i += 1;
    }
    s
}

/// What is said of the first `shown` candidates in the given order.
pub fn found(
    eco: Ecosystem,
    query: &str,
    candidates: &Vec<Package>,
    qualities: &Vec<Quality>,
    order: &Vec<usize>,
    shown: usize,
) -> (r: String)
    requires
        candidates.len() == qualities.len(),
        shown <= order.len(),
        forall|i: int| 0 <= i < order.len() ==> (#[trigger] order[i]) < candidates.len(),
    ensures
        r@ == found_text(
            eco,
            query@,
            candidates.deep_view(),
            qualities.deep_view(),
            order@.take(shown as int),
        ),
{
    let mut s = cat3("「先查再造」结果：在 ", eco.label(), " 搜索 \"");
    s.append(query);
    s.append("\"，");
    s.append(&decimal_text(shown as u64));
    s.append(
        " 个候选（按相关度 + 复用质量综合排序）。\n优先复用得分高、且确实对口的；动手自己写之前，请确认没有更合适的现成包。\n\n",
    );
    s.append(&listing(candidates, qualities, order, shown));
    s.append("提示：用 `inspect_package` 可看某个包的许可证、弃用状态、运行时要求等细节。");
    s
}

// --- An inspection ---------------------------------------------------------

/// A known advisory, on a line of its own.
pub open spec fn advisory_text(v: VulnView) -> Seq<char> {
    "\n安全公告: "@ + v.id + framed(" ["@, v.severity, "]"@) + framed(" "@, tidy(v.summary), ""@)
}

/// The known advisories, one line each.
pub open spec fn advisories_text(vulns: Seq<VulnView>) -> Seq<char>
    decreases vulns.len(),
{
    if vulns.len() == 0 {
        Seq::empty()
    } else {
        advisories_text(vulns.drop_last()) + advisory_text(vulns.last())
    }
}

fn advisory_lines(vulns: &Vec<Vuln>) -> (r: String)
    ensures
        r@ == advisories_text(vulns.deep_view()),
{
    let mut s = String::new();
    let mut i: usize = 0;
    while i < vulns.len()
        invariant
            i <= vulns.len(),
            s@ == advisories_text(vulns.deep_view().take(i as int)),
        decreases vulns.len() - i,
    {
        let v = &vulns[i];
        let ghost upto = vulns.deep_view().take(i + 1);
        assert(upto.drop_last() =~= vulns.deep_view().take(i as int));
        assert(upto.last() == v@);
        let mut line = cat("\n安全公告: ", &v.id);
        line.append(&frame_text(" [", &v.severity, "]"));
        line.append(&frame_tidy(" ", &v.summary, ""));
        s.append(&line);
        i += 1;
    }
    assert(vulns.deep_view().take(i as int) =~= vulns.deep_view());
    s
}

/// A number with its digits in groups, where there is one.
pub open spec fn amount(n: Option<u64>) -> Option<Seq<char>> {
    match n {
        Some(n) => Some(grouped(decimal(n as nat))),
        None => None,
    }
}

fn amount_text(n: Option<u64>) -> (r: Option<String>)
    ensures
        r.deep_view() == amount(n),
{
    match n {
        Some(n) => Some(fmt_num(n)),
        None => None,
    }
}

/// What is said of one package in depth: besides its quality, the license,
/// runtime requirements, downloads and stars, last update, known advisories and
/// how it is installed, as far as known.
pub open spec fn inspection_text(
    p: PackageView,
    q: QualityView,
    vulns: Seq<VulnView>,
) -> Seq<char> {
    "crate-scout 详细评估："@ + p.name + " ("@ + p.ecosystem.spec_label() + ")\n\n"@ + package_text(
        0,
        p,
        q,
    ) + framed("\n许可证: "@, p.license, ""@) + framed("\n运行时要求: "@, p.min_runtime, ""@) + framed(
        "\n累计下载: "@,
        amount(p.total_downloads),
        ""@,
    ) + framed("\n近90天下载: "@, amount(p.recent_downloads_90d), ""@) + framed(
        "\nGitHub stars: "@,
        amount(p.stars),
        ""@,
    ) + framed("\n最近更新: "@, p.updated_at, ""@) + advisories_text(vulns) + "\n安装: "@ + p.ecosystem.spec_install_hint(p.name)
}

/// What is said of one package in depth.
pub fn inspection(p: &Package, q: &Quality, vulns: &Vec<Vuln>) -> (r: String)
    ensures
        r@ == inspection_text(p@, q@, vulns.deep_view()),
{
    let mut s = cat3("crate-scout 详细评估：", &p.name, " (");
    s.append(p.ecosystem.label());
    s.append(")\n\n");
    s.append(&render_package(0, p, q));
    s.append(&frame_text("\n许可证: ", &p.license, ""));
    s.append(&frame_text("\n运行时要求: ", &p.min_runtime, ""));
    s.append(&frame_text("\n累计下载: ", &amount_text(p.total_downloads), ""));
    s.append(&frame_text("\n近90天下载: ", &amount_text(p.recent_downloads_90d), ""));
    s.append(&frame_text("\nGitHub stars: ", &amount_text(p.stars), ""));
    s.append(&frame_text("\n最近更新: ", &p.updated_at, ""));
    s.append(&advisory_lines(vulns));
    s.append("\n安装: ");
    s.append(&p.ecosystem.install_hint(&p.name));
    s
}

// --- MCP servers -----------------------------------------------------------

/// A server of the MCP registry.
pub open spec fn server_text(rank: nat, v: McpServerView) -> Seq<char> {
    decimal(rank) + ". "@ + v.name + framed("  v"@, v.version, ""@) + framed("  ["@, v.status, "]"@)
        + "\n"@ + framed("   "@, tidy(v.description), "\n"@) + framed(
        "   安装: "@,
        v.install,
        "\n"@,
    ) + framed("   仓库: "@, v.repository, "\n"@)
}

/// A server of the MCP registry, with its place in the list.
pub fn render_server(rank: usize, v: &McpServer) -> (r: String)
    ensures
        r@ == server_text(rank as nat, v@),
{
    let mut s = cat3(&decimal_text(rank as u64), ". ", &v.name);
    s.append(&frame_text("  v", &v.version, ""));
    s.append(&frame_text("  [", &v.status, "]"));
    s.append("\n");
    s.append(&frame_tidy("   ", &v.description, "\n"));
    s.append(&frame_text("   安装: ", &v.install, "\n"));
    s.append(&frame_text("   仓库: ", &v.repository, "\n"));
    s
}

/// Servers of the MCP registry, numbered from 1.
pub open spec fn servers_listing(v: Seq<McpServerView>) -> Seq<char>
    decreases v.len(),
{
    if v.len() == 0 {
        Seq::empty()
    } else {
        servers_listing(v.drop_last()) + server_text(v.len(), v.last())
    }
}

/// What is said of the servers that a search of the MCP registry finds.
pub open spec fn servers_text(query: Seq<char>, v: Seq<McpServerView>) -> Seq<char> {
    if v.len() == 0 {
        "官方 MCP 注册表里没有名字匹配 \""@ + query
            + "\" 的 server。\n注意：注册表只按 server 名称做子串匹配，换更具体的名词（如 postgres、filesystem、github）再试。"@
    } else {
        "MCP server 搜索结果：\""@ + query + "\" 命中 "@ + decimal(v.len())
            + " 个（来自官方 MCP 注册表）。\n自己写 MCP server 前，先看看有没有现成的可用。\n\n"@
            + servers_listing(v)
    }
}

/// What is said of the servers that a search of the MCP registry finds.
pub fn servers(query: &str, v: &Vec<McpServer>) -> (r: String)
    ensures
        r@ == servers_text(query@, v.deep_view()),
{
    if v.len() == 0 {
        return cat3(
            "官方 MCP 注册表里没有名字匹配 \"",
            query,
            "\" 的 server。\n注意：注册表只按 server 名称做子串匹配，换更具体的名词（如 postgres、filesystem、github）再试。",
        );
    }
    let mut list = String::new();
    let mut i: usize = 0;
    while i < v.len()
        invariant
            i <= v.len(),
            list@ == servers_listing(v.deep_view().take(i as int)),
        decreases v.len() - i,
    {
        let ghost upto = v.deep_view().take(i + 1);
        assert(upto.drop_last() =~= v.deep_view().take(i as int));
        assert(upto.last() == v[i as int]@);
        list.append(&render_server(i + 1, &v[i]));
        i += 1;
    }
    assert(v.deep_view().take(i as int) =~= v.deep_view());
    let mut s = cat3("MCP server 搜索结果：\"", query, "\" 命中 ");
    s.append(&decimal_text(v.len() as u64));
    s.append(
        " 个（来自官方 MCP 注册表）。\n自己写 MCP server 前，先看看有没有现成的可用。\n\n",
    );
    s.append(&list);
    s
}

} // verus!
