use dep_scout::clock::Timestamp;
use dep_scout::model::{Ecosystem, Package, Quality, Vuln};
use dep_scout::report::{nothing_found, render_package, render_server, servers};
use dep_scout::sources::mcp::McpServer;
use dep_scout::sources::osv::{OsvBatchResp, OsvBatchResult, OsvBatchVuln};
use dep_scout::tools::{
    effective_limit, FindMcpServers, FindPackages, InspectPackage, ToolError,
};

fn text(s: &str) -> Option<String> {
    Some(s.to_string())
}

fn now() -> Timestamp {
    Timestamp::parse("2024-02-01T00:00:00Z").unwrap()
}

fn candidate(name: &str, downloads: u64) -> Package {
    let mut p = Package::new(Ecosystem::Npm, name.to_string());
    p.recent_downloads_90d = Some(downloads);
    p.updated_at = text("2024-01-01T00:00:00Z");
    p.latest_version = text("2.0.0");
    p.stable_version = text("2.0.0");
    p.repository = text("https://r");
    p.homepage = text("https://h");
    p.license = text("MIT");
    p
}

#[test]
fn a_package_in_words() {
    let mut p = Package::new(Ecosystem::Rust, "serde".to_string());
    p.stable_version = text("v1.0.0");
    p.description = text("  Serialisation \n");
    p.repository = text("https://github.com/serde-rs/serde");
    let q = Quality {
        score: 91,
        verdict: "✅ 强烈推荐复用",
        signals: vec!["a".to_string(), "b".to_string()],
        warnings: vec!["c".to_string()],
    };
    assert_eq!(
        render_package(3, &p, &q),
        "3. serde  v1.0.0  | 复用评分 91/100  ✅ 强烈推荐复用\n   Serialisation\n   仓库: https://github.com/serde-rs/serde\n   文档: https://docs.rs/serde\n   主页: https://crates.io/crates/serde\n   优点: a；b\n   注意: c\n"
    );
    let bare = Package::new(Ecosystem::Npm, "x".to_string());
    let q = Quality { score: 0, verdict: "w", signals: Vec::new(), warnings: Vec::new() };
    assert_eq!(
        render_package(0, &bare, &q),
        "x  v?  | 复用评分 0/100  w\n   主页: https://www.npmjs.com/package/x\n"
    );
}

#[test]
fn only_one_v_is_dropped_from_a_version() {
    let mut p = Package::new(Ecosystem::Npm, "x".to_string());
    p.latest_version = text("vv1");
    let q = Quality { score: 0, verdict: "w", signals: Vec::new(), warnings: Vec::new() };
    assert!(render_package(0, &p, &q).starts_with("x  vv1  |"));
}

#[test]
fn limits() {
    assert_eq!(effective_limit(None), 8);
    assert_eq!(effective_limit(Some(0)), 1);
    assert_eq!(effective_limit(Some(1)), 1);
    assert_eq!(effective_limit(Some(25)), 25);
    assert_eq!(effective_limit(Some(26)), 25);
    assert_eq!(effective_limit(Some(u32::MAX)), 25);
}

#[test]
fn blank_arguments_are_refused() {
    let e = FindPackages::new(Ecosystem::Rust, " \t ", None).unwrap_err();
    assert!(matches!(e, ToolError::InvalidParams(_)));
    assert_eq!(e.message(), "query must not be empty");
    let e = InspectPackage::new(Ecosystem::Rust, "").unwrap_err();
    assert!(matches!(e, ToolError::InvalidParams(_)));
    assert_eq!(e.message(), "name must not be empty");
    let e = FindMcpServers::new("\u{3000}", Some(3)).unwrap_err();
    assert!(matches!(e, ToolError::InvalidParams(_)));
    assert_eq!(e.message(), "query must not be empty");
}

#[test]
fn arguments_are_trimmed() {
    let f = FindPackages::new(Ecosystem::Go, " http router ", Some(99)).unwrap();
    assert_eq!((f.query.as_str(), f.limit, f.ecosystem), ("http router", 25, Ecosystem::Go));
    let i = InspectPackage::new(Ecosystem::Npm, " react\n").unwrap();
    assert_eq!(i.name, "react");
    let m = FindMcpServers::new(" postgres", None).unwrap();
    assert_eq!((m.query.as_str(), m.limit), ("postgres", 8));
}

#[test]
fn failed_requests_are_reported() {
    let f = FindPackages::new(Ecosystem::Go, "x", None).unwrap();
    let e = f.reply(Err("timed out".to_string()), None, now()).unwrap_err();
    assert!(matches!(e, ToolError::Internal(_)));
    assert_eq!(e.message(), "search failed: timed out");
    let i = InspectPackage::new(Ecosystem::Npm, "react").unwrap();
    let e = i.reply(Err("404".to_string()), &Vec::new(), now()).unwrap_err();
    assert!(matches!(e, ToolError::Internal(_)));
    assert_eq!(e.message(), "could not fetch 'react': 404");
    let m = FindMcpServers::new("x", None).unwrap();
    let e = m.reply(Err("offline".to_string())).unwrap_err();
    assert!(matches!(e, ToolError::Internal(_)));
    assert_eq!(e.message(), "MCP registry search failed: offline");
}

#[test]
fn searches_that_find_nothing() {
    let f = FindPackages::new(Ecosystem::Rust, "zzz", None).unwrap();
    let plain = "在 Rust · crates.io 上没有找到匹配 \"zzz\" 的包。\n建议：换更通用的英文关键词；确认 ecosystem 选对了；若确实没有现成方案，再自己实现。";
    assert_eq!(f.reply(Ok(Vec::new()), None, now()).unwrap(), plain);
    assert_eq!(
        nothing_found(Ecosystem::Python, "zzz"),
        "在 Python · PyPI 上没有找到匹配 \"zzz\" 的包。\n建议：换更通用的英文关键词；确认 ecosystem 选对了；若确实没有现成方案，再自己实现。\n注意：PyPI 没有公开的关键词搜索 API，本工具按「包名」解析查询。若你已知道包名，请直接用 inspect_package；否则换成确切的包名再试。"
    );
}

#[test]
fn the_reply_to_a_search() {
    let f = FindPackages::new(Ecosystem::Npm, "date picker", Some(1)).unwrap();
    let mut best = candidate("picker", 200_000);
    best.description = text("a date picker");
    let reply = f.reply(Ok(vec![candidate("zz", 150), best]), None, now()).unwrap();
    assert_eq!(
        reply,
        "「先查再造」结果：在 JS/TS · npm 搜索 \"date picker\"，1 个候选（按相关度 + 复用质量综合排序）。\n优先复用得分高、且确实对口的；动手自己写之前，请确认没有更合适的现成包。\n\n1. picker  v2.0.0  | 复用评分 90/100  ✅ 强烈推荐复用\n   a date picker\n   仓库: https://r\n   主页: https://www.npmjs.com/package/picker\n   优点: 人气高（近90天约 200,000 次下载）；维护活跃（近 3 个月内有更新）；已发布稳定版 v2.x\n\n提示：用 `inspect_package` 可看某个包的许可证、弃用状态、运行时要求等细节。"
    );
}

fn places(reply: &str, names: &[&str]) -> Vec<Option<usize>> {
    names
        .iter()
        .map(|n| (1..30).find(|i| reply.contains(&format!("{i}. {n}  v"))))
        .collect()
}

#[test]
fn advisories_derank_a_candidate() {
    let f = FindPackages::new(Ecosystem::Npm, "thing", None).unwrap();
    let found = || vec![candidate("aa", 200_000), candidate("bb", 200_000), candidate("cc", 200_000)];
    let reply = f.reply(Ok(found()), None, now()).unwrap();
    assert_eq!(places(&reply, &["aa", "bb", "cc"]), vec![Some(1), Some(2), Some(3)]);
    let results = vec![
        OsvBatchResult { vulns: vec![OsvBatchVuln { id: "GHSA-9".to_string() }] },
        OsvBatchResult { vulns: Vec::new() },
        OsvBatchResult { vulns: Vec::new() },
    ];
    let reply = f.reply(Ok(found()), Some(OsvBatchResp { results }), now()).unwrap();
    assert_eq!(places(&reply, &["aa", "bb", "cc"]), vec![Some(3), Some(1), Some(2)]);
    assert!(reply.contains("3. aa  v2.0.0  | 复用评分 50/100  🟠 谨慎，建议对比替代方案\n"));
    assert!(reply.contains("   注意: ⚠️ 存在已知安全漏洞: GHSA-9，请升级或更换\n"));
}

#[test]
fn an_exact_name_is_shown_first_and_no_more_than_the_limit() {
    let f = FindPackages::new(Ecosystem::Npm, "BB thing", Some(2)).unwrap();
    let mut found: Vec<Package> = Vec::new();
    for n in ["aa", "cc", "bb", "dd"] {
        let mut p = candidate(n, 5_000_000);
        if n == "bb" {
            p.recent_downloads_90d = Some(0);
        } else {
            p.description = text("bb thing");
        }
        found.push(p);
    }
    let reply = f.reply(Ok(found), None, now()).unwrap();
    assert_eq!(places(&reply, &["bb", "aa", "cc", "dd"]), vec![Some(1), Some(2), None, None]);
    assert!(reply.contains("，2 个候选"));
}

#[test]
fn the_reply_to_an_inspection() {
    let mut p = candidate("left-pad", 100);
    p.ecosystem = Ecosystem::Python;
    p.total_downloads = Some(1_234_567);
    p.min_runtime = text("Python >=3.8");
    p.license = text("GPL-3.0");
    let i = InspectPackage::new(Ecosystem::Python, "left-pad").unwrap();
    let vulns = vec![
        Vuln { id: "PYSEC-1".to_string(), summary: text(" overflow "), severity: text("HIGH") },
        Vuln { id: "PYSEC-2".to_string(), summary: None, severity: None },
    ];
    assert_eq!(
        i.reply(Ok(p), &vulns, now()).unwrap(),
        "crate-scout 详细评估：left-pad (Python · PyPI)\n\nleft-pad  v2.0.0  | 复用评分 26/100  🔴 不建议，优先找更成熟的替代\n   仓库: https://r\n   主页: https://pypi.org/project/left-pad/\n   优点: 维护活跃（近 3 个月内有更新）；已发布稳定版 v2.x\n   注意: 下载量偏低（近90天约 100 次）；许可证 GPL-3.0 属于 copyleft/商用受限许可，使用前请确认合规；⚠️ 存在已知安全漏洞: PYSEC-1、PYSEC-2，请升级或更换\n\n许可证: GPL-3.0\n运行时要求: Python >=3.8\n累计下载: 1,234,567\n近90天下载: 100\n最近更新: 2024-01-01T00:00:00Z\n安全公告: PYSEC-1 [HIGH] overflow\n安全公告: PYSEC-2\n安装: pip install left-pad"
    );
}

#[test]
fn an_inspection_of_a_bare_package() {
    let i = InspectPackage::new(Ecosystem::Maven, "g:a").unwrap();
    let p = Package::new(Ecosystem::Maven, "g:a".to_string());
    assert_eq!(
        i.reply(Ok(p), &Vec::new(), now()).unwrap(),
        "crate-scout 详细评估：g:a (Java/Kotlin · Maven)\n\ng:a  v?  | 复用评分 35/100  🔴 不建议，优先找更成熟的替代\n   主页: https://central.sonatype.com/artifact/g/a\n   优点: （该来源无公开人气数据，人气分按中性计）\n   注意: 仍是 0.x 版本，API 可能有破坏性变更；未提供源码仓库链接\n\n安装: 加入 Maven/Gradle 依赖: g:a"
    );
}

#[test]
fn stars_and_the_last_update_are_shown() {
    let i = InspectPackage::new(Ecosystem::Go, "m").unwrap();
    let mut p = Package::new(Ecosystem::Go, "m".to_string());
    p.stars = Some(1_300);
    p.updated_at = text("2023-09-01T00:00:00Z");
    let reply = i.reply(Ok(p), &Vec::new(), now()).unwrap();
    assert!(reply.ends_with("\nGitHub stars: 1,300\n最近更新: 2023-09-01T00:00:00Z\n安装: go get m"));
}

fn server(name: &str) -> McpServer {
    McpServer {
        name: name.to_string(),
        description: None,
        version: None,
        repository: None,
        install: None,
        status: None,
    }
}

#[test]
fn the_reply_to_a_search_for_servers() {
    let m = FindMcpServers::new("postgres", None).unwrap();
    let mut s = server("io.x/postgres");
    s.version = text("1.2");
    s.status = text("active");
    s.description = text(" queries \n");
    s.install = text("npm: pg");
    s.repository = text("https://r");
    assert_eq!(
        m.reply(Ok(vec![s, server("io.y/postgres")])).unwrap(),
        "MCP server 搜索结果：\"postgres\" 命中 2 个（来自官方 MCP 注册表）。\n自己写 MCP server 前，先看看有没有现成的可用。\n\n1. io.x/postgres  v1.2  [active]\n   queries\n   安装: npm: pg\n   仓库: https://r\n2. io.y/postgres\n"
    );
    assert_eq!(render_server(7, &server("n")), "7. n\n");
}

#[test]
fn no_more_servers_than_the_limit_are_shown() {
    let m = FindMcpServers::new("x", Some(2)).unwrap();
    let found = || vec![server("a"), server("b"), server("c")];
    assert_eq!(
        m.reply(Ok(found())).unwrap(),
        "MCP server 搜索结果：\"x\" 命中 2 个（来自官方 MCP 注册表）。\n自己写 MCP server 前，先看看有没有现成的可用。\n\n1. a\n2. b\n"
    );
    let m = FindMcpServers::new("x", None).unwrap();
    assert!(m.reply(Ok(found())).unwrap().ends_with("1. a\n2. b\n3. c\n"));
}

#[test]
fn searches_for_servers_that_find_nothing() {
    assert_eq!(
        servers("zzz", &Vec::new()),
        "官方 MCP 注册表里没有名字匹配 \"zzz\" 的 server。\n注意：注册表只按 server 名称做子串匹配，换更具体的名词（如 postgres、filesystem、github）再试。"
    );
}
