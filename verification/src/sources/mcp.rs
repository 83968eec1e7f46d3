//! The official MCP registry.

use vstd::prelude::*;
use crate::request::{lemma_pairs, plain_get, HttpRequest, RequestView};
use crate::text::{cat, cat3, decimal, decimal_text};

verus! {

/// A server that the registry lists.
#[derive(Debug, Clone)]
pub struct McpServer {
    pub name: String,
    pub description: Option<String>,
    pub version: Option<String>,
    pub repository: Option<String>,
    pub install: Option<String>,
    pub status: Option<String>,
}

/// An [`McpServer`] with its texts as sequences of characters.
#[verifier::ext_equal]
pub struct McpServerView {
    pub name: Seq<char>,
    pub description: Option<Seq<char>>,
    pub version: Option<Seq<char>>,
    pub repository: Option<Seq<char>>,
    pub install: Option<Seq<char>>,
    pub status: Option<Seq<char>>,
}

impl View for McpServer {
    type V = McpServerView;

    open spec fn view(&self) -> McpServerView {
        McpServerView {
            name: self.name@,
            description: self.description.deep_view(),
            version: self.version.deep_view(),
            repository: self.repository.deep_view(),
            install: self.install.deep_view(),
            status: self.status.deep_view(),
        }
    }
}

impl DeepView for McpServer {
    type V = McpServerView;

    open spec fn deep_view(&self) -> McpServerView {
        self@
    }
}

/// The answer to a search.
#[derive(Debug)]
pub struct McpServersResp {
    pub servers: Vec<McpServerEntry>,
}

#[derive(Debug)]
pub struct McpServerEntry {
    pub server: McpServerObj,
    pub meta: Option<McpMeta>,
}

#[derive(Debug)]
pub struct McpServerObj {
    pub name: String,
    pub description: Option<String>,
    pub version: Option<String>,
    pub repository: Option<McpRepo>,
    pub packages: Vec<McpPackage>,
}

#[derive(Debug)]
pub struct McpRepo {
    pub url: Option<String>,
}

/// One way in which a server is distributed.
#[derive(Debug)]
pub struct McpPackage {
    pub registry_type: Option<String>,
    pub identifier: Option<String>,
    pub runtime_hint: Option<String>,
}

#[derive(Debug)]
pub struct McpMeta {
    pub official: Option<McpOfficial>,
}

#[derive(Debug)]
pub struct McpOfficial {
    pub status: Option<String>,
}

/// How many servers a search asks for: the limit, from 1 to 30.
pub open spec fn page_size(limit: u32) -> nat {
    if limit < 1 {
        1
    } else if limit > 30 {
        30
    } else {
        limit as nat
    }
}

/// The request that searches for servers.
pub open spec fn mcp_query(query: Seq<char>, limit: u32) -> RequestView {
    RequestView {
        query: seq![
            ("search"@, query),
            ("limit"@, decimal(page_size(limit))),
            ("version"@, "latest"@),
        ],
        ..plain_get("https://registry.modelcontextprotocol.io/v0/servers"@)
    }
}

/// The request that searches for servers. The registry matches on server
/// *names* (reverse-DNS) only, so broad capability words may miss.
pub fn search_request(query: &str, limit: u32) -> (r: HttpRequest)
    ensures
        r@ == mcp_query(query@, limit),
        r.url@ == "https://registry.modelcontextprotocol.io/v0/servers"@,
        r.user_agent is None,
        r.query.len() == 3,
        r.query@[0].0@ == "search"@ && r.query@[0].1@ == query@,
        r.query@[1].0@ == "limit"@,
        limit == 0 ==> r.query@[1].1@ == decimal(1),
        1 <= limit <= 30 ==> r.query@[1].1@ == decimal(limit as nat),
        limit > 30 ==> r.query@[1].1@ == decimal(30),
        r.query@[2].0@ == "version"@ && r.query@[2].1@ == "latest"@,
{
    let size: u32 = if limit < 1 {
        1
    } else if limit > 30 {
        30
    } else {
        limit
    };
    let r = HttpRequest::get(
        "https://registry.modelcontextprotocol.io/v0/servers".to_owned(),
    ).with("search", query).with("limit", &decimal_text(size as u64)).with("version", "latest");
    assert(r@.query =~= mcp_query(query@, limit).query);
    proof {
        lemma_pairs(r.query@);
    }
    r
}

/// A text, or a question mark where there is none.
pub open spec fn or_unknown(o: Option<Seq<char>>) -> Seq<char> {
    match o {
        Some(s) => s,
        None => "?"@,
    }
}

fn known<'a>(o: &'a Option<String>) -> (r: &'a str)
    ensures
        r@ == or_unknown(o.deep_view()),
{
    match o {
        Some(s) => s.as_str(),
        None => "?",
    }
}

/// How a package is installed: registry, identifier and, where known, runtime.
pub open spec fn install_text(p: McpPackage) -> Seq<char> {
    let source = or_unknown(p.registry_type.deep_view()) + ": "@ + or_unknown(
        p.identifier.deep_view(),
    );
    match p.runtime_hint {
        Some(hint) => source + " (runtime: "@ + hint@ + ")"@,
        None => source,
    }
}

impl McpPackage {
    /// How the package is installed.
    pub fn install(&self) -> (r: String)
        ensures
            r@ == install_text(*self),
            self.registry_type is Some && self.identifier is Some && self.runtime_hint is Some
                ==> r@ == self.registry_type->0@ + ": "@ + self.identifier->0@ + " (runtime: "@
                + self.runtime_hint->0@ + ")"@,
            self.registry_type is Some && self.identifier is Some && self.runtime_hint is None
                ==> r@ == self.registry_type->0@ + ": "@ + self.identifier->0@,
            self.registry_type is None && self.identifier is Some && self.runtime_hint is None
                ==> r@ == "?"@ + ": "@ + self.identifier->0@,
            self.registry_type is None && self.identifier is Some && self.runtime_hint is Some
                ==> r@ == "?"@ + ": "@ + self.identifier->0@ + " (runtime: "@
                + self.runtime_hint->0@ + ")"@,
            self.registry_type is Some && self.identifier is None && self.runtime_hint is None
                ==> r@ == self.registry_type->0@ + ": "@ + "?"@,
            self.registry_type is Some && self.identifier is None && self.runtime_hint is Some
                ==> r@ == self.registry_type->0@ + ": "@ + "?"@ + " (runtime: "@
                + self.runtime_hint->0@ + ")"@,
            self.registry_type is None && self.identifier is None && self.runtime_hint is None
                ==> r@ == "?"@ + ": "@ + "?"@,
            self.registry_type is None && self.identifier is None && self.runtime_hint is Some
                ==> r@ == "?"@ + ": "@ + "?"@ + " (runtime: "@ + self.runtime_hint->0@ + ")"@,
    {
        let source = cat3(known(&self.registry_type), ": ", known(&self.identifier));
        match &self.runtime_hint {
            Some(hint) => cat(&cat3(&source, " (runtime: ", hint), ")"),
            None => source,
        }
    }
}

/// The server that an entry describes; its first package says how it is
/// installed.
pub open spec fn server_of(e: McpServerEntry) -> McpServerView {
    McpServerView {
        name: e.server.name@,
        description: e.server.description.deep_view(),
        version: e.server.version.deep_view(),
        repository: match e.server.repository {
            Some(r) => r.url.deep_view(),
            None => None,
        },
        install: if e.server.packages@.len() > 0 {
            Some(install_text(e.server.packages@[0]))
        } else {
            None
        },
        status: match e.meta {
            Some(m) => match m.official {
                Some(o) => o.status.deep_view(),
                None => None,
            },
            None => None,
        },
    }
}

impl McpServerEntry {
    /// The server that the entry describes.
    pub fn into_server(self) -> (r: McpServer)
        ensures
            r@ == server_of(self),
            r.name@ == self.server.name@,
            r.description.deep_view() == self.server.description.deep_view(),
            r.version.deep_view() == self.server.version.deep_view(),
            self.server.repository matches Some(x) ==> r.repository.deep_view()
                == x.url.deep_view(),
            self.server.repository is None ==> r.repository is None,
            self.server.packages@.len() > 0 ==> r.install.deep_view() == Some(
                install_text(self.server.packages@[0]),
            ),
            self.server.packages@.len() == 0 ==> r.install is None,
            self.meta is Some && self.meta->0.official is Some ==> r.status.deep_view()
                == self.meta->0.official->0.status.deep_view(),
            self.meta is None || self.meta->0.official is None ==> r.status is None,
    {
        let install = if self.server.packages.len() > 0 {
            Some(self.server.packages[0].install())
        } else {
            None
        };
        let repository = match self.server.repository {
            Some(r) => r.url,
            None => None,
        };
        let status = match self.meta {
            Some(m) => match m.official {
                Some(o) => o.status,
                None => None,
            },
            None => None,
        };
        McpServer {
            name: self.server.name,
            description: self.server.description,
            version: self.server.version,
            repository,
            install,
            status,
        }
    }
}

impl McpServersResp {
    /// The servers found, in the registry's order.
    pub fn into_servers(self) -> (r: Vec<McpServer>)
        ensures
            r.deep_view() == self.servers@.map_values(|e: McpServerEntry| server_of(e)),
            r.len() == self.servers.len(),
    {
        let mut out: Vec<McpServer> = Vec::new();
        for e in it: self.servers
            invariant
                it.seq() == self.servers@,
                out.deep_view() == it.seq().take(it.index()).map_values(
                    |e: McpServerEntry| server_of(e),
                ),
        {
            let ghost before = out.deep_view();
            out.push(e.into_server());
            assert(out.deep_view() =~= before.push(server_of(e)));
        }
        out
    }
}

} // verus!
