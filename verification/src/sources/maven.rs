//! Maven Central (Java/Kotlin): names come from here, details from deps.dev.

use vstd::prelude::*;
use crate::request::{lemma_pairs, plain_get, HttpRequest, RequestView};
use crate::text::{decimal, decimal_text};

verus! {

/// The answer to a search.
#[derive(Debug)]
pub struct MavenSearchResp {
    pub response: MavenResponse,
}

#[derive(Debug)]
pub struct MavenResponse {
    pub docs: Vec<MavenDoc>,
}

#[derive(Debug)]
pub struct MavenDoc {
    pub id: String,
}

/// How many artifacts a search asks for: three times the limit, from 10 to 30.
pub open spec fn page_size(limit: u32) -> nat {
    if limit * 3 < 10 {
        10
    } else if limit * 3 > 30 {
        30
    } else {
        (limit * 3) as nat
    }
}

/// The request that searches for artifacts.
pub open spec fn maven_query(query: Seq<char>, limit: u32) -> RequestView {
    RequestView {
        query: seq![("q"@, query), ("rows"@, decimal(page_size(limit))), ("wt"@, "json"@)],
        ..plain_get("https://search.maven.org/solrsearch/select"@)
    }
}

/// The request that searches for artifacts.
pub fn search_request(query: &str, limit: u32) -> (r: HttpRequest)
    ensures
        r@ == maven_query(query@, limit),
        r.url@ == "https://search.maven.org/solrsearch/select"@,
        r.user_agent is None,
        r.query.len() == 3,
        r.query@[0].0@ == "q"@ && r.query@[0].1@ == query@,
        r.query@[1].0@ == "rows"@,
        limit <= 3 ==> r.query@[1].1@ == decimal(10),
        4 <= limit <= 10 ==> r.query@[1].1@ == decimal(3 * limit as nat),
        limit > 10 ==> r.query@[1].1@ == decimal(30),
        r.query@[2].0@ == "wt"@ && r.query@[2].1@ == "json"@,
{
    let wanted: u64 = limit as u64 * 3;
    let rows: u64 = if wanted < 10 {
        10
    } else if wanted > 30 {
        30
    } else {
        wanted
    };
    let r = HttpRequest::get("https://search.maven.org/solrsearch/select".to_owned()).with(
        "q",
        query,
    ).with("rows", &decimal_text(rows)).with("wt", "json");
    assert(r@.query =~= maven_query(query@, limit).query);
    proof {
        lemma_pairs(r.query@);
    }
    r
}

/// The coordinates of the artifacts found, in order.
pub open spec fn coordinates(docs: Seq<MavenDoc>) -> Seq<Seq<char>> {
    docs.map_values(|d: MavenDoc| d.id@)
}

impl MavenSearchResp {
    /// The coordinates ("group:artifact") of the artifacts found, in order.
    pub fn into_names(self) -> (r: Vec<String>)
        ensures
            r.deep_view() == coordinates(self.response.docs@),
            r.len() == self.response.docs.len(),
            forall|i: int| 0 <= i < r.len() ==> (#[trigger] r@[i])@ == self.response.docs@[i].id@,
    {
        let mut out: Vec<String> = Vec::new();
        for d in it: self.response.docs
            invariant
                it.seq() == self.response.docs@,
                out.deep_view() == coordinates(it.seq().take(it.index())),
        {
            let ghost before = out.deep_view();
            out.push(d.id);
            assert(out.deep_view() =~= before.push(d.id@));
        }
        assert forall|i: int| 0 <= i < out.len() implies (#[trigger] out@[i])@
            == self.response.docs@[i].id@ by {
            assert(out.deep_view()[i] == out@[i]@);
        }
        out
    }
}

} // verus!
