//! What is asked of a registry: plain descriptions of HTTP requests.

use vstd::prelude::*;

verus! {

/// A GET request: address, query parameters in order, and the `User-Agent` to
/// send in place of the client's own, if any.
#[derive(Debug)]
pub struct HttpRequest {
    pub url: String,
    pub query: Vec<(String, String)>,
    pub user_agent: Option<String>,
}

/// An [`HttpRequest`] with its texts as sequences of characters.
#[verifier::ext_equal]
pub struct RequestView {
    pub url: Seq<char>,
    pub query: Seq<(Seq<char>, Seq<char>)>,
    pub user_agent: Option<Seq<char>>,
}

impl View for HttpRequest {
    type V = RequestView;

    open spec fn view(&self) -> RequestView {
        RequestView {
            url: self.url@,
            query: pairs(self.query@),
            user_agent: self.user_agent.deep_view(),
        }
    }
}

/// Pairs of texts as pairs of sequences of characters.
pub open spec fn pairs(v: Seq<(String, String)>) -> Seq<(Seq<char>, Seq<char>)> {
    v.map_values(|p: (String, String)| (p.0@, p.1@))
}

/// A request for an address alone.
pub open spec fn plain_get(url: Seq<char>) -> RequestView {
    RequestView { url, query: Seq::empty(), user_agent: None }
}

/// The pairs of texts stand at the places of the texts.
pub(crate) proof fn lemma_pairs(v: Seq<(String, String)>)
    ensures
        pairs(v).len() == v.len(),
        forall|i: int|
            0 <= i < v.len() ==> pairs(v)[i].0 == (#[trigger] v[i]).0@ && pairs(v)[i].1 == v[i].1@,
{
}

impl HttpRequest {
    /// A request for an address alone.
    pub(crate) fn get(url: String) -> (r: HttpRequest)
        ensures
            r@ == plain_get(url@),
            r.url@ == url@,
            r.query.len() == 0,
            r.user_agent is None,
    {
        let r = HttpRequest { url, query: Vec::new(), user_agent: None };
        r
    }

    /// The request with one more query parameter behind the others.
    pub(crate) fn with(self, key: &str, value: &str) -> (r: HttpRequest)
        ensures
            r@ == (RequestView { query: self@.query.push((key@, value@)), ..self@ }),
            r.url@ == self.url@,
            r.user_agent == self.user_agent,
            r.query@.drop_last() == self.query@,
            r.query.len() == self.query.len() + 1,
            r.query@.last().0@ == key@ && r.query@.last().1@ == value@,
    {
        let mut query = self.query;
        query.push((key.to_owned(), value.to_owned()));
        let r = HttpRequest { url: self.url, query, user_agent: self.user_agent };
        assert(pairs(r.query@) =~= pairs(self.query@).push((key@, value@)));
        assert(r.query@.drop_last() =~= self.query@);
        r
    }
}

} // verus!
