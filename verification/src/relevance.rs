//! Textual relevance of a package to a query.

use vstd::prelude::*;
use vstd::string::*;
use crate::model::{Package, PackageView};
use crate::text::{
    contains_text, holds, lowercase, occurs_in, same_text, terms, terms_of, to_lowercase, trim,
    trimmed,
};

verus! {

/// Tokenises a query into lowercase alphanumeric terms of length >= 2, counted
/// in bytes.
pub fn tokenize(s: &str) -> (r: Vec<String>)
    ensures
        r.deep_view() == terms(s@, 2),
{
    terms_of(s, 2)
}

/// How many query terms there are, and how many of them a package mentions.
#[derive(Debug, Clone, Copy, PartialEq, Eq, Structural)]
pub struct Overlap {
    pub hits: usize,
    pub terms: usize,
}

/// The lower-case keywords, each behind a space.
pub open spec fn keyword_text(keywords: Seq<Seq<char>>) -> Seq<char>
    decreases keywords.len(),
{
    if keywords.len() == 0 {
        Seq::empty()
    } else {
        keyword_text(keywords.drop_last()) + " "@ + lowercase(keywords.last())
    }
}

/// The text in which query terms are looked up: name, description and keywords
/// in lower case, with spaces between them.
pub open spec fn searchable(p: PackageView) -> Seq<char> {
    lowercase(p.name) + (match p.description {
        Some(d) => " "@ + lowercase(d),
        None => Seq::empty(),
    }) + keyword_text(p.keywords)
}

/// How many of the terms occur in the text.
pub open spec fn hits_in(terms: Seq<Seq<char>>, text: Seq<char>) -> nat
    decreases terms.len(),
{
    if terms.len() == 0 {
        0
    } else {
        hits_in(terms.drop_last(), text) + if occurs_in(terms.last(), text) {
            1nat
        } else {
            0nat
        }
    }
}

/// How many of the terms occur in the text.
pub fn count_hits(terms: &Vec<String>, text: &str) -> (r: usize)
    ensures
        r == hits_in(terms.deep_view(), text@),
        r <= terms.len(),
{
    let ghost all = terms.deep_view();
    let mut hits: usize = 0;
    let mut i: usize = 0;
    while i < terms.len()
        invariant
            i <= terms.len(),
            hits <= i,
            all == terms.deep_view(),
            hits == hits_in(all.take(i as int), text@),
        decreases terms.len() - i,
    {
        assert(all.take(i + 1).drop_last() =~= all.take(i as int));
        if contains_text(text, &terms[i]) {
            hits += 1;
        }
        i += 1;
    }
    assert(all.take(i as int) =~= all);
    hits
}

/// No more terms are hit than there are.
pub proof fn law_overlap_is_a_fraction(terms: Seq<Seq<char>>, text: Seq<char>)
    ensures
        hits_in(terms, text) <= terms.len(),
    decreases terms.len(),
{
    if terms.len() > 0 {
        law_overlap_is_a_fraction(terms.drop_last(), text);
    }
}

/// The text in which query terms are looked up.
fn searchable_text(p: &Package) -> (r: String)
    ensures
        r@ == searchable(p@),
{
    let mut hay = to_lowercase(&p.name);
    let ghost head = hay@;
    if let Some(d) = &p.description {
        hay.append(" ");
        hay.append(&to_lowercase(d));
    }
    let ghost front = lowercase(p@.name) + (match p@.description {
        Some(d) => " "@ + lowercase(d),
        None => Seq::empty(),
    });
    assert(hay@ =~= front);
    let ghost all = p.keywords.deep_view();
    let mut i: usize = 0;
    while i < p.keywords.len()
        invariant
            i <= p.keywords.len(),
            all == p.keywords.deep_view(),
            hay@ == front + keyword_text(all.take(i as int)),
        decreases p.keywords.len() - i,
    {
        assert(all.take(i + 1).drop_last() =~= all.take(i as int));
        hay.append(" ");
        hay.append(&to_lowercase(&p.keywords[i]));
        i += 1;
        assert(hay@ =~= front + keyword_text(all.take(i as int)));
    }
    assert(all.take(i as int) =~= all);
    hay
}

/// How many of the query's terms appear in the package's name, description or
/// keywords, of how many — a cheap textual relevance signal.
pub fn term_overlap(query: &str, p: &Package) -> (r: Overlap)
    ensures
        r.terms == terms(query@, 2).len(),
        r.hits == hits_in(terms(query@, 2), searchable(p@)),
        r.hits <= r.terms,
{
    let terms = tokenize(query);
    let hay = searchable_text(p);
    let hits = count_hits(&terms, &hay);
    Overlap { hits, terms: terms.len() }
}

/// Whether a lower-case name is one of the query's terms, or the query itself.
pub open spec fn exact(terms: Seq<Seq<char>>, query: Seq<char>, name: Seq<char>) -> bool {
    terms.contains(name) || query == name
}

/// Whether a lower-case name is one of the query's terms, or the query itself.
pub fn matches_exactly(terms: &Vec<String>, query: &str, name: &str) -> (r: bool)
    ensures
        r == exact(terms.deep_view(), query@, name@),
{
    holds(terms, name) || same_text(query, name)
}

/// Whether the package's name is, ignoring case, one of the query's terms or
/// the whole query.
pub open spec fn exact_name(query: Seq<char>, p: PackageView) -> bool {
    exact(terms(query, 2), lowercase(trimmed(query)), lowercase(p.name))
}

/// True if the package name exactly equals one of the query terms — a strong
/// signal the user is looking for this exact package.
pub fn name_is_exact(query: &str, p: &Package) -> (r: bool)
    ensures
        r == exact_name(query@, p@),
{
    let name = to_lowercase(&p.name);
    let whole = to_lowercase(trim(query));
    matches_exactly(&tokenize(query), &whole, &name)
}

} // verus!
