//! Resolving candidate names one by one into a bounded list of packages.

use vstd::prelude::*;
use crate::model::{Package, PackageView};
use crate::sources::seen::Seen;
use crate::text::{lowercase, to_lowercase};

verus! {

/// How many names beyond the limit are tried.
pub const SPARE_NAMES: u32 = 3;

/// A run through candidate names: each is looked up in turn until enough
/// packages are found. Names that cannot be resolved, and packages that differ
/// from an earlier one in case alone, are passed over.
#[derive(Debug)]
pub struct Collector {
    names: Vec<String>,
    next: usize,
    limit: u32,
    found: Vec<Package>,
    seen: Seen,
}

/// A [`Collector`] with its texts as sequences of characters.
#[verifier::ext_equal]
pub struct CollectorView {
    /// The names to look up, in order.
    pub names: Seq<Seq<char>>,
    /// How many of them have been looked up.
    pub next: nat,
    pub limit: nat,
    pub found: Seq<PackageView>,
}

/// The names of packages in lower case.
pub open spec fn lower_names(v: Seq<PackageView>) -> Seq<Seq<char>> {
    v.map_values(|p: PackageView| lowercase(p.name))
}

impl CollectorView {
    /// A run that has looked nothing up yet. Only a few names beyond the limit
    /// are tried, which bounds the number of round-trips.
    pub open spec fn start(names: Seq<Seq<char>>, limit: nat) -> CollectorView {
        let most = limit + SPARE_NAMES as nat;
        CollectorView {
            names: if names.len() > most {
                names.take(most as int)
            } else {
                names
            },
            next: 0,
            limit,
            found: Seq::empty(),
        }
    }

    /// The name to look up next; nothing when the run is over.
    pub open spec fn pending(self) -> Option<Seq<char>> {
        if self.found.len() >= self.limit || self.next >= self.names.len() {
            None
        } else {
            Some(self.names[self.next as int])
        }
    }

    /// The run after the pending name has been looked up, with that outcome.
    pub open spec fn step(self, outcome: Option<PackageView>) -> CollectorView {
        CollectorView {
            next: self.next + 1,
            found: match outcome {
                Some(p) => if lower_names(self.found).contains(lowercase(p.name)) {
                    self.found
                } else {
                    self.found.push(p)
                },
                None => self.found,
            },
            ..self
        }
    }

    /// The run after the given outcomes, as long as it asks for them.
    pub open spec fn run(self, outcomes: Seq<Option<PackageView>>) -> CollectorView
        decreases outcomes.len(),
    {
        if outcomes.len() == 0 {
            self
        } else {
            let before = self.run(outcomes.drop_last());
            if before.pending() is Some {
                before.step(outcomes.last())
            } else {
                before
            }
        }
    }

    /// What every state of a run keeps to.
    pub open spec fn sound(self) -> bool {
        &&& self.found.len() <= self.limit
        &&& self.next <= self.names.len() <= self.limit + SPARE_NAMES
        &&& self.found.len() <= self.next
        &&& lower_names(self.found).no_duplicates()
    }
}

impl View for Collector {
    type V = CollectorView;

    closed spec fn view(&self) -> CollectorView {
        CollectorView {
            names: self.names.deep_view(),
            next: self.next as nat,
            limit: self.limit as nat,
            found: self.found.deep_view(),
        }
    }
}

impl Collector {
    pub closed spec fn wf(self) -> bool {
        &&& self.next <= self.names.len()
        &&& self.seen@ == lower_names(self.found.deep_view())
    }

    /// Starts a run through the names for at most `limit` packages.
    pub fn new(names: Vec<String>, limit: u32) -> (r: Collector)
        ensures
            r.wf(),
            r@ == CollectorView::start(names.deep_view(), limit as nat),
    {
        let mut names = names;
        let ghost all = names.deep_view();
        let most: u64 = limit as u64 + SPARE_NAMES as u64;
        if names.len() as u64 > most {
            names.truncate(most as usize);
            assert(names.deep_view() =~= all.take(most as int));
        }
        let r = Collector { names, next: 0, limit, found: Vec::new(), seen: Seen::new() };
        assert(r.seen@ =~= lower_names(r.found.deep_view()));
        r
    }

    /// The name to look up next; nothing when the run is over.
    pub fn pending(&self) -> (r: Option<&str>)
        requires
            self.wf(),
        ensures
            (match r {
                Some(n) => Some(n@),
                None => None,
            }) == self@.pending(),
    {
        if self.found.len() as u64 >= self.limit as u64 || self.next >= self.names.len() {
            None
        } else {
            Some(self.names[self.next].as_str())
        }
    }

    /// Takes what looking up the pending name came to: the package, or nothing
    /// where it could not be resolved.
    pub fn record(&mut self, outcome: Option<Package>)
        requires
            old(self).wf(),
            old(self)@.pending() is Some,
        ensures
            final(self).wf(),
            final(self)@ == old(self)@.step(outcome.deep_view()),
    {
        self.next = self.next + 1;
        if let Some(p) = outcome {
            let ghost found = self.found.deep_view();
            if self.seen.insert(to_lowercase(&p.name)) {
                self.found.push(p);
                proof {
                    assert(self.found.deep_view() =~= found.push(p@));
                    assert(lower_names(found.push(p@)) =~= lower_names(found).push(
                        lowercase(p@.name),
                    ));
                }
            }
        }
    }

    /// The packages found.
    pub fn finish(self) -> (r: Vec<Package>)
        ensures
            r.deep_view() == self@.found,
    {
        self.found
    }
}

// --- Laws ------------------------------------------------------------------

/// Whatever the look-ups come to, a run never finds more than the limit, tries
/// at most a few names more than that, and never lists two packages whose names
/// differ in case alone.
pub proof fn law_collection_is_bounded_and_distinct(
    names: Seq<Seq<char>>,
    limit: nat,
    outcomes: Seq<Option<PackageView>>,
)
    ensures
        CollectorView::start(names, limit).run(outcomes).sound(),
        CollectorView::start(names, limit).run(outcomes).limit == limit,
    decreases outcomes.len(),
{
    let start = CollectorView::start(names, limit);
    assert(lower_names(start.found) =~= Seq::empty());
    if outcomes.len() > 0 {
        law_collection_is_bounded_and_distinct(names, limit, outcomes.drop_last());
        let before = start.run(outcomes.drop_last());
        if before.pending() is Some {
            if let Some(p) = outcomes.last() {
                assert(lower_names(before.found.push(p)) =~= lower_names(before.found).push(
                    lowercase(p.name),
                ));
            }
        }
    }
}

/// A run is over after as many look-ups as there are names to try.
pub proof fn law_collection_ends(
    names: Seq<Seq<char>>,
    limit: nat,
    outcomes: Seq<Option<PackageView>>,
)
    requires
        outcomes.len() >= limit + SPARE_NAMES,
    ensures
        CollectorView::start(names, limit).run(outcomes).pending() is None,
{
    lemma_run_counts(names, limit, outcomes);
}

proof fn lemma_run_counts(names: Seq<Seq<char>>, limit: nat, outcomes: Seq<Option<PackageView>>)
    ensures
        ({
            let r = CollectorView::start(names, limit).run(outcomes);
            &&& r.names == CollectorView::start(names, limit).names
            &&& r.pending() is None || r.next == outcomes.len()
        }),
    decreases outcomes.len(),
{
    if outcomes.len() > 0 {
        lemma_run_counts(names, limit, outcomes.drop_last());
    }
}

} // verus!
