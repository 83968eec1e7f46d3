//! Which keys have come up before.

use vstd::prelude::*;
use crate::text::holds;

verus! {

/// Distinct keys, in the order in which they came up.
#[derive(Debug)]
pub struct Seen {
    keys: Vec<String>,
}

impl View for Seen {
    type V = Seq<Seq<char>>;

    closed spec fn view(&self) -> Seq<Seq<char>> {
        self.keys.deep_view()
    }
}

impl Seen {
    /// No key has come up yet.
    pub fn new() -> (r: Seen)
        ensures
            r@ == Seq::<Seq<char>>::empty(),
    {
        let r = Seen { keys: Vec::new() };
        assert(r.keys.deep_view() =~= Seq::<Seq<char>>::empty());
        r
    }

    /// Takes note of a key, and says whether it is new.
    pub fn insert(&mut self, key: String) -> (new: bool)
        ensures
            new == !old(self)@.contains(key@),
            final(self)@ == if new {
                old(self)@.push(key@)
            } else {
                old(self)@
            },
            old(self)@.no_duplicates() ==> final(self)@.no_duplicates(),
    {
        if holds(&self.keys, &key) {
            false
        } else {
            let ghost before = self.keys.deep_view();
            let ghost text = key@;
            self.keys.push(key);
            assert(self.keys.deep_view() =~= before.push(text));
            true
        }
    }
}

} // verus!
