//! Parsers for circuit descriptions, and the wire identity registry they
//! share.

use crate::util::{first_idx, lemma_first_idx, lemma_first_idx_absent, lemma_first_idx_found};
use crate::WireValue;
use vstd::prelude::*;

pub mod blif;
pub mod witness;

verus! {

/// A parser over a buffered list of input lines that yields its items one at
/// a time.
pub trait Parse<T: WireValue>: Sized {
    /// What one call to `next` yields.
    type Item;

    /// A parser over the given input lines.
    fn new(lines: Vec<String>) -> Self;

    /// The next parsed item, or `None` when the input is exhausted.
    fn next(&mut self) -> Option<Self::Item>;
}

/// The registry contents after a name is interned: unchanged when the name
/// is already present, extended by the name otherwise.
pub open spec fn intern_names(h: Seq<Seq<char>>, name: Seq<char>) -> Seq<Seq<char>> {
    if first_idx(h, name) < h.len() {
        h
    } else {
        h.push(name)
    }
}

/// The dense id a name receives from a registry: the position of its first
/// occurrence, which for an unseen name is the next unused id.
pub open spec fn intern_id(h: Seq<Seq<char>>, name: Seq<char>) -> int {
    first_idx(h, name)
}

/// Interns wire names into dense integer identifiers, assigned in
/// first-seen order, and remembers the name behind each id.  The registry
/// keys by the full name rather than by a hash of it, so distinct names can
/// never collide.
pub struct WireHasher {
    names: Vec<String>,
}

impl View for WireHasher {
    type V = Seq<Seq<char>>;

    /// The interned names in id order.
    closed spec fn view(&self) -> Seq<Seq<char>> {
        self.names@.map(|i: int, s: String| s@)
    }
}

impl WireHasher {
    /// A registry with no names interned.
    pub fn new() -> (r: Self)
        ensures
            r@ =~= Seq::<Seq<char>>::empty(),
    {
        WireHasher { names: Vec::new() }
    }

    /// The dense id for a wire name: the id it already has if it was seen
    /// before, the next unused id otherwise.
    pub fn get_wire_id(&mut self, name: &str) -> (id: usize)
        ensures
            id == intern_id(old(self)@, name@),
            final(self)@ == intern_names(old(self)@, name@),
            id <= old(self)@.len(),
            final(self)@.len() >= old(self)@.len(),
    {
        proof {
            lemma_first_idx(old(self)@, name@);
        }
        let n = self.names.len();
        let mut i: usize = 0;
        while i < n
            invariant
                n == self.names@.len(),
                self@ == self.names@.map(|k: int, s: String| s@),
                0 <= i <= n,
                forall|j: int| 0 <= j < i ==> self@[j] != name@,
            decreases n - i,
        {
            if crate::text::str_eq(self.names[i].as_str(), name) {
                proof {
                    lemma_first_idx_found(self@, name@, i as int);
                }
                return i;
            }
            i = i + 1;
        }
        proof {
            lemma_first_idx_absent(self@, name@);
        }
        self.names.push(String::from_str(name));
        proof {
            assert(self@ =~= intern_names(old(self)@, name@));
        }
        n
    }

    /// Allows you to map back to the string that created this id.
    pub fn backref(&self, id: usize) -> (r: Option<&String>)
        ensures
            id < self@.len() ==> (r is Some && r->0@ == self@[id as int]),
            id >= self@.len() ==> r is None,
    {
        if id < self.names.len() {
            Some(&self.names[id])
        } else {
            None
        }
    }
}

impl Default for WireHasher {
    /// A registry with no names interned.
    fn default() -> (r: Self)
        ensures
            r@ =~= Seq::<Seq<char>>::empty(),
    {
        WireHasher::new()
    }
}

/// The interning laws of the wire registry.  A name's id never exceeds the
/// number of interned names, so a fresh name always receives the next dense
/// id, with no gaps and no reuse; asking again for a name right after
/// interning it returns the same id and leaves the registry unchanged, so a
/// name queried twice in a row returns the same id both times.
pub proof fn lemma_intern_laws(h: Seq<Seq<char>>, name: Seq<char>)
    ensures
        0 <= intern_id(h, name) <= h.len(),
        first_idx(h, name) == h.len() ==> intern_id(h, name) == h.len() && intern_names(h, name)
            == h.push(name),
        intern_id(intern_names(h, name), name) == intern_id(h, name),
        intern_names(intern_names(h, name), name) == intern_names(h, name),
        intern_names(h, name)[intern_id(h, name)] == name,
{
    lemma_first_idx(h, name);
    let i = first_idx(h, name);
    if i < h.len() {
        lemma_first_idx(intern_names(h, name), name);
    } else {
        lemma_first_idx_found(h.push(name), name, h.len() as int);
    }
}

/// Interning a fresh name leaves every already-interned name's id
/// unchanged: ids are stable for the life of the registry.
pub proof fn lemma_intern_stable(h: Seq<Seq<char>>, name: Seq<char>, other: Seq<char>)
    requires
        first_idx(h, other) < h.len(),
    ensures
        intern_id(intern_names(h, name), other) == intern_id(h, other),
{
    lemma_first_idx(h, other);
    if first_idx(h, name) >= h.len() {
        lemma_first_idx(h, name);
        lemma_first_idx_found(h.push(name), other, first_idx(h, other));
    }
}

} // verus!
