//! The variable scope: one flat mapping from identifier to value, live for
//! a whole program run.
//!
//! Modelled as a `Map` from the identifier's characters to the value's
//! model.  A new binding shadows any earlier entry for the same name, so
//! the model of an update is exactly `Map::insert`.

use vstd::prelude::*;

use crate::ast::{Atomic, AtomicV, atomic_v};

verus! {

/// The single mutable identifier-to-value mapping.
pub struct Scope {
    entries: Vec<(String, Atomic)>,
}

pub open spec fn map_of(es: Seq<(String, Atomic)>) -> Map<Seq<char>, AtomicV>
    decreases es,
{
    if es.len() == 0 {
        Map::empty()
    } else {
        map_of(es.drop_first()).insert(es[0].0@, atomic_v(es[0].1))
    }
}

/// No stored value is the interrupt sentinel; evaluation keeps this.
pub open spec fn scope_ok(m: Map<Seq<char>, AtomicV>) -> bool {
    forall|k: Seq<char>| m.contains_key(k) ==> !((#[trigger] m[k]) is Interrupt)
}

impl View for Scope {
    type V = Map<Seq<char>, AtomicV>;

    closed spec fn view(&self) -> Map<Seq<char>, AtomicV> {
        map_of(self.entries@)
    }
}

proof fn lemma_map_of_first_match(es: Seq<(String, Atomic)>, k: Seq<char>, i: int)
    requires
        0 <= i < es.len(),
        es[i].0@ == k,
        forall|j: int| 0 <= j < i ==> es[j].0@ != k,
    ensures
        map_of(es).contains_key(k),
        map_of(es)[k] == atomic_v(es[i].1),
    decreases es,
{
    if i > 0 {
        lemma_map_of_first_match(es.drop_first(), k, i - 1);
    }
}

proof fn lemma_map_of_no_match(es: Seq<(String, Atomic)>, k: Seq<char>)
    requires
        forall|j: int| 0 <= j < es.len() ==> es[j].0@ != k,
    ensures
        !map_of(es).contains_key(k),
    decreases es,
{
    if es.len() > 0 {
        lemma_map_of_no_match(es.drop_first(), k);
    }
}

impl Scope {
    /// The empty scope a program run starts with.
    pub fn new() -> (s: Scope)
        ensures
            s@ == Map::<Seq<char>, AtomicV>::empty(),
            scope_ok(s@),
    {
        Scope { entries: Vec::new() }
    }

    /// Whether the identifier is bound.
    pub fn contains(&self, name: &String) -> (b: bool)
        ensures
            b == self@.contains_key(name@),
    {
        let n = self.entries.len();
        let mut i: usize = 0;
        while i < n
            invariant
                0 <= i <= n,
                n == self.entries@.len(),
                forall|j: int| 0 <= j < i ==> self.entries@[j].0@ != name@,
            decreases n - i,
        {
            if self.entries[i].0 == *name {
                proof {
                    lemma_map_of_first_match(self.entries@, name@, i as int);
                }
                return true;
            }
            i = i + 1;
        }
        proof {
            lemma_map_of_no_match(self.entries@, name@);
        }
        false
    }

    /// The value bound to the identifier, if any.
    pub fn get_value(&self, name: &String) -> (r: Option<Atomic>)
        ensures
            self@.contains_key(name@) ==> (r matches Some(a) && atomic_v(a) == self@[name@]),
            !self@.contains_key(name@) ==> r is None,
    {
        let n = self.entries.len();
        let mut i: usize = 0;
        while i < n
            invariant
                0 <= i <= n,
                n == self.entries@.len(),
                forall|j: int| 0 <= j < i ==> self.entries@[j].0@ != name@,
            decreases n - i,
        {
            if self.entries[i].0 == *name {
                proof {
                    lemma_map_of_first_match(self.entries@, name@, i as int);
                }
                return Option::Some(self.entries[i].1.duplicate());
            }
            i = i + 1;
        }
        proof {
            lemma_map_of_no_match(self.entries@, name@);
        }
        Option::None
    }

    /// Bind or rebind the identifier to the value.
    pub fn set(&mut self, name: String, value: Atomic)
        ensures
            final(self)@ == old(self)@.insert(name@, atomic_v(value)),
    {
        let ghost old_es = self.entries@;
        let ghost gname = name@;
        let ghost gvalue = value;
        self.entries.insert(0, (name, value));
        proof {
            assert(self.entries@.drop_first() =~= old_es);
            assert(self.entries@[0].0@ == gname);
            assert(self.entries@[0].1 == gvalue);
        }
    }
}

} // verus!
