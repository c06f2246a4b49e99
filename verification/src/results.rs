//! The collection of addresses that were classified positive.

use vstd::prelude::*;
use crate::address::Address;

verus! {

/// The addresses with a positive outcome, in the order in which they were
/// inserted. Insertion needs exclusive access, so no two insertions overlap
/// and none is lost.
#[derive(Debug)]
pub struct ResultSet {
    entries: Vec<Address>,
}

impl View for ResultSet {
    type V = Seq<Address>;

    closed spec fn view(&self) -> Seq<Address> {
        self.entries@
    }
}

impl ResultSet {
    /// The empty collection.
    pub fn new() -> (set: ResultSet)
        ensures
            set@ == Seq::<Address>::empty(),
    {
        ResultSet { entries: Vec::new() }
    }

    /// Appends `address` behind all earlier insertions.
    pub fn insert(&mut self, address: Address)
        ensures
            final(self)@ == old(self)@.push(address),
    {
        self.entries.push(address);
    }

    /// The number of insertions so far.
    pub fn len(&self) -> (len: usize)
        ensures
            len == self@.len(),
    {
        self.entries.len()
    }

    /// Whether nothing was inserted.
    pub fn is_empty(&self) -> (empty: bool)
        ensures
            empty == (self@.len() == 0),
    {
        self.entries.len() == 0
    }

    /// Whether `address` was inserted.
    pub fn contains(&self, address: Address) -> (found: bool)
        ensures
            found == self@.contains(address),
    {
        let mut i: usize = 0;
        while i < self.entries.len()
            invariant
                i <= self.entries.len(),
                forall|k: int| 0 <= k < i ==> self.entries@[k] != address,
            decreases self.entries.len() - i,
        {
            if self.entries[i] == address {
                return true;
            }
            i = i + 1;
        }
        false
    }

    /// A copy of all inserted addresses, in insertion order.
    pub fn snapshot(&self) -> (copy: Vec<Address>)
        ensures
            copy@ == self@,
    {
        let mut copy: Vec<Address> = Vec::new();
        let mut i: usize = 0;
        while i < self.entries.len()
            invariant
                i <= self.entries.len(),
                copy@ == self.entries@.take(i as int),
            decreases self.entries.len() - i,
        {
            copy.push(self.entries[i]);
            i = i + 1;
        }
        copy
    }
}

} // verus!
