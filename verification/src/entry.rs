//! Entries of the delay queue and the priority order among them.

use vstd::prelude::*;
use std::cmp::Ordering;
use std::time::Instant;
use crate::delayed::Delayed;
use crate::time::{compare, flip, instant_cmp, transitive, triple_ordered};
use vstd::std_specs::cmp::{PartialEqSpec, PartialOrdSpec};

verus! {

/// An entry in the `DelayQueue`.
///
/// Holds a `Delayed` item and orders entries by the instants of their items.
/// Earlier entries have higher priority (they should be popped first), so
/// they are `Greater` than later entries.
#[derive(Debug)]
pub struct Entry<T: Delayed> {
    delayed: T,
}

impl<T: Delayed> Entry<T> {
    /// The item this entry holds.
    pub closed spec fn item(&self) -> T {
        self.delayed
    }

    /// The priority of `self` against `other`: the reverse of the order of
    /// their instants.
    pub open spec fn priority(&self, other: &Entry<T>) -> Ordering {
        instant_cmp(other.item().deadline(), self.item().deadline())
    }

    /// Wraps `delayed` in an entry.
    pub fn new(delayed: T) -> (r: Entry<T>)
        ensures
            r.item() == delayed,
    {
        Entry { delayed }
    }

    /// Gives back the item this entry holds.
    pub fn into_inner(self) -> (r: T)
        ensures
            r == self.item(),
    {
        self.delayed
    }

    /// Borrows the item this entry holds.
    pub fn get(&self) -> (r: &T)
        ensures
            *r == self.item(),
    {
        &self.delayed
    }

    /// Compares the priority of two entries: the entry whose item is delayed
    /// until the earlier instant is the greater one. Priorities are a total
    /// order: comparing the other way round gives the reverse, `Equal` means
    /// the same instant, and against any third entry the comparisons chain.
    pub fn cmp(&self, other: &Entry<T>) -> (r: Ordering)
        ensures
            r == self.priority(other),
            other.priority(self) == flip(r),
            (r == Ordering::Equal) == (self.item().deadline() == other.item().deadline()),
            forall|z: Entry<T>|
                #![trigger self.priority(&z)]
                #![trigger z.priority(self)]
                #![trigger other.priority(&z)]
                #![trigger z.priority(other)]
                {
                    &&& transitive(r, other.priority(&z), self.priority(&z))
                    &&& transitive(z.priority(self), r, z.priority(other))
                    &&& transitive(self.priority(&z), z.priority(other), r)
                },
    {
        compare(other.delayed.delayed_until(), self.delayed.delayed_until())
    }
}

impl<T: Delayed> PartialEq for Entry<T> {
    /// Two entries are equal exactly when their items are delayed until the
    /// same instant; the items themselves are not compared.
    fn eq(&self, other: &Entry<T>) -> (r: bool)
        ensures
            r == (self.item().deadline() == other.item().deadline()),
    {
        match self.cmp(other) {
            Ordering::Equal => true,
            _ => false,
        }
    }
}

impl<T: Delayed> vstd::std_specs::cmp::PartialEqSpecImpl for Entry<T> {
    open spec fn obeys_eq_spec() -> bool {
        true
    }

    open spec fn eq_spec(&self, other: &Entry<T>) -> bool {
        self.priority(other) == Ordering::Equal
    }
}

impl<T: Delayed> Eq for Entry<T> {
}

impl<T: Delayed> PartialOrd for Entry<T> {
    /// The same as `cmp`, always `Some`.
    fn partial_cmp(&self, other: &Entry<T>) -> (r: Option<Ordering>)
        ensures
            r == Some(self.priority(other)),
            (r == Some(Ordering::Equal)) == (self.item().deadline() == other.item().deadline()),
    {
        Some(self.cmp(other))
    }
}

impl<T: Delayed> vstd::std_specs::cmp::PartialOrdSpecImpl for Entry<T> {
    open spec fn obeys_partial_cmp_spec() -> bool {
        true
    }

    open spec fn partial_cmp_spec(&self, other: &Entry<T>) -> Option<Ordering> {
        Some(self.priority(other))
    }
}

/// How entries compare, for any two entries whose instants are ordered as
/// std's `Ord` for `Instant` promises: `partial_cmp` always answers, and
/// answers as `cmp` does; entries are equal, and compare `Equal`, exactly when
/// their items are delayed until the same instant; comparing the other way
/// round gives the reverse, so `a < b` and `b < a` never hold together.
pub proof fn law_entry_comparison<T: Delayed>(a: Entry<T>, b: Entry<T>)
    requires
        triple_ordered(b.item().deadline(), a.item().deadline(), a.item().deadline()),
    ensures
        a.partial_cmp_spec(&b) == Some(a.priority(&b)),
        b.partial_cmp_spec(&a) == Some(flip(a.priority(&b))),
        (a.partial_cmp_spec(&b) == Some(Ordering::Equal)) == (a.item().deadline() == b.item().deadline()),
        a.eq_spec(&b) == (a.item().deadline() == b.item().deadline()),
        !(a.partial_cmp_spec(&b) == Some(Ordering::Less) && b.partial_cmp_spec(&a) == Some(Ordering::Less)),
        !(a.partial_cmp_spec(&b) == Some(Ordering::Greater) && b.partial_cmp_spec(&a) == Some(Ordering::Greater)),
{
}

} // verus!
