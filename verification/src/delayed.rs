//! Values that are delayed until some instant.

use vstd::prelude::*;
use std::time::{Duration, Instant};
use crate::time::{checked_shift, now, shifted};

verus! {

/// A value that is delayed until some `Instant`.
///
/// The `DelayQueue` only accepts values that implement this trait. In most
/// situations there is no need to implement it: the helper struct `Delay`
/// does. The queue relies on the instant of an item not changing while the
/// item is in the queue; `deadline` names that instant.
pub trait Delayed {
    /// The instant until which this value is delayed.
    spec fn deadline(&self) -> Instant;

    /// Returns the `Instant` until which this value is delayed.
    fn delayed_until(&self) -> (r: Instant)
        ensures
            r == self.deadline(),
    ;
}

/// Wraps a value that should be delayed.
///
/// Two `Delay`s are equal iff their wrapped `value`s are equal and they are
/// delayed until the same `Instant`.
#[derive(Debug, PartialEq, Eq)]
pub struct Delay<T> {
    /// The value that is delayed.
    pub value: T,
    /// The `Instant` until which `value` is delayed.
    until: Instant,
}

impl<T> Delay<T> {
    /// The instant until which the value is delayed.
    pub closed spec fn until(&self) -> Instant {
        self.until
    }

    /// The value that is delayed.
    pub closed spec fn payload(&self) -> T {
        self.value
    }

    /// A `Delay` is determined by its value and its instant.
    pub proof fn law_determined(a: Delay<T>, b: Delay<T>)
        requires
            a.payload() == b.payload(),
            a.until() == b.until(),
        ensures
            a == b,
    {
    }

    /// Borrows the value that is delayed.
    pub fn value(&self) -> (r: &T)
        ensures
            *r == self.payload(),
    {
        &self.value
    }

    /// Creates a new `Delay` holding `value` and delayed until `until`.
    pub fn until_instant(value: T, until: Instant) -> (r: Delay<T>)
        ensures
            r.payload() == value,
            r.until() == until,
    {
        Delay { value, until }
    }

    /// Creates a `Delay` holding `value` that is delayed until `duration`
    /// after `start`, or `None` when that instant cannot be represented.
    pub fn after(value: T, start: Instant, duration: Duration) -> (r: Option<Delay<T>>)
        ensures
            shifted(start, duration) is None ==> r is None,
            shifted(start, duration) matches Some(until) ==> r matches Some(d) && d.payload() == value
                && d.until() == until,
    {
        match checked_shift(start, duration) {
            Some(until) => Some(Delay::until_instant(value, until)),
            None => None,
        }
    }

    /// Creates a `Delay` holding `value` that is delayed until `duration` has
    /// elapsed from now, or `None` when that instant cannot be represented.
    pub fn for_duration(value: T, duration: Duration) -> (r: Option<Delay<T>>)
        ensures
            r matches Some(d) ==> d.payload() == value && exists|start: Instant|
                shifted(start, duration) == Some(d.until()),
            r is None ==> exists|start: Instant| shifted(start, duration) is None,
    {
        let start = now();
        Delay::after(value, start, duration)
    }
}

impl<T> Delayed for Delay<T> {
    open spec fn deadline(&self) -> Instant {
        self.until()
    }

    fn delayed_until(&self) -> (r: Instant) {
        self.until
    }
}

impl<T: Default> Default for Delay<T> {
    /// A `Delay` holding the default value, delayed until now.
    fn default() -> (r: Delay<T>)
        ensures
            call_ensures(T::default, (), r.payload()),
    {
        Delay { value: T::default(), until: now() }
    }
}

} // verus!
