//! Points in time, their order, and the arithmetic on them that the queue
//! needs.
//!
//! `std::time::Instant` is opaque to verified code. Its order is std's
//! `Ord` for `Instant`, a total order; the comparison below states what that
//! promises of the two instants compared and of any third one.

use vstd::prelude::*;
use std::cmp::Ordering;
use std::time::{Duration, Instant};

verus! {

/// Makes `std::time::Instant` usable in verified code, as an opaque value.
#[verifier::external_type_specification]
#[verifier::external_body]
pub struct ExInstant(Instant);

/// What `a.cmp(&b)` returns for two instants: where `a` lies relative to `b`.
pub uninterp spec fn instant_cmp(a: Instant, b: Instant) -> Ordering;

/// What `later.checked_duration_since(earlier)` returns: the time elapsed
/// from `earlier` to `later`, or `None` when `earlier` lies after `later`.
pub uninterp spec fn checked_elapsed(later: Instant, earlier: Instant) -> Option<Duration>;

/// What `d.as_nanos()` returns: the whole length of `d` in nanoseconds.
pub uninterp spec fn nanos_of(d: Duration) -> u128;

/// What `t.checked_add(d)` returns: the instant `d` after `t`, or `None`
/// when that instant cannot be represented.
pub uninterp spec fn shifted(t: Instant, d: Duration) -> Option<Instant>;

/// The reverse of an ordering.
pub open spec fn flip(o: Ordering) -> Ordering {
    match o {
        Ordering::Less => Ordering::Greater,
        Ordering::Equal => Ordering::Equal,
        Ordering::Greater => Ordering::Less,
    }
}

/// Whether `xy` (x against y) and `yz` (y against z) force `xz` (x against
/// z) as a total order does.
pub open spec fn transitive(xy: Ordering, yz: Ordering, xz: Ordering) -> bool {
    &&& (xy != Ordering::Greater && yz != Ordering::Greater ==> xz != Ordering::Greater)
    &&& (xy == Ordering::Less && yz != Ordering::Greater ==> xz == Ordering::Less)
    &&& (xy != Ordering::Greater && yz == Ordering::Less ==> xz == Ordering::Less)
    &&& (xy != Ordering::Less && yz != Ordering::Less ==> xz != Ordering::Less)
    &&& (xy == Ordering::Greater && yz != Ordering::Less ==> xz == Ordering::Greater)
    &&& (xy != Ordering::Less && yz == Ordering::Greater ==> xz == Ordering::Greater)
}

/// What a total order says of three instants, where `ab` is the comparison
/// of `a` with `b`: reversing a comparison reverses its result, `Equal` means
/// the same instant, and comparisons chain.
pub open spec fn ordered_triple(ab: Ordering, a: Instant, b: Instant, c: Instant) -> bool {
    let ba = instant_cmp(b, a);
    let ac = instant_cmp(a, c);
    let ca = instant_cmp(c, a);
    let bc = instant_cmp(b, c);
    let cb = instant_cmp(c, b);
    &&& ca == flip(ac)
    &&& cb == flip(bc)
    &&& (ac == Ordering::Equal) == (a == c)
    &&& (bc == Ordering::Equal) == (b == c)
    &&& transitive(ab, bc, ac)
    &&& transitive(ac, cb, ab)
    &&& transitive(ba, ac, bc)
    &&& transitive(bc, ca, ba)
    &&& transitive(ca, ab, cb)
    &&& transitive(cb, ba, ca)
}

/// What a total order says of three instants.
pub open spec fn triple_ordered(x: Instant, y: Instant, z: Instant) -> bool {
    &&& instant_cmp(y, x) == flip(instant_cmp(x, y))
    &&& (instant_cmp(x, y) == Ordering::Equal) == (x == y)
    &&& ordered_triple(instant_cmp(x, y), x, y, z)
}

/// Whether the instants of `ts` are ordered among themselves as a total
/// order orders them. std's `Ord` for `Instant` promises this of any
/// instants; laws that rest on it take it as their premise.
pub open spec fn totally_ordered(ts: Seq<Instant>) -> bool {
    forall|x: Instant, y: Instant, z: Instant|
        #![trigger ts.contains(x), ts.contains(y), ts.contains(z)]
        ts.contains(x) && ts.contains(y) && ts.contains(z) ==> triple_ordered(x, y, z)
}

/// Whether `a` is not later than `b`.
pub open spec fn not_after(a: Instant, b: Instant) -> bool {
    instant_cmp(a, b) != Ordering::Greater
}

/// Whether `a` is earlier than `b`.
pub open spec fn before(a: Instant, b: Instant) -> bool {
    instant_cmp(a, b) == Ordering::Less
}

/// What a comparison of `a` with `b` tells, as std's `Ord` for `Instant`
/// promises: comparing the other way round gives the reverse, `Equal` means
/// the same instant, and against any third instant the comparisons chain.
pub open spec fn compared(a: Instant, b: Instant) -> bool {
    &&& instant_cmp(b, a) == flip(instant_cmp(a, b))
    &&& (instant_cmp(a, b) == Ordering::Equal) == (a == b)
    &&& forall|c: Instant|
        #![trigger instant_cmp(a, c)]
        #![trigger instant_cmp(c, a)]
        #![trigger instant_cmp(b, c)]
        #![trigger instant_cmp(c, b)]
        ordered_triple(instant_cmp(a, b), a, b, c)
}

/// Reads the monotonic clock through `Instant::now()`.
/// Nothing is stated of the result: it depends on when the call is made.
#[verifier::external_body]
pub(crate) fn now() -> Instant {
    Instant::now()
}

/// Calls `Instant::cmp`. Trusted to return the named `instant_cmp`, and to
/// behave as the total order that std's `Ord` for `Instant` is: comparing the
/// other way round gives the reverse, `Equal` means the same instant, and
/// against any third instant `c` the comparisons chain (`ordered_triple`).
#[verifier::external_body]
pub(crate) fn compare(a: Instant, b: Instant) -> (r: Ordering)
    ensures
        r == instant_cmp(a, b),
        instant_cmp(b, a) == flip(r),
        (r == Ordering::Equal) == (a == b),
        forall|c: Instant|
            #![trigger instant_cmp(a, c)]
            #![trigger instant_cmp(c, a)]
            #![trigger instant_cmp(b, c)]
            #![trigger instant_cmp(c, b)]
            ordered_triple(r, a, b, c),
{
    a.cmp(&b)
}

/// Whether `a` is not later than `b`, with what the comparison tells of the
/// two instants and of any third.
pub(crate) fn is_not_after(a: Instant, b: Instant) -> (r: bool)
    ensures
        r == not_after(a, b),
        compared(a, b),
{
    match compare(a, b) {
        Ordering::Greater => false,
        _ => true,
    }
}

/// Calls `Instant::checked_duration_since`. Trusted to return the named
/// `checked_elapsed` of the two instants, and, as std documents, to give
/// `None` only when `earlier` lies after `later`, and zero from an instant
/// to itself. Nothing is claimed of the length otherwise.
#[verifier::external_body]
fn elapsed_since(later: Instant, earlier: Instant) -> (r: Option<Duration>)
    ensures
        r == checked_elapsed(later, earlier),
        r.is_none() ==> instant_cmp(later, earlier) == Ordering::Less,
        later == earlier ==> r.is_some() && nanos_of(r.unwrap()) == 0,
{
    later.checked_duration_since(earlier)
}

/// Calls `Duration::as_nanos`. Trusted to return the named `nanos_of` the
/// duration, that is, to depend on the duration alone.
#[verifier::external_body]
fn as_nanos(d: Duration) -> (r: u128)
    ensures
        r == nanos_of(d),
{
    d.as_nanos()
}

/// Calls `Instant::checked_add`. Trusted to return the named `shifted` of the
/// instant and the duration, that is, to depend on them alone.
#[verifier::external_body]
pub(crate) fn checked_shift(t: Instant, d: Duration) -> (r: Option<Instant>)
    ensures
        r == shifted(t, d),
{
    t.checked_add(d)
}

/// The nanoseconds from `earlier` to `later`, when `later` is not before `earlier`.
pub open spec fn elapsed_nanos(later: Instant, earlier: Instant) -> Option<u128> {
    match checked_elapsed(later, earlier) {
        Some(d) => Some(nanos_of(d)),
        None => None,
    }
}

/// How long a consumer that reads `now` on the clock waits for `deadline`:
/// the nanoseconds from `now` to `deadline`, or nothing if it has passed.
pub open spec fn wait_nanos(deadline: Instant, now: Instant) -> u128 {
    match elapsed_nanos(deadline, now) {
        Some(n) => n,
        None => 0,
    }
}

/// Measures `later - earlier` in nanoseconds.
pub(crate) fn nanos_since(later: Instant, earlier: Instant) -> (r: Option<u128>)
    ensures
        r == elapsed_nanos(later, earlier),
        r is None ==> before(later, earlier),
        later == earlier ==> r == Some(0u128),
{
    match elapsed_since(later, earlier) {
        Some(d) => Some(as_nanos(d)),
        None => None,
    }
}

} // verus!
