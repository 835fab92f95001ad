//! The delay queue: items kept in the order of their deadlines, and the
//! decisions a producer and a consumer make against it.

use vstd::prelude::*;
use std::time::Instant;
use crate::delayed::Delayed;
use crate::entry::Entry;
use crate::time::{
    elapsed_nanos, is_not_after, nanos_since, not_after, now, totally_ordered, triple_ordered, wait_nanos,
};

verus! {

/// The deadlines of the items of `s`.
pub open spec fn deadlines<T: Delayed>(s: Seq<T>) -> Seq<Instant> {
    s.map_values(|t: T| t.deadline())
}

/// Whether every item of `s` is due no later than each item after it.
pub open spec fn in_deadline_order<T: Delayed>(s: Seq<T>) -> bool {
    forall|i: int, j: int| 0 <= i < j < s.len() ==> not_after(s[i].deadline(), s[j].deadline())
}

/// How many items at the front of `s` are due no later than `t`: the place
/// where an item due at `t` goes.
pub open spec fn leading_not_after<T: Delayed>(s: Seq<T>, t: Instant) -> nat
    decreases s.len(),
{
    if s.len() == 0 {
        0
    } else if not_after(s[0].deadline(), t) {
        1 + leading_not_after(s.drop_first(), t)
    } else {
        0
    }
}

/// `s` with `item` put in place: after the leading items that are due no
/// later than it, before the first one due later.
pub open spec fn ordered_insert<T: Delayed>(s: Seq<T>, item: T) -> Seq<T> {
    s.insert(leading_not_after(s, item.deadline()) as int, item)
}

/// The contents of a queue into which `items` were pushed, in that order.
pub open spec fn push_all<T: Delayed>(items: Seq<T>) -> Seq<T>
    decreases items.len(),
{
    if items.len() == 0 {
        Seq::empty()
    } else {
        ordered_insert(push_all(items.drop_last()), items.last())
    }
}

/// What a consumer does after looking at the queue.
pub enum PopStep<T> {
    /// The head was due and has been taken out. `more` says whether items are
    /// left, so that another waiting consumer should look again.
    Ready { item: T, more: bool },
    /// The head is not due yet: wait this many nanoseconds, or until a new
    /// head is pushed.
    Wait { nanos: u128 },
    /// The queue is empty: wait until an item is pushed.
    Empty,
}

/// The step a consumer takes on a queue that holds `s` when the clock reads
/// `now`, and what the queue holds afterwards.
pub open spec fn pop_result<T: Delayed>(s: Seq<T>, now: Instant) -> (PopStep<T>, Seq<T>) {
    if s.len() == 0 {
        (PopStep::Empty, s)
    } else if not_after(s[0].deadline(), now) {
        (PopStep::Ready { item: s[0], more: s.len() > 1 }, s.drop_first())
    } else {
        (PopStep::Wait { nanos: wait_nanos(s[0].deadline(), now) }, s)
    }
}

/// An unbounded queue where each item can only be removed when its delay
/// expires; items leave earliest deadline first, and items with the same
/// deadline in the order they came in.
#[derive(Debug)]
pub struct DelayQueue<T: Delayed> {
    entries: Vec<Entry<T>>,
}

impl<T: Delayed> View for DelayQueue<T> {
    type V = Seq<T>;

    /// The items in the queue, in the order in which they will leave it.
    closed spec fn view(&self) -> Seq<T> {
        self.entries@.map_values(|e: Entry<T>| e.item())
    }
}

proof fn lemma_leading_split<T: Delayed>(s: Seq<T>, t: Instant, i: int)
    requires
        0 <= i <= s.len(),
        forall|j: int| 0 <= j < i ==> not_after(#[trigger] s[j].deadline(), t),
        i < s.len() ==> !not_after(s[i].deadline(), t),
    ensures
        leading_not_after(s, t) == i,
    decreases s.len(),
{
    if s.len() > 0 && i > 0 {
        let rest = s.drop_first();
        assert forall|j: int| 0 <= j < i - 1 implies not_after(#[trigger] rest[j].deadline(), t) by {
            assert(rest[j] == s[j + 1]);
        }
        if i < s.len() {
            assert(rest[i - 1] == s[i]);
        }
        lemma_leading_split(rest, t, i - 1);
    }
}

proof fn lemma_leading_bound<T: Delayed>(s: Seq<T>, t: Instant)
    ensures
        leading_not_after(s, t) <= s.len(),
        forall|j: int| 0 <= j < leading_not_after(s, t) ==> not_after(#[trigger] s[j].deadline(), t),
        leading_not_after(s, t) < s.len() ==> !not_after(s[leading_not_after(s, t) as int].deadline(), t),
    decreases s.len(),
{
    if s.len() > 0 && not_after(s[0].deadline(), t) {
        let rest = s.drop_first();
        lemma_leading_bound(rest, t);
        assert forall|j: int| 0 <= j < leading_not_after(s, t) implies not_after(#[trigger] s[j].deadline(), t) by {
            if j > 0 {
                assert(s[j] == rest[j - 1]);
            }
        }
        if leading_not_after(s, t) < s.len() {
            assert(s[leading_not_after(s, t) as int] == rest[leading_not_after(rest, t) as int]);
        }
    }
}

proof fn lemma_insert_in_order<T: Delayed>(s: Seq<T>, item: T, i: int)
    requires
        in_deadline_order(s),
        0 <= i <= s.len(),
        forall|j: int| 0 <= j < i ==> not_after(#[trigger] s[j].deadline(), item.deadline()),
        forall|j: int| i <= j < s.len() ==> not_after(item.deadline(), #[trigger] s[j].deadline()),
    ensures
        in_deadline_order(s.insert(i, item)),
{
    s.insert_ensures(i, item);
    let n = s.insert(i, item);
    assert forall|a: int, b: int| 0 <= a < b < n.len() implies not_after(n[a].deadline(), n[b].deadline()) by {
        if a < i {
            if b == i {
            } else if b > i {
                assert(n[b] == s[b - 1]);
            }
        } else if a == i {
            assert(n[b] == s[b - 1]);
        } else {
            assert(n[a] == s[a - 1]);
            assert(n[b] == s[b - 1]);
        }
    }
}

proof fn lemma_contains_deadline<T: Delayed>(s: Seq<T>, j: int)
    requires
        0 <= j < s.len(),
    ensures
        deadlines(s).contains(s[j].deadline()),
{
    assert(deadlines(s)[j] == s[j].deadline());
}

/// Putting an item in its place keeps the queue in deadline order, adds
/// exactly that item and loses none. Its premise is that the deadlines
/// involved are totally ordered, as std's `Ord` for `Instant` promises.
pub proof fn law_ordered_insert<T: Delayed>(s: Seq<T>, item: T)
    requires
        in_deadline_order(s),
        totally_ordered(deadlines(s).push(item.deadline())),
    ensures
        in_deadline_order(ordered_insert(s, item)),
        ordered_insert(s, item).to_multiset() == s.to_multiset().insert(item),
        ordered_insert(s, item).len() == s.len() + 1,
{
    let t = item.deadline();
    let ts = deadlines(s).push(t);
    lemma_leading_bound(s, t);
    let i = leading_not_after(s, t) as int;
    assert(ts.contains(t)) by {
        assert(ts[s.len() as int] == t);
    }
    assert forall|j: int| i <= j < s.len() implies not_after(t, #[trigger] s[j].deadline()) by {
        let x = s[i].deadline();
        let z = s[j].deadline();
        assert(ts.contains(x)) by {
            assert(ts[i] == x);
        }
        assert(ts.contains(z)) by {
            assert(ts[j] == z);
        }
        if j > i {
            assert(not_after(x, z));
        }
    }
    lemma_insert_in_order(s, item, i);
    vstd::seq_lib::to_multiset_insert(s, i, item);
}

/// The head of a queue in deadline order is due no later than any other item.
pub proof fn law_head_is_earliest<T: Delayed>(s: Seq<T>)
    requires
        in_deadline_order(s),
        s.len() > 0,
    ensures
        forall|j: int| 0 < j < s.len() ==> not_after(s[0].deadline(), #[trigger] s[j].deadline()),
{
}

proof fn lemma_totally_ordered_subset(ts: Seq<Instant>, us: Seq<Instant>)
    requires
        totally_ordered(ts),
        forall|x: Instant| us.contains(x) ==> ts.contains(x),
    ensures
        totally_ordered(us),
{
    assert forall|x: Instant, y: Instant, z: Instant|
        us.contains(x) && us.contains(y) && us.contains(z) implies triple_ordered(x, y, z) by {
        assert(ts.contains(x) && ts.contains(y) && ts.contains(z));
    }
}

/// However the items were pushed, the queue holds exactly them, in deadline
/// order: taking them out one by one gives them earliest deadline first.
/// Its premise is that their deadlines are totally ordered, as std's `Ord`
/// for `Instant` promises.
pub proof fn law_drain_is_sorted_permutation<T: Delayed>(items: Seq<T>)
    requires
        totally_ordered(deadlines(items)),
    ensures
        in_deadline_order(push_all(items)),
        push_all(items).to_multiset() == items.to_multiset(),
    decreases items.len(),
{
    broadcast use vstd::seq_lib::group_to_multiset_ensures;
    if items.len() == 0 {
        assert(items =~= Seq::<T>::empty());
        assert(items.to_multiset() =~= vstd::multiset::Multiset::empty());
        assert(Seq::<T>::empty().to_multiset() =~= vstd::multiset::Multiset::empty());
    } else {
        let rest = items.drop_last();
        let last = items.last();
        assert(items =~= rest.push(last));
        assert forall|x: Instant| deadlines(rest).contains(x) implies deadlines(items).contains(x) by {
            let k = choose|k: int| 0 <= k < deadlines(rest).len() && deadlines(rest)[k] == x;
            assert(deadlines(items)[k] == x);
        }
        lemma_totally_ordered_subset(deadlines(items), deadlines(rest));
        law_drain_is_sorted_permutation(rest);
        let p = push_all(rest);
        assert forall|x: Instant| deadlines(p).push(last.deadline()).contains(x) implies deadlines(items).contains(x) by {
            let k = choose|k: int| 0 <= k < deadlines(p).len() + 1 && deadlines(p).push(last.deadline())[k] == x;
            if k == deadlines(p).len() {
                assert(deadlines(items)[items.len() - 1] == x);
            } else {
                let e = p[k];
                assert(p.contains(e));
                assert(p.to_multiset().count(e) > 0);
                assert(rest.to_multiset().count(e) > 0);
                assert(rest.contains(e));
                let m = choose|m: int| 0 <= m < rest.len() && rest[m] == e;
                assert(deadlines(items)[m] == x);
            }
        }
        lemma_totally_ordered_subset(deadlines(items), deadlines(p).push(last.deadline()));
        law_ordered_insert(p, last);
        vstd::seq_lib::to_multiset_build(rest, last);
    }
}

/// A step taken on a queue in deadline order hands out an item only when it
/// is due at the clock's reading, and only an item due no later than any
/// other; it waits only when no item is due yet. The latter rests on the
/// deadlines and the reading being totally ordered, as std's `Ord` for
/// `Instant` promises.
pub proof fn law_ready_item_is_due_and_earliest<T: Delayed>(s: Seq<T>, now: Instant)
    requires
        in_deadline_order(s),
        totally_ordered(deadlines(s).push(now)),
    ensures
        pop_result(s, now).0 matches PopStep::Ready { item, more } ==> {
            &&& not_after(item.deadline(), now)
            &&& forall|j: int| 0 <= j < pop_result(s, now).1.len()
                ==> not_after(item.deadline(), #[trigger] pop_result(s, now).1[j].deadline())
            &&& pop_result(s, now).1.to_multiset().insert(item) == s.to_multiset()
        },
        pop_result(s, now).0 matches PopStep::Wait { .. } ==> forall|j: int| 0 <= j < s.len()
            ==> !not_after(#[trigger] s[j].deadline(), now),
{
    broadcast use vstd::seq_lib::group_to_multiset_ensures;
    let ts = deadlines(s).push(now);
    if s.len() > 0 {
        if not_after(s[0].deadline(), now) {
            assert forall|j: int| 0 <= j < s.drop_first().len() implies not_after(s[0].deadline(), #[trigger] s.drop_first()[j].deadline()) by {
                assert(s.drop_first()[j] == s[j + 1]);
            }
            assert(s.drop_first() =~= s.remove(0));
            vstd::seq_lib::to_multiset_remove(s, 0);
            assert(s.contains(s[0]));
            assert(s.to_multiset().remove(s[0]).insert(s[0]) =~= s.to_multiset());
        } else {
            assert(ts.contains(now)) by {
                assert(ts[s.len() as int] == now);
            }
            assert forall|j: int| 0 <= j < s.len() implies !not_after(#[trigger] s[j].deadline(), now) by {
                assert(ts.contains(s[0].deadline())) by {
                    assert(ts[0] == s[0].deadline());
                }
                assert(ts.contains(s[j].deadline())) by {
                    assert(ts[j] == s[j].deadline());
                }
                if j > 0 {
                    assert(not_after(s[0].deadline(), s[j].deadline()));
                }
            }
        }
    }
}

/// What one step of a consumer does, for every queue and clock reading: it
/// says `Empty` exactly when the queue is empty; it hands out the head exactly
/// when the head is due at the reading, and then the queue loses just the
/// head and `more` says whether anything is left; otherwise it waits, with
/// the queue unchanged, for the time from the reading to the head's deadline.
pub proof fn law_pop_step<T: Delayed>(s: Seq<T>, now: Instant)
    ensures
        (pop_result(s, now).0 is Empty) == (s.len() == 0),
        pop_result(s, now).0 is Empty ==> pop_result(s, now).1 == s,
        s.len() > 0 ==> ((pop_result(s, now).0 is Ready) == not_after(s[0].deadline(), now)),
        pop_result(s, now).0 matches PopStep::Ready { item, more } ==> {
            &&& item == s[0]
            &&& not_after(item.deadline(), now)
            &&& pop_result(s, now).1 == s.drop_first()
            &&& pop_result(s, now).1.len() + 1 == s.len()
            &&& more == (pop_result(s, now).1.len() > 0)
        },
        pop_result(s, now).0 matches PopStep::Wait { nanos } ==> {
            &&& s.len() > 0
            &&& !not_after(s[0].deadline(), now)
            &&& pop_result(s, now).1 == s
            &&& (elapsed_nanos(s[0].deadline(), now) matches Some(n) ==> nanos == n)
        },
{
}

/// Once the head is due it stays due: if a step at reading `t1` hands out an
/// item, a step at any later reading `t2` on the same queue hands out the same
/// item. Its premise is that the instants are ordered as std's `Ord` for
/// `Instant` promises.
pub proof fn law_due_stays_due<T: Delayed>(s: Seq<T>, t1: Instant, t2: Instant)
    requires
        s.len() > 0,
        triple_ordered(s[0].deadline(), t1, t2),
        not_after(t1, t2),
        pop_result(s, t1).0 is Ready,
    ensures
        pop_result(s, t2) == pop_result(s, t1),
{
}

/// Taking out what was just pushed into an empty queue, once it is due,
/// gives back that item and leaves the queue empty.
pub proof fn law_pop_undoes_push_into_empty<T: Delayed>(item: T, now: Instant)
    requires
        not_after(item.deadline(), now),
    ensures
        pop_result(ordered_insert(Seq::empty(), item), now) == (PopStep::Ready { item, more: false }, Seq::<T>::empty()),
{
    let s = ordered_insert(Seq::<T>::empty(), item);
    assert(s =~= seq![item]);
    assert(s.drop_first() =~= Seq::<T>::empty());
}

impl<T: Delayed> DelayQueue<T> {
    /// The queue's internal invariant: entries in deadline order.
    pub closed spec fn wf(&self) -> bool {
        in_deadline_order(self@)
    }

    /// Every queue keeps its items in deadline order.
    pub proof fn law_in_deadline_order(&self)
        requires
            self.wf(),
        ensures
            in_deadline_order(self@),
    {
    }

    /// Creates an empty `DelayQueue`.
    pub fn new() -> (r: DelayQueue<T>)
        ensures
            r.wf(),
            r@ == Seq::<T>::empty(),
    {
        let q = DelayQueue { entries: Vec::new() };
        assert(q@ =~= Seq::<T>::empty());
        q
    }

    /// Checks if the queue is empty.
    pub fn is_empty(&self) -> (r: bool)
        ensures
            r == (self@.len() == 0),
    {
        self.entries.len() == 0
    }

    /// Pushes an item onto the queue, after every leading item whose deadline
    /// is not later than its own. Returns whether the item became the new
    /// head, in which case a waiting consumer has to look again.
    pub fn push(&mut self, item: T) -> (new_head: bool)
        requires
            old(self).wf(),
        ensures
            final(self).wf(),
            final(self)@ == ordered_insert(old(self)@, item),
            new_head == (old(self)@.len() == 0 || !not_after(old(self)@[0].deadline(), item.deadline())),
    {
        let ghost old_view = self@;
        let ghost t = item.deadline();
        let until = item.delayed_until();
        let len = self.entries.len();
        let mut i: usize = 0;
        loop
            invariant_except_break
                i < len || (i == len && forall|j: int| 0 <= j < i ==> not_after(#[trigger] old_view[j].deadline(), t)),
            invariant
                i <= len,
                len == self.entries@.len(),
                self@ == old_view,
                in_deadline_order(old_view),
                until == t,
                forall|j: int| 0 <= j < i ==> not_after(#[trigger] old_view[j].deadline(), t),
            ensures
                i <= len,
                forall|j: int| 0 <= j < i ==> not_after(#[trigger] old_view[j].deadline(), t),
                forall|j: int| i <= j < len ==> not_after(t, #[trigger] old_view[j].deadline()),
                i < len ==> !not_after(old_view[i as int].deadline(), t),
            decreases len - i,
        {
            if i == len {
                break;
            }
            let d = self.entries[i].get().delayed_until();
            proof {
                assert(old_view[i as int] == self.entries@[i as int].item());
            }
            if !is_not_after(d, until) {
                proof {
                    assert forall|j: int| i <= j < len implies not_after(t, #[trigger] old_view[j].deadline()) by {
                        if j > i {
                            assert(not_after(d, old_view[j].deadline()));
                        }
                    }
                }
                break;
            }
            i = i + 1;
        }
        proof {
            lemma_leading_split(old_view, t, i as int);
            lemma_insert_in_order(old_view, item, i as int);
        }
        let ghost old_entries = self.entries@;
        let entry = Entry::new(item);
        let ghost new_entry = entry;
        self.entries.insert(i, entry);
        proof {
            old_entries.insert_ensures(i as int, new_entry);
            old_view.insert_ensures(i as int, item);
            assert(self@ =~= old_view.insert(i as int, item));
        }
        i == 0
    }

    /// Looks at the queue with the clock reading `now`: takes out the head if
    /// its deadline is not after `now`, and otherwise says how long to wait.
    pub fn pop(&mut self, now: Instant) -> (r: PopStep<T>)
        requires
            old(self).wf(),
        ensures
            final(self).wf(),
            (r, final(self)@) == pop_result(old(self)@, now),
            (r is Empty) == (old(self)@.len() == 0),
            r matches PopStep::Ready { item, more } ==> {
                &&& old(self)@.len() > 0
                &&& item == old(self)@[0]
                &&& final(self)@ == old(self)@.drop_first()
                &&& more == (final(self)@.len() > 0)
            },
            r matches PopStep::Wait { .. } ==> old(self)@.len() > 0 && final(self)@ == old(self)@,
            old(self)@.len() > 0 ==> ((r is Ready) == not_after(old(self)@[0].deadline(), now)),
            r matches PopStep::Ready { item, .. } ==> {
                &&& not_after(item.deadline(), now)
                &&& forall|j: int|
                    0 <= j < final(self)@.len() ==> not_after(item.deadline(), #[trigger] final(self)@[j].deadline())
            },
            r matches PopStep::Wait { nanos } ==> {
                &&& elapsed_nanos(old(self)@[0].deadline(), now) == Some(nanos)
                &&& forall|j: int| 0 <= j < old(self)@.len() ==> !not_after(#[trigger] old(self)@[j].deadline(), now)
            },
    {
        let ghost old_view = self@;
        if self.entries.len() == 0 {
            return PopStep::Empty;
        }
        let d = self.entries[0].get().delayed_until();
        proof {
            assert(old_view[0] == self.entries@[0].item());
        }
        if is_not_after(d, now) {
            let ghost old_entries = self.entries@;
            let entry = self.entries.remove(0);
            let more = self.entries.len() > 0;
            proof {
                old_entries.remove_ensures(0);
                assert(self@ =~= old_view.drop_first());
                assert forall|j: int| 0 <= j < self@.len() implies not_after(d, #[trigger] self@[j].deadline()) by {
                    assert(self@[j] == old_view[j + 1]);
                }
                assert forall|a: int, b: int| 0 <= a < b < self@.len() implies not_after(self@[a].deadline(), self@[b].deadline()) by {
                    assert(self@[a] == old_view[a + 1]);
                    assert(self@[b] == old_view[b + 1]);
                }
            }
            PopStep::Ready { item: entry.into_inner(), more }
        } else {
            proof {
                assert forall|j: int| 0 <= j < old_view.len() implies !not_after(#[trigger] old_view[j].deadline(), now) by {
                    if j > 0 {
                        assert(not_after(d, old_view[j].deadline()));
                    }
                }
            }
            let nanos = match nanos_since(d, now) {
                Some(n) => n,
                None => 0,
            };
            PopStep::Wait { nanos }
        }
    }

    /// Looks at the queue with the clock's present reading, as `pop` does.
    /// What is taken out depends on that reading; whatever it was, the step
    /// is the one `pop` takes for some reading.
    pub fn poll(&mut self) -> (r: PopStep<T>)
        requires
            old(self).wf(),
        ensures
            final(self).wf(),
            exists|t: Instant| (r, final(self)@) == pop_result(old(self)@, t),
            (r is Empty) == (old(self)@.len() == 0),
            r matches PopStep::Ready { item, more } ==> {
                &&& old(self)@.len() > 0
                &&& item == old(self)@[0]
                &&& final(self)@ == old(self)@.drop_first()
                &&& more == (final(self)@.len() > 0)
            },
            r matches PopStep::Wait { .. } ==> old(self)@.len() > 0 && final(self)@ == old(self)@,
    {
        let t = now();
        self.pop(t)
    }
}

} // verus!
