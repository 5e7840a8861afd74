//! The priority order of a task list.
//!
//! A list is in priority order when priorities never increase along it. The
//! priority order *of* a list is the one arrangement of its tasks that is in
//! priority order and in which tasks of equal priority stand as they stood
//! before.
//!
//! [`priority_order`] is defined by placing the tasks one by one. That it is
//! the arrangement just described, and the only one, is proved here:
//! [`lemma_priority_order_sorted`], [`lemma_priority_order_ranks`],
//! [`lemma_priority_order_permutes`] and [`lemma_priority_order_unique`].

use crate::task::{renumbered, same_task, same_tasks, TaskView};
use vstd::prelude::*;

verus! {

/// Priorities never increase along `s`.
pub open spec fn by_priority(s: Seq<TaskView>) -> bool {
    forall|i: int, j: int| 0 <= i <= j < s.len() ==> s[i].priority >= s[j].priority
}

/// The tasks of `s` whose priority is `p`, in the order they have in `s`.
pub open spec fn with_priority(s: Seq<TaskView>, p: nat) -> Seq<TaskView> {
    s.filter(|t: TaskView| t.priority == p)
}

/// `r` holds the tasks of `s`, and tasks of equal priority stand in `r` in
/// the order they have in `s`.
pub open spec fn keeps_ranks(r: Seq<TaskView>, s: Seq<TaskView>) -> bool {
    forall|p: nat| #[trigger] with_priority(r, p) == with_priority(s, p)
}

/// Where a task of priority `p` goes in `s`: the index of the first task
/// whose priority is below `p`, or the length of `s` if there is none.
pub open spec fn slot_for(s: Seq<TaskView>, p: nat) -> int
    decreases s.len(),
{
    if s.len() == 0 || s[0].priority < p {
        0
    } else {
        1 + slot_for(s.drop_first(), p)
    }
}

/// `s` with `t` put in at its slot.
pub open spec fn place(s: Seq<TaskView>, t: TaskView) -> Seq<TaskView> {
    s.insert(slot_for(s, t.priority), t)
}

/// The priority order of `s`: its tasks taken one by one as they come, each
/// put behind every task placed so far whose priority is at least its own.
pub open spec fn priority_order(s: Seq<TaskView>) -> Seq<TaskView>
    decreases s.len(),
{
    if s.len() == 0 {
        s
    } else {
        place(priority_order(s.drop_last()), s.last())
    }
}

/// The slot lies in the list, every task before it has priority at least
/// `p`, and the task at it, if any, has a lower one.
pub proof fn lemma_slot_for(s: Seq<TaskView>, p: nat)
    ensures
        0 <= slot_for(s, p) <= s.len(),
        forall|k: int| 0 <= k < slot_for(s, p) ==> s[k].priority >= p,
        slot_for(s, p) < s.len() ==> s[slot_for(s, p)].priority < p,
    decreases s.len(),
{
    if s.len() == 0 || s[0].priority < p {
    } else {
        let rest = s.drop_first();
        lemma_slot_for(rest, p);
        let j = slot_for(rest, p);
        assert forall|k: int| 0 <= k < j + 1 implies s[k].priority >= p by {
            if k > 0 {
                assert(s[k] == rest[k - 1]);
            }
        }
    }
}

/// An index before which every task has priority at least `p`, and at
/// which the task, if any, has a lower one, is the slot.
pub proof fn lemma_slot_is(s: Seq<TaskView>, p: nat, j: int)
    requires
        0 <= j <= s.len(),
        forall|k: int| 0 <= k < j ==> s[k].priority >= p,
        j < s.len() ==> s[j].priority < p,
    ensures
        slot_for(s, p) == j,
    decreases s.len(),
{
    if j > 0 {
        let rest = s.drop_first();
        lemma_slot_is(rest, p, j - 1);
    }
}

/// Placing a task in a list that is in priority order leaves it in priority
/// order.
pub proof fn lemma_place_sorted(s: Seq<TaskView>, t: TaskView)
    requires
        by_priority(s),
    ensures
        by_priority(place(s, t)),
        place(s, t).len() == s.len() + 1,
{
    lemma_slot_for(s, t.priority);
    let j = slot_for(s, t.priority);
    s.insert_ensures(j, t);
}

/// Placing a task adds it at the end of the tasks of its own priority and
/// leaves the tasks of every other priority as they were.
pub proof fn lemma_place_ranks(s: Seq<TaskView>, t: TaskView, p: nat)
    requires
        by_priority(s),
    ensures
        with_priority(place(s, t), p) == if p == t.priority {
            with_priority(s, p).push(t)
        } else {
            with_priority(s, p)
        },
{
    lemma_slot_for(s, t.priority);
    let j = slot_for(s, t.priority);
    let pred = |x: TaskView| x.priority == p;
    let front = s.subrange(0, j);
    let back = s.subrange(j, s.len() as int);
    assert(s == front + back);
    Seq::filter_distributes_over_add(front, back, pred);
    Seq::filter_distributes_over_add(front.push(t), back, pred);
    front.lemma_filter_push(t, pred);
    if p == t.priority {
        back.lemma_all_neg_filter_empty(pred);
    }
}

/// The priority order of a list is in priority order and as long as the
/// list.
pub proof fn lemma_priority_order_sorted(s: Seq<TaskView>)
    ensures
        by_priority(priority_order(s)),
        priority_order(s).len() == s.len(),
    decreases s.len(),
{
    if s.len() > 0 {
        lemma_priority_order_sorted(s.drop_last());
        lemma_place_sorted(priority_order(s.drop_last()), s.last());
    }
}

/// The priority order of a list holds the tasks of each priority exactly as
/// the list holds them: the same tasks, in the same order.
pub proof fn lemma_priority_order_ranks(s: Seq<TaskView>)
    ensures
        keeps_ranks(priority_order(s), s),
    decreases s.len(),
{
    if s.len() > 0 {
        let init = s.drop_last();
        lemma_priority_order_ranks(init);
        lemma_priority_order_sorted(init);
        assert forall|p: nat| #[trigger]
            with_priority(priority_order(s), p) == with_priority(s, p) by {
            lemma_place_ranks(priority_order(init), s.last(), p);
            init.lemma_filter_push(s.last(), |x: TaskView| x.priority == p);
            assert(init.push(s.last()) == s);
        }
    }
}

/// The priority order of a list holds the very tasks of the list, each as
/// often as the list holds it.
pub proof fn lemma_priority_order_permutes(s: Seq<TaskView>)
    ensures
        priority_order(s).to_multiset() == s.to_multiset(),
    decreases s.len(),
{
    if s.len() > 0 {
        let init = s.drop_last();
        lemma_priority_order_permutes(init);
        lemma_priority_order_sorted(init);
        lemma_slot_for(priority_order(init), s.last().priority);
        vstd::seq_lib::to_multiset_insert(
            priority_order(init),
            slot_for(priority_order(init), s.last().priority),
            s.last(),
        );
        vstd::seq_lib::to_multiset_build(init, s.last());
        assert(init.push(s.last()) == s);
    }
}

/// A list that is in priority order is its own priority order.
pub proof fn lemma_priority_order_fixed(s: Seq<TaskView>)
    requires
        by_priority(s),
    ensures
        priority_order(s) == s,
    decreases s.len(),
{
    if s.len() > 0 {
        let init = s.drop_last();
        lemma_priority_order_fixed(init);
        lemma_slot_is(init, s.last().priority, init.len() as int);
    }
}

/// Ordering, appending a task and ordering again gives what ordering once
/// after the append gives: the task placed in the ordered list.
pub proof fn lemma_priority_order_push(s: Seq<TaskView>, t: TaskView)
    ensures
        priority_order(priority_order(s).push(t)) == priority_order(s.push(t)),
        priority_order(s.push(t)) == place(priority_order(s), t),
{
    lemma_priority_order_sorted(s);
    lemma_priority_order_fixed(priority_order(s));
    assert(s.push(t).drop_last() == s);
    assert(priority_order(s).push(t).drop_last() == priority_order(s));
}

/// A task of priority `p` occurs in a list whose tasks of priority `p` are
/// not none.
proof fn lemma_rank_witness(s: Seq<TaskView>, p: nat) -> (i: int)
    requires
        with_priority(s, p).len() > 0,
    ensures
        0 <= i < s.len(),
        s[i].priority == p,
{
    let pred = |x: TaskView| x.priority == p;
    let found = with_priority(s, p)[0];
    s.lemma_filter_pred(pred, 0);
    s.lemma_filter_contains_rev(pred, found);
    choose|i: int| 0 <= i < s.len() && s[i] == found
}

/// Two lists in priority order that hold the same tasks of each priority in
/// the same order are one list.
pub proof fn lemma_sorted_same_ranks(r: Seq<TaskView>, q: Seq<TaskView>)
    requires
        by_priority(r),
        by_priority(q),
        keeps_ranks(r, q),
    ensures
        r == q,
    decreases r.len() + q.len(),
{
    if r.len() == 0 && q.len() == 0 {
    } else if r.len() == 0 {
        let p = q.last().priority;
        q.drop_last().lemma_filter_push(q.last(), |x: TaskView| x.priority == p);
        assert(q.drop_last().push(q.last()) == q);
        let i = lemma_rank_witness(r, p);
    } else if q.len() == 0 {
        let p = r.last().priority;
        r.drop_last().lemma_filter_push(r.last(), |x: TaskView| x.priority == p);
        assert(r.drop_last().push(r.last()) == r);
        assert(with_priority(r, p) == with_priority(q, p));
    } else {
        let x = r.last();
        let y = q.last();
        let r0 = r.drop_last();
        let q0 = q.drop_last();
        assert(r0.push(x) == r);
        assert(q0.push(y) == q);
        r0.lemma_filter_push(x, |t: TaskView| t.priority == x.priority);
        q0.lemma_filter_push(y, |t: TaskView| t.priority == y.priority);
        assert(with_priority(r, x.priority) == with_priority(q, x.priority));
        let i = lemma_rank_witness(q, x.priority);
        let j = lemma_rank_witness(r, y.priority);
        q0.lemma_filter_push(y, |t: TaskView| t.priority == x.priority);
        assert(with_priority(r, x.priority).last() == x);
        assert forall|p: nat| #[trigger] with_priority(r0, p) == with_priority(q0, p) by {
            r0.lemma_filter_push(x, |t: TaskView| t.priority == p);
            q0.lemma_filter_push(y, |t: TaskView| t.priority == p);
            if p == x.priority {
                assert(with_priority(r0, p) == with_priority(r, p).drop_last());
            }
        }
        lemma_sorted_same_ranks(r0, q0);
    }
}

/// The priority order of `s` is the only list in priority order that holds
/// the tasks of each priority as `s` holds them.
pub proof fn lemma_priority_order_unique(r: Seq<TaskView>, s: Seq<TaskView>)
    requires
        by_priority(r),
        keeps_ranks(r, s),
    ensures
        r == priority_order(s),
{
    lemma_priority_order_sorted(s);
    lemma_priority_order_ranks(s);
    lemma_sorted_same_ranks(r, priority_order(s));
}

/// Taking a task out of a list in priority order leaves it in priority
/// order.
pub proof fn lemma_remove_sorted(s: Seq<TaskView>, i: int)
    requires
        by_priority(s),
        0 <= i < s.len(),
    ensures
        by_priority(s.remove(i)),
{
    s.remove_ensures(i);
}

/// The priority order looks at priorities only: lists that differ in ids
/// alone have priority orders that differ in ids alone.
pub proof fn lemma_priority_order_same_tasks(a: Seq<TaskView>, b: Seq<TaskView>)
    requires
        same_tasks(a, b),
    ensures
        same_tasks(priority_order(a), priority_order(b)),
    decreases a.len(),
{
    if a.len() > 0 {
        let a0 = a.drop_last();
        let b0 = b.drop_last();
        lemma_priority_order_same_tasks(a0, b0);
        let pa = priority_order(a0);
        let pb = priority_order(b0);
        let p = a.last().priority;
        lemma_slot_for(pa, p);
        let j = slot_for(pa, p);
        assert forall|k: int| 0 <= k < j implies pb[k].priority >= p by {
            assert(same_task(pa[k], pb[k]));
        }
        lemma_slot_is(pb, p, j);
        pa.insert_ensures(j, a.last());
        pb.insert_ensures(j, b.last());
    }
}

/// Reading back a list that was written out. What comes back is the list
/// with new ids, put in priority order. But for the ids, that is the
/// priority order of the list; and the list itself, if it was in priority
/// order when it was written.
pub proof fn lemma_reload(t: Seq<TaskView>)
    ensures
        same_tasks(priority_order(renumbered(t)), priority_order(t)),
        by_priority(t) ==> same_tasks(priority_order(renumbered(t)), t),
{
    lemma_priority_order_same_tasks(renumbered(t), t);
    if by_priority(t) {
        lemma_priority_order_fixed(t);
    }
}

/// The list that adding the tasks `added` one by one to the list `start`
/// leaves: each is appended and the list put in priority order again.
pub open spec fn after_adds(start: Seq<TaskView>, added: Seq<TaskView>) -> Seq<TaskView>
    decreases added.len(),
{
    if added.len() == 0 {
        start
    } else {
        priority_order(after_adds(start, added.drop_last()).push(added.last()))
    }
}

/// Adding tasks one by one to a list in priority order leaves, after each
/// one, the priority order of the list with the tasks added so far behind
/// it: priorities never increase along it, and tasks of equal priority stand
/// in the order in which they were added, behind those that were there.
pub proof fn lemma_after_adds(start: Seq<TaskView>, added: Seq<TaskView>)
    requires
        by_priority(start),
    ensures
        after_adds(start, added) == priority_order(start + added),
        by_priority(after_adds(start, added)),
        keeps_ranks(after_adds(start, added), start + added),
    decreases added.len(),
{
    lemma_priority_order_sorted(start + added);
    lemma_priority_order_ranks(start + added);
    if added.len() > 0 {
        let init = added.drop_last();
        lemma_after_adds(start, init);
        lemma_priority_order_push(start + init, added.last());
        assert((start + init).push(added.last()) == start + added);
    } else {
        lemma_priority_order_fixed(start);
    }
}

/// The priority order of a list holds a task if and only if the list holds
/// it.
pub proof fn lemma_priority_order_members(s: Seq<TaskView>)
    ensures
        forall|t: TaskView| #[trigger] priority_order(s).contains(t) <==> s.contains(t),
{
    lemma_priority_order_permutes(s);
    assert forall|t: TaskView| #[trigger] priority_order(s).contains(t) <==> s.contains(t) by {
        vstd::seq_lib::to_multiset_contains(priority_order(s), t);
        vstd::seq_lib::to_multiset_contains(s, t);
    }
}

} // verus!
