//! The task store: the list of tasks, kept in priority order.

use crate::order::{
    by_priority, keeps_ranks, lemma_priority_order_fixed, lemma_priority_order_push,
    lemma_priority_order_ranks, lemma_priority_order_sorted, lemma_remove_sorted, lemma_slot_is,
    place, priority_order,
};
use crate::task::{renumbered, task_views, Task, TaskView};
use vstd::prelude::*;

verus! {

/// Moves the task at `at` up to its slot among the tasks before it, which
/// are in priority order. The tasks behind it stay where they are.
fn settle(tasks: &mut Vec<Task>, at: usize)
    requires
        at < old(tasks)@.len(),
        by_priority(task_views(old(tasks)@.take(at as int))),
    ensures
        final(tasks)@.len() == old(tasks)@.len(),
        task_views(final(tasks)@.take(at + 1)) == place(
            task_views(old(tasks)@.take(at as int)),
            old(tasks)@[at as int]@,
        ),
        final(tasks)@.skip(at + 1) == old(tasks)@.skip(at + 1),
{
    let ghost before = tasks@;
    let ghost sorted = task_views(before.take(at as int));
    let ghost moved = before[at as int];
    let priority = tasks[at].priority;
    let mut slot: usize = at;
    while slot > 0 && tasks[slot - 1].priority < priority
        invariant
            slot <= at,
            at < tasks@.len(),
            tasks@ == before,
            forall|k: int| slot <= k < at ==> tasks@[k].priority < priority,
        decreases slot,
    {
        slot -= 1;
    }
    if slot < at {
        let task = tasks.remove(at);
        tasks.insert(slot, task);
    }
    proof {
        assert forall|k: int| 0 <= k < slot implies sorted[k].priority >= moved@.priority by {
            assert(sorted[slot - 1] == before[slot - 1]@);
        }
        lemma_slot_is(sorted, moved@.priority, slot as int);
    }
}

/// Puts `tasks` in priority order: descending priority, tasks of equal
/// priority in the order they had.
pub fn sort_tasks(tasks: &mut Vec<Task>)
    ensures
        task_views(final(tasks)@) == priority_order(task_views(old(tasks)@)),
        by_priority(task_views(final(tasks)@)),
        keeps_ranks(task_views(final(tasks)@), task_views(old(tasks)@)),
        final(tasks)@.len() == old(tasks)@.len(),
{
    let ghost given = tasks@;
    let n = tasks.len();
    let mut i: usize = 0;
    while i < n
        invariant
            n == given.len(),
            tasks@.len() == n,
            i <= n,
            task_views(tasks@.take(i as int)) == priority_order(
                task_views(given.take(i as int)),
            ),
            tasks@.skip(i as int) == given.skip(i as int),
        decreases n - i,
    {
        proof {
            lemma_priority_order_sorted(task_views(given.take(i as int)));
            assert(tasks@.skip(i as int)[0] == given.skip(i as int)[0]);
        }
        let ghost before = tasks@;
        settle(tasks, i);
        proof {
            let next = task_views(given.take(i + 1));
            assert(next.drop_last() == task_views(given.take(i as int)));
            let rest = tasks@.skip(i + 1);
            let given_rest = given.skip(i + 1);
            assert forall|k: int| 0 <= k < rest.len() implies #[trigger] rest[k]
                == given_rest[k] by {
                assert(before.skip(i as int)[k + 1] == given.skip(i as int)[k + 1]);
            }
        }
        i += 1;
    }
    proof {
        assert(given.take(n as int) == given);
        lemma_priority_order_sorted(task_views(given));
        lemma_priority_order_ranks(task_views(given));
    }
}

/// The list of tasks, always in priority order.
pub struct TaskStore {
    tasks: Vec<Task>,
}

impl View for TaskStore {
    type V = Seq<TaskView>;

    closed spec fn view(&self) -> Seq<TaskView> {
        task_views(self.tasks@)
    }
}

impl TaskStore {
    #[verifier::type_invariant]
    spec fn ordered(self) -> bool {
        by_priority(task_views(self.tasks@))
    }

    /// A store with no task.
    pub fn new() -> (store: TaskStore)
        ensures
            store@ == Seq::<TaskView>::empty(),
    {
        let tasks: Vec<Task> = Vec::new();
        TaskStore { tasks }
    }

    /// A store of the tasks read from a saved list.
    ///
    /// Each task gets its index in `loaded` as its `id`, and the list is
    /// put in priority order: what was saved need not be in that order.
    pub fn from_tasks(loaded: Vec<Task>) -> (store: TaskStore)
        ensures
            store@ == priority_order(renumbered(task_views(loaded@))),
            by_priority(store@),
    {
        let mut tasks = loaded;
        let n = tasks.len();
        let mut i: usize = 0;
        while i < n
            invariant
                tasks@.len() == n,
                n == loaded@.len(),
                i <= n,
                forall|k: int|
                    0 <= k < i ==> (#[trigger] tasks@[k])@ == renumbered(task_views(loaded@))[k],
                forall|k: int| i <= k < n ==> #[trigger] tasks@[k] == loaded@[k],
            decreases n - i,
        {
            tasks[i].id = i as u64;
            i += 1;
        }
        assert(task_views(tasks@) == renumbered(task_views(loaded@)));
        sort_tasks(&mut tasks);
        TaskStore { tasks }
    }

    /// Adds a task with the given name, priority and due date.
    ///
    /// The task gets the number of tasks in the store as its `id`, is
    /// appended, and the list is put in priority order again: the task ends
    /// up behind every task whose priority is at least its own. A copy of
    /// it is returned.
    ///
    /// The store takes any name and any priority. The entry form gives it
    /// names that are not empty and priorities from 1 to 5 only.
    pub fn add(&mut self, name: String, priority: u8, due_date: (u8, u8, u16)) -> (added: Task)
        ensures
            added@ == (TaskView {
                id: old(self)@.len(),
                name: name@,
                priority: priority as nat,
                due_date: (due_date.0 as nat, due_date.1 as nat, due_date.2 as nat),
            }),
            final(self)@ == priority_order(old(self)@.push(added@)),
            final(self)@ == place(old(self)@, added@),
            by_priority(final(self)@),
            keeps_ranks(final(self)@, old(self)@.push(added@)),
    {
        let mut tasks = self.take_tasks();
        let task = Task { id: tasks.len() as u64, name, priority, due_date };
        let added = task.clone();
        tasks.push(task);
        sort_tasks(&mut tasks);
        proof {
            assert(task_views(old(self).tasks@.push(task)) == old(self)@.push(task@));
            lemma_priority_order_fixed(old(self)@);
            lemma_priority_order_push(old(self)@, task@);
            lemma_priority_order_ranks(old(self)@.push(task@));
        }
        self.tasks = tasks;
        added
    }

    /// Removes the task at `index`, if there is one, and says whether
    /// there was. The tasks behind it move up by one place.
    pub fn delete(&mut self, index: usize) -> (removed: bool)
        ensures
            removed == (index < old(self)@.len()),
            removed ==> final(self)@ == old(self)@.remove(index as int),
            removed ==> final(self)@.len() == old(self)@.len() - 1,
            !removed ==> final(self)@ == old(self)@,
            by_priority(final(self)@),
    {
        let mut tasks = self.take_tasks();
        let removed = index < tasks.len();
        if removed {
            let _ = tasks.remove(index);
            proof {
                assert(task_views(old(self).tasks@.remove(index as int)) == old(self)@.remove(
                    index as int,
                ));
                lemma_remove_sorted(old(self)@, index as int);
            }
        }
        self.tasks = tasks;
        removed
    }

    /// Removes every task.
    pub fn clear(&mut self)
        ensures
            final(self)@ == Seq::<TaskView>::empty(),
    {
        let _ = self.take_tasks();
    }

    /// The number of tasks.
    pub fn len(&self) -> (n: usize)
        ensures
            n == self@.len(),
    {
        self.tasks.len()
    }

    /// Whether the store holds no task.
    pub fn is_empty(&self) -> (empty: bool)
        ensures
            empty == (self@.len() == 0),
    {
        self.tasks.len() == 0
    }

    /// The tasks, in priority order.
    pub fn tasks(&self) -> (tasks: &Vec<Task>)
        ensures
            task_views(tasks@) == self@,
            by_priority(self@),
    {
        proof {
            use_type_invariant(self);
        }
        &self.tasks
    }

    /// The task at `index`, if there is one.
    pub fn get(&self, index: usize) -> (task: Option<&Task>)
        ensures
            match task {
                Some(t) => index < self@.len() && t@ == self@[index as int],
                None => index >= self@.len(),
            },
    {
        if index < self.tasks.len() {
            Some(&self.tasks[index])
        } else {
            None
        }
    }

    /// Moves the list out of the store and leaves the store empty.
    fn take_tasks(&mut self) -> (tasks: Vec<Task>)
        ensures
            tasks@ == old(self).tasks@,
            by_priority(task_views(tasks@)),
            final(self).tasks@ == Seq::<Task>::empty(),
    {
        proof {
            use_type_invariant(&*self);
        }
        let mut tasks: Vec<Task> = Vec::new();
        std::mem::swap(&mut self.tasks, &mut tasks);
        tasks
    }
}

} // verus!
