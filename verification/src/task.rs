//! A single to-do entry and its mathematical view.

use crate::decimal::{decimal, lemma_decimal_nonempty, push_decimal};
use vstd::prelude::*;
use vstd::string::StringExecFns;

verus! {

/// The least priority a task is meant to have.
pub const LEAST_PRIORITY: u8 = 1;

/// The greatest priority a task is meant to have.
pub const GREATEST_PRIORITY: u8 = 5;

/// The priority of a task for which none was chosen.
pub const DEFAULT_PRIORITY: u8 = 3;

/// One to-do entry.
///
/// `due_date` is `(month, day, year)`; a component that is zero is unset.
#[derive(Debug)]
pub struct Task {
    pub id: u64,
    pub name: String,
    pub priority: u8,
    pub due_date: (u8, u8, u16),
}

/// What a [`Task`] is in contracts: its fields as numbers and characters.
pub ghost struct TaskView {
    pub id: nat,
    pub name: Seq<char>,
    pub priority: nat,
    pub due_date: (nat, nat, nat),
}

impl View for Task {
    type V = TaskView;

    open spec fn view(&self) -> TaskView {
        TaskView {
            id: self.id as nat,
            name: self.name@,
            priority: self.priority as nat,
            due_date: (self.due_date.0 as nat, self.due_date.1 as nat, self.due_date.2 as nat),
        }
    }
}

/// The views of the tasks of `s`, in their order.
pub open spec fn task_views(s: Seq<Task>) -> Seq<TaskView> {
    s.map_values(|t: Task| t@)
}

/// A task as the entry form makes them: it has a name, and its priority is
/// one of those a task is meant to have.
pub open spec fn well_formed(t: TaskView) -> bool {
    t.name.len() > 0 && LEAST_PRIORITY <= t.priority <= GREATEST_PRIORITY
}

/// Every task of `s` is well formed.
pub open spec fn all_well_formed(s: Seq<TaskView>) -> bool {
    forall|i: int| 0 <= i < s.len() ==> well_formed(#[trigger] s[i])
}

/// `a` and `b` are one task but, perhaps, for the `id`.
pub open spec fn same_task(a: TaskView, b: TaskView) -> bool {
    a.name == b.name && a.priority == b.priority && a.due_date == b.due_date
}

/// `a` and `b` hold the same tasks in the same order but, perhaps, for
/// their ids.
pub open spec fn same_tasks(a: Seq<TaskView>, b: Seq<TaskView>) -> bool {
    a.len() == b.len() && forall|i: int| 0 <= i < a.len() ==> same_task(#[trigger] a[i], b[i])
}

/// The tasks of `s`, each with its index in `s` as its `id`.
pub open spec fn renumbered(s: Seq<TaskView>) -> Seq<TaskView> {
    Seq::new(
        s.len(),
        |i: int|
            TaskView {
                id: i as nat,
                name: s[i].name,
                priority: s[i].priority,
                due_date: s[i].due_date,
            },
    )
}

/// One component of a due date as it is shown: in decimal, and not at all
/// where it is unset.
pub open spec fn date_part(n: nat) -> Seq<char> {
    if n == 0 {
        Seq::empty()
    } else {
        decimal(n)
    }
}

/// Two shown pieces as one: with a slash between them where both are there.
pub open spec fn joined(a: Seq<char>, b: Seq<char>) -> Seq<char> {
    if a.len() == 0 {
        b
    } else if b.len() == 0 {
        a
    } else {
        a + seq!['/'] + b
    }
}

/// A due date `(month, day, year)` as it is shown: the components that are
/// set, in that order, with slashes between them.
pub open spec fn due_date_text(date: (nat, nat, nat)) -> Seq<char> {
    joined(joined(date_part(date.0), date_part(date.1)), date_part(date.2))
}

/// How urgent a task is, in five steps.
#[derive(Debug, Clone, Copy, PartialEq, Eq, Structural)]
pub enum Urgency {
    Lowest,
    Low,
    Medium,
    High,
    Highest,
}

/// The urgency that goes with a priority: one step for each of 1, 2, 3 and
/// 4, and the highest for every other number.
pub open spec fn urgency_of(priority: nat) -> Urgency {
    if priority == 1 {
        Urgency::Lowest
    } else if priority == 2 {
        Urgency::Low
    } else if priority == 3 {
        Urgency::Medium
    } else if priority == 4 {
        Urgency::High
    } else {
        Urgency::Highest
    }
}

/// The color that marks an urgency: red, green and blue, each in tenths of
/// full strength. The colors run from green for the lowest to red for the
/// highest.
pub open spec fn color_of(urgency: Urgency) -> (nat, nat, nat) {
    match urgency {
        Urgency::Lowest => (2, 8, 2),
        Urgency::Low => (5, 8, 2),
        Urgency::Medium => (10, 8, 0),
        Urgency::High => (10, 5, 0),
        Urgency::Highest => (10, 2, 2),
    }
}

impl Urgency {
    /// The color that marks this urgency, in tenths of full strength.
    pub fn color(self) -> (rgb: (u8, u8, u8))
        ensures
            (rgb.0 as nat, rgb.1 as nat, rgb.2 as nat) == color_of(self),
    {
        match self {
            Urgency::Lowest => (2, 8, 2),
            Urgency::Low => (5, 8, 2),
            Urgency::Medium => (10, 8, 0),
            Urgency::High => (10, 5, 0),
            Urgency::Highest => (10, 2, 2),
        }
    }
}

impl Clone for Task {
    fn clone(&self) -> (copy: Task)
        ensures
            copy == *self,
    {
        Task {
            id: self.id,
            name: self.name.clone(),
            priority: self.priority,
            due_date: self.due_date,
        }
    }
}

impl Task {
    /// Builds a task from its four fields.
    pub fn new(id: u64, name: String, priority: u8, due_date: (u8, u8, u16)) -> (task: Task)
        ensures
            task == (Task { id, name, priority, due_date }),
    {
        Task { id, name, priority, due_date }
    }

    /// The task as a line of text: its name.
    pub fn text(&self) -> (text: String)
        ensures
            text@ == self@.name,
    {
        self.name.clone()
    }

    /// The due date as it is shown: the components that are set, as month,
    /// day and year, with slashes between them; nothing where none is set.
    pub fn due_date_display(&self) -> (text: String)
        ensures
            text@ == due_date_text(self@.due_date),
    {
        let month = self.due_date.0;
        let day = self.due_date.1;
        let year = self.due_date.2;
        let mut text = String::new();
        proof {
            lemma_decimal_nonempty(month as nat);
            lemma_decimal_nonempty(day as nat);
            lemma_decimal_nonempty(year as nat);
            reveal_strlit("/");
        }
        if month != 0 {
            push_decimal(&mut text, month as u32);
        }
        if day != 0 {
            if month != 0 {
                text.append("/");
            }
            push_decimal(&mut text, day as u32);
        }
        if year != 0 {
            if month != 0 || day != 0 {
                text.append("/");
            }
            push_decimal(&mut text, year as u32);
        }
        text
    }

    /// How urgent the task is.
    pub fn urgency(&self) -> (urgency: Urgency)
        ensures
            urgency == urgency_of(self@.priority),
    {
        if self.priority == 1 {
            Urgency::Lowest
        } else if self.priority == 2 {
            Urgency::Low
        } else if self.priority == 3 {
            Urgency::Medium
        } else if self.priority == 4 {
            Urgency::High
        } else {
            Urgency::Highest
        }
    }
}

} // verus!
