//! The state of the to-do list as its user sees it: the entry form and the
//! task store behind it, and what each message does to them.
//!
//! The state does no input or output of its own. `update` says, for each
//! message, what is to happen to the saved list; doing it is the caller's
//! part.

use crate::decimal::{field_value, read_u16, read_u8};
use crate::order::{
    by_priority, lemma_priority_order_members, lemma_priority_order_sorted, priority_order,
};
use crate::store::TaskStore;
use crate::task::{
    all_well_formed, renumbered, task_views, well_formed, Task, TaskView, DEFAULT_PRIORITY,
    GREATEST_PRIORITY, LEAST_PRIORITY,
};
use vstd::prelude::*;
use vstd::string::StringExecFns;

verus! {

/// What the user did.
#[derive(Debug)]
pub enum Message {
    /// The name field now holds this text.
    InputChanged(String),
    /// This priority was picked in the selector. One that no task is meant
    /// to have picks the default.
    PrioritySelected(u8),
    /// The day field now holds this text.
    DayChanged(String),
    /// The month field now holds this text.
    MonthChanged(String),
    /// The year field now holds this text.
    YearChanged(String),
    /// The form was sent off.
    Submit,
    /// The task at this place in the list was picked for removal.
    Delete(usize),
    /// The whole list is to go.
    Clear,
}

/// What a [`Message`] is in contracts.
pub ghost enum MessageView {
    InputChanged(Seq<char>),
    PrioritySelected(nat),
    DayChanged(Seq<char>),
    MonthChanged(Seq<char>),
    YearChanged(Seq<char>),
    Submit,
    Delete(nat),
    Clear,
}

impl View for Message {
    type V = MessageView;

    open spec fn view(&self) -> MessageView {
        match *self {
            Message::InputChanged(text) => MessageView::InputChanged(text@),
            Message::PrioritySelected(priority) => MessageView::PrioritySelected(priority as nat),
            Message::DayChanged(text) => MessageView::DayChanged(text@),
            Message::MonthChanged(text) => MessageView::MonthChanged(text@),
            Message::YearChanged(text) => MessageView::YearChanged(text@),
            Message::Submit => MessageView::Submit,
            Message::Delete(index) => MessageView::Delete(index as nat),
            Message::Clear => MessageView::Clear,
        }
    }
}

impl Clone for Message {
    fn clone(&self) -> (copy: Message)
        ensures
            copy == *self,
    {
        match self {
            Message::InputChanged(text) => Message::InputChanged(text.clone()),
            Message::PrioritySelected(priority) => Message::PrioritySelected(*priority),
            Message::DayChanged(text) => Message::DayChanged(text.clone()),
            Message::MonthChanged(text) => Message::MonthChanged(text.clone()),
            Message::YearChanged(text) => Message::YearChanged(text.clone()),
            Message::Submit => Message::Submit,
            Message::Delete(index) => Message::Delete(*index),
            Message::Clear => Message::Clear,
        }
    }
}

/// What is to happen to the saved list after a message.
#[derive(Debug, Clone, Copy, PartialEq, Eq, Structural)]
pub enum FileAction {
    /// Nothing: the saved list stays as it is.
    Keep,
    /// The file is emptied, and then the whole list is written to it.
    Rewrite,
    /// The file is emptied and left empty.
    Truncate,
}

/// The entry form and the task store.
pub struct TaskCrab {
    input: String,
    store: TaskStore,
    priority: u8,
    day: String,
    month: String,
    year: String,
}

/// What a [`TaskCrab`] is in contracts.
pub ghost struct TaskCrabView {
    pub input: Seq<char>,
    pub tasks: Seq<TaskView>,
    pub priority: nat,
    pub day: Seq<char>,
    pub month: Seq<char>,
    pub year: Seq<char>,
}

impl View for TaskCrab {
    type V = TaskCrabView;

    closed spec fn view(&self) -> TaskCrabView {
        TaskCrabView {
            input: self.input@,
            tasks: self.store@,
            priority: self.priority as nat,
            day: self.day@,
            month: self.month@,
            year: self.year@,
        }
    }
}

/// The state before any message, with `tasks` in the store.
pub open spec fn initial_state(tasks: Seq<TaskView>) -> TaskCrabView {
    TaskCrabView {
        input: Seq::empty(),
        tasks,
        priority: DEFAULT_PRIORITY as nat,
        day: Seq::empty(),
        month: Seq::empty(),
        year: Seq::empty(),
    }
}

/// The priority that a selection of `priority` selects: itself where a task
/// can be given it, and the default one otherwise.
pub open spec fn selected_priority(priority: nat) -> nat {
    if LEAST_PRIORITY <= priority <= GREATEST_PRIORITY {
        priority
    } else {
        DEFAULT_PRIORITY as nat
    }
}

/// The task that the form in state `s` describes: the name is the input,
/// the id the number of tasks in the store, and each component of the due
/// date what its field counts as.
pub open spec fn entered_task(s: TaskCrabView) -> TaskView {
    TaskView {
        id: s.tasks.len(),
        name: s.input,
        priority: s.priority,
        due_date: (field_value(s.month, 0xff), field_value(s.day, 0xff), field_value(s.year, 0xffff)),
    }
}

/// The state that follows state `s` on message `m`.
pub open spec fn next_state(s: TaskCrabView, m: MessageView) -> TaskCrabView {
    match m {
        MessageView::InputChanged(text) => TaskCrabView { input: text, ..s },
        MessageView::PrioritySelected(priority) => TaskCrabView {
            priority: selected_priority(priority),
            ..s
        },
        MessageView::DayChanged(text) => TaskCrabView { day: text, ..s },
        MessageView::MonthChanged(text) => TaskCrabView { month: text, ..s },
        MessageView::YearChanged(text) => TaskCrabView { year: text, ..s },
        MessageView::Submit => if s.input.len() == 0 {
            s
        } else {
            TaskCrabView {
                input: Seq::empty(),
                tasks: priority_order(s.tasks.push(entered_task(s))),
                priority: s.priority,
                day: Seq::empty(),
                month: Seq::empty(),
                year: Seq::empty(),
            }
        },
        MessageView::Delete(index) => if index < s.tasks.len() {
            TaskCrabView { tasks: s.tasks.remove(index as int), ..s }
        } else {
            s
        },
        MessageView::Clear => TaskCrabView { tasks: Seq::empty(), ..s },
    }
}

/// What is to happen to the saved list when message `m` comes in state `s`.
pub open spec fn file_action(s: TaskCrabView, m: MessageView) -> FileAction {
    match m {
        MessageView::Submit => if s.input.len() == 0 {
            FileAction::Keep
        } else {
            FileAction::Rewrite
        },
        MessageView::Delete(_) => FileAction::Rewrite,
        MessageView::Clear => FileAction::Truncate,
        _ => FileAction::Keep,
    }
}

/// The states that the form can be in: the selected priority is one that a
/// task is meant to have, and the tasks are in priority order.
pub open spec fn reachable(s: TaskCrabView) -> bool {
    LEAST_PRIORITY <= s.priority <= GREATEST_PRIORITY && by_priority(s.tasks)
}

/// No message leads out of the states that the form can be in; and where
/// every task in the store is well formed, every task is so after any
/// message.
pub proof fn lemma_next_state_reachable(s: TaskCrabView, m: MessageView)
    requires
        reachable(s),
    ensures
        reachable(next_state(s, m)),
        all_well_formed(s.tasks) ==> all_well_formed(next_state(s, m).tasks),
{
    if m is Submit && s.input.len() > 0 {
        let listed = s.tasks.push(entered_task(s));
        let next = next_state(s, m);
        lemma_priority_order_sorted(listed);
        lemma_priority_order_members(listed);
        if all_well_formed(s.tasks) {
            assert forall|i: int| 0 <= i < next.tasks.len() implies well_formed(
                #[trigger] next.tasks[i],
            ) by {
                assert(next.tasks.contains(next.tasks[i]));
            }
        }
    }
}

/// The saved list does not fall behind the store: a message that changes
/// the tasks has the file written anew, and the file is left empty only
/// where no task is left.
pub proof fn lemma_changes_are_saved(s: TaskCrabView, m: MessageView)
    ensures
        next_state(s, m).tasks != s.tasks ==> file_action(s, m) != FileAction::Keep,
        file_action(s, m) == FileAction::Truncate ==> next_state(s, m).tasks.len() == 0,
{
}

/// What the field `text` counts as, as a number of eight bits.
fn field_u8(text: &str) -> (n: u8)
    ensures
        n == field_value(text@, 0xff),
{
    match read_u8(text) {
        Some(n) => n,
        None => 0,
    }
}

/// What the field `text` counts as, as a number of sixteen bits.
fn field_u16(text: &str) -> (n: u16)
    ensures
        n == field_value(text@, 0xffff),
{
    match read_u16(text) {
        Some(n) => n,
        None => 0,
    }
}

impl TaskCrab {
    #[verifier::type_invariant]
    spec fn in_reach(self) -> bool {
        reachable(self@)
    }

    /// The state at the start: an empty form, the default priority, and in
    /// the store the tasks that were read from the saved list, or none
    /// where nothing could be read.
    pub fn new(loaded: Option<Vec<Task>>) -> (app: TaskCrab)
        ensures
            app@ == initial_state(
                match loaded {
                    Some(tasks) => priority_order(renumbered(task_views(tasks@))),
                    None => Seq::empty(),
                },
            ),
            reachable(app@),
    {
        let store = match loaded {
            Some(tasks) => TaskStore::from_tasks(tasks),
            None => TaskStore::new(),
        };
        TaskCrab {
            input: String::new(),
            store,
            priority: DEFAULT_PRIORITY,
            day: String::new(),
            month: String::new(),
            year: String::new(),
        }
    }

    /// Takes in one message: changes the state as the message asks, and
    /// says what is to happen to the saved list.
    pub fn update(&mut self, message: Message) -> (action: FileAction)
        ensures
            final(self)@ == next_state(old(self)@, message@),
            action == file_action(old(self)@, message@),
            reachable(final(self)@),
    {
        proof {
            use_type_invariant(&*self);
            lemma_next_state_reachable(self@, message@);
        }
        match message {
            Message::InputChanged(text) => {
                self.input = text;
                FileAction::Keep
            },
            Message::PrioritySelected(priority) => {
                if LEAST_PRIORITY <= priority && priority <= GREATEST_PRIORITY {
                    self.priority = priority;
                } else {
                    self.priority = DEFAULT_PRIORITY;
                }
                FileAction::Keep
            },
            Message::DayChanged(text) => {
                self.day = text;
                FileAction::Keep
            },
            Message::MonthChanged(text) => {
                self.month = text;
                FileAction::Keep
            },
            Message::YearChanged(text) => {
                self.year = text;
                FileAction::Keep
            },
            Message::Submit => {
                if self.input.as_str().is_empty() {
                    return FileAction::Keep;
                }
                let due_date = (
                    field_u8(self.month.as_str()),
                    field_u8(self.day.as_str()),
                    field_u16(self.year.as_str()),
                );
                let mut name = String::new();
                std::mem::swap(&mut self.input, &mut name);
                let mut store = self.take_store();
                let _ = store.add(name, self.priority, due_date);
                self.store = store;
                self.day = String::new();
                self.month = String::new();
                self.year = String::new();
                FileAction::Rewrite
            },
            Message::Delete(index) => {
                let mut store = self.take_store();
                let _ = store.delete(index);
                self.store = store;
                FileAction::Rewrite
            },
            Message::Clear => {
                self.store = TaskStore::new();
                FileAction::Truncate
            },
        }
    }

    /// Moves the store out of the state and leaves an empty one.
    fn take_store(&mut self) -> (store: TaskStore)
        ensures
            store@ == old(self).store@,
            final(self).store@ == Seq::<TaskView>::empty(),
            final(self).input == old(self).input,
            final(self).priority == old(self).priority,
            final(self).day == old(self).day,
            final(self).month == old(self).month,
            final(self).year == old(self).year,
    {
        proof {
            use_type_invariant(&*self);
        }
        let mut store = TaskStore::new();
        std::mem::swap(&mut self.store, &mut store);
        store
    }

    /// The name of the program.
    pub fn title(&self) -> (title: String)
        ensures
            title@ == "TaskCrab"@,
    {
        String::from_str("TaskCrab")
    }

    /// The tasks, in priority order.
    pub fn tasks(&self) -> (tasks: &Vec<Task>)
        ensures
            task_views(tasks@) == self@.tasks,
            by_priority(self@.tasks),
    {
        self.store.tasks()
    }

    /// The text in the name field.
    pub fn input(&self) -> (text: &str)
        ensures
            text@ == self@.input,
    {
        self.input.as_str()
    }

    /// The selected priority.
    pub fn priority(&self) -> (priority: u8)
        ensures
            priority == self@.priority,
            LEAST_PRIORITY <= priority <= GREATEST_PRIORITY,
    {
        proof {
            use_type_invariant(self);
        }
        self.priority
    }

    /// The text in the day field.
    pub fn day(&self) -> (text: &str)
        ensures
            text@ == self@.day,
    {
        self.day.as_str()
    }

    /// The text in the month field.
    pub fn month(&self) -> (text: &str)
        ensures
            text@ == self@.month,
    {
        self.month.as_str()
    }

    /// The text in the year field.
    pub fn year(&self) -> (text: &str)
        ensures
            text@ == self@.year,
    {
        self.year.as_str()
    }
}

/// Which of the five marks of the priority selector are filled when
/// `selected` is the selected priority: the mark of each priority up to it.
pub fn priority_marks(selected: u8) -> (marks: Vec<bool>)
    ensures
        marks@.len() == GREATEST_PRIORITY,
        forall|i: int| 0 <= i < marks@.len() ==> marks@[i] == (i + 1 <= selected),
{
    let mut marks: Vec<bool> = Vec::new();
    let mut level: u8 = LEAST_PRIORITY;
    while level <= GREATEST_PRIORITY
        invariant
            LEAST_PRIORITY <= level <= GREATEST_PRIORITY + 1,
            marks@.len() == level - 1,
            forall|i: int| 0 <= i < marks@.len() ==> marks@[i] == (i + 1 <= selected),
        decreases GREATEST_PRIORITY + 1 - level,
    {
        marks.push(level <= selected);
        level += 1;
    }
    marks
}

} // verus!
