//! A to-do list model: tasks with a priority and an optional due date, kept
//! in priority order, together with the state of the entry form that feeds
//! it.
//!
//! Every function in this crate is verified against the contract written on
//! it. Contracts speak of views: a [`task::Task`] is seen as a
//! [`task::TaskView`], a list of tasks as a sequence of such views.

pub mod crab;
pub mod decimal;
pub mod order;
pub mod store;
pub mod task;

pub use crab::{FileAction, Message, TaskCrab};
pub use store::{sort_tasks, TaskStore};
pub use task::{Task, Urgency};
