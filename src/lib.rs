//! A small task tracker: tasks with an identity, a description, a status and
//! two timestamps, kept by a manager that mints increasing ids and persists its
//! task list as a JSON array and its id counter as decimal text.

pub mod cli;
pub mod json_tree;
pub mod manager;
pub mod models;
pub mod storage;
pub mod task;
pub mod text;
pub mod timestamp;

pub use cli::{execute_command, CommandOutcome, CommandReport, TaskCommand, TaskOperation};
pub use manager::{IdGenerator, TaskManager};
pub use models::{Identifiable, Serializable, TaskStatus};
pub use storage::{FileStorage, Storage};
pub use task::Task;
pub use timestamp::Timestamp;
