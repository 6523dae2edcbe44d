//! Verified core of the KromoDo to-do application: the task model, the
//! rules that decide what a store operation writes, how the views select
//! and order tasks, and how the task list on screen follows store events.

pub mod due;
pub mod error;
pub mod events;
pub mod filter;
pub mod migration;
pub mod priority;
pub mod query;
pub mod task;
pub mod text;
pub mod time;
pub mod ui;

pub use due::{due_bucket, DueBucket};
pub use error::{CoreError, CoreResult};
pub use events::CoreEvent;
pub use filter::TaskFilter;
pub use priority::Priority;
pub use task::{NewTask, Task};
pub use time::Timestamp;
pub use ui::styling::priority_class;
