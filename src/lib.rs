//! A single-user task manager: the task model, the query engine that
//! filters, sorts and searches a collection, the identifier allocation of
//! the store, and the command operations that combine them.
pub mod calendar;
pub mod commands;
pub mod error;
pub mod priority;
pub mod query;
pub mod storage;
pub mod task;
pub mod text;

pub use calendar::{Date, Timestamp};
pub use error::TaskError;
pub use priority::Priority;
pub use query::SortBy;
pub use storage::Storage;
pub use task::Task;
