//! A todo list kept in a comma-separated table.
//!
//! The table holds one task per row under the header `ID,TASK,COMPLETED`.
//! A task's id is its row position, counted from one: removing a task
//! renumbers the tasks after it. Every operation reads the whole table,
//! transforms it in memory and says what has to be written back.

pub mod codec;
pub mod command;
pub mod database;
pub mod error;
pub mod numeral;
pub mod render;
pub mod rows;
pub mod store;
pub mod text;
pub mod todo;
