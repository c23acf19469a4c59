//! A small task tracker: tasks with sequential ids, the operations that add,
//! complete, remove and list them, the mapping between tasks and stored
//! records, and the command line's grammar.

pub mod timestamp;
pub mod task;
pub mod record;
pub mod text;
pub mod manager;
pub mod laws;
pub mod command;
