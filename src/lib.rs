//! Undo logs with nested snapshots: record reversible events, then roll back to
//! a marked point or commit past it.
pub mod laws;
pub mod undo_log;
pub mod vec_log;

pub use undo_log::{NoUndo, Rollback, Snapshots, UndoLogs};
pub use vec_log::{Snapshot, VecLog};
