//! Scheduling and aggregation engine of a status line for window managers.
//!
//! Every block of the status line is a shell command with optional decoration.
//! A block is refreshed when its interval elapses or when it is hit through a
//! window property. The engine decides which blocks to refresh, folds the
//! output of their commands into a cache of cells, and renders the cache into
//! the one text that is shown.

pub mod aggregate;
pub mod cli;
pub mod config;
pub mod hits;
pub mod render;
pub mod schedule;
pub mod text;

pub use crate::aggregate::AtomBlocks;
pub use crate::hits::HitWatcher;
pub use crate::schedule::IntervalScheduler;
pub use crate::schedule::Task;
