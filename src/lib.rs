//! Command execution engine of a scripted visual-novel runtime: canonical
//! (replayable) state, presentation state, property tweening, virtual layer
//! resolution and the multi-tick command scheduler.

pub mod time;
pub mod tweener;
pub mod types;
pub mod state;
pub mod live;
pub mod flags;
pub mod command;
pub mod dispatch;
pub mod scheduler;
pub mod lists;
pub mod video;
