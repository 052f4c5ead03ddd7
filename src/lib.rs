//! Repository locator and reference reader for a shell prompt indicator.
//!
//! The library decides, from plain facts about the filesystem, which line a
//! prompt shows for the current directory: the branch of an ordinary
//! repository, or the worktree (and, where it differs, the branch) of a
//! linked-worktree layout around a `.bare` metadata directory. It also reads
//! the integer values of battery telemetry files.
pub mod battery;
pub mod error;
pub mod head;
pub mod locate;
pub mod render;
pub mod text;
