//! Core engine of a personal backup utility.
//!
//! A backup job names a source path and a target path, an optional ignore
//! list, a backup model (copy everything, or mirror the source exactly) and
//! an optional archive format.  The planner compares a snapshot of the
//! source tree against a snapshot of the destination tree and produces a
//! worklist of actions; the executor decisions turn each action into a
//! single filesystem effect.  Everything here is pure logic over plain
//! values: directory walking, file copying and the archive encoders live
//! outside this crate and only hand snapshots in and take effects out.

pub mod application;
pub mod archive;
pub mod commands;
pub mod executor;
pub mod item;
pub mod job;
pub mod laws;
pub mod pathname;
pub mod planner;
pub mod runner;
pub mod snapshot;
pub mod task;
pub mod textual;
