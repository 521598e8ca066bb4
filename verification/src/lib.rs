//! Scheduling and fan-out engine for a digital-signage control plane.
//!
//! The controller keeps a catalog of displays, playlists and schedules,
//! evaluates cron-driven schedules to find each display's active playlist,
//! and drives per-connection send loops that push one media item at a time
//! to each viewer.  This crate holds the verified core: the catalog and its
//! mutations, the schedule evaluator, the scheduler-loop planning, the
//! per-connection and heartbeat state machines, the wire-protocol framing,
//! and the file-tree bookkeeping of the upload server.

pub mod api;
pub mod assoc;
pub mod catalog;
pub mod connection;
pub mod cronexpr;
pub mod devtool;
pub mod fileserver;
pub mod ids;
pub mod protocol;
pub mod schedule;
pub mod scheduler;
pub mod strutil;
pub mod viewer;

pub use ids::UuidVal;
