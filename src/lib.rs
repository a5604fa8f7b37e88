//! Recalculation core of the performance service: the rules that decide which
//! users are queued for a rework, how per-score results are aggregated into a
//! user's total, how best-score statuses are repaired, which leaderboard
//! entries a recalculation writes, and the wire format of queue messages.
//! Everything that talks to a database, a broker, a cache or the network
//! lives in the service binary around this library.

mod errors;
mod models;
pub mod api;
pub mod args;
pub mod codec;
pub mod config;
pub mod deploy;
pub mod keys;
pub mod processing;
pub mod queueing;
pub mod sessions;
pub mod statuses;
pub mod text;
pub mod weighting;

pub use errors::{AppError, Error, ErrorCode};
pub use models::{
    APIReworkStats, Beatmap, CreateSessionResponse, Leaderboard, QueueRequest, QueueResponse, Rework,
    ReworkStats,
};
