//! The records that the service stores and answers with.
use vstd::prelude::*;

verus! {

/// A candidate PP algorithm. `mode` is the game ruleset (0 to 3), `rx` the
/// mod class whose scores table it reads (0 plain, 1 relax, 2 autopilot), and
/// `updated_at` (unix seconds) the version watermark: queue rows processed
/// before it are stale.
pub struct Rework {
    pub rework_id: i32,
    pub rework_name: String,
    pub mode: i32,
    pub rx: i32,
    pub updated_at: i64,
}

pub struct Beatmap {
    pub beatmap_id: i32,
    pub beatmapset_id: i32,
    pub song_name: String,
}

/// A work item of the rework queue.
#[derive(Clone, Copy, Debug, PartialEq, Eq, Structural)]
pub struct QueueRequest {
    pub user_id: i32,
    pub rework_id: i32,
}

/// The answer to a user's request to be queued.
pub struct QueueResponse {
    pub success: bool,
    pub message: Option<String>,
}

/// A user's aggregate PP under a rework, beside their live PP.
#[derive(Clone, Copy, Debug, PartialEq, Eq, Structural)]
pub struct ReworkStats {
    pub user_id: i32,
    pub rework_id: i32,
    pub old_pp: i32,
    pub new_pp: i32,
}

/// A leaderboard row as the API shows it.
pub struct APIReworkStats {
    pub user_id: i32,
    pub country: String,
    pub user_name: String,
    pub new_pp: i32,
    pub old_pp: i32,
    pub new_rank: u64,
    pub old_rank: u64,
}

impl APIReworkStats {
    pub fn from_stats(
        stats: ReworkStats,
        country: String,
        username: String,
        old_rank: u64,
        new_rank: u64,
    ) -> (r: Self)
        ensures
            r.user_id == stats.user_id,
            r.country == country,
            r.user_name == username,
            r.new_pp == stats.new_pp,
            r.old_pp == stats.old_pp,
            r.new_rank == new_rank,
            r.old_rank == old_rank,
    {
        Self {
            user_id: stats.user_id,
            country,
            user_name: username,
            new_pp: stats.new_pp,
            old_pp: stats.old_pp,
            new_rank,
            old_rank,
        }
    }
}

/// One page of a rework's leaderboard, with the number of ranked users.
pub struct Leaderboard {
    pub total_count: i32,
    pub users: Vec<APIReworkStats>,
}

/// The answer to a login attempt.
pub struct CreateSessionResponse {
    pub success: bool,
    pub user_id: Option<i32>,
    pub session_token: Option<String>,
}

} // verus!
