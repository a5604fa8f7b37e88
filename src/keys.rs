//! Names derived from a rework's ruleset and mod class: score and stats
//! tables, and the keys of the sorted sets and sessions in the cache.
use crate::text::{decimal, decimal_string, lower_of, to_lowercase};
use vstd::prelude::*;

verus! {

/// The scores table of a mod class.
pub open spec fn scores_table_of(rx: int) -> Seq<char> {
    if rx == 0 {
        "scores"@
    } else if rx == 1 {
        "scores_relax"@
    } else {
        "scores_ap"@
    }
}

/// The live stats table of a mod class.
pub open spec fn stats_table_of(rx: int) -> Seq<char> {
    if rx == 0 {
        "users_stats"@
    } else if rx == 1 {
        "rx_stats"@
    } else {
        "ap_stats"@
    }
}

/// The live leaderboard family of a mod class.
pub open spec fn board_of(rx: int) -> Seq<char> {
    if rx == 0 {
        "leaderboard"@
    } else if rx == 1 {
        "relaxboard"@
    } else {
        "autoboard"@
    }
}

/// The short name of a ruleset.
pub open spec fn mode_prefix_of(mode: int) -> Seq<char> {
    if mode == 0 {
        "std"@
    } else if mode == 1 {
        "taiko"@
    } else if mode == 2 {
        "ctb"@
    } else {
        "mania"@
    }
}

pub fn scores_table(rx: i32) -> (r: &'static str)
    requires
        0 <= rx <= 2,
    ensures
        r@ == scores_table_of(rx as int),
{
    if rx == 0 {
        "scores"
    } else if rx == 1 {
        "scores_relax"
    } else {
        "scores_ap"
    }
}

pub fn stats_table(rx: i32) -> (r: &'static str)
    requires
        0 <= rx <= 2,
    ensures
        r@ == stats_table_of(rx as int),
{
    if rx == 0 {
        "users_stats"
    } else if rx == 1 {
        "rx_stats"
    } else {
        "ap_stats"
    }
}

pub fn mode_prefix(mode: i32) -> (r: &'static str)
    requires
        0 <= mode <= 3,
    ensures
        r@ == mode_prefix_of(mode as int),
{
    if mode == 0 {
        "std"
    } else if mode == 1 {
        "taiko"
    } else if mode == 2 {
        "ctb"
    } else {
        "mania"
    }
}

fn board(rx: i32) -> (r: &'static str)
    requires
        0 <= rx <= 2,
    ensures
        r@ == board_of(rx as int),
{
    if rx == 0 {
        "leaderboard"
    } else if rx == 1 {
        "relaxboard"
    } else {
        "autoboard"
    }
}

/// `ripple:{board}:{prefix}`, the global live leaderboard of a ruleset and mod class.
pub open spec fn ripple_key_of(rx: int, mode: int) -> Seq<char> {
    "ripple:"@ + board_of(rx) + ":"@ + mode_prefix_of(mode)
}

/// `ripple:{board}:{prefix}:{country}`, with the country in lower case.
pub open spec fn ripple_country_key_of(rx: int, mode: int, country: Seq<char>) -> Seq<char> {
    ripple_key_of(rx, mode) + ":"@ + lower_of(country)
}

/// The global live leaderboard key, or `None` for a mod class or ruleset
/// outside the known ones.
pub fn ripple_key(rx: i32, mode: i32) -> (r: Option<String>)
    ensures
        (0 <= rx <= 2 && 0 <= mode <= 3) ==> (r matches Some(k) && k@ == ripple_key_of(
            rx as int,
            mode as int,
        )),
        !(0 <= rx <= 2 && 0 <= mode <= 3) ==> r is None,
{
    if rx < 0 || rx > 2 || mode < 0 || mode > 3 {
        return None;
    }
    Some(String::from_str("ripple:").concat(board(rx)).concat(":").concat(mode_prefix(mode)))
}

/// The country live leaderboard key.
pub fn ripple_country_key(rx: i32, mode: i32, country: &str) -> (r: String)
    requires
        0 <= rx <= 2,
        0 <= mode <= 3,
    ensures
        r@ == ripple_country_key_of(rx as int, mode as int, country@),
{
    let lower = to_lowercase(country);
    String::from_str("ripple:").concat(board(rx)).concat(":").concat(mode_prefix(mode)).concat(
        ":",
    ).concat(lower.as_str())
}

/// `rework:leaderboard:{rework_id}`, the sorted set of a rework's totals.
pub open spec fn rework_leaderboard_key_of(rework_id: int) -> Seq<char> {
    "rework:leaderboard:"@ + decimal(rework_id)
}

pub fn rework_leaderboard_key(rework_id: i32) -> (r: String)
    ensures
        r@ == rework_leaderboard_key_of(rework_id as int),
{
    let id = decimal_string(rework_id as i64);
    String::from_str("rework:leaderboard:").concat(id.as_str())
}

/// `rework:sessions:{token}`, which holds the user a session belongs to.
pub open spec fn session_key_of(token: Seq<char>) -> Seq<char> {
    "rework:sessions:"@ + token
}

/// `rework:sessions:ids:{user_id}`, which holds a user's session token.
pub open spec fn session_user_key_of(user_id: int) -> Seq<char> {
    "rework:sessions:ids:"@ + decimal(user_id)
}

pub fn session_key(token: &str) -> (r: String)
    ensures
        r@ == session_key_of(token@),
{
    String::from_str("rework:sessions:").concat(token)
}

pub fn session_user_key(user_id: i32) -> (r: String)
    ensures
        r@ == session_user_key_of(user_id as int),
{
    let id = decimal_string(user_id as i64);
    String::from_str("rework:sessions:ids:").concat(id.as_str())
}

/// A one-based rank from a zero-based position in a sorted set; a user who is
/// not in the set has rank 0.
pub open spec fn rank_of(index: Option<i64>) -> int {
    match index {
        Some(i) => if i >= 0 {
            i + 1
        } else {
            0
        },
        None => 0,
    }
}

pub fn rank_from_index(index: Option<i64>) -> (r: u64)
    ensures
        r == rank_of(index),
{
    match index {
        Some(i) => if i >= 0 {
            i as u64 + 1
        } else {
            0
        },
        None => 0,
    }
}

} // verus!
