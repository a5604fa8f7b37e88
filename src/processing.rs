//! What processing one queue request writes, and the store it writes to.
//!
//! For a request `(u, r)` the worker upserts one rework score row per
//! recalculated score, then the user's stats row with the aggregate total,
//! then sets the user's member of `rework:leaderboard:{r}` to that total.
//! Upserts replace by key, so a request processed again with the same inputs
//! leaves the store as it was.
use crate::keys::{rework_leaderboard_key, rework_leaderboard_key_of};
use crate::models::{QueueRequest, Rework, ReworkStats};
use crate::weighting::{aggregate_pp, calculate_new_pp};
use vstd::prelude::*;

verus! {

/// A score's result under a rework: the score and its new PP in centi-points.
#[derive(Clone, Copy, Debug, PartialEq, Eq, Structural)]
pub struct ScoredPlay {
    pub score_id: i32,
    pub new_pp: u32,
}

/// The key and payload of a rework score row.
#[derive(Clone, Copy, Debug, PartialEq, Eq, Structural)]
pub struct ScoreRow {
    pub score_id: i32,
    pub user_id: i32,
    pub rework_id: i32,
    pub new_pp: u32,
}

/// The PP algorithm a rework evaluates.
#[derive(Clone, Copy, Debug, PartialEq, Eq, Structural)]
pub enum ReworkAlgorithm {
    Conceptual,
    SkillRebalance,
}

/// The algorithm registered for a rework, if any: reworks 10 to 12 are
/// versions of the conceptual rework, rework 13 is the skill rebalance.
pub fn rework_algorithm(rework_id: i32) -> (r: Option<ReworkAlgorithm>)
    ensures
        r == (if 10 <= rework_id <= 12 {
            Some(ReworkAlgorithm::Conceptual)
        } else if rework_id == 13 {
            Some(ReworkAlgorithm::SkillRebalance)
        } else {
            None
        }),
{
    if 10 <= rework_id && rework_id <= 12 {
        Some(ReworkAlgorithm::Conceptual)
    } else if rework_id == 13 {
        Some(ReworkAlgorithm::SkillRebalance)
    } else {
        None
    }
}

/// Everything the worker writes for one request.
pub struct ProcessingPlan {
    pub score_rows: Vec<ScoreRow>,
    pub stats: ReworkStats,
    pub leaderboard_key: String,
}

/// The three stores a request touches: rework score rows keyed by
/// `(score_id, rework_id)` holding `(user_id, new_pp)`, stats rows keyed by
/// `(user_id, rework_id)` holding the total, and leaderboard members keyed by
/// `(rework_id, user_id)` holding their score.
pub struct StoreModel {
    pub scores: Map<(int, int), (int, int)>,
    pub stats: Map<(int, int), int>,
    pub board: Map<(int, int), int>,
}

/// The score rows of a plan as a map; a later row replaces an earlier one.
pub open spec fn rows_map(rows: Seq<ScoreRow>) -> Map<(int, int), (int, int)>
    decreases rows.len(),
{
    if rows.len() == 0 {
        Map::empty()
    } else {
        let row = rows.last();
        rows_map(rows.drop_last()).insert(
            (row.score_id as int, row.rework_id as int),
            (row.user_id as int, row.new_pp as int),
        )
    }
}

/// The store after a plan's upserts and its leaderboard write.
pub open spec fn apply_plan(
    s: StoreModel,
    rows: Seq<ScoreRow>,
    stats: ReworkStats,
) -> StoreModel {
    StoreModel {
        scores: s.scores.union_prefer_right(rows_map(rows)),
        stats: s.stats.insert((stats.user_id as int, stats.rework_id as int), stats.new_pp as int),
        board: s.board.insert((stats.rework_id as int, stats.user_id as int), stats.new_pp as int),
    }
}

/// Every user with a score row under a rework has a stats row under it.
pub open spec fn stats_cover_scores(s: StoreModel) -> bool {
    forall|k: (int, int)| #[trigger]
        s.scores.contains_key(k) ==> s.stats.contains_key((s.scores[k].0, k.1))
}

/// All rows of a plan belong to the plan's user and rework.
pub open spec fn rows_belong(rows: Seq<ScoreRow>, stats: ReworkStats) -> bool {
    forall|i: int|
        0 <= i < rows.len() ==> #[trigger] rows[i].user_id == stats.user_id && rows[i].rework_id
            == stats.rework_id
}

/// The score rows for a request, one per result, in order.
pub open spec fn rows_for(request: QueueRequest, plays: Seq<ScoredPlay>) -> Seq<ScoreRow> {
    Seq::new(
        plays.len(),
        |i: int|
            ScoreRow {
                score_id: plays[i].score_id,
                user_id: request.user_id,
                rework_id: request.rework_id,
                new_pp: plays[i].new_pp,
            },
    )
}

pub open spec fn pps_of(plays: Seq<ScoredPlay>) -> Seq<u32> {
    Seq::new(plays.len(), |i: int| plays[i].new_pp)
}

/// Plans the writes for a request from the recalculated scores (the user's
/// top scores), the number of their eligible scores and their live total:
/// one row per score, and a stats row and leaderboard score equal to the
/// aggregate of the new PP.
pub fn plan_processing(
    request: QueueRequest,
    rework: &Rework,
    plays: &Vec<ScoredPlay>,
    score_count: u64,
    old_pp: i32,
) -> (r: ProcessingPlan)
    requires
        request.rework_id == rework.rework_id,
    ensures
        r.score_rows@ == rows_for(request, plays@),
        r.stats == (ReworkStats {
            user_id: request.user_id,
            rework_id: request.rework_id,
            old_pp,
            new_pp: aggregate_pp(pps_of(plays@), score_count) as i32,
        }),
        aggregate_pp(pps_of(plays@), score_count) == r.stats.new_pp,
        r.leaderboard_key@ == rework_leaderboard_key_of(request.rework_id as int),
        rows_belong(r.score_rows@, r.stats),
{
    let mut rows: Vec<ScoreRow> = Vec::new();
    let mut pps: Vec<u32> = Vec::new();
    let mut i: usize = 0;
    while i < plays.len()
        invariant
            i <= plays@.len(),
            request.rework_id == rework.rework_id,
            rows@ == rows_for(request, plays@).subrange(0, i as int),
            pps@ == pps_of(plays@).subrange(0, i as int),
        decreases plays@.len() - i,
    {
        let play = plays[i];
        rows.push(
            ScoreRow {
                score_id: play.score_id,
                user_id: request.user_id,
                rework_id: rework.rework_id,
                new_pp: play.new_pp,
            },
        );
        pps.push(play.new_pp);
        proof {
            assert(rows@ =~= rows_for(request, plays@).subrange(0, i + 1));
            assert(pps@ =~= pps_of(plays@).subrange(0, i + 1));
        }
        i = i + 1;
    }
    proof {
        assert(rows@ =~= rows_for(request, plays@));
        assert(pps@ =~= pps_of(plays@));
    }
    let new_pp = calculate_new_pp(&pps, score_count);
    let stats = ReworkStats { user_id: request.user_id, rework_id: rework.rework_id, old_pp, new_pp };
    ProcessingPlan { score_rows: rows, stats, leaderboard_key: rework_leaderboard_key(rework.rework_id) }
}

proof fn lemma_rows_map_keys(rows: Seq<ScoreRow>, stats: ReworkStats)
    requires
        rows_belong(rows, stats),
    ensures
        forall|k: (int, int)| #[trigger]
            rows_map(rows).contains_key(k) ==> k.1 == stats.rework_id && rows_map(rows)[k].0
                == stats.user_id,
    decreases rows.len(),
{
    if rows.len() > 0 {
        let rest = rows.drop_last();
        assert(rows_belong(rest, stats)) by {
            assert forall|i: int| 0 <= i < rest.len() implies #[trigger] rest[i].user_id
                == stats.user_id && rest[i].rework_id == stats.rework_id by {
                assert(rest[i] == rows[i]);
            }
        }
        lemma_rows_map_keys(rest, stats);
        let row = rows[rows.len() - 1];
        assert(row.user_id == stats.user_id && row.rework_id == stats.rework_id);
        let key = (row.score_id as int, row.rework_id as int);
        assert forall|k: (int, int)| #[trigger] rows_map(rows).contains_key(k) implies k.1
            == stats.rework_id && rows_map(rows)[k].0 == stats.user_id by {
            if k != key {
                assert(rows_map(rest).contains_key(k));
            }
        }
    }
}

/// After a request is processed, every user with rework score rows still has
/// a stats row under the same rework.
pub proof fn lemma_processing_keeps_stats_coverage(
    s: StoreModel,
    rows: Seq<ScoreRow>,
    stats: ReworkStats,
)
    requires
        stats_cover_scores(s),
        rows_belong(rows, stats),
    ensures
        stats_cover_scores(apply_plan(s, rows, stats)),
{
    lemma_rows_map_keys(rows, stats);
    let t = apply_plan(s, rows, stats);
    assert forall|k: (int, int)| #[trigger] t.scores.contains_key(k) implies t.stats.contains_key(
        (t.scores[k].0, k.1),
    ) by {
        if rows_map(rows).contains_key(k) {
            assert(t.scores[k] == rows_map(rows)[k]);
        } else {
            assert(s.scores.contains_key(k));
            assert(t.scores[k] == s.scores[k]);
        }
    }
}

/// After a request `(u, r)` is processed, u's score in `rework:leaderboard:{r}`
/// equals u's stats total under r.
pub proof fn lemma_processing_leaderboard_matches_stats(
    s: StoreModel,
    rows: Seq<ScoreRow>,
    stats: ReworkStats,
)
    ensures
        ({
            let t = apply_plan(s, rows, stats);
            let u = stats.user_id as int;
            let r = stats.rework_id as int;
            &&& t.board.contains_key((r, u))
            &&& t.stats.contains_key((u, r))
            &&& t.board[(r, u)] == t.stats[(u, r)]
        }),
{
}

/// Processing the same request twice with the same inputs leaves the same
/// rows and leaderboard as processing it once.
pub proof fn lemma_processing_idempotent(s: StoreModel, rows: Seq<ScoreRow>, stats: ReworkStats)
    ensures
        apply_plan(apply_plan(s, rows, stats), rows, stats) == apply_plan(s, rows, stats),
{
    let once = apply_plan(s, rows, stats);
    let twice = apply_plan(once, rows, stats);
    assert(twice.scores =~= once.scores);
    assert(twice.stats =~= once.stats);
    assert(twice.board =~= once.board);
}

} // verus!
