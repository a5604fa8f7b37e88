use performance_service::processing::{plan_processing, rework_algorithm, ReworkAlgorithm, ScoredPlay};
use performance_service::{QueueRequest, Rework, ReworkStats};

fn rework() -> Rework {
    Rework { rework_id: 9, rework_name: "rebalance".to_string(), mode: 0, rx: 0, updated_at: 0 }
}

#[test]
fn one_score_of_five_hundred_is_processed() {
    let req = QueueRequest { user_id: 42, rework_id: 9 };
    let plan = plan_processing(req, &rework(), &vec![ScoredPlay { score_id: 1, new_pp: 50_000 }], 1, 480);
    assert_eq!(plan.stats, ReworkStats { user_id: 42, rework_id: 9, old_pp: 480, new_pp: 502 });
    assert_eq!(plan.leaderboard_key, "rework:leaderboard:9");
    assert_eq!(plan.score_rows.len(), 1);
    assert_eq!(plan.score_rows[0].score_id, 1);
    assert_eq!(plan.score_rows[0].user_id, 42);
    assert_eq!(plan.score_rows[0].rework_id, 9);
    assert_eq!(plan.score_rows[0].new_pp, 50_000);
}

#[test]
fn user_without_scores_still_gets_stats() {
    let req = QueueRequest { user_id: 5, rework_id: 9 };
    let plan = plan_processing(req, &rework(), &vec![], 0, 0);
    assert_eq!(plan.stats.new_pp, 0);
    assert!(plan.score_rows.is_empty());
}

#[test]
fn replaying_a_request_plans_the_same_writes() {
    let req = QueueRequest { user_id: 42, rework_id: 9 };
    let plays = vec![ScoredPlay { score_id: 1, new_pp: 12_345 }, ScoredPlay { score_id: 2, new_pp: 54_321 }];
    let a = plan_processing(req, &rework(), &plays, 2, 10);
    let b = plan_processing(req, &rework(), &plays, 2, 10);
    assert_eq!(a.stats, b.stats);
    assert_eq!(a.score_rows, b.score_rows);
    assert_eq!(a.leaderboard_key, b.leaderboard_key);
}

#[test]
fn registry_resolves_reworks() {
    assert_eq!(rework_algorithm(10), Some(ReworkAlgorithm::Conceptual));
    assert_eq!(rework_algorithm(12), Some(ReworkAlgorithm::Conceptual));
    assert_eq!(rework_algorithm(13), Some(ReworkAlgorithm::SkillRebalance));
    assert_eq!(rework_algorithm(1), None);
}
