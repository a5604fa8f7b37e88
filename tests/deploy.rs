use performance_service::deploy::{
    deploy_targets, group_by_mods, live_algorithm, mods_class, plan_user_recalc, text_contains,
    LiveAlgorithm, ScoreFilter,
};

const DAY: i64 = 86_400;
const NOW: i64 = 1_700_000_000;

#[test]
fn active_unrestricted_user_is_listed() {
    let plan = plan_user_recalc(0, 1, &vec![100_000], 1, 3, "DE", Some(NOW - DAY), NOW);
    assert_eq!(plan.new_pp, 1002);
    assert_eq!(plan.stats_mode, 4);
    assert_eq!(plan.leaderboard_keys, vec!["ripple:relaxboard:std".to_string(), "ripple:relaxboard:std:de".to_string()]);
}

#[test]
fn restricted_user_is_not_listed() {
    let plan = plan_user_recalc(0, 0, &vec![100_000], 1, 0, "DE", Some(NOW - DAY), NOW);
    assert_eq!(plan.new_pp, 1002);
    assert!(plan.leaderboard_keys.is_empty());
}

#[test]
fn inactive_user_keeps_total_but_is_not_listed() {
    let plan = plan_user_recalc(3, 0, &vec![50_000], 1, 1, "US", Some(NOW - 70 * DAY), NOW);
    assert_eq!(plan.new_pp, 502);
    assert_eq!(plan.stats_mode, 3);
    assert!(plan.leaderboard_keys.is_empty());
    let never = plan_user_recalc(3, 0, &vec![], 0, 1, "US", None, NOW);
    assert_eq!(never.new_pp, 0);
    assert!(never.leaderboard_keys.is_empty());
}

#[test]
fn targets_per_ruleset() {
    assert_eq!(
        deploy_targets(&vec![0, 3], &vec![0, 1]),
        vec![(0, 0), (0, 1), (3, 0)]
    );
    assert!(deploy_targets(&vec![], &vec![0]).is_empty());
}

#[test]
fn algorithm_and_class_from_mods() {
    assert_eq!(live_algorithm(0, 128), LiveAlgorithm::Osu2019Relax);
    assert_eq!(live_algorithm(1, 128), LiveAlgorithm::General);
    assert_eq!(live_algorithm(0, 64), LiveAlgorithm::General);
    assert_eq!(mods_class(128 | 8), 1);
    assert_eq!(mods_class(8192), 2);
    assert_eq!(mods_class(0), 0);
}

#[test]
fn filter_checks_each_condition() {
    let none = ScoreFilter { mods_include_mask: None, mods_exclude_mask: None, mapper: None, beatmap_ids: None };
    assert!(none.admits(0, 1, "a.osu"));
    let f = ScoreFilter {
        mods_include_mask: Some(64),
        mods_exclude_mask: Some(128),
        mapper: Some("Sotarks".to_string()),
        beatmap_ids: Some(vec![10, 20]),
    };
    assert!(f.admits(64, 10, "Artist - Song (Sotarks) [Insane].osu"));
    assert!(!f.admits(0, 10, "Artist - Song (Sotarks) [Insane].osu"));
    assert!(!f.admits(64 | 128, 10, "Artist - Song (Sotarks) [Insane].osu"));
    assert!(!f.admits(64, 11, "Artist - Song (Sotarks) [Insane].osu"));
    assert!(!f.admits(64, 20, "Artist - Song (Other) [Insane].osu"));
    assert!(f.admits(64, 20, "artist - song (SOTARKS) [insane].osu"));
    let literal = ScoreFilter { mods_include_mask: None, mods_exclude_mask: None, mapper: Some("a_b".to_string()), beatmap_ids: None };
    assert!(literal.admits(0, 1, "xA_Bx.osu"));
    assert!(!literal.admits(0, 1, "axb.osu"));
}

#[test]
fn substring_search() {
    assert!(text_contains("abcdef", "cde"));
    assert!(text_contains("abc", ""));
    assert!(!text_contains("abc", "abcd"));
    assert!(!text_contains("abcabd", "abe"));
}

#[test]
fn groups_by_mods_in_first_seen_order() {
    let g = group_by_mods(&vec![64, 0, 64, 16, 0]);
    assert_eq!(g.group_mods, vec![64, 0, 16]);
    assert_eq!(g.group_of, vec![0, 1, 0, 2, 1]);
    let empty = group_by_mods(&vec![]);
    assert!(empty.group_mods.is_empty() && empty.group_of.is_empty());
}
