use performance_service::keys::{
    mode_prefix, rank_from_index, ripple_country_key, ripple_key, rework_leaderboard_key,
    scores_table, session_key, session_user_key, stats_table,
};
use performance_service::text::{decimal_string, search_pattern, username_safe};

#[test]
fn decimal_forms() {
    assert_eq!(decimal_string(0), "0");
    assert_eq!(decimal_string(42), "42");
    assert_eq!(decimal_string(-1205), "-1205");
    assert_eq!(decimal_string(i64::MIN), i64::MIN.to_string());
    assert_eq!(decimal_string(i64::MAX), i64::MAX.to_string());
}

#[test]
fn leaderboard_and_session_keys() {
    assert_eq!(rework_leaderboard_key(9), "rework:leaderboard:9");
    assert_eq!(session_key("abc-def"), "rework:sessions:abc-def");
    assert_eq!(session_user_key(42), "rework:sessions:ids:42");
}

#[test]
fn ripple_keys_by_class_and_ruleset() {
    assert_eq!(ripple_key(0, 0).as_deref(), Some("ripple:leaderboard:std"));
    assert_eq!(ripple_key(1, 1).as_deref(), Some("ripple:relaxboard:taiko"));
    assert_eq!(ripple_key(2, 3).as_deref(), Some("ripple:autoboard:mania"));
    assert_eq!(ripple_key(3, 0), None);
    assert_eq!(ripple_key(0, 4), None);
    assert_eq!(ripple_country_key(1, 2, "GB"), "ripple:relaxboard:ctb:gb");
}

#[test]
fn tables_by_class() {
    assert_eq!(scores_table(0), "scores");
    assert_eq!(scores_table(1), "scores_relax");
    assert_eq!(scores_table(2), "scores_ap");
    assert_eq!(stats_table(0), "users_stats");
    assert_eq!(stats_table(1), "rx_stats");
    assert_eq!(stats_table(2), "ap_stats");
    assert_eq!(mode_prefix(2), "ctb");
}

#[test]
fn ranks_from_positions() {
    assert_eq!(rank_from_index(Some(0)), 1);
    assert_eq!(rank_from_index(Some(41)), 42);
    assert_eq!(rank_from_index(None), 0);
}

#[test]
fn safe_username_lowercases_and_underscores() {
    assert_eq!(username_safe("Alice Liddell"), "alice_liddell");
    assert_eq!(username_safe(""), "");
}

#[test]
fn search_pattern_normalises_query() {
    assert_eq!(search_pattern("Cookie Ézo"), "%cookie_zo%");
    assert_eq!(search_pattern("ABC"), "%abc%");
}
