use performance_service::statuses::{recalculate_statuses, StatusScore};

fn score(score_id: i64, md5: &str, pp: u32) -> StatusScore {
    StatusScore { score_id, beatmap_md5: md5.to_string(), pp }
}

#[test]
fn higher_pp_becomes_best() {
    let scores = vec![score(1, "aaa", 10_000), score(2, "aaa", 25_000)];
    assert_eq!(recalculate_statuses(&scores), vec![2, 3]);
}

#[test]
fn one_best_per_beatmap() {
    let scores = vec![
        score(1, "aaa", 500),
        score(2, "bbb", 900),
        score(3, "aaa", 700),
        score(4, "bbb", 100),
        score(5, "ccc", 50),
    ];
    let statuses = recalculate_statuses(&scores);
    assert_eq!(statuses, vec![2, 3, 3, 2, 3]);
    for md5 in ["aaa", "bbb", "ccc"] {
        let bests = scores
            .iter()
            .zip(statuses.iter())
            .filter(|(s, st)| s.beatmap_md5 == md5 && **st == 3)
            .count();
        assert_eq!(bests, 1);
    }
}

#[test]
fn equal_pp_keeps_first_listed() {
    let scores = vec![score(7, "aaa", 300), score(8, "aaa", 300)];
    assert_eq!(recalculate_statuses(&scores), vec![3, 2]);
}

#[test]
fn no_scores_no_statuses() {
    assert!(recalculate_statuses(&vec![]).is_empty());
}
