//! Decisions of the bulk recalculation that rewrites live PP.
//!
//! Phase A recomputes every stored score's PP, one beatmap at a time, with the
//! scores of a beatmap grouped by mods so that each group shares difficulty
//! attributes. Phase B recomputes each user's total and refreshes the live
//! leaderboards, which only hold unrestricted, active users.
use crate::keys::{ripple_country_key, ripple_country_key_of, ripple_key, ripple_key_of};
use crate::queueing::{inactive_days, is_active, INACTIVITY_DAYS};
use crate::text::{lower_of, to_lowercase};
use crate::weighting::{aggregate_pp, calculate_new_pp};
use vstd::prelude::*;

verus! {

/// The relax mod bit.
pub const RX: i32 = 128;

/// The autopilot mod bit.
pub const AP: i32 = 8192;

/// A user is unrestricted when the lowest privilege bit is set.
pub open spec fn is_unrestricted(privileges: i32) -> bool {
    privileges & 1 != 0
}

/// What Phase B writes for one user in one ruleset and mod class.
pub struct UserRecalcPlan {
    /// The new total PP.
    pub new_pp: i32,
    /// The `user_stats.mode` column the total is written under.
    pub stats_mode: i32,
    /// The live leaderboards the user is added to with the new total.
    pub leaderboard_keys: Vec<String>,
}

/// Plans one user's Phase B writes from their top scores' centi-point PP,
/// their number of eligible scores, privileges, country and the time of their
/// last eligible score. The total is always written; the user is added to the
/// global and country leaderboards only when unrestricted and active.
pub fn plan_user_recalc(
    mode: i32,
    rx: i32,
    pps: &Vec<u32>,
    score_count: u64,
    privileges: i32,
    country: &str,
    last_score_time: Option<i64>,
    now: i64,
) -> (r: UserRecalcPlan)
    requires
        0 <= mode <= 3,
        0 <= rx <= 2,
    ensures
        r.new_pp == aggregate_pp(pps@, score_count),
        r.stats_mode == mode + 4 * rx,
        is_unrestricted(privileges) && is_active(last_score_time, now) ==> r.leaderboard_keys@.len()
            == 2 && r.leaderboard_keys@[0]@ == ripple_key_of(rx as int, mode as int)
            && r.leaderboard_keys@[1]@ == ripple_country_key_of(rx as int, mode as int, country@),
        !is_unrestricted(privileges) ==> r.leaderboard_keys@.len() == 0,
        !is_active(last_score_time, now) ==> r.leaderboard_keys@.len() == 0,
{
    let new_pp = calculate_new_pp(pps, score_count);
    let mut keys: Vec<String> = Vec::new();
    if privileges & 1 != 0 && inactive_days(last_score_time, now) < INACTIVITY_DAYS {
        match ripple_key(rx, mode) {
            Some(global) => keys.push(global),
            None => {},
        }
        keys.push(ripple_country_key(rx, mode, country));
    }
    UserRecalcPlan { new_pp, stats_mode: mode + 4 * rx, leaderboard_keys: keys }
}

/// The mod classes a ruleset is recalculated under: every requested one for
/// the rulesets that have relax scores (0 to 2), only the plain class for
/// the others.
pub open spec fn classes_for(mode: i32, relax_bits: Seq<i32>) -> Seq<i32> {
    if 0 <= mode <= 2 {
        relax_bits
    } else {
        seq![0i32]
    }
}

pub open spec fn targets_of(modes: Seq<i32>, relax_bits: Seq<i32>) -> Seq<(i32, i32)>
    decreases modes.len(),
{
    if modes.len() == 0 {
        Seq::empty()
    } else {
        let mode = modes.last();
        targets_of(modes.drop_last(), relax_bits) + classes_for(mode, relax_bits).map_values(
            |rx: i32| (mode, rx),
        )
    }
}

/// The `(mode, rx)` pairs a deployment runs, in order.
pub fn deploy_targets(modes: &Vec<i32>, relax_bits: &Vec<i32>) -> (r: Vec<(i32, i32)>)
    ensures
        r@ == targets_of(modes@, relax_bits@),
{
    let mut out: Vec<(i32, i32)> = Vec::new();
    let mut i: usize = 0;
    while i < modes.len()
        invariant
            i <= modes@.len(),
            out@ == targets_of(modes@.subrange(0, i as int), relax_bits@),
        decreases modes@.len() - i,
    {
        let mode = modes[i];
        let ghost start = out@;
        proof {
            assert(modes@.subrange(0, i + 1).drop_last() == modes@.subrange(0, i as int));
        }
        if 0 <= mode && mode <= 2 {
            let mut j: usize = 0;
            while j < relax_bits.len()
                invariant
                    j <= relax_bits@.len(),
                    out@ == start + relax_bits@.subrange(0, j as int).map_values(
                        |rx: i32| (mode, rx),
                    ),
                decreases relax_bits@.len() - j,
            {
                out.push((mode, relax_bits[j]));
                proof {
                    assert(relax_bits@.subrange(0, j + 1).map_values(|rx: i32| (mode, rx))
                        =~= relax_bits@.subrange(0, j as int).map_values(|rx: i32| (mode, rx)).push(
                        (mode, relax_bits@[j as int]),
                    ));
                }
                j = j + 1;
            }
            proof {
                assert(relax_bits@.subrange(0, relax_bits@.len() as int) == relax_bits@);
            }
        } else {
            out.push((mode, 0));
            proof {
                assert(seq![0i32].map_values(|rx: i32| (mode, rx)) =~= seq![(mode, 0i32)]);
            }
        }
        i = i + 1;
    }
    proof {
        assert(modes@.subrange(0, modes@.len() as int) == modes@);
    }
    out
}

/// The scores table class of a score from its mods: relax, then autopilot,
/// then plain.
pub open spec fn class_of_mods(mods: i32) -> i32 {
    if mods & RX != 0 {
        1
    } else if mods & AP != 0 {
        2
    } else {
        0
    }
}

pub fn mods_class(mods: i32) -> (r: i32)
    ensures
        r == class_of_mods(mods),
{
    if mods & RX != 0 {
        1
    } else if mods & AP != 0 {
        2
    } else {
        0
    }
}

/// The live PP algorithm of a score.
#[derive(Clone, Copy, Debug, PartialEq, Eq, Structural)]
pub enum LiveAlgorithm {
    /// The 2019 osu! algorithm kept for relax scores.
    Osu2019Relax,
    /// The general algorithm of the score's ruleset.
    General,
}

/// Relax scores of osu! standard use the 2019 algorithm; all others the
/// general one.
pub fn live_algorithm(play_mode: i32, mods: i32) -> (r: LiveAlgorithm)
    ensures
        r == (if play_mode == 0 && mods & RX != 0 {
            LiveAlgorithm::Osu2019Relax
        } else {
            LiveAlgorithm::General
        }),
{
    if play_mode == 0 && mods & RX != 0 {
        LiveAlgorithm::Osu2019Relax
    } else {
        LiveAlgorithm::General
    }
}

/// Which scores Phase A recalculates, besides ruleset and status.
pub struct ScoreFilter {
    /// Only scores with at least one of these mods.
    pub mods_include_mask: Option<i32>,
    /// Only scores with none of these mods.
    pub mods_exclude_mask: Option<i32>,
    /// Only beatmaps whose file name contains this text, ignoring case; `%`
    /// and `_` in it stand for themselves, not for wildcards.
    pub mapper: Option<String>,
    /// Only these beatmaps.
    pub beatmap_ids: Option<Vec<i32>>,
}

pub open spec fn contains_at(text: Seq<char>, part: Seq<char>, at: int) -> bool {
    0 <= at && at + part.len() <= text.len() && text.subrange(at, at + part.len()) == part
}

pub open spec fn contains_text(text: Seq<char>, part: Seq<char>) -> bool {
    exists|at: int| #[trigger] contains_at(text, part, at)
}

pub open spec fn admits(f: ScoreFilter, mods: i32, beatmap_id: i32, file_name: Seq<char>) -> bool {
    &&& (f.mods_include_mask matches Some(m) ==> mods & m != 0)
    &&& (f.mods_exclude_mask matches Some(m) ==> mods & m == 0)
    &&& (f.mapper matches Some(p) ==> contains_text(lower_of(file_name), lower_of(p@)))
    &&& (f.beatmap_ids matches Some(ids) ==> ids@.contains(beatmap_id))
}

/// Whether `part` occurs in `text`.
pub fn text_contains(text: &str, part: &str) -> (r: bool)
    ensures
        r == contains_text(text@, part@),
{
    let n = text.unicode_len();
    let m = part.unicode_len();
    if m > n {
        proof {
            assert forall|at: int| !#[trigger] contains_at(text@, part@, at) by {}
        }
        return false;
    }
    let mut at: usize = 0;
    while at <= n - m
        invariant
            n == text@.len(),
            m == part@.len(),
            m <= n,
            at <= n - m + 1,
            forall|k: int| 0 <= k < at ==> !#[trigger] contains_at(text@, part@, k),
        decreases n - m + 1 - at,
    {
        let mut k: usize = 0;
        let mut same = true;
        while k < m && same
            invariant
                n == text@.len(),
                m == part@.len(),
                at + m <= n,
                k <= m,
                same <==> forall|q: int| 0 <= q < k ==> text@[at + q] == part@[q],
            decreases m - k,
        {
            if text.get_char(at + k) != part.get_char(k) {
                same = false;
            }
            k = k + 1;
        }
        if same {
            proof {
                assert(text@.subrange(at as int, at + m) =~= part@);
                assert(contains_at(text@, part@, at as int));
            }
            return true;
        }
        proof {
            assert(!contains_at(text@, part@, at as int)) by {
                if contains_at(text@, part@, at as int) {
                    let q = choose|q: int| 0 <= q < k && text@[at + q] != part@[q];
                    assert(text@.subrange(at as int, at + m)[q] == text@[at + q]);
                }
            }
        }
        at = at + 1;
    }
    proof {
        assert forall|k: int| !#[trigger] contains_at(text@, part@, k) by {
            if 0 <= k < at {
            }
        }
    }
    false
}

fn list_contains(ids: &Vec<i32>, id: i32) -> (r: bool)
    ensures
        r == ids@.contains(id),
{
    let mut i: usize = 0;
    while i < ids.len()
        invariant
            i <= ids@.len(),
            forall|k: int| 0 <= k < i ==> ids@[k] != id,
        decreases ids@.len() - i,
    {
        if ids[i] == id {
            return true;
        }
        i = i + 1;
    }
    false
}

impl ScoreFilter {
    /// Whether a score with these mods, on this beatmap, passes the filter.
    pub fn admits(&self, mods: i32, beatmap_id: i32, file_name: &str) -> (r: bool)
        ensures
            r == admits(*self, mods, beatmap_id, file_name@),
    {
        let include_ok = match self.mods_include_mask {
            Some(m) => mods & m != 0,
            None => true,
        };
        let exclude_ok = match self.mods_exclude_mask {
            Some(m) => mods & m == 0,
            None => true,
        };
        let mapper_ok = match &self.mapper {
            Some(p) => {
                let lower_name = to_lowercase(file_name);
                let lower_part = to_lowercase(p.as_str());
                text_contains(lower_name.as_str(), lower_part.as_str())
            },
            None => true,
        };
        let ids_ok = match &self.beatmap_ids {
            Some(ids) => list_contains(ids, beatmap_id),
            None => true,
        };
        include_ok && exclude_ok && mapper_ok && ids_ok
    }
}

/// A partition of a beatmap's scores by mods: `group_of[i]` is the group of
/// score `i`, and `group_mods[g]` the mods every score of group `g` has.
pub struct ModsGroups {
    pub group_of: Vec<usize>,
    pub group_mods: Vec<i32>,
}

pub open spec fn partitions(group_of: Seq<usize>, group_mods: Seq<i32>, mods: Seq<i32>) -> bool {
    &&& group_of.len() == mods.len()
    &&& forall|i: int|
        0 <= i < mods.len() ==> #[trigger] group_of[i] < group_mods.len() && group_mods[group_of[i] as int]
            == mods[i]
    &&& forall|a: int, b: int|
        0 <= a < b < group_mods.len() ==> #[trigger] group_mods[a] != #[trigger] group_mods[b]
    &&& forall|k: int| 0 <= k < group_mods.len() ==> #[trigger] mods.contains(group_mods[k])
    &&& first_seen_order(group_of, group_mods.len() as int)
}

/// Groups are numbered in order of first appearance: group `k` has a first
/// member, and every score before it is in a lower group.
pub open spec fn first_seen_order(group_of: Seq<usize>, n_groups: int) -> bool {
    forall|k: int| 0 <= k < n_groups ==> #[trigger] has_first_member(group_of, k)
}

/// Some score is in group `k` and every score before it is in a lower group.
pub open spec fn has_first_member(group_of: Seq<usize>, k: int) -> bool {
    exists|f: int|
        0 <= f < group_of.len() && #[trigger] group_of[f] == k && forall|j: int|
            0 <= j < f ==> group_of[j] < k
}

pub open spec fn groups_partition(g: ModsGroups, mods: Seq<i32>) -> bool {
    partitions(g.group_of@, g.group_mods@, mods)
}

/// Groups scores by their mods, groups in order of first appearance.
pub fn group_by_mods(mods: &Vec<i32>) -> (r: ModsGroups)
    ensures
        groups_partition(r, mods@),
{
    let mut group_of: Vec<usize> = Vec::new();
    let mut group_mods: Vec<i32> = Vec::new();
    let mut i: usize = 0;
    while i < mods.len()
        invariant
            i <= mods@.len(),
            group_mods@.len() <= i,
            partitions(group_of@, group_mods@, mods@.subrange(0, i as int)),
        decreases mods@.len() - i,
    {
        let m = mods[i];
        let mut g: usize = 0;
        while g < group_mods.len() && group_mods[g] != m
            invariant
                g <= group_mods@.len(),
                forall|k: int| 0 <= k < g ==> group_mods@[k] != m,
            decreases group_mods@.len() - g,
        {
            g = g + 1;
        }
        let ghost prefix = mods@.subrange(0, i as int);
        let ghost next = mods@.subrange(0, i + 1);
        proof {
            assert(next == prefix.push(m));
            assert forall|k: int| 0 <= k < group_mods@.len() implies #[trigger] next.contains(
                group_mods@[k],
            ) by {
                assert(prefix.contains(group_mods@[k]));
                let w = choose|w: int| 0 <= w < prefix.len() && prefix[w] == group_mods@[k];
                assert(next[w] == group_mods@[k]);
            }
        }
        let ghost old_of = group_of@;
        let ghost old_len = group_mods@.len();
        if g == group_mods.len() {
            let ghost old_mods = group_mods@;
            group_mods.push(m);
            proof {
                assert(next[i as int] == m);
                assert(next.contains(m));
                assert forall|a: int, b: int| 0 <= a < b < group_mods@.len() implies #[trigger] group_mods@[a]
                    != #[trigger] group_mods@[b] by {
                    if b < old_mods.len() {
                        assert(old_mods[a] != old_mods[b]);
                    }
                }
            }
        }
        group_of.push(g);
        proof {
            assert forall|k: int| 0 <= k < group_mods@.len() implies #[trigger] has_first_member(
                group_of@,
                k,
            ) by {
                if k < old_len {
                    assert(has_first_member(old_of, k));
                    let f = choose|f: int|
                        0 <= f < old_of.len() && #[trigger] old_of[f] == k && forall|j: int|
                            0 <= j < f ==> old_of[j] < k;
                    assert(group_of@[f] == k);
                    assert forall|j: int| 0 <= j < f implies group_of@[j] < k by {
                        assert(group_of@[j] == old_of[j]);
                    }
                } else {
                    assert(group_of@[i as int] == k);
                    assert forall|j: int| 0 <= j < i implies group_of@[j] < k by {
                        assert(group_of@[j] == old_of[j]);
                        assert(prefix[j] == mods@[j]);
                    }
                }
            }
            assert forall|q: int| 0 <= q < next.len() implies #[trigger] group_of@[q]
                < group_mods@.len() && group_mods@[group_of@[q] as int] == next[q] by {
                if q < i {
                    assert(prefix[q] == next[q]);
                }
            }
        }
        i = i + 1;
    }
    proof {
        assert(mods@.subrange(0, mods@.len() as int) == mods@);
    }
    ModsGroups { group_of, group_mods }
}

} // verus!
