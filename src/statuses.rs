//! Repair of best-score statuses after PP changes.
//!
//! Among a user's submitted scores in one ruleset, each beatmap keeps exactly
//! one best score (status 3): the one with the highest PP, the earliest listed
//! among equals. Every other score on the beatmap is marked submitted (2).
use vstd::prelude::*;

verus! {

/// Status of a user's best score on a beatmap.
pub const COMPLETED_BEST: u8 = 3;

/// Status of a submitted score that is not the user's best on its beatmap.
pub const COMPLETED_SUBMITTED: u8 = 2;

/// A user's submitted score as the status repair sees it.
pub struct StatusScore {
    pub score_id: i64,
    pub beatmap_md5: String,
    /// PP in centi-points.
    pub pp: u32,
}

pub open spec fn same_beatmap(s: Seq<StatusScore>, i: int, j: int) -> bool {
    s[i].beatmap_md5@ == s[j].beatmap_md5@
}

/// Score `i` is the best of its beatmap: no score on the beatmap has more PP,
/// and none listed before it has as much.
pub open spec fn is_best(s: Seq<StatusScore>, i: int) -> bool {
    forall|j: int|
        0 <= j < s.len() && #[trigger] same_beatmap(s, i, j) ==> s[j].pp <= s[i].pp && (j < i
            ==> s[j].pp < s[i].pp)
}

pub open spec fn status_of(s: Seq<StatusScore>, i: int) -> u8 {
    if is_best(s, i) {
        COMPLETED_BEST
    } else {
        COMPLETED_SUBMITTED
    }
}

/// The status each score gets, in the order given.
pub fn recalculate_statuses(scores: &Vec<StatusScore>) -> (r: Vec<u8>)
    ensures
        r@.len() == scores@.len(),
        forall|i: int| 0 <= i < scores@.len() ==> r@[i] == status_of(scores@, i),
{
    let n = scores.len();
    let mut out: Vec<u8> = Vec::new();
    let mut i: usize = 0;
    while i < n
        invariant
            n == scores@.len(),
            i <= n,
            out@.len() == i,
            forall|k: int| 0 <= k < i ==> out@[k] == status_of(scores@, k),
        decreases n - i,
    {
        let mut best = true;
        let mut j: usize = 0;
        while j < n
            invariant
                n == scores@.len(),
                i < n,
                j <= n,
                best <==> forall|k: int|
                    0 <= k < j && #[trigger] same_beatmap(scores@, i as int, k) ==> scores@[k].pp
                        <= scores@[i as int].pp && (k < i ==> scores@[k].pp < scores@[i as int].pp),
            decreases n - j,
        {
            if scores[j].beatmap_md5 == scores[i].beatmap_md5 {
                if scores[j].pp > scores[i].pp || (j < i && scores[j].pp == scores[i].pp) {
                    best = false;
                }
            }
            proof {
                assert(same_beatmap(scores@, i as int, j as int) == (scores@[j as int].beatmap_md5@
                    == scores@[i as int].beatmap_md5@));
            }
            j = j + 1;
        }
        out.push(if best { COMPLETED_BEST } else { COMPLETED_SUBMITTED });
        i = i + 1;
    }
    out
}

/// The index of the best score on score `i`'s beatmap among the first `k`,
/// or -1 when none of them is on that beatmap.
pub open spec fn best_upto(s: Seq<StatusScore>, i: int, k: int) -> int
    decreases k,
{
    if k <= 0 {
        -1
    } else {
        let b = best_upto(s, i, k - 1);
        if same_beatmap(s, i, k - 1) && (b == -1 || s[k - 1].pp > s[b].pp) {
            k - 1
        } else {
            b
        }
    }
}

proof fn lemma_best_upto(s: Seq<StatusScore>, i: int, k: int)
    requires
        0 <= i < s.len(),
        0 <= k <= s.len(),
    ensures
        ({
            let b = best_upto(s, i, k);
            &&& b == -1 ==> forall|j: int| 0 <= j < k ==> !#[trigger] same_beatmap(s, i, j)
            &&& b != -1 ==> {
                &&& 0 <= b < k
                &&& same_beatmap(s, i, b)
                &&& forall|j: int|
                    0 <= j < k && #[trigger] same_beatmap(s, i, j) ==> s[j].pp <= s[b].pp && (j < b
                        ==> s[j].pp < s[b].pp)
            }
        }),
    decreases k,
{
    if k > 0 {
        lemma_best_upto(s, i, k - 1);
    }
}

/// After the repair, every beatmap the user has a score on has exactly one
/// best score: some score on it is best, and two best scores on the same
/// beatmap are the same score.
pub proof fn lemma_one_best_per_beatmap(s: Seq<StatusScore>, i: int)
    requires
        0 <= i < s.len(),
    ensures
        exists|b: int| 0 <= b < s.len() && same_beatmap(s, i, b) && #[trigger] is_best(s, b),
        forall|a: int, b: int|
            0 <= a < s.len() && 0 <= b < s.len() && same_beatmap(s, i, a) && same_beatmap(s, i, b)
                && #[trigger] is_best(s, a) && #[trigger] is_best(s, b) ==> a == b,
{
    lemma_best_upto(s, i, s.len() as int);
    let b = best_upto(s, i, s.len() as int);
    assert(same_beatmap(s, i, i));
    assert(b != -1);
    assert(is_best(s, b)) by {
        assert forall|j: int| 0 <= j < s.len() && #[trigger] same_beatmap(s, b, j) implies s[j].pp
            <= s[b].pp && (j < b ==> s[j].pp < s[b].pp) by {
            assert(same_beatmap(s, i, j));
        }
    }
    assert forall|a: int, c: int|
        0 <= a < s.len() && 0 <= c < s.len() && same_beatmap(s, i, a) && same_beatmap(s, i, c)
            && #[trigger] is_best(s, a) && #[trigger] is_best(s, c) implies a == c by {
        assert(same_beatmap(s, a, c));
        assert(same_beatmap(s, c, a));
    }
}

} // verus!
