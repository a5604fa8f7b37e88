//! The weight-and-bonus formula that turns a user's per-score PP into a total.
//!
//! Per-score PP is carried as centi-points (hundredths of a point, the two
//! decimals every algorithm rounds to). The total is
//! `round(sum_i pp_i * 0.95^i + 416.6667 * (1 - 0.995^n))`, with the scores
//! sorted by PP descending and `n` the number of eligible scores capped at
//! 1000. The decay factors `0.95^i` and `0.995^n` are kept in fixed point with
//! a resolution of `1 / DECAY_ONE`, each step rounding down.
use vstd::arithmetic::div_mod::{lemma_fundamental_div_mod, lemma_mod_pos_bound};
use vstd::prelude::*;
use vstd::relations::{sorted_by, total_ordering};
use vstd::seq_lib::{
    group_to_multiset_ensures, lemma_sorted_unique, to_multiset_build, to_multiset_insert,
};

verus! {

/// The fixed-point value of 1.0 for the decay factors.
pub const DECAY_ONE: u128 = 1_000_000_000_000;

/// The number of eligible scores beyond which the volume bonus stops growing.
pub const SCORE_COUNT_CAP: u64 = 1000;

/// The largest centi-point value a score can carry.
pub const MAX_CENTI_PP: u128 = 4294967295;

/// Descending order on centi-point values.
pub open spec fn pp_desc() -> spec_fn(u32, u32) -> bool {
    |a: u32, b: u32| a >= b
}

/// `0.95^i` in fixed point.
pub open spec fn position_weight(i: nat) -> int
    decreases i,
{
    if i == 0 {
        DECAY_ONE as int
    } else {
        position_weight((i - 1) as nat) * 19 / 20
    }
}

/// `0.995^n` in fixed point.
pub open spec fn volume_decay(n: nat) -> int
    decreases n,
{
    if n == 0 {
        DECAY_ONE as int
    } else {
        volume_decay((n - 1) as nat) * 199 / 200
    }
}

/// `sum_i s[i] * 0.95^i`, in centi-points times `DECAY_ONE`.
pub open spec fn weighted_total(s: Seq<u32>) -> int
    decreases s.len(),
{
    if s.len() == 0 {
        0
    } else {
        weighted_total(s.drop_last()) + s.last() as int * position_weight((s.len() - 1) as nat)
    }
}

pub open spec fn capped_count(score_count: u64) -> nat {
    if score_count > SCORE_COUNT_CAP {
        SCORE_COUNT_CAP as nat
    } else {
        score_count as nat
    }
}

/// The unrounded total in units of `1 / (10000 * DECAY_ONE)` points: the
/// weighted sum of the sorted scores plus `416.6667 * (1 - 0.995^n)`.
pub open spec fn total_units(sorted: Seq<u32>, score_count: u64) -> int {
    100 * weighted_total(sorted) + 4166667 * (DECAY_ONE - volume_decay(capped_count(score_count)))
}

/// Rounds a non-negative unit count to the nearest whole point, halves up.
pub open spec fn round_units(units: int) -> int {
    (units + 5000 * DECAY_ONE) / (10000 * DECAY_ONE as int)
}

/// A user's total PP from the centi-point values of their scores, in any order.
pub open spec fn aggregate_pp(pps: Seq<u32>, score_count: u64) -> int {
    round_units(total_units(pps.sort_by(pp_desc()), score_count))
}

proof fn lemma_pp_desc_total()
    ensures
        total_ordering(pp_desc()),
{
    assert forall|a: u32, b: u32, c: u32|
        #![trigger pp_desc()(a, b), pp_desc()(b, c)]
        pp_desc()(a, b) && pp_desc()(b, c) implies pp_desc()(a, c) by {}
}

/// Scaling a weight by 19/20 or 199/200 and rounding down never grows it.
proof fn lemma_scaled_down(w: int, num: int, den: int)
    requires
        0 <= w,
        0 < num < den,
    ensures
        0 <= w * num / den <= w,
        den * (w * num / den) <= num * w,
{
    lemma_fundamental_div_mod(w * num, den);
    lemma_mod_pos_bound(w * num, den);
    assert(0 <= w * num) by (nonlinear_arith)
        requires
            0 <= w,
            0 < num,
    ;
    assert(w * num <= w * den) by (nonlinear_arith)
        requires
            0 <= w,
            num < den,
    ;
    assert(0 <= w * num / den <= w) by (nonlinear_arith)
        requires
            w * num == den * (w * num / den) + (w * num) % den,
            0 <= (w * num) % den,
            (w * num) % den < den,
            0 <= w * num,
            w * num <= w * den,
            0 < den,
    ;
}

proof fn lemma_position_weight_bounds(i: nat)
    ensures
        0 <= position_weight(i) <= DECAY_ONE,
    decreases i,
{
    if i > 0 {
        lemma_position_weight_bounds((i - 1) as nat);
        lemma_scaled_down(position_weight((i - 1) as nat), 19, 20);
    }
}

/// The weighted sum of any sequence stays below twenty times its largest
/// allowed element: the weights form a geometric series of ratio 0.95.
proof fn lemma_weighted_total_bound(s: Seq<u32>)
    ensures
        0 <= weighted_total(s),
        weighted_total(s) + 20 * MAX_CENTI_PP * position_weight(s.len()) <= 20 * MAX_CENTI_PP
            * DECAY_ONE,
    decreases s.len(),
{
    if s.len() > 0 {
        let k = (s.len() - 1) as nat;
        lemma_weighted_total_bound(s.drop_last());
        lemma_position_weight_bounds(k);
        let w = position_weight(k);
        lemma_scaled_down(w, 19, 20);
        let c = s.last() as int;
        let m = MAX_CENTI_PP as int;
        assert(0 <= c * w <= m * w) by (nonlinear_arith)
            requires
                0 <= c <= m,
                0 <= w,
        ;
        assert(20 * m * (w * 19 / 20) <= 19 * m * w) by (nonlinear_arith)
            requires
                20 * (w * 19 / 20) <= 19 * w,
                0 <= m,
        ;
    }
}

/// A user's total depends on which scores they have, not on the order in
/// which they are listed.
pub proof fn lemma_aggregate_ignores_order(a: Seq<u32>, b: Seq<u32>, score_count: u64)
    requires
        a.to_multiset() == b.to_multiset(),
    ensures
        aggregate_pp(a, score_count) == aggregate_pp(b, score_count),
{
    lemma_pp_desc_total();
    a.lemma_sort_by_ensures(pp_desc());
    b.lemma_sort_by_ensures(pp_desc());
    lemma_sorted_unique(a.sort_by(pp_desc()), b.sort_by(pp_desc()), pp_desc());
}

/// Sorts centi-point values from highest to lowest.
pub fn sort_descending(pps: &Vec<u32>) -> (r: Vec<u32>)
    ensures
        r@ == pps@.sort_by(pp_desc()),
{
    broadcast use group_to_multiset_ensures;

    let mut out: Vec<u32> = Vec::new();
    let mut k: usize = 0;
    while k < pps.len()
        invariant
            k <= pps@.len(),
            sorted_by(out@, pp_desc()),
            out@.to_multiset() == pps@.subrange(0, k as int).to_multiset(),
        decreases pps@.len() - k,
    {
        let x = pps[k];
        let mut p: usize = 0;
        while p < out.len() && out[p] >= x
            invariant
                p <= out@.len(),
                forall|j: int| 0 <= j < p ==> out@[j] >= x,
            decreases out@.len() - p,
        {
            p = p + 1;
        }
        proof {
            assert(forall|j: int| p <= j < out@.len() ==> out@[j] < x) by {
                assert forall|j: int| p <= j < out@.len() implies out@[j] < x by {
                    if j > p {
                        assert(pp_desc()(out@[p as int], out@[j]));
                    }
                }
            }
        }
        let ghost before = out@;
        out.insert(p, x);
        proof {
            assert(out@ == before.insert(p as int, x));
            assert forall|i: int, j: int| 0 <= i < j < out@.len() implies #[trigger] pp_desc()(
                out@[i],
                out@[j],
            ) by {
                if j < p {
                    assert(pp_desc()(before[i], before[j]));
                } else if i > p {
                    assert(pp_desc()(before[i - 1], before[j - 1]));
                } else if i < p && j > p {
                    assert(before[i] >= x);
                }
            }
            assert(pps@.subrange(0, k + 1) == pps@.subrange(0, k as int).push(x));
            to_multiset_insert(before, p as int, x);
            to_multiset_build(pps@.subrange(0, k as int), x);
            assert(out@.to_multiset() == before.to_multiset().insert(x));
            assert(pps@.subrange(0, k + 1).to_multiset() == pps@.subrange(
                0,
                k as int,
            ).to_multiset().insert(x));
        }
        k = k + 1;
    }
    proof {
        assert(pps@.subrange(0, pps@.len() as int) == pps@);
        lemma_pp_desc_total();
        pps@.lemma_sort_by_ensures(pp_desc());
        lemma_sorted_unique(out@, pps@.sort_by(pp_desc()), pp_desc());
    }
    out
}

/// `sum_i s[i] * 0.95^i` over scores already in descending order.
fn weighted_sum(sorted: &Vec<u32>) -> (r: u128)
    ensures
        r == weighted_total(sorted@),
        r + 20 * MAX_CENTI_PP * position_weight(sorted@.len()) <= 20 * MAX_CENTI_PP * DECAY_ONE,
{
    let mut total: u128 = 0;
    let mut w: u128 = DECAY_ONE;
    let mut i: usize = 0;
    while i < sorted.len()
        invariant
            i <= sorted@.len(),
            total == weighted_total(sorted@.subrange(0, i as int)),
            w == position_weight(i as nat),
            w <= DECAY_ONE,
            total + 20 * MAX_CENTI_PP * w <= 20 * MAX_CENTI_PP * DECAY_ONE,
        decreases sorted@.len() - i,
    {
        let c = sorted[i];
        proof {
            let prefix = sorted@.subrange(0, i + 1);
            assert(prefix.drop_last() == sorted@.subrange(0, i as int));
            lemma_weighted_total_bound(prefix);
            lemma_position_weight_bounds(i as nat);
            lemma_scaled_down(w as int, 19, 20);
            assert(c * w <= MAX_CENTI_PP * w) by (nonlinear_arith)
                requires
                    c <= MAX_CENTI_PP,
            ;
        }
        total = total + (c as u128) * w;
        w = w * 19 / 20;
        i = i + 1;
    }
    proof {
        assert(sorted@.subrange(0, sorted@.len() as int) == sorted@);
    }
    total
}

/// `0.995^n` in fixed point, for `n` capped at `SCORE_COUNT_CAP`.
fn volume_factor(score_count: u64) -> (r: u128)
    ensures
        r == volume_decay(capped_count(score_count)),
        r <= DECAY_ONE,
{
    let n: u64 = if score_count > SCORE_COUNT_CAP {
        SCORE_COUNT_CAP
    } else {
        score_count
    };
    let mut b: u128 = DECAY_ONE;
    let mut j: u64 = 0;
    while j < n
        invariant
            j <= n,
            n == capped_count(score_count),
            b == volume_decay(j as nat),
            b <= DECAY_ONE,
        decreases n - j,
    {
        proof {
            lemma_scaled_down(b as int, 199, 200);
        }
        b = b * 199 / 200;
        j = j + 1;
    }
    b
}

/// A user's total PP: the scores' centi-point values, sorted from highest to
/// lowest and weighted by `0.95^i`, plus the bonus `416.6667 * (1 - 0.995^n)`
/// for `n` eligible scores (at most `SCORE_COUNT_CAP` count), rounded to a
/// whole point.
pub fn calculate_new_pp(pps: &Vec<u32>, score_count: u64) -> (r: i32)
    ensures
        r == aggregate_pp(pps@, score_count),
        r >= 0,
{
    let sorted = sort_descending(pps);
    let total = weighted_sum(&sorted);
    let decay = volume_factor(score_count);
    proof {
        lemma_weighted_total_bound(sorted@);
        lemma_position_weight_bounds(sorted@.len());
        assert(0 <= 20 * MAX_CENTI_PP * position_weight(sorted@.len())) by (nonlinear_arith)
            requires
                0 <= position_weight(sorted@.len()),
        ;
    }
    let units: u128 = 100 * total + 4166667 * (DECAY_ONE - decay) + 5000 * DECAY_ONE;
    let denominator: u128 = 10000 * DECAY_ONE;
    proof {
        let q = units as int / denominator as int;
        lemma_fundamental_div_mod(units as int, denominator as int);
        lemma_mod_pos_bound(units as int, denominator as int);
        assert(q < 2147483647) by (nonlinear_arith)
            requires
                units == denominator * q + units % denominator,
                0 <= units % denominator,
                units <= 100 * 20 * MAX_CENTI_PP * DECAY_ONE + 4166667 * DECAY_ONE + 5000 * DECAY_ONE,
                denominator == 10000 * DECAY_ONE,
        ;
        assert(q >= 0) by (nonlinear_arith)
            requires
                units == denominator * q + units % denominator,
                units % denominator < denominator,
                denominator > 0,
                units >= 0,
        ;
    }
    (units / denominator) as i32
}

} // verus!
