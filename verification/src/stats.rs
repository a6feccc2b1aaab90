use crate::drop::{lemma_weight_prefix_mono, total_weight, weight_prefix, DropConfig, Item};
use crate::error::McSimError;
use vstd::arithmetic::div_mod::{
    lemma_div_by_multiple, lemma_div_is_ordered, lemma_div_pos_is_pos,
    lemma_fundamental_div_mod, lemma_mod_division_less_than_divisor,
};
use vstd::prelude::*;

verus! {

/// The fixed-point scale of the expected-attempts computation: results
/// carry this many units per whole attempt.
pub const ATTEMPTS_SCALE: u64 = 0x1_0000_0000;

/// The index of the first entry for `item` in the drop list at or after
/// position `i`; the list's length when there is none.
pub open spec fn find_from(list: Seq<DropConfig>, item: Item, i: int) -> int
    decreases list.len() - i,
{
    if i < 0 || i >= list.len() {
        list.len() as int
    } else if list[i].item == item {
        i
    } else {
        find_from(list, item, i + 1)
    }
}

/// Whether the drop list has an entry for the item at all.
pub open spec fn has_item(list: Seq<DropConfig>, item: Item) -> bool {
    find_from(list, item, 0) < list.len()
}

/// The first entry for the item in the drop list. The probability and
/// average helpers assume the list holds the item only once, so the
/// first entry is the entry.
pub open spec fn find_entry(list: Seq<DropConfig>, item: Item) -> DropConfig {
    list[find_from(list, item, 0)]
}

/// The scan never lands before where it started.
proof fn lemma_find_from_ge(list: Seq<DropConfig>, item: Item, i: int)
    requires
        0 <= i <= list.len(),
    ensures
        find_from(list, item, i) >= i,
    decreases list.len() - i,
{
    if i < list.len() && list[i].item != item {
        lemma_find_from_ge(list, item, i + 1);
    }
}

/// The parameters of a negative binomial distribution, held exactly:
/// the shape is `shape_num / shape_den` and the success probability is
/// `p_num / p_den`.
#[derive(Debug, Clone, Copy, PartialEq, Eq, Structural)]
pub struct NegBinomialParams {
    pub shape_num: u128,
    pub shape_den: u128,
    pub p_num: u64,
    pub p_den: u64,
}

/// One summand of the expected-attempts recurrence: the sum, for `k`
/// from its given start up to `max`, of the expected attempts still
/// needed once a draw yielded `k`.
pub open spec fn ea_sum(min: int, max: int, t: int, k: int) -> int
    decreases t, 0int, max + 1 - k,
{
    if k < 1 || k > max {
        0
    } else {
        (if t - k >= 1 {
            ea_fp(min, max, t - k)
        } else {
            0
        }) + ea_sum(min, max, t, k + 1)
    }
}

/// The expected number of uniform draws from `[min, max]` whose running
/// sum first reaches `t`, in fixed point with `ATTEMPTS_SCALE` units
/// per attempt and the division rounded toward zero:
/// zero when `t <= 0`, and otherwise one attempt plus the average of
/// the expectations left after one draw.
pub open spec fn ea_fp(min: int, max: int, t: int) -> int
    decreases t, 1int, 0int,
{
    if t <= 0 || min < 1 || max < min {
        0
    } else {
        ATTEMPTS_SCALE + ea_sum(min, max, t, min) / (max - min + 1)
    }
}

/// The largest value the expectation for target `t` can take: each draw
/// adds at least one to the running sum, so at most `t` draws are left,
/// and each level of the recurrence rounds at most one unit away.
pub open spec fn ea_cap(t: int) -> int {
    if t <= 0 {
        0
    } else {
        t * (ATTEMPTS_SCALE + 1)
    }
}

/// The recurrence's summand stays within `max + 1 - k` caps for the
/// next smaller target.
proof fn lemma_ea_sum_bound(min: int, max: int, t: int, k: int)
    requires
        1 <= min <= max,
        min <= k <= max + 1,
    ensures
        0 <= ea_sum(min, max, t, k),
        ea_sum(min, max, t, k) <= (max + 1 - k) * ea_cap(t - 1),
    decreases t, 0int, max + 1 - k,
{
    if k > max {
    } else {
        lemma_ea_sum_bound(min, max, t, k + 1);
        let term = if t - k >= 1 { ea_fp(min, max, t - k) } else { 0 };
        if t - k >= 1 {
            lemma_ea_fp_bound(min, max, t - k);
        }
        assert(0 <= term <= ea_cap(t - 1));
        assert((max + 1 - k) * ea_cap(t - 1) == (max - k) * ea_cap(t - 1) + ea_cap(t - 1))
            by (nonlinear_arith);
    }
}

/// The expectation is non-negative and at most its cap.
pub proof fn lemma_ea_fp_bound(min: int, max: int, t: int)
    requires
        1 <= min <= max,
    ensures
        0 <= ea_fp(min, max, t),
        ea_fp(min, max, t) <= ea_cap(t),
    decreases t, 1int, 0int,
{
    if t <= 0 {
    } else {
        let n = max - min + 1;
        let s = ea_sum(min, max, t, min);
        lemma_ea_sum_bound(min, max, t, min);
        assert(s <= n * ea_cap(t - 1));
        lemma_div_pos_is_pos(s, n);
        lemma_div_is_ordered(s, n * ea_cap(t - 1), n);
        lemma_div_by_multiple(ea_cap(t - 1), n);
        assert(n * ea_cap(t - 1) == ea_cap(t - 1) * n) by (nonlinear_arith);
        assert(s / n <= ea_cap(t - 1));
        assert(ea_cap(t) == ea_cap(t - 1) + ATTEMPTS_SCALE + 1);
    }
}

/// Once the remaining target is within reach of any single draw, the
/// whole tail of the recurrence vanishes.
proof fn lemma_ea_sum_past_target(min: int, max: int, t: int, k: int)
    requires
        t <= k,
    ensures
        ea_sum(min, max, t, k) == 0,
    decreases t, 0int, max + 1 - k,
{
    if k < 1 || k > max {
    } else {
        lemma_ea_sum_past_target(min, max, t, k + 1);
    }
}

/// One draw always suffices when the target is within every draw's
/// reach: for `1 <= t <= min` the expectation is exactly one attempt.
pub proof fn lemma_attempts_one_draw(min: int, max: int, t: int)
    requires
        1 <= min <= max,
        1 <= t <= min,
    ensures
        ea_fp(min, max, t) == ATTEMPTS_SCALE,
{
    lemma_ea_sum_past_target(min, max, t, min);
    let n = max - min + 1;
    assert(0int / n == 0) by {
        vstd::arithmetic::div_mod::lemma_div_of0(n);
    }
}

/// The expectation never shrinks as the target grows: more to collect
/// can only mean more draws, summand by summand.
proof fn lemma_ea_sum_mono_target(min: int, max: int, t1: int, t2: int, k: int)
    requires
        1 <= min <= max,
        t1 <= t2,
    ensures
        ea_sum(min, max, t1, k) <= ea_sum(min, max, t2, k),
    decreases t2, 0int, max + 1 - k,
{
    if k < 1 || k > max {
    } else {
        lemma_ea_sum_mono_target(min, max, t1, t2, k + 1);
        if t1 - k >= 1 {
            lemma_ea_mono_target(min, max, t1 - k, t2 - k);
        } else if t2 - k >= 1 {
            lemma_ea_fp_bound(min, max, t2 - k);
        }
    }
}

/// More target, no fewer expected draws: the expectation is monotone
/// in the target.
pub proof fn lemma_ea_mono_target(min: int, max: int, t1: int, t2: int)
    requires
        1 <= min <= max,
        t1 <= t2,
    ensures
        ea_fp(min, max, t1) <= ea_fp(min, max, t2),
    decreases t2, 1int, 0int,
{
    if t1 <= 0 {
        lemma_ea_fp_bound(min, max, t2);
    } else {
        let n = max - min + 1;
        lemma_ea_sum_mono_target(min, max, t1, t2, min);
        lemma_ea_sum_bound(min, max, t1, min);
        lemma_div_is_ordered(ea_sum(min, max, t1, min), ea_sum(min, max, t2, min), n);
    }
}

/// The `e`-th power of `n`.
pub open spec fn pow_int(n: int, e: int) -> int
    decreases e,
{
    if e <= 0 {
        1
    } else {
        n * pow_int(n, e - 1)
    }
}

/// Powers of a positive base are positive.
proof fn lemma_pow_int_pos(n: int, e: int)
    requires
        n >= 1,
    ensures
        pow_int(n, e) >= 1,
    decreases e,
{
    if e > 0 {
        lemma_pow_int_pos(n, e - 1);
        assert(n * pow_int(n, e - 1) >= 1) by (nonlinear_arith)
            requires
                n >= 1,
                pow_int(n, e - 1) >= 1,
        ;
    }
}

/// A power splits over a sum of exponents.
proof fn lemma_pow_int_split(n: int, a: int, b: int)
    requires
        a >= 0,
        b >= 0,
    ensures
        pow_int(n, a + b) == pow_int(n, a) * pow_int(n, b),
    decreases a,
{
    if a == 0 {
    } else {
        lemma_pow_int_split(n, a - 1, b);
        assert(n * pow_int(n, a - 1 + b) == (n * pow_int(n, a - 1)) * pow_int(n, b))
            by (nonlinear_arith)
            requires
                pow_int(n, a - 1 + b) == pow_int(n, a - 1) * pow_int(n, b),
        ;
    }
}

/// One summand of the exact recurrence, over the common denominator
/// `n^(t-1)`: the sum, for `k` from its given start up to `max`, of
/// `ea_exact_num(t - k) * n^(k-1)`.
pub open spec fn ea_exact_sum(min: int, max: int, t: int, k: int) -> int
    decreases t, 0int, max + 1 - k,
{
    if k < 1 || k > max {
        0
    } else {
        (if t - k >= 1 {
            ea_exact_num(min, max, t - k) * pow_int(max - min + 1, k - 1)
        } else {
            0
        }) + ea_exact_sum(min, max, t, k + 1)
    }
}

/// The numerator of the exact, unrounded expectation over the common
/// denominator `n^t`, where `n = max - min + 1`: the real number
/// `ea_exact_num(min, max, t) / n^t` satisfies the recurrence
/// `E(t) = 1 + (1/n) * (E(t-min) + ... + E(t-max))`, with `E(t) = 0`
/// for `t <= 0`, exactly and without any rounding.
pub open spec fn ea_exact_num(min: int, max: int, t: int) -> int
    decreases t, 1int, 0int,
{
    if t <= 0 || min < 1 || max < min {
        0
    } else {
        pow_int(max - min + 1, t) + ea_exact_sum(min, max, t, min)
    }
}

/// The summands' combined rounding drift: over the denominator
/// `n^(t-1)`, the fixed-point summand differs from the exact one by at
/// most `t - 1` units for each of its `max + 1 - k` terms.
proof fn lemma_ea_exact_sum_err(min: int, max: int, t: int, k: int)
    requires
        1 <= min <= max,
        min <= k <= max + 1,
        1 <= t,
    ensures
        ea_sum(min, max, t, k) * pow_int(max - min + 1, t - 1) - ATTEMPTS_SCALE * ea_exact_sum(
            min,
            max,
            t,
            k,
        ) <= (max + 1 - k) * ((t - 1) * pow_int(max - min + 1, t - 1)),
        ATTEMPTS_SCALE * ea_exact_sum(min, max, t, k) - ea_sum(min, max, t, k) * pow_int(
            max - min + 1,
            t - 1,
        ) <= (max + 1 - k) * ((t - 1) * pow_int(max - min + 1, t - 1)),
    decreases t, 0int, max + 1 - k,
{
    let n = max - min + 1;
    let p = pow_int(n, t - 1);
    lemma_pow_int_pos(n, t - 1);
    if k > max {
    } else {
        lemma_ea_exact_sum_err(min, max, t, k + 1);
        let e_term: int = if t - k >= 1 { ea_fp(min, max, t - k) } else { 0 };
        let x_term: int = if t - k >= 1 { ea_exact_num(min, max, t - k) * pow_int(n, k - 1) } else { 0 };
        if t - k >= 1 {
            lemma_ea_exact_err(min, max, t - k);
            lemma_pow_int_pos(n, t - k);
            lemma_pow_int_pos(n, k - 1);
            lemma_pow_int_split(n, t - k, k - 1);
            assert(pow_int(n, t - 1) == pow_int(n, t - k) * pow_int(n, k - 1));
            let d = ea_fp(min, max, t - k) * pow_int(n, t - k) - ATTEMPTS_SCALE * ea_exact_num(
                min,
                max,
                t - k,
            );
            assert(e_term * p - ATTEMPTS_SCALE * x_term == d * pow_int(n, k - 1))
                by (nonlinear_arith)
                requires
                    p == pow_int(n, t - k) * pow_int(n, k - 1),
                    e_term == ea_fp(min, max, t - k),
                    x_term == ea_exact_num(min, max, t - k) * pow_int(n, k - 1),
                    d == ea_fp(min, max, t - k) * pow_int(n, t - k) - ATTEMPTS_SCALE
                        * ea_exact_num(min, max, t - k),
            ;
            assert(d * pow_int(n, k - 1) <= ((t - k) * pow_int(n, t - k)) * pow_int(n, k - 1)
                && -(((t - k) * pow_int(n, t - k)) * pow_int(n, k - 1)) <= d * pow_int(n, k - 1))
                by (nonlinear_arith)
                requires
                    d <= (t - k) * pow_int(n, t - k),
                    -((t - k) * pow_int(n, t - k)) <= d,
                    pow_int(n, k - 1) >= 1,
            ;
            assert(((t - k) * pow_int(n, t - k)) * pow_int(n, k - 1) == (t - k) * p)
                by (nonlinear_arith)
                requires
                    p == pow_int(n, t - k) * pow_int(n, k - 1),
            ;
            assert((t - k) * p <= (t - 1) * p) by (nonlinear_arith)
                requires
                    k >= 1,
                    p >= 1,
            ;
            assert(-((t - 1) * p) <= -((t - k) * p)) by (nonlinear_arith)
                requires
                    k >= 1,
                    p >= 1,
            ;
        }
        assert(ea_sum(min, max, t, k) * p == e_term * p + ea_sum(min, max, t, k + 1) * p)
            by (nonlinear_arith)
            requires
                ea_sum(min, max, t, k) == e_term + ea_sum(min, max, t, k + 1),
        ;
        assert((max + 1 - k) * ((t - 1) * p) == (t - 1) * p + (max - k) * ((t - 1) * p))
            by (nonlinear_arith);
        assert((t - 1) * p >= 0) by (nonlinear_arith)
            requires
                t >= 1,
                p >= 1,
        ;
    }
}

/// The fixed-point expectation tracks the exact recurrence: over the
/// denominator `n^t` it differs from `ATTEMPTS_SCALE` times the exact
/// expectation by at most `t` fixed-point units - one unit of rounding
/// for each level of the recurrence. In other words,
/// `|attempts_to_reach_target(min, max, t) / ATTEMPTS_SCALE - E(t)|`
/// is at most `t / ATTEMPTS_SCALE`.
pub proof fn lemma_ea_exact_err(min: int, max: int, t: int)
    requires
        1 <= min <= max,
        0 <= t,
    ensures
        ea_fp(min, max, t) * pow_int(max - min + 1, t) - ATTEMPTS_SCALE * ea_exact_num(
            min,
            max,
            t,
        ) <= t * pow_int(max - min + 1, t),
        ATTEMPTS_SCALE * ea_exact_num(min, max, t) - ea_fp(min, max, t) * pow_int(
            max - min + 1,
            t,
        ) <= t * pow_int(max - min + 1, t),
    decreases t, 1int, 0int,
{
    let n = max - min + 1;
    if t == 0 {
    } else {
        let p = pow_int(n, t - 1);
        let s = ea_sum(min, max, t, min);
        let x = ea_exact_sum(min, max, t, min);
        let q = s / n;
        let r = s % n;
        lemma_pow_int_pos(n, t - 1);
        lemma_ea_sum_bound(min, max, t, min);
        lemma_fundamental_div_mod(s, n);
        lemma_mod_division_less_than_divisor(s, n);
        lemma_ea_exact_sum_err(min, max, t, min);
        assert(pow_int(n, t) == n * p);
        // The drift of this level: the scaled remainder plus the
        // summands' combined drift.
        assert(ea_fp(min, max, t) * pow_int(n, t) - ATTEMPTS_SCALE * ea_exact_num(min, max, t)
            == (s * p - ATTEMPTS_SCALE * x) - r * p) by (nonlinear_arith)
            requires
                ea_fp(min, max, t) == ATTEMPTS_SCALE + q,
                ea_exact_num(min, max, t) == pow_int(n, t) + x,
                pow_int(n, t) == n * p,
                s == n * q + r,
        ;
        assert(s * p - ATTEMPTS_SCALE * x <= n * ((t - 1) * p)
            && -(n * ((t - 1) * p)) <= s * p - ATTEMPTS_SCALE * x) by {
            assert(max + 1 - min == n);
        }
        assert(0 <= r * p && r * p <= (n - 1) * p) by (nonlinear_arith)
            requires
                0 <= r <= n - 1,
                p >= 1,
        ;
        assert(n * ((t - 1) * p) + (n - 1) * p <= t * (n * p)) by (nonlinear_arith)
            requires
                p >= 1,
                n >= 1,
        ;
    }
}

/// Answers the question "how many dice do I need to roll to get to a
/// target"? Returns the expectation in fixed point: `ATTEMPTS_SCALE`
/// units per attempt, each level of the recurrence rounding its
/// division toward zero. A bottom-up table stands in for the memoized
/// recursion, so repeated targets cost nothing extra within one call
/// and the table is dropped when the call returns.
pub fn attempts_to_reach_target(min: u32, max: u32, target: u32) -> (r: u128)
    requires
        1 <= min <= max,
        target < u32::MAX,
    ensures
        r == ea_fp(min as int, max as int, target as int),
        r <= ea_cap(target as int),
{
    let n: u64 = max as u64 - min as u64 + 1;
    let mut e: Vec<u128> = Vec::new();
    e.push(0);
    let mut t: usize = 1;
    while t <= target as usize
        invariant
            1 <= min <= max,
            target < u32::MAX,
            n == max - min + 1,
            1 <= t <= target + 1,
            e@.len() == t,
            forall|j: int| 0 <= j < t ==> #[trigger] e@[j] == ea_fp(min as int, max as int, j),
            forall|j: int| 0 <= j < t ==> #[trigger] e@[j] <= ea_cap(j),
        decreases target + 1 - t,
    {
        let mut sum: u128 = 0;
        let mut k: u64 = min as u64;
        while k <= max as u64
            invariant
                1 <= min <= max,
                target < u32::MAX,
                min <= k <= max + 1,
                1 <= t <= target,
                n == max - min + 1,
                e@.len() == t,
                forall|j: int| 0 <= j < t ==> #[trigger] e@[j] == ea_fp(min as int, max as int, j),
                forall|j: int| 0 <= j < t ==> #[trigger] e@[j] <= ea_cap(j),
                ea_sum(min as int, max as int, t as int, min as int) == sum + ea_sum(
                    min as int,
                    max as int,
                    t as int,
                    k as int,
                ),
                sum <= (k - min) * ea_cap(t as int - 1),
            decreases max + 1 - k,
        {
            proof {
                lemma_cap_bounds(target as int);
                lemma_cap_mono(t as int - k, t as int - 1);
                assert((k as int - min) * ea_cap(t as int - 1) + ea_cap(t as int - 1) == (k as int
                    + 1 - min) * ea_cap(t as int - 1)) by (nonlinear_arith);
                assert((k as int + 1 - min) * ea_cap(t as int - 1) <= 0x1_0000_0000
                    * 0xFFFF_FFFF_0000_0000) by (nonlinear_arith)
                    requires
                        0 <= ea_cap(t as int - 1) <= 0xFFFF_FFFF_0000_0000,
                        0 <= k as int + 1 - min <= 0x1_0000_0000,
                ;
            }
            if (k as usize) < t {
                let idx = t - k as usize;
                sum = sum + e[idx];
            }
            k = k + 1;
        }
        proof {
            lemma_cap_bounds(target as int);
            assert((max + 1 - min) * ea_cap(t as int - 1) <= 0x1_0000_0000 * 0xFFFF_FFFF_0000_0000)
                by (nonlinear_arith)
                requires
                    0 <= ea_cap(t as int - 1) <= 0xFFFF_FFFF_0000_0000,
                    0 <= max + 1 - min <= 0x1_0000_0000,
            ;
            lemma_ea_sum_past_target_tail(min as int, max as int, t as int);
            lemma_div_pos_is_pos(sum as int, n as int);
            lemma_div_is_ordered(sum as int, (max + 1 - min) * ea_cap(t as int - 1), n as int);
            lemma_div_by_multiple(ea_cap(t as int - 1), n as int);
            assert((max + 1 - min) * ea_cap(t as int - 1) == ea_cap(t as int - 1) * (max + 1 - min))
                by (nonlinear_arith);
            assert(sum as int / (n as int) <= ea_cap(t as int - 1));
            assert(ea_cap(t as int) == ea_cap(t as int - 1) + ATTEMPTS_SCALE + 1);
        }
        let v: u128 = ATTEMPTS_SCALE as u128 + sum / n as u128;
        e.push(v);
        t = t + 1;
    }
    e[target as usize]
}

/// After the inner scan, the unprocessed tail of the recurrence is
/// empty.
proof fn lemma_ea_sum_past_target_tail(min: int, max: int, t: int)
    ensures
        ea_sum(min, max, t, max + 1) == 0,
{
}

/// The cap for any target up to the given one fits well inside the
/// machine words the table uses.
proof fn lemma_cap_bounds(target: int)
    requires
        target < u32::MAX,
    ensures
        forall|j: int| j <= target ==> #[trigger] ea_cap(j) <= 0xFFFF_FFFF_0000_0000,
        forall|j: int| #[trigger] ea_cap(j) >= 0,
{
    assert forall|j: int| j <= target implies #[trigger] ea_cap(j)
        <= 0xFFFF_FFFF_0000_0000 by {
        if j > 0 {
            assert(j * (ATTEMPTS_SCALE + 1) <= 0xFFFF_FFFE * 0x1_0000_0001) by (nonlinear_arith)
                requires
                    0 < j <= 0xFFFF_FFFE,
            ;
        }
    }
    assert forall|j: int| #[trigger] ea_cap(j) >= 0 by {
        if j > 0 {
            assert(j * (ATTEMPTS_SCALE + 1) >= 0) by (nonlinear_arith)
                requires
                    j > 0,
            ;
        }
    }
}

/// The cap only grows with the target.
proof fn lemma_cap_mono(i: int, j: int)
    requires
        i <= j,
    ensures
        ea_cap(i) <= ea_cap(j),
{
    if j > 0 {
        assert(ea_cap(i) <= ea_cap(j)) by (nonlinear_arith)
            requires
                i <= j,
                0 < j,
                ea_cap(j) == j * (ATTEMPTS_SCALE + 1),
                ea_cap(i) == if i <= 0 { 0int } else { i * (ATTEMPTS_SCALE + 1) },
        ;
    }
}

/// The weight of any single entry is part of the total.
proof fn lemma_entry_weight_le_total(list: Seq<DropConfig>, i: int)
    requires
        0 <= i < list.len(),
    ensures
        list[i].weight <= total_weight(list),
{
    lemma_weight_prefix_mono(list, 0, i);
    lemma_weight_prefix_mono(list, i + 1, list.len() as int);
}

/// The first entry for the item in the drop list.
fn find_config(drop_list: &Vec<DropConfig>, item: Item) -> (c: DropConfig)
    requires
        has_item(drop_list@, item),
    ensures
        c == find_entry(drop_list@, item),
{
    let n = drop_list.len();
    let mut i: usize = 0;
    proof {
        lemma_find_from_ge(drop_list@, item, 0);
    }
    while drop_list[i].item != item
        invariant
            has_item(drop_list@, item),
            n == drop_list@.len(),
            0 <= i <= drop_list@.len(),
            i <= find_from(drop_list@, item, 0),
            find_from(drop_list@, item, 0) == find_from(drop_list@, item, i as int),
        decreases drop_list@.len() - i,
    {
        i = i + 1;
        proof {
            lemma_find_from_ge(drop_list@, item, i as int);
        }
    }
    drop_list[i]
}

/// The total weight of the drop list.
fn total_weight_of(drop_list: &Vec<DropConfig>) -> (w: u64)
    requires
        total_weight(drop_list@) <= u64::MAX,
    ensures
        w == total_weight(drop_list@),
{
    let mut acc: u64 = 0;
    let mut i: usize = 0;
    while i < drop_list.len()
        invariant
            total_weight(drop_list@) <= u64::MAX,
            i <= drop_list@.len(),
            acc == weight_prefix(drop_list@, i as int),
        decreases drop_list@.len() - i,
    {
        proof {
            lemma_weight_prefix_mono(drop_list@, i as int + 1, drop_list@.len() as int);
        }
        acc = acc + drop_list[i].weight as u64;
        i = i + 1;
    }
    acc
}

/// Computes the probability of getting a specific item drop from a drop
/// list, as the exact ratio of the item's weight to the total weight.
/// Assumes that the drop list only has the item once in the list.
pub fn item_drop_probability(drop_list: &Vec<DropConfig>, item: Item) -> (r: (u64, u64))
    requires
        has_item(drop_list@, item),
        total_weight(drop_list@) <= u64::MAX,
    ensures
        r.0 == find_entry(drop_list@, item).weight,
        r.1 == total_weight(drop_list@),
        r.0 <= r.1,
{
    let c = find_config(drop_list, item);
    proof {
        lemma_find_from_ge(drop_list@, item, 0);
        lemma_entry_weight_le_total(drop_list@, find_from(drop_list@, item, 0));
    }
    (c.weight as u64, total_weight_of(drop_list))
}

/// Computes the mean number of items dropped for a given item on a drop
/// list, as the exact ratio `(min + max) / 2`. Assumes that the drop
/// list only has the item once in the list.
pub fn item_drop_average(drop_list: &Vec<DropConfig>, item: Item) -> (r: (u64, u64))
    requires
        has_item(drop_list@, item),
    ensures
        r.0 == find_entry(drop_list@, item).min_count + find_entry(drop_list@, item).max_count,
        r.1 == 2,
{
    let c = find_config(drop_list, item);
    (c.min_count as u64 + c.max_count as u64, 2)
}

/// Provides the minimum and maximum amount that a drop of an item could
/// provide from a drop list. Assumes that the drop list only has the
/// item once in the list.
pub fn item_drop_range(drop_list: &Vec<DropConfig>, item: Item) -> (r: (u32, u32))
    requires
        has_item(drop_list@, item),
    ensures
        r.0 == find_entry(drop_list@, item).min_count,
        r.1 == find_entry(drop_list@, item).max_count,
{
    let c = find_config(drop_list, item);
    (c.min_count, c.max_count)
}

/// A model of the number of failed barters (trades that did not yield
/// pearls) seen while reaching the targeted number of pearls over a
/// stream: a negative binomial distribution whose shape is the expected
/// number of successful barters, scaled from the per-run expectation,
/// and whose success probability is the pearl entry's share of the
/// total weight.
#[derive(Debug, Clone, Copy, PartialEq, Eq, Structural)]
pub struct EnderPearlDistribution {
    ender_pearl_target_total: u32,
    ender_pearl_target_per_run: u32,
    distribution: NegBinomialParams,
}

impl EnderPearlDistribution {
    /// The aggregate pearl target over the whole stream.
    pub closed spec fn spec_target_total(&self) -> u32 {
        self.ender_pearl_target_total
    }

    /// The pearl target of a single run.
    pub closed spec fn spec_target_per_run(&self) -> u32 {
        self.ender_pearl_target_per_run
    }

    /// The exact parameters of the wrapped negative binomial.
    pub closed spec fn spec_distribution(&self) -> NegBinomialParams {
        self.distribution
    }

    /// Creates the distribution for the given aggregate and per-run
    /// pearl targets over the given drop list. Fails with the invalid
    /// distribution error exactly when a parameter leaves the negative
    /// binomial's domain: a zero target makes the shape non-positive,
    /// and a zero weight makes the success probability zero.
    pub fn new(
        ender_pearl_target_total: u32,
        ender_pearl_target_per_run: u32,
        drop_list: &Vec<DropConfig>,
    ) -> (r: Result<Self, McSimError>)
        requires
            has_item(drop_list@, Item::EnderPearl),
            1 <= find_entry(drop_list@, Item::EnderPearl).min_count,
            find_entry(drop_list@, Item::EnderPearl).min_count <= find_entry(
                drop_list@,
                Item::EnderPearl,
            ).max_count,
            ender_pearl_target_per_run < u32::MAX,
            total_weight(drop_list@) <= u64::MAX,
        ensures
            r is Ok <==> (ender_pearl_target_total > 0 && ender_pearl_target_per_run > 0
                && find_entry(drop_list@, Item::EnderPearl).weight > 0),
            r matches Ok(d) ==> {
                &&& d.spec_target_total() == ender_pearl_target_total
                &&& d.spec_target_per_run() == ender_pearl_target_per_run
                &&& d.spec_distribution().shape_num == ender_pearl_target_total * ea_fp(
                    find_entry(drop_list@, Item::EnderPearl).min_count as int,
                    find_entry(drop_list@, Item::EnderPearl).max_count as int,
                    ender_pearl_target_per_run as int,
                )
                &&& d.spec_distribution().shape_den == ender_pearl_target_per_run * ATTEMPTS_SCALE
                &&& d.spec_distribution().p_num == find_entry(drop_list@, Item::EnderPearl).weight
                &&& d.spec_distribution().p_den == total_weight(drop_list@)
            },
            r matches Err(e) ==> e == McSimError::InvalidDistribution,
    {
        let (p_num, p_den) = item_drop_probability(drop_list, Item::EnderPearl);
        let (range_min, range_max) = item_drop_range(drop_list, Item::EnderPearl);
        let mean_fp = attempts_to_reach_target(range_min, range_max, ender_pearl_target_per_run);
        if ender_pearl_target_total == 0 || ender_pearl_target_per_run == 0 || p_num == 0 {
            return Err(McSimError::InvalidDistribution);
        }
        proof {
            lemma_cap_bounds(ender_pearl_target_per_run as int);
            assert(ender_pearl_target_total * (mean_fp as int) <= 0xFFFF_FFFF
                * 0xFFFF_FFFF_0000_0000) by (nonlinear_arith)
                requires
                    0 <= ender_pearl_target_total <= 0xFFFF_FFFF,
                    0 <= mean_fp <= 0xFFFF_FFFF_0000_0000,
            ;
            assert(ender_pearl_target_per_run * (ATTEMPTS_SCALE as int) <= 0xFFFF_FFFF
                * 0x1_0000_0000) by (nonlinear_arith)
                requires
                    0 <= ender_pearl_target_per_run <= 0xFFFF_FFFF,
            ;
        }
        let shape_num = ender_pearl_target_total as u128 * mean_fp;
        let shape_den = ender_pearl_target_per_run as u128 * ATTEMPTS_SCALE as u128;
        Ok(
            Self {
                ender_pearl_target_total,
                ender_pearl_target_per_run,
                distribution: NegBinomialParams { shape_num, shape_den, p_num, p_den },
            },
        )
    }

    /// Gets the negative binomial parameters for ender pearls, for the
    /// target number of pearls in total and per run.
    pub fn distribution(&self) -> (r: &NegBinomialParams)
        ensures
            *r == self.spec_distribution(),
    {
        &self.distribution
    }

    /// The aggregate pearl target this model was built for.
    pub fn target_total(&self) -> (r: u32)
        ensures
            r == self.spec_target_total(),
    {
        self.ender_pearl_target_total
    }

    /// The per-run pearl target this model was built for.
    pub fn target_per_run(&self) -> (r: u32)
        ensures
            r == self.spec_target_per_run(),
    {
        self.ender_pearl_target_per_run
    }
}

/// A model of the number of failed blaze fights seen while reaching the
/// targeted number of rods: a negative binomial distribution whose
/// shape is the rod target itself (one rod drop is one successful
/// fight) and whose success probability is the mean rods per fight.
#[derive(Debug, Clone, Copy, PartialEq, Eq, Structural)]
pub struct BlazeRodDistribution {
    blaze_rod_target: u32,
    distribution: NegBinomialParams,
}

impl BlazeRodDistribution {
    /// The aggregate rod target over the whole stream.
    pub closed spec fn spec_target(&self) -> u32 {
        self.blaze_rod_target
    }

    /// The exact parameters of the wrapped negative binomial.
    pub closed spec fn spec_distribution(&self) -> NegBinomialParams {
        self.distribution
    }

    /// Creates the distribution for the given rod target over the given
    /// drop list. Fails with the invalid distribution error exactly
    /// when a parameter leaves the negative binomial's domain: a zero
    /// target makes the shape non-positive, and a mean outside `(0, 1]`
    /// is no probability.
    pub fn new(blaze_rod_target: u32, drop_list: &Vec<DropConfig>) -> (r: Result<
        Self,
        McSimError,
    >)
        requires
            has_item(drop_list@, Item::BlazeRod),
        ensures
            r is Ok <==> (blaze_rod_target > 0 && 0 < find_entry(drop_list@, Item::BlazeRod).min_count
                + find_entry(drop_list@, Item::BlazeRod).max_count <= 2),
            r matches Ok(d) ==> {
                &&& d.spec_target() == blaze_rod_target
                &&& d.spec_distribution() == (NegBinomialParams {
                    shape_num: blaze_rod_target as u128,
                    shape_den: 1u128,
                    p_num: (find_entry(drop_list@, Item::BlazeRod).min_count + find_entry(
                        drop_list@,
                        Item::BlazeRod,
                    ).max_count) as u64,
                    p_den: 2u64,
                })
            },
            r matches Err(e) ==> e == McSimError::InvalidDistribution,
    {
        let (avg_num, avg_den) = item_drop_average(drop_list, Item::BlazeRod);
        if blaze_rod_target == 0 || avg_num == 0 || avg_num > 2 {
            return Err(McSimError::InvalidDistribution);
        }
        Ok(
            Self {
                blaze_rod_target,
                distribution: NegBinomialParams {
                    shape_num: blaze_rod_target as u128,
                    shape_den: 1,
                    p_num: avg_num,
                    p_den: 2,
                },
            },
        )
    }

    /// Gets the negative binomial parameters for blaze rods, for the
    /// target number of rods.
    pub fn distribution(&self) -> (r: &NegBinomialParams)
        ensures
            *r == self.spec_distribution(),
    {
        &self.distribution
    }

    /// The rod target this model was built for.
    pub fn target(&self) -> (r: u32)
        ensures
            r == self.spec_target(),
    {
        self.blaze_rod_target
    }
}

} // verus!
