use vstd::prelude::*;
use vstd::arithmetic::div_mod::lemma_div_is_ordered;
use vstd::arithmetic::div_mod::lemma_div_pos_is_pos;
use vstd::arithmetic::div_mod::lemma_div_multiples_vanish;
use vstd::arithmetic::div_mod::lemma_fundamental_div_mod;
use vstd::arithmetic::div_mod::lemma_mod_division_less_than_divisor;
use crate::MAX_ABS_COORD;
use crate::SCALE;

verus! {

/// Magnitude of an integer.
pub open spec fn abs_val(x: int) -> int {
    if x < 0 {
        -x
    } else {
        x
    }
}

/// Integer division truncating toward zero (positive divisor), as the
/// machine's signed division behaves.
pub open spec fn div_trunc(x: int, d: int) -> int
    recommends
        0 < d,
{
    if x >= 0 {
        x / d
    } else {
        -((-x) / d)
    }
}

/// A quotient is no larger in magnitude than the bound of its dividend
/// divided by the divisor.
pub proof fn lemma_div_trunc_bounded(x: int, d: int, b: int)
    requires
        0 < d,
        0 <= b,
        -(b * d) <= x <= b * d,
    ensures
        -b <= div_trunc(x, d) <= b,
{
    if x >= 0 {
        lemma_div_pos_is_pos(x, d);
        lemma_div_is_ordered(x, b * d, d);
        lemma_div_multiples_vanish(b, d);
        assert(b * d == d * b) by (nonlinear_arith);
    } else {
        lemma_div_pos_is_pos(-x, d);
        lemma_div_is_ordered(-x, b * d, d);
        lemma_div_multiples_vanish(b, d);
        assert(b * d == d * b) by (nonlinear_arith);
    }
}

/// Executable truncating division by a positive divisor.
pub fn div_fix(x: i64, d: i64) -> (r: i64)
    requires
        0 < d,
        i64::MIN < x,
    ensures
        r == div_trunc(x as int, d as int),
{
    if x >= 0 {
        proof {
            lemma_div_pos_is_pos(x as int, d as int);
            lemma_div_is_ordered(x as int, i64::MAX as int, d as int);
            lemma_div_trunc_bounded(x as int, d as int, i64::MAX as int);
        }
        ((x as u64) / (d as u64)) as i64
    } else {
        let m: u64 = ((-x) as u64) / (d as u64);
        proof {
            lemma_div_pos_is_pos(-x as int, d as int);
            lemma_div_is_ordered(-x as int, i64::MAX as int, d as int);
            lemma_div_trunc_bounded(-x as int, d as int, i64::MAX as int);
        }
        -(m as i64)
    }
}

/// The iteration-global decay parameter `a = 2 - 2·k/t` in fixed point:
/// it starts at `2` (scaled) and shrinks linearly as `k` approaches `t`.
pub open spec fn spec_decay(k: int, t: int) -> int
    recommends
        0 < t,
        0 <= k,
{
    2 * (SCALE as int) - div_trunc(2 * (SCALE as int) * k, t)
}

/// The decay parameter starts at `2` (scaled), never increases from one
/// iteration to the next, and stays strictly positive before iteration `t`.
pub proof fn lemma_decay_monotonic(t: int, i: int, j: int)
    requires
        0 < t,
        0 <= i <= j < t,
    ensures
        spec_decay(0, t) == 2 * SCALE,
        spec_decay(j, t) <= spec_decay(i, t),
        0 < spec_decay(j, t) <= 2 * SCALE,
        0 < spec_decay(i, t) <= 2 * SCALE,
{
    let s: int = SCALE as int;
    assert(2 * s * 0 == 0) by (nonlinear_arith);
    assert(div_trunc(0, t) == 0) by {
        lemma_div_pos_is_pos(0, t);
        lemma_div_is_ordered(0, 0, t);
    };
    assert(2 * s * i <= 2 * s * j) by (nonlinear_arith)
        requires
            i <= j,
            s > 0,
    ;
    assert(0 <= 2 * s * i) by (nonlinear_arith)
        requires
            0 <= i,
            s > 0,
    ;
    lemma_div_pos_is_pos(2 * s * i, t);
    lemma_div_pos_is_pos(2 * s * j, t);
    lemma_div_is_ordered(2 * s * i, 2 * s * j, t);
    let q: int = (2 * s * j) / t;
    lemma_fundamental_div_mod(2 * s * j, t);
    lemma_mod_division_less_than_divisor(2 * s * j, t);
    assert(q < 2 * s) by (nonlinear_arith)
        requires
            t * q + ((2 * s * j) % t) == 2 * s * j,
            0 <= (2 * s * j) % t,
            j <= t - 1,
            s > 0,
            t > 0,
    ;
}

/// Executable decay computation for iteration `k` of `t`.
pub fn decay(k: u32, t: u32) -> (r: i64)
    requires
        k < t,
    ensures
        r == spec_decay(k as int, t as int),
        0 < r <= 2 * SCALE,
{
    assert(0 <= 2 * (SCALE as int) * (k as int) <= 8_600_000_000_000_000) by (nonlinear_arith)
        requires
            0 <= k < 4_294_967_296,
    ;
    let num: i64 = 2 * SCALE * (k as i64);
    let q: i64 = div_fix(num, t as i64);
    proof {
        lemma_decay_monotonic(t as int, k as int, k as int);
    }
    2 * SCALE - q
}

/// The stochastic coefficient `A = 2·a·r1 - a` for one leader, from the
/// decay parameter `a` and a unit draw `r1`; it ranges over `[-a, a]`.
pub open spec fn spec_coeff_a(a: int, r1: int) -> int
    recommends
        0 <= a,
        0 <= r1 < SCALE,
{
    div_trunc(2 * a * r1, SCALE as int) - a
}

/// The stochastic coefficient `C = 2·r2` for one leader, from a unit draw.
pub open spec fn spec_coeff_c(r2: int) -> int {
    2 * r2
}

/// Executable computation of one `(A, C)` coefficient pair.
pub fn control_coefficients(a: i64, r1: i64, r2: i64) -> (r: (i64, i64))
    requires
        0 <= a <= 2 * SCALE,
        0 <= r1 < SCALE,
        0 <= r2 < SCALE,
    ensures
        r.0 == spec_coeff_a(a as int, r1 as int),
        r.1 == spec_coeff_c(r2 as int),
        -2 * SCALE <= r.0 <= 2 * SCALE,
        0 <= r.1 <= 2 * SCALE,
{
    let s: i64 = SCALE;
    assert(0 <= 2 * (a as int) * (r1 as int) <= 4_000_000_000_000) by (nonlinear_arith)
        requires
            0 <= a <= 2_000_000,
            0 <= r1 < 1_000_000,
    ;
    let num: i64 = 2 * a * r1;
    let q: i64 = div_fix(num, s);
    proof {
        lemma_div_pos_is_pos(num as int, s as int);
        assert(num as int <= 2 * (a as int) * (s as int)) by (nonlinear_arith)
            requires
                num == 2 * (a as int) * (r1 as int),
                0 <= a,
                0 <= r1 < s,
        ;
        lemma_div_is_ordered(num as int, 2 * (a as int) * (s as int), s as int);
        lemma_div_multiples_vanish(2 * (a as int), s as int);
        assert(2 * (a as int) * (s as int) == (s as int) * (2 * (a as int))) by (nonlinear_arith);
    }
    (q - a, 2 * r2)
}

/// Clamps a value into `[lb, ub]` by hard truncation.
pub open spec fn spec_clamp(x: int, lb: i64, ub: i64) -> i64
    recommends
        lb <= ub,
{
    if x < lb {
        lb
    } else if x > ub {
        ub
    } else {
        x as i64
    }
}

/// One leader's pull on one coordinate: the candidate moves from the
/// leader's coordinate by `A` times the stochastic distance
/// `|C·leader - x|`, all in fixed point.
pub open spec fn spec_pull(leader: i64, x: i64, aco: int, cco: int) -> int {
    let dist = abs_val(div_trunc(cco * leader, SCALE as int) - x);
    leader - div_trunc(aco * dist, SCALE as int)
}

/// One coordinate of the updated position: the average of the three
/// leaders' pulls, clamped into `[lb, ub]`.
pub open spec fn spec_new_coord(
    x: i64,
    ap: i64,
    bp: i64,
    dp: i64,
    a1: int,
    c1: int,
    a2: int,
    c2: int,
    a3: int,
    c3: int,
    lb: i64,
    ub: i64,
) -> i64 {
    spec_clamp(
        div_trunc(
            spec_pull(ap, x, a1, c1) + spec_pull(bp, x, a2, c2) + spec_pull(dp, x, a3, c3),
            3,
        ),
        lb,
        ub,
    )
}

/// Executable pull of one leader on one coordinate.
fn pull(leader: i64, x: i64, aco: i64, cco: i64) -> (r: i64)
    requires
        -MAX_ABS_COORD <= leader <= MAX_ABS_COORD,
        -MAX_ABS_COORD <= x <= MAX_ABS_COORD,
        -2 * SCALE <= aco <= 2 * SCALE,
        0 <= cco <= 2 * SCALE,
    ensures
        r == spec_pull(leader, x, aco as int, cco as int),
        -7_000_000_000_000 <= r <= 7_000_000_000_000,
{
    assert(-2_000_000_000_000_000_000 <= (cco as int) * (leader as int)
        <= 2_000_000_000_000_000_000) by (nonlinear_arith)
        requires
            0 <= cco <= 2_000_000,
            -1_000_000_000_000 <= leader <= 1_000_000_000_000,
    ;
    let cl: i64 = cco * leader;
    let cls: i64 = div_fix(cl, SCALE);
    proof {
        lemma_div_trunc_bounded(cl as int, SCALE as int, 2_000_000_000_000);
    }
    let dist: i64 = if cls >= x {
        cls - x
    } else {
        x - cls
    };
    assert(-6_000_000_000_000_000_000 <= (aco as int) * (dist as int)
        <= 6_000_000_000_000_000_000) by (nonlinear_arith)
        requires
            -2_000_000 <= aco <= 2_000_000,
            0 <= dist <= 3_000_000_000_000,
    ;
    let ad: i64 = aco * dist;
    let ads: i64 = div_fix(ad, SCALE);
    proof {
        lemma_div_trunc_bounded(ad as int, SCALE as int, 6_000_000_000_000);
    }
    leader - ads
}

/// Executable update of one coordinate from the three leaders' pulls.
pub fn new_coordinate(
    x: i64,
    ap: i64,
    bp: i64,
    dp: i64,
    a1: i64,
    c1: i64,
    a2: i64,
    c2: i64,
    a3: i64,
    c3: i64,
    lb: i64,
    ub: i64,
) -> (r: i64)
    requires
        -MAX_ABS_COORD <= lb < ub <= MAX_ABS_COORD,
        lb <= x <= ub,
        lb <= ap <= ub,
        lb <= bp <= ub,
        lb <= dp <= ub,
        -2 * SCALE <= a1 <= 2 * SCALE,
        -2 * SCALE <= a2 <= 2 * SCALE,
        -2 * SCALE <= a3 <= 2 * SCALE,
        0 <= c1 <= 2 * SCALE,
        0 <= c2 <= 2 * SCALE,
        0 <= c3 <= 2 * SCALE,
    ensures
        r == spec_new_coord(
            x,
            ap,
            bp,
            dp,
            a1 as int,
            c1 as int,
            a2 as int,
            c2 as int,
            a3 as int,
            c3 as int,
            lb,
            ub,
        ),
        lb <= r <= ub,
{
    let p1: i64 = pull(ap, x, a1, c1);
    let p2: i64 = pull(bp, x, a2, c2);
    let p3: i64 = pull(dp, x, a3, c3);
    let sum: i64 = p1 + p2 + p3;
    let avg: i64 = div_fix(sum, 3);
    proof {
        lemma_div_trunc_bounded(sum as int, 3, 7_000_000_000_000);
    }
    if avg < lb {
        lb
    } else if avg > ub {
        ub
    } else {
        avg
    }
}

/// The whole updated position: `spec_new_coord` applied coordinate by
/// coordinate.
pub open spec fn spec_position_update(
    x: Seq<i64>,
    ap: Seq<i64>,
    bp: Seq<i64>,
    dp: Seq<i64>,
    a1: int,
    c1: int,
    a2: int,
    c2: int,
    a3: int,
    c3: int,
    lb: i64,
    ub: i64,
) -> Seq<i64> {
    Seq::new(x.len(), |j: int| spec_new_coord(x[j], ap[j], bp[j], dp[j], a1, c1, a2, c2, a3, c3, lb, ub))
}

/// Computes a wolf's next position from its current one and the three
/// leaders' positions: per coordinate the three pulls are averaged and the
/// result clamped into `[lb, ub]`, so every coordinate of the result lies
/// within the search bounds no matter how extreme the coefficients are.
pub fn position_update(
    current: &Vec<i64>,
    alpha_pos: &Vec<i64>,
    beta_pos: &Vec<i64>,
    delta_pos: &Vec<i64>,
    a1: i64,
    c1: i64,
    a2: i64,
    c2: i64,
    a3: i64,
    c3: i64,
    lb: i64,
    ub: i64,
) -> (r: Vec<i64>)
    requires
        alpha_pos.len() == current.len(),
        beta_pos.len() == current.len(),
        delta_pos.len() == current.len(),
        -MAX_ABS_COORD <= lb < ub <= MAX_ABS_COORD,
        forall|j: int| 0 <= j < current.len() ==> lb <= #[trigger] current[j] <= ub,
        forall|j: int| 0 <= j < current.len() ==> lb <= #[trigger] alpha_pos[j] <= ub,
        forall|j: int| 0 <= j < current.len() ==> lb <= #[trigger] beta_pos[j] <= ub,
        forall|j: int| 0 <= j < current.len() ==> lb <= #[trigger] delta_pos[j] <= ub,
        -2 * SCALE <= a1 <= 2 * SCALE,
        -2 * SCALE <= a2 <= 2 * SCALE,
        -2 * SCALE <= a3 <= 2 * SCALE,
        0 <= c1 <= 2 * SCALE,
        0 <= c2 <= 2 * SCALE,
        0 <= c3 <= 2 * SCALE,
    ensures
        r.len() == current.len(),
        r@ == spec_position_update(
            current@,
            alpha_pos@,
            beta_pos@,
            delta_pos@,
            a1 as int,
            c1 as int,
            a2 as int,
            c2 as int,
            a3 as int,
            c3 as int,
            lb,
            ub,
        ),
        forall|j: int| 0 <= j < r.len() ==> lb <= #[trigger] r[j] <= ub,
{
    let ghost target = spec_position_update(
        current@,
        alpha_pos@,
        beta_pos@,
        delta_pos@,
        a1 as int,
        c1 as int,
        a2 as int,
        c2 as int,
        a3 as int,
        c3 as int,
        lb,
        ub,
    );
    let mut r: Vec<i64> = Vec::new();
    let n: usize = current.len();
    let mut j: usize = 0;
    while j < n
        invariant
            j <= n,
            n == current.len(),
            alpha_pos.len() == n,
            beta_pos.len() == n,
            delta_pos.len() == n,
            -MAX_ABS_COORD <= lb < ub <= MAX_ABS_COORD,
            forall|m: int| 0 <= m < n ==> lb <= #[trigger] current[m] <= ub,
            forall|m: int| 0 <= m < n ==> lb <= #[trigger] alpha_pos[m] <= ub,
            forall|m: int| 0 <= m < n ==> lb <= #[trigger] beta_pos[m] <= ub,
            forall|m: int| 0 <= m < n ==> lb <= #[trigger] delta_pos[m] <= ub,
            -2 * SCALE <= a1 <= 2 * SCALE,
            -2 * SCALE <= a2 <= 2 * SCALE,
            -2 * SCALE <= a3 <= 2 * SCALE,
            0 <= c1 <= 2 * SCALE,
            0 <= c2 <= 2 * SCALE,
            0 <= c3 <= 2 * SCALE,
            target == spec_position_update(
                current@,
                alpha_pos@,
                beta_pos@,
                delta_pos@,
                a1 as int,
                c1 as int,
                a2 as int,
                c2 as int,
                a3 as int,
                c3 as int,
                lb,
                ub,
            ),
            r@ == target.take(j as int),
            forall|m: int| 0 <= m < j ==> lb <= #[trigger] r[m] <= ub,
        decreases n - j,
    {
        let c = new_coordinate(
            current[j],
            alpha_pos[j],
            beta_pos[j],
            delta_pos[j],
            a1,
            c1,
            a2,
            c2,
            a3,
            c3,
            lb,
            ub,
        );
        r.push(c);
        proof {
            assert(r@ =~= target.take(j as int + 1));
        }
        j = j + 1;
    }
    proof {
        assert(r@ =~= target);
    }
    r
}

} // verus!
