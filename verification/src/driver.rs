use vstd::prelude::*;
use crate::engine::control_coefficients;
use crate::engine::decay;
use crate::engine::position_update;
use crate::engine::spec_coeff_a;
use crate::engine::spec_coeff_c;
use crate::engine::spec_decay;
use crate::engine::spec_position_update;
use crate::fitness::fit_le;
use crate::fitness::Fitness;
use crate::hierarchy::cascade;
use crate::hierarchy::initial_leaders;
use crate::hierarchy::leader_indices;
use crate::hierarchy::leaders_dim;
use crate::hierarchy::leaders_in_bounds;
use crate::hierarchy::lemma_cascade_preserves;
use crate::hierarchy::ordered;
use crate::hierarchy::pview;
use crate::hierarchy::Leaders;
use crate::hierarchy::LeadersModel;
use crate::objective::Objective;
use crate::rng::range_draw;
use crate::rng::std_rng_stream;
use crate::rng::unit_draw;
use crate::rng::SeededRng;
use crate::MAX_ABS_COORD;
use crate::SCALE;

verus! {

/// A complete run configuration.
#[derive(Clone, Copy, Debug, PartialEq, Eq, Structural)]
pub struct GwoConfig {
    /// Seed of the pseudo-random source; fixing it fixes the whole run.
    pub seed: u64,
    /// Population size; the hierarchy needs at least three ranked members.
    pub n: usize,
    /// Iteration budget; zero leaves the initial hierarchy untouched.
    pub t: u32,
    /// Search-space dimensionality.
    pub dim: usize,
    /// Lower search bound (fixed point).
    pub lb: i64,
    /// Upper search bound (fixed point).
    pub ub: i64,
}

/// Why a configuration was rejected before any population was generated.
#[derive(Clone, Copy, Debug, PartialEq, Eq, Structural)]
pub enum ConfigError {
    /// `lb >= ub`: the search box is empty or inverted.
    BoundsNotOrdered,
    /// `n < 3`: no alpha/beta/delta triple can be ranked.
    PopulationTooSmall,
    /// `dim == 0`: there is no search space.
    DimensionZero,
    /// A bound exceeds the magnitude the fixed-point arithmetic admits.
    BoundsOutOfRange,
}

/// The error a configuration is rejected with, if any; checks run in a
/// fixed order, so the reported error is pinned.
pub open spec fn spec_config_error(c: GwoConfig) -> Option<ConfigError> {
    if c.lb >= c.ub {
        Option::Some(ConfigError::BoundsNotOrdered)
    } else if c.n < 3 {
        Option::Some(ConfigError::PopulationTooSmall)
    } else if c.dim == 0 {
        Option::Some(ConfigError::DimensionZero)
    } else if c.lb < -MAX_ABS_COORD || c.ub > MAX_ABS_COORD {
        Option::Some(ConfigError::BoundsOutOfRange)
    } else {
        Option::None
    }
}

/// A configuration the optimizer accepts.
pub open spec fn valid_config(c: GwoConfig) -> bool {
    spec_config_error(c) is None
}

/// Validates a configuration; fatal on failure, so no partial run follows.
pub fn validate(c: &GwoConfig) -> (r: Result<(), ConfigError>)
    ensures
        r is Ok <==> valid_config(*c),
        r matches Err(e) ==> Option::Some(e) == spec_config_error(*c),
{
    if c.lb >= c.ub {
        Err(ConfigError::BoundsNotOrdered)
    } else if c.n < 3 {
        Err(ConfigError::PopulationTooSmall)
    } else if c.dim == 0 {
        Err(ConfigError::DimensionZero)
    } else if c.lb < -MAX_ABS_COORD || c.ub > MAX_ABS_COORD {
        Err(ConfigError::BoundsOutOfRange)
    } else {
        Ok(())
    }
}

/// Every coordinate of every member lies in `[lb, ub]`.
pub open spec fn pop_in_bounds(p: Seq<Seq<i64>>, lb: i64, ub: i64) -> bool {
    forall|i: int, j: int|
        0 <= i < p.len() && 0 <= j < p[i].len() ==> lb <= #[trigger] p[i][j] <= ub
}

/// Every member has exactly `dim` coordinates.
pub open spec fn pop_dims(p: Seq<Seq<i64>>, dim: int) -> bool {
    forall|i: int| 0 <= i < p.len() ==> #[trigger] p[i].len() == dim
}

/// The freshly drawn population: member `i`, coordinate `j` comes from
/// draw `start + i·dim + j` of the seed's stream, mapped onto `[lb, ub)`.
pub open spec fn spec_population(
    seed: u64,
    start: nat,
    n: int,
    dim: int,
    lb: i64,
    ub: i64,
) -> Seq<Seq<i64>> {
    Seq::new(
        n as nat,
        |i: int|
            Seq::new(
                dim as nat,
                |j: int| range_draw(std_rng_stream(seed, (start + i * dim + j) as nat), lb, ub),
            ),
    )
}

/// Draws `n` members of `dim` coordinates each, independently and
/// uniformly from `[lb, ub)`, in draw order: member by member, coordinate
/// by coordinate. Every coordinate lies inside the box.
pub fn population_initialization(
    n: usize,
    dim: usize,
    lb: i64,
    ub: i64,
    rng: &mut SeededRng,
) -> (r: Vec<Vec<i64>>)
    requires
        -MAX_ABS_COORD <= lb < ub <= MAX_ABS_COORD,
    ensures
        r.len() == n,
        pview(r@) == spec_population(
            old(rng).spec_seed(),
            old(rng).spec_drawn(),
            n as int,
            dim as int,
            lb,
            ub,
        ),
        pop_dims(pview(r@), dim as int),
        forall|i: int, j: int|
            0 <= i < n && 0 <= j < dim ==> lb <= #[trigger] pview(r@)[i][j] < ub,
        final(rng).spec_seed() == old(rng).spec_seed(),
        final(rng).spec_drawn() == old(rng).spec_drawn() + n * dim,
{
    let ghost seed = rng.spec_seed();
    let ghost start = rng.spec_drawn();
    let ghost target = spec_population(seed, start, n as int, dim as int, lb, ub);
    let mut r: Vec<Vec<i64>> = Vec::new();
    let mut i: usize = 0;
    while i < n
        invariant
            i <= n,
            -MAX_ABS_COORD <= lb < ub <= MAX_ABS_COORD,
            rng.spec_seed() == seed,
            rng.spec_drawn() == start + i * dim,
            r.len() == i,
            target == spec_population(seed, start, n as int, dim as int, lb, ub),
            pview(r@) == target.take(i as int),
        decreases n - i,
    {
        let mut row: Vec<i64> = Vec::new();
        let mut j: usize = 0;
        while j < dim
            invariant
                j <= dim,
                i < n,
                -MAX_ABS_COORD <= lb < ub <= MAX_ABS_COORD,
                rng.spec_seed() == seed,
                rng.spec_drawn() == start + i * dim + j,
                row.len() == j,
                target == spec_population(seed, start, n as int, dim as int, lb, ub),
                row@ == target[i as int].take(j as int),
            decreases dim - j,
        {
            let x = rng.next_in_range(lb, ub);
            row.push(x);
            proof {
                assert(target[i as int][j as int] == range_draw(
                    std_rng_stream(seed, (start + i * dim + j) as nat),
                    lb,
                    ub,
                ));
                assert(row@ =~= target[i as int].take(j as int + 1));
            }
            j = j + 1;
        }
        proof {
            assert(row@ =~= target[i as int]);
        }
        r.push(row);
        proof {
            assert(pview(r@) =~= target.take(i as int + 1));
            assert((i as int + 1) * (dim as int) == (i as int) * (dim as int) + (dim as int))
                by (nonlinear_arith);
        }
        i = i + 1;
    }
    proof {
        assert(pview(r@) =~= target);
        assert forall|a: int, b: int| 0 <= a < n && 0 <= b < dim implies lb <= #[trigger] pview(
            r@,
        )[a][b] < ub by {
            vstd::arithmetic::div_mod::lemma_mod_division_less_than_divisor(
                std_rng_stream(seed, (start + a * dim + b) as nat) as int,
                ub - lb,
            );
        };
    }
    r
}

/// The fitness of every member, in member order.
pub open spec fn spec_fitnesses<O: Objective>(obj: &O, pop: Seq<Seq<i64>>) -> Seq<Fitness> {
    Seq::new(pop.len(), |i: int| obj.spec_eval(pop[i]))
}

/// Evaluates the whole freshly generated population, one fitness per
/// member, aligned with member order; no member is mutated.
pub fn fitness_evaluation_of_initial_population<O: Objective>(
    obj: &O,
    pop: &Vec<Vec<i64>>,
) -> (r: Vec<Fitness>)
    ensures
        r.len() == pop.len(),
        r@ == spec_fitnesses(obj, pview(pop@)),
{
    let ghost target = spec_fitnesses(obj, pview(pop@));
    let mut r: Vec<Fitness> = Vec::new();
    let n: usize = pop.len();
    let mut i: usize = 0;
    while i < n
        invariant
            i <= n,
            n == pop.len(),
            target == spec_fitnesses(obj, pview(pop@)),
            r@ == target.take(i as int),
        decreases n - i,
    {
        let f = obj.evaluate(&pop[i]);
        r.push(f);
        proof {
            assert(r@ =~= target.take(i as int + 1));
        }
        i = i + 1;
    }
    proof {
        assert(r@ =~= target);
    }
    r
}

/// Evaluates exactly one candidate.
pub fn fitness_evaluation_of_individual_member<O: Objective>(obj: &O, pos: &Vec<i64>) -> (r:
    Fitness)
    ensures
        r == obj.spec_eval(pos@),
{
    obj.evaluate(pos)
}

/// The whole mutable state of a run, as the driver's model sees it:
/// population, its fitness values, the leader triple, and how many words
/// of the seed's stream have been consumed.
pub ghost struct RunState {
    pub pop: Seq<Seq<i64>>,
    pub fits: Seq<Fitness>,
    pub leaders: LeadersModel,
    pub drawn: nat,
}

/// The state right after initialization: population drawn, every member
/// evaluated, the hierarchy ranked, `n·dim` stream words consumed.
pub open spec fn init_state<O: Objective>(obj: &O, cfg: GwoConfig) -> RunState {
    let pop = spec_population(cfg.seed, 0, cfg.n as int, cfg.dim as int, cfg.lb, cfg.ub);
    let fits = spec_fitnesses(obj, pop);
    RunState {
        pop,
        fits,
        leaders: initial_leaders(pop, fits, cfg.n as int),
        drawn: (cfg.n * cfg.dim) as nat,
    }
}

/// One wolf's update under decay `a`: six fresh unit draws make the three
/// `(A, C)` pairs, the wolf moves to the averaged, clamped pull toward the
/// leaders, is re-evaluated, and the cascade sees its new fitness.
pub open spec fn step_wolf<O: Objective>(
    obj: &O,
    cfg: GwoConfig,
    a: int,
    st: RunState,
    w: int,
) -> RunState {
    let r1 = unit_draw(std_rng_stream(cfg.seed, st.drawn)) as int;
    let r2 = unit_draw(std_rng_stream(cfg.seed, st.drawn + 1)) as int;
    let r3 = unit_draw(std_rng_stream(cfg.seed, st.drawn + 2)) as int;
    let r4 = unit_draw(std_rng_stream(cfg.seed, st.drawn + 3)) as int;
    let r5 = unit_draw(std_rng_stream(cfg.seed, st.drawn + 4)) as int;
    let r6 = unit_draw(std_rng_stream(cfg.seed, st.drawn + 5)) as int;
    let newpos = spec_position_update(
        st.pop[w],
        st.leaders.alpha_pos,
        st.leaders.beta_pos,
        st.leaders.delta_pos,
        spec_coeff_a(a, r1),
        spec_coeff_c(r2),
        spec_coeff_a(a, r3),
        spec_coeff_c(r4),
        spec_coeff_a(a, r5),
        spec_coeff_c(r6),
        cfg.lb,
        cfg.ub,
    );
    let f = obj.spec_eval(newpos);
    RunState {
        pop: st.pop.update(w, newpos),
        fits: st.fits.update(w, f),
        leaders: cascade(st.leaders, newpos, f),
        drawn: st.drawn + 6,
    }
}

/// The state after the first `w` wolves of one sweep, in index order; a
/// wolf updated earlier in the sweep already moved the hierarchy that
/// later wolves see.
pub open spec fn step_wolves<O: Objective>(
    obj: &O,
    cfg: GwoConfig,
    a: int,
    st: RunState,
    w: int,
) -> RunState
    decreases w,
{
    if w <= 0 {
        st
    } else {
        step_wolf(obj, cfg, a, step_wolves(obj, cfg, a, st, w - 1), w - 1)
    }
}

/// The state after `k` complete iterations, iteration `m` sweeping all
/// wolves under decay `spec_decay(m, t)`.
pub open spec fn run_iters<O: Objective>(obj: &O, cfg: GwoConfig, st0: RunState, k: int) -> RunState
    decreases k,
{
    if k <= 0 {
        st0
    } else {
        step_wolves(
            obj,
            cfg,
            spec_decay(k - 1, cfg.t as int),
            run_iters(obj, cfg, st0, k - 1),
            cfg.n as int,
        )
    }
}

/// What a finished run reports.
pub struct GwoReport {
    /// The hierarchy right after initialization.
    pub initial_leaders: Leaders,
    /// The hierarchy after the full iteration budget.
    pub final_leaders: Leaders,
    /// Alpha's fitness at the end of each iteration, in iteration order.
    pub alpha_history: Vec<Fitness>,
}

/// Runs the whole optimization: draws the population, ranks it, then for
/// exactly `t` iterations sweeps every wolf in index order under the
/// decaying control parameter. The result is pinned to the mathematical
/// model of the run, so two runs with the same seed and configuration
/// return equal reports; alpha's fitness never worsens; the final triple
/// is ordered and stays inside the box; `t == 0` reports the initial
/// hierarchy unchanged.
pub fn run<O: Objective>(cfg: &GwoConfig, obj: &O) -> (r: Result<GwoReport, ConfigError>)
    ensures
        r is Ok <==> valid_config(*cfg),
        r matches Err(e) ==> Option::Some(e) == spec_config_error(*cfg),
        r matches Ok(rep) ==> {
            &&& rep.initial_leaders@ == init_state(obj, *cfg).leaders
            &&& rep.final_leaders@ == run_iters(
                obj,
                *cfg,
                init_state(obj, *cfg),
                cfg.t as int,
            ).leaders
            &&& rep.alpha_history@.len() == cfg.t
            &&& forall|m: int|
                0 <= m < cfg.t ==> #[trigger] rep.alpha_history@[m] == run_iters(
                    obj,
                    *cfg,
                    init_state(obj, *cfg),
                    m + 1,
                ).leaders.alpha_fit
            &&& ordered(rep.initial_leaders@)
            &&& ordered(rep.final_leaders@)
            &&& fit_le(rep.final_leaders@.alpha_fit, rep.initial_leaders@.alpha_fit)
            &&& forall|m: int|
                1 <= m < cfg.t ==> fit_le(
                    #[trigger] rep.alpha_history@[m],
                    rep.alpha_history@[m - 1],
                )
            &&& cfg.t > 0 ==> fit_le(rep.alpha_history@[0], rep.initial_leaders@.alpha_fit)
            &&& leaders_dim(rep.final_leaders@, cfg.dim as int)
            &&& leaders_in_bounds(rep.final_leaders@, cfg.lb, cfg.ub)
            &&& cfg.t == 0 ==> rep.final_leaders@ == rep.initial_leaders@
        },
{
    match validate(cfg) {
        Err(e) => {
            return Err(e);
        },
        Ok(()) => {},
    }
    let ghost st0 = init_state(obj, *cfg);
    let mut rng = SeededRng::from_seed(cfg.seed);
    let mut pop = population_initialization(cfg.n, cfg.dim, cfg.lb, cfg.ub, &mut rng);
    let mut fits = fitness_evaluation_of_initial_population(obj, &pop);
    let mut leaders = Leaders::initialize(&pop, &fits);
    proof {
        assert(pview(pop@) == st0.pop);
        assert(fits@ == st0.fits);
        assert(leaders@ == st0.leaders);
        let (ia, ib, id) = choose|ia: int, ib: int, id: int|
            leader_indices(pview(pop@), fits@, leaders@, ia, ib, id);
        assert(leader_indices(pview(pop@), fits@, leaders@, ia, ib, id));
    }
    let initial = leaders.duplicate();
    let mut history: Vec<Fitness> = Vec::new();
    let mut k: u32 = 0;
    while k < cfg.t
        invariant
            k <= cfg.t,
            valid_config(*cfg),
            st0 == init_state(obj, *cfg),
            rng.spec_seed() == cfg.seed,
            pop.len() == cfg.n,
            fits.len() == cfg.n,
            pview(pop@) == run_iters(obj, *cfg, st0, k as int).pop,
            fits@ == run_iters(obj, *cfg, st0, k as int).fits,
            leaders@ == run_iters(obj, *cfg, st0, k as int).leaders,
            rng.spec_drawn() == run_iters(obj, *cfg, st0, k as int).drawn,
            pop_dims(pview(pop@), cfg.dim as int),
            pop_in_bounds(pview(pop@), cfg.lb, cfg.ub),
            leaders_dim(leaders@, cfg.dim as int),
            leaders_in_bounds(leaders@, cfg.lb, cfg.ub),
            ordered(leaders@),
            initial@ == st0.leaders,
            fit_le(leaders@.alpha_fit, initial@.alpha_fit),
            history@.len() == k,
            forall|m: int|
                0 <= m < k ==> #[trigger] history@[m] == run_iters(
                    obj,
                    *cfg,
                    st0,
                    m + 1,
                ).leaders.alpha_fit,
            forall|m: int| 1 <= m < k ==> fit_le(#[trigger] history@[m], history@[m - 1]),
            k > 0 ==> fit_le(leaders@.alpha_fit, history@[k - 1]),
            k > 0 ==> fit_le(history@[0], st0.leaders.alpha_fit),
        decreases cfg.t - k,
    {
        let a = decay(k, cfg.t);
        let ghost st_iter = run_iters(obj, *cfg, st0, k as int);
        let mut w: usize = 0;
        while w < cfg.n
            invariant
                w <= cfg.n,
                k < cfg.t,
                valid_config(*cfg),
                st0 == init_state(obj, *cfg),
                st_iter == run_iters(obj, *cfg, st0, k as int),
                a == spec_decay(k as int, cfg.t as int),
                0 < a <= 2 * SCALE,
                rng.spec_seed() == cfg.seed,
                pop.len() == cfg.n,
                fits.len() == cfg.n,
                pview(pop@) == step_wolves(obj, *cfg, a as int, st_iter, w as int).pop,
                fits@ == step_wolves(obj, *cfg, a as int, st_iter, w as int).fits,
                leaders@ == step_wolves(obj, *cfg, a as int, st_iter, w as int).leaders,
                rng.spec_drawn() == step_wolves(obj, *cfg, a as int, st_iter, w as int).drawn,
                pop_dims(pview(pop@), cfg.dim as int),
                pop_in_bounds(pview(pop@), cfg.lb, cfg.ub),
                leaders_dim(leaders@, cfg.dim as int),
                leaders_in_bounds(leaders@, cfg.lb, cfg.ub),
                ordered(leaders@),
                initial@ == st0.leaders,
                fit_le(leaders@.alpha_fit, initial@.alpha_fit),
                fit_le(leaders@.alpha_fit, st_iter.leaders.alpha_fit),
            decreases cfg.n - w,
        {
            let ghost prev = step_wolves(obj, *cfg, a as int, st_iter, w as int);
            let ghost old_alpha = leaders@.alpha_fit;
            let r1 = rng.next_unit();
            let r2 = rng.next_unit();
            let (a1, c1) = control_coefficients(a, r1, r2);
            let r3 = rng.next_unit();
            let r4 = rng.next_unit();
            let (a2, c2) = control_coefficients(a, r3, r4);
            let r5 = rng.next_unit();
            let r6 = rng.next_unit();
            let (a3, c3) = control_coefficients(a, r5, r6);
            let newpos = position_update(
                &pop[w],
                &leaders.alpha_pos,
                &leaders.beta_pos,
                &leaders.delta_pos,
                a1,
                c1,
                a2,
                c2,
                a3,
                c3,
                cfg.lb,
                cfg.ub,
            );
            let f = fitness_evaluation_of_individual_member(obj, &newpos);
            proof {
                assert(pview(pop@)[w as int] == pop[w as int]@);
                lemma_cascade_preserves(
                    leaders@,
                    newpos@,
                    f,
                    cfg.dim as int,
                    cfg.lb,
                    cfg.ub,
                );
            }
            pop.set(w, newpos);
            fits.set(w, f);
            leaders.update(&pop[w], f);
            proof {
                let next = step_wolf(obj, *cfg, a as int, prev, w as int);
                assert(pview(pop@) =~= next.pop);
                assert(fits@ =~= next.fits);
                assert(leaders@ == next.leaders);
                assert(step_wolves(obj, *cfg, a as int, st_iter, w as int + 1) == next);
                crate::fitness::lemma_fit_le_trans(
                    leaders@.alpha_fit,
                    old_alpha,
                    initial@.alpha_fit,
                );
                crate::fitness::lemma_fit_le_trans(
                    leaders@.alpha_fit,
                    old_alpha,
                    st_iter.leaders.alpha_fit,
                );
                assert forall|x: int, y: int|
                    0 <= x < pop.len() && 0 <= y < pview(pop@)[x].len() implies cfg.lb
                    <= #[trigger] pview(pop@)[x][y] <= cfg.ub by {
                    if x != w as int {
                        assert(pview(pop@)[x] == prev.pop[x]);
                    }
                };
            }
            w = w + 1;
        }
        history.push(leaders.alpha_fit);
        proof {
            assert(run_iters(obj, *cfg, st0, k as int + 1) == step_wolves(
                obj,
                *cfg,
                spec_decay(k as int, cfg.t as int),
                st_iter,
                cfg.n as int,
            ));
        }
        k = k + 1;
    }
    proof {
        if cfg.t == 0 {
            assert(run_iters(obj, *cfg, st0, 0) == st0);
        }
    }
    Ok(GwoReport { initial_leaders: initial, final_leaders: leaders, alpha_history: history })
}

} // verus!
