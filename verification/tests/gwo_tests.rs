use gwo::driver::fitness_evaluation_of_individual_member;
use gwo::driver::population_initialization;
use gwo::driver::run;
use gwo::driver::ConfigError;
use gwo::driver::GwoConfig;
use gwo::engine::decay;
use gwo::engine::position_update;
use gwo::fitness::Fitness;
use gwo::hierarchy::Leaders;
use gwo::objective::SphereObjective;
use gwo::rng::SeededRng;
use gwo::SCALE;

fn finite(f: Fitness) -> i64 {
    match f {
        Fitness::Finite(x) => x,
        Fitness::Worst => panic!("expected a finite fitness"),
    }
}

fn fit_le(a: Fitness, b: Fitness) -> bool {
    match (a, b) {
        (Fitness::Finite(x), Fitness::Finite(y)) => x <= y,
        (Fitness::Worst, Fitness::Finite(_)) => false,
        (_, Fitness::Worst) => true,
    }
}

fn base_config() -> GwoConfig {
    GwoConfig { seed: 6789, n: 25, t: 100, dim: 100, lb: -5_120_000, ub: 5_120_000 }
}

#[test]
fn config_rejects_unordered_bounds() {
    let mut cfg = base_config();
    cfg.lb = 5_120_000;
    cfg.ub = 5_120_000;
    let r = run(&cfg, &SphereObjective);
    assert!(matches!(r, Err(ConfigError::BoundsNotOrdered)));
}

#[test]
fn config_rejects_small_population() {
    let mut cfg = base_config();
    cfg.n = 2;
    let r = run(&cfg, &SphereObjective);
    assert!(matches!(r, Err(ConfigError::PopulationTooSmall)));
}

#[test]
fn config_rejects_zero_dimension() {
    let mut cfg = base_config();
    cfg.dim = 0;
    let r = run(&cfg, &SphereObjective);
    assert!(matches!(r, Err(ConfigError::DimensionZero)));
}

#[test]
fn config_rejects_oversized_bounds() {
    let mut cfg = base_config();
    cfg.ub = 2_000_000_000_000;
    let r = run(&cfg, &SphereObjective);
    assert!(matches!(r, Err(ConfigError::BoundsOutOfRange)));
}

#[test]
fn initial_population_within_bounds() {
    let lb: i64 = -5_120_000;
    let ub: i64 = 5_120_000;
    let mut rng = SeededRng::from_seed(42);
    let pop = population_initialization(10, 7, lb, ub, &mut rng);
    assert_eq!(pop.len(), 10);
    for row in &pop {
        assert_eq!(row.len(), 7);
        for &x in row {
            assert!(lb <= x && x < ub);
        }
    }
}

#[test]
fn different_seeds_give_different_populations() {
    let lb: i64 = -5_120_000;
    let ub: i64 = 5_120_000;
    let mut rng_a = SeededRng::from_seed(1);
    let mut rng_b = SeededRng::from_seed(2);
    let pop_a = population_initialization(5, 5, lb, ub, &mut rng_a);
    let pop_b = population_initialization(5, 5, lb, ub, &mut rng_b);
    assert_ne!(pop_a, pop_b);
}

#[test]
fn position_update_clamps_extreme_coefficients() {
    let lb: i64 = -5_120_000;
    let ub: i64 = 5_120_000;
    let current = vec![ub, lb, ub];
    let alpha = vec![ub, ub, lb];
    let beta = vec![lb, ub, ub];
    let delta = vec![ub, lb, lb];
    // Extreme A values (|A| = 2, the largest the decay schedule allows)
    // drive the unclamped candidate far outside the box.
    let next = position_update(
        &current,
        &alpha,
        &beta,
        &delta,
        2 * SCALE,
        2 * SCALE,
        -2 * SCALE,
        2 * SCALE,
        2 * SCALE,
        0,
        lb,
        ub,
    );
    assert_eq!(next.len(), 3);
    for &x in &next {
        assert!(lb <= x && x <= ub);
    }
}

#[test]
fn hierarchy_ordered_after_initialize_and_updates() {
    let pop = vec![
        vec![1_000_000, 0],
        vec![2_000_000, 0],
        vec![0, 500_000],
        vec![3_000_000, 0],
        vec![0, 0],
    ];
    let fits = vec![
        Fitness::Finite(9_000_000),
        Fitness::Finite(1_000_000),
        Fitness::Finite(7_000_000),
        Fitness::Finite(4_000_000),
        Fitness::Finite(2_000_000),
    ];
    let mut l = Leaders::initialize(&pop, &fits);
    assert_eq!(finite(l.alpha_fit), 1_000_000);
    assert_eq!(finite(l.beta_fit), 2_000_000);
    assert_eq!(finite(l.delta_fit), 4_000_000);
    assert_eq!(l.alpha_pos, vec![2_000_000, 0]);
    assert!(fit_le(l.alpha_fit, l.beta_fit) && fit_le(l.beta_fit, l.delta_fit));
    // A middling candidate lands in the beta slot; order is preserved.
    l.update(&vec![5, 5], Fitness::Finite(1_500_000));
    assert!(fit_le(l.alpha_fit, l.beta_fit) && fit_le(l.beta_fit, l.delta_fit));
    assert_eq!(finite(l.beta_fit), 1_500_000);
    // The cascade does not shift: delta is still the old third-best.
    assert_eq!(finite(l.delta_fit), 4_000_000);
    // A hopeless candidate changes nothing.
    l.update(&vec![6, 6], Fitness::Finite(8_000_000));
    assert!(fit_le(l.alpha_fit, l.beta_fit) && fit_le(l.beta_fit, l.delta_fit));
    assert_eq!(finite(l.delta_fit), 4_000_000);
}

#[test]
fn worst_fitness_sorts_last_and_never_leads() {
    let pop = vec![vec![1], vec![2], vec![3], vec![4], vec![5]];
    let fits = vec![
        Fitness::Worst,
        Fitness::Finite(5_000_000),
        Fitness::Finite(7_000_000),
        Fitness::Worst,
        Fitness::Finite(6_000_000),
    ];
    let mut l = Leaders::initialize(&pop, &fits);
    assert_eq!(finite(l.alpha_fit), 5_000_000);
    assert_eq!(finite(l.beta_fit), 6_000_000);
    assert_eq!(finite(l.delta_fit), 7_000_000);
    l.update(&vec![9], Fitness::Worst);
    assert_eq!(finite(l.alpha_fit), 5_000_000);
    assert_eq!(finite(l.beta_fit), 6_000_000);
    assert_eq!(finite(l.delta_fit), 7_000_000);
}

#[test]
fn cascade_drops_old_alpha_instead_of_demoting_it() {
    let pop = vec![vec![1], vec![2], vec![3]];
    let fits = vec![
        Fitness::Finite(1_000_000),
        Fitness::Finite(2_000_000),
        Fitness::Finite(3_000_000),
    ];
    let mut l = Leaders::initialize(&pop, &fits);
    // A candidate that beats alpha replaces it outright: the old alpha
    // value vanishes from the triple; beta and delta are untouched.
    l.update(&vec![7], Fitness::Finite(500_000));
    assert_eq!(finite(l.alpha_fit), 500_000);
    assert_eq!(l.alpha_pos, vec![7]);
    assert_eq!(finite(l.beta_fit), 2_000_000);
    assert_eq!(finite(l.delta_fit), 3_000_000);
}

#[test]
fn decay_starts_at_two_and_never_increases() {
    let t: u32 = 100;
    let mut last = decay(0, t);
    assert_eq!(last, 2 * SCALE);
    for k in 1..t {
        let a = decay(k, t);
        assert!(a <= last);
        assert!(a > 0);
        last = a;
    }
    // 2 - 2*(T-1)/T at the last iteration.
    assert_eq!(last, 2 * SCALE - 2 * SCALE * 99 / 100);
}

#[test]
fn identical_seeds_reproduce_the_run_bit_for_bit() {
    let cfg = base_config();
    let a = run(&cfg, &SphereObjective).unwrap();
    let b = run(&cfg, &SphereObjective).unwrap();
    assert_eq!(a.final_leaders.alpha_fit, b.final_leaders.alpha_fit);
    assert_eq!(a.final_leaders.alpha_pos, b.final_leaders.alpha_pos);
    assert_eq!(a.final_leaders.beta_fit, b.final_leaders.beta_fit);
    assert_eq!(a.final_leaders.delta_fit, b.final_leaders.delta_fit);
    assert_eq!(a.initial_leaders.alpha_fit, b.initial_leaders.alpha_fit);
    assert_eq!(a.alpha_history, b.alpha_history);
}

#[test]
fn end_to_end_sphere_improves_on_initial_best() {
    let cfg = base_config();
    let rep = run(&cfg, &SphereObjective).unwrap();
    let first = finite(rep.initial_leaders.alpha_fit);
    let last = finite(rep.final_leaders.alpha_fit);
    assert!(last < first);
    // The reported fitness is exactly the objective of the reported
    // position (fixed-point arithmetic is exact, no tolerance needed).
    let recomputed = fitness_evaluation_of_individual_member(
        &SphereObjective,
        &rep.final_leaders.alpha_pos,
    );
    assert_eq!(recomputed, rep.final_leaders.alpha_fit);
    // The history is alpha's fitness per iteration and never worsens.
    assert_eq!(rep.alpha_history.len(), 100);
    let mut prev = rep.initial_leaders.alpha_fit;
    for &h in &rep.alpha_history {
        assert!(fit_le(h, prev));
        prev = h;
    }
    assert_eq!(*rep.alpha_history.last().unwrap(), rep.final_leaders.alpha_fit);
}

#[test]
fn zero_iterations_leave_the_initial_hierarchy_unchanged() {
    let mut cfg = base_config();
    cfg.t = 0;
    let rep = run(&cfg, &SphereObjective).unwrap();
    assert_eq!(rep.alpha_history.len(), 0);
    assert_eq!(rep.initial_leaders.alpha_fit, rep.final_leaders.alpha_fit);
    assert_eq!(rep.initial_leaders.alpha_pos, rep.final_leaders.alpha_pos);
    assert_eq!(rep.initial_leaders.beta_fit, rep.final_leaders.beta_fit);
    assert_eq!(rep.initial_leaders.beta_pos, rep.final_leaders.beta_pos);
    assert_eq!(rep.initial_leaders.delta_fit, rep.final_leaders.delta_fit);
    assert_eq!(rep.initial_leaders.delta_pos, rep.final_leaders.delta_pos);
}

#[test]
fn sphere_objective_exact_values() {
    let obj = SphereObjective;
    // 1.0^2 + 2.0^2 = 5.0, exactly, in fixed point.
    let f = fitness_evaluation_of_individual_member(&obj, &vec![1_000_000, 2_000_000]);
    assert_eq!(f, Fitness::Finite(5_000_000));
    let zero = fitness_evaluation_of_individual_member(&obj, &vec![0, 0, 0]);
    assert_eq!(zero, Fitness::Finite(0));
    // -0.5^2 = 0.25.
    let neg = fitness_evaluation_of_individual_member(&obj, &vec![-500_000]);
    assert_eq!(neg, Fitness::Finite(250_000));
}

#[test]
fn sphere_objective_reports_overflow_as_worst() {
    let obj = SphereObjective;
    let f = fitness_evaluation_of_individual_member(&obj, &vec![3_000_000_000_000_000_000]);
    assert_eq!(f, Fitness::Worst);
}
