use vstd::prelude::*;

verus! {

/// Scalar quality of a candidate under the objective function; lower is better.
///
/// `Worst` stands for an evaluation that produced no usable finite value
/// (for the sphere objective: a sum of squares too large for the fixed-point
/// range). It compares greater than every finite fitness and ties with
/// itself, so such a candidate sorts last in the initial ranking and never
/// becomes a leader in the update cascade.
#[derive(Clone, Copy, Debug, PartialEq, Eq, Structural)]
pub enum Fitness {
    Finite(i64),
    Worst,
}

/// Strict "better than" order on fitness values (minimization: smaller wins).
pub open spec fn fit_lt(a: Fitness, b: Fitness) -> bool {
    match (a, b) {
        (Fitness::Finite(x), Fitness::Finite(y)) => x < y,
        (Fitness::Finite(_), Fitness::Worst) => true,
        (Fitness::Worst, _) => false,
    }
}

/// Non-strict companion of `fit_lt`; the two make a total order.
pub open spec fn fit_le(a: Fitness, b: Fitness) -> bool {
    !fit_lt(b, a)
}

/// `fit_le` is transitive.
pub proof fn lemma_fit_le_trans(a: Fitness, b: Fitness, c: Fitness)
    requires
        fit_le(a, b),
        fit_le(b, c),
    ensures
        fit_le(a, c),
{
}

/// Executable comparison: `a` is strictly better (smaller) than `b`.
pub fn fitness_lt(a: Fitness, b: Fitness) -> (r: bool)
    ensures
        r == fit_lt(a, b),
{
    match (a, b) {
        (Fitness::Finite(x), Fitness::Finite(y)) => x < y,
        (Fitness::Finite(_), Fitness::Worst) => true,
        (Fitness::Worst, _) => false,
    }
}

} // verus!
