use vstd::prelude::*;
use vstd::arithmetic::div_mod::lemma_div_pos_is_pos;
use crate::engine::div_trunc;
use crate::fitness::Fitness;
use crate::SCALE;

verus! {

/// An objective function: the external collaborator the optimizer
/// minimizes. The optimizer treats it as an opaque, total map from a
/// position to one scalar fitness. `spec_eval` is the mathematical meaning
/// an implementation claims; `evaluate` must return exactly that, which
/// keeps a whole optimization run a function of seed and configuration
/// alone, whatever objective is plugged in.
pub trait Objective {
    /// The fitness this objective assigns to a position.
    spec fn spec_eval(&self, pos: Seq<i64>) -> Fitness;

    /// Evaluates one candidate; it never mutates the candidate.
    fn evaluate(&self, pos: &Vec<i64>) -> (r: Fitness)
        ensures
            r == self.spec_eval(pos@),
    ;
}

/// Sum of squared coordinates in fixed point: each term is `x·x / SCALE`,
/// so the total again counts units of `1 / SCALE`.
pub open spec fn sphere_sum(pos: Seq<i64>) -> int
    decreases pos.len(),
{
    if pos.len() == 0 {
        0
    } else {
        sphere_sum(pos.drop_last()) + div_trunc(pos.last() * pos.last(), SCALE as int)
    }
}

/// Each sphere term is non-negative.
proof fn lemma_sphere_term_nonneg(x: i64)
    ensures
        0 <= div_trunc((x as int) * (x as int), SCALE as int),
{
    assert(0 <= (x as int) * (x as int)) by (nonlinear_arith);
    lemma_div_pos_is_pos((x as int) * (x as int), SCALE as int);
}

/// A prefix of the sphere sum never exceeds the whole sum.
proof fn lemma_sphere_take_le(pos: Seq<i64>, i: int)
    requires
        0 <= i <= pos.len(),
    ensures
        sphere_sum(pos.take(i)) <= sphere_sum(pos),
    decreases pos.len() - i,
{
    if i == pos.len() {
        assert(pos.take(i) =~= pos);
    } else {
        assert(pos.take(i + 1).drop_last() =~= pos.take(i));
        assert(pos.take(i + 1).last() == pos[i]);
        lemma_sphere_term_nonneg(pos[i]);
        lemma_sphere_take_le(pos, i + 1);
    }
}

/// The reference objective: a convex bowl with its unique global minimum,
/// of fitness zero, at the origin. A sum too large for the finite fitness
/// range is reported as `Worst`, the fixed-point stand-in for an overflow
/// to infinity.
pub struct SphereObjective;

impl Objective for SphereObjective {
    open spec fn spec_eval(&self, pos: Seq<i64>) -> Fitness {
        if sphere_sum(pos) > i64::MAX {
            Fitness::Worst
        } else {
            Fitness::Finite(sphere_sum(pos) as i64)
        }
    }

    fn evaluate(&self, pos: &Vec<i64>) -> (r: Fitness) {
        let n: usize = pos.len();
        let mut sum: i128 = 0;
        let mut j: usize = 0;
        while j < n
            invariant
                j <= n,
                n == pos.len(),
                sum == sphere_sum(pos@.take(j as int)),
                0 <= sum <= i64::MAX,
            decreases n - j,
        {
            let xi: i128 = pos[j] as i128;
            assert(0 <= (xi as int) * (xi as int) <= 0x4000_0000_0000_0000_0000_0000_0000_0000)
                by (nonlinear_arith)
                requires
                    -0x8000_0000_0000_0000 <= xi <= 0x7fff_ffff_ffff_ffff,
            ;
            let sq: i128 = xi * xi;
            let term: i128 = ((sq as u128) / (SCALE as u128)) as i128;
            proof {
                lemma_div_pos_is_pos(sq as int, SCALE as int);
                vstd::arithmetic::div_mod::lemma_div_is_ordered(
                    sq as int,
                    0x4000_0000_0000_0000_0000_0000_0000_0000,
                    SCALE as int,
                );
                assert(pos@.take(j as int + 1).drop_last() =~= pos@.take(j as int));
                assert(pos@.take(j as int + 1).last() == pos@[j as int]);
            }
            sum = sum + term;
            if sum > i64::MAX as i128 {
                proof {
                    lemma_sphere_take_le(pos@, j as int + 1);
                }
                return Fitness::Worst;
            }
            j = j + 1;
        }
        proof {
            assert(pos@.take(n as int) =~= pos@);
        }
        Fitness::Finite(sum as i64)
    }
}

} // verus!
