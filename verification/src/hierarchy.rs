use vstd::prelude::*;
use crate::fitness::fit_le;
use crate::fitness::fit_lt;
use crate::fitness::fitness_lt;
use crate::fitness::Fitness;

verus! {

/// Ghost image of the leader triple: the three best-known candidate
/// positions, each paired with its fitness.
pub ghost struct LeadersModel {
    pub alpha_pos: Seq<i64>,
    pub alpha_fit: Fitness,
    pub beta_pos: Seq<i64>,
    pub beta_fit: Fitness,
    pub delta_pos: Seq<i64>,
    pub delta_fit: Fitness,
}

/// The hierarchy invariant: alpha is no worse than beta, which is no worse
/// than delta.
pub open spec fn ordered(l: LeadersModel) -> bool {
    fit_le(l.alpha_fit, l.beta_fit) && fit_le(l.beta_fit, l.delta_fit)
}

/// All three leader positions have the given dimensionality.
pub open spec fn leaders_dim(l: LeadersModel, dim: int) -> bool {
    l.alpha_pos.len() == dim && l.beta_pos.len() == dim && l.delta_pos.len() == dim
}

/// Every coordinate of every leader position lies in `[lb, ub]`.
pub open spec fn leaders_in_bounds(l: LeadersModel, lb: i64, ub: i64) -> bool {
    &&& forall|j: int| 0 <= j < l.alpha_pos.len() ==> lb <= #[trigger] l.alpha_pos[j] <= ub
    &&& forall|j: int| 0 <= j < l.beta_pos.len() ==> lb <= #[trigger] l.beta_pos[j] <= ub
    &&& forall|j: int| 0 <= j < l.delta_pos.len() ==> lb <= #[trigger] l.delta_pos[j] <= ub
}

/// One step of the strict priority cascade: a candidate that beats alpha
/// replaces alpha outright — the old alpha leaves the triple instead of
/// being demoted to beta; likewise one tier down. A candidate no better
/// than delta changes nothing.
pub open spec fn cascade(l: LeadersModel, pos: Seq<i64>, f: Fitness) -> LeadersModel {
    if fit_lt(f, l.alpha_fit) {
        LeadersModel { alpha_pos: pos, alpha_fit: f, ..l }
    } else if fit_lt(f, l.beta_fit) {
        LeadersModel { beta_pos: pos, beta_fit: f, ..l }
    } else if fit_lt(f, l.delta_fit) {
        LeadersModel { delta_pos: pos, delta_fit: f, ..l }
    } else {
        l
    }
}

/// The cascade keeps dimensionality and box bounds intact.
pub proof fn lemma_cascade_preserves(
    l: LeadersModel,
    pos: Seq<i64>,
    f: Fitness,
    dim: int,
    lb: i64,
    ub: i64,
)
    requires
        leaders_dim(l, dim),
        leaders_in_bounds(l, lb, ub),
        pos.len() == dim,
        forall|j: int| 0 <= j < pos.len() ==> lb <= #[trigger] pos[j] <= ub,
    ensures
        leaders_dim(cascade(l, pos, f), dim),
        leaders_in_bounds(cascade(l, pos, f), lb, ub),
{
}

/// Exchanges the alpha and beta slots.
pub open spec fn swap_ab(l: LeadersModel) -> LeadersModel {
    LeadersModel {
        alpha_pos: l.beta_pos,
        alpha_fit: l.beta_fit,
        beta_pos: l.alpha_pos,
        beta_fit: l.alpha_fit,
        ..l
    }
}

/// Exchanges the beta and delta slots.
pub open spec fn swap_bd(l: LeadersModel) -> LeadersModel {
    LeadersModel {
        beta_pos: l.delta_pos,
        beta_fit: l.delta_fit,
        delta_pos: l.beta_pos,
        delta_fit: l.beta_fit,
        ..l
    }
}

/// Stable three-element sorting network: after it the triple is ordered,
/// and equal fitnesses keep their original relative order.
pub open spec fn sort3(l: LeadersModel) -> LeadersModel {
    let l1 = if fit_lt(l.beta_fit, l.alpha_fit) {
        swap_ab(l)
    } else {
        l
    };
    let l2 = if fit_lt(l1.delta_fit, l1.beta_fit) {
        swap_bd(l1)
    } else {
        l1
    };
    if fit_lt(l2.beta_fit, l2.alpha_fit) {
        swap_ab(l2)
    } else {
        l2
    }
}

/// Inserts one further ranked member into an ordered triple, shifting the
/// displaced incumbents down one tier; used only for the initial ranking
/// (the later cascade deliberately does not shift).
pub open spec fn shift_insert(l: LeadersModel, pos: Seq<i64>, f: Fitness) -> LeadersModel {
    if fit_lt(f, l.alpha_fit) {
        LeadersModel {
            alpha_pos: pos,
            alpha_fit: f,
            beta_pos: l.alpha_pos,
            beta_fit: l.alpha_fit,
            delta_pos: l.beta_pos,
            delta_fit: l.beta_fit,
        }
    } else if fit_lt(f, l.beta_fit) {
        LeadersModel {
            beta_pos: pos,
            beta_fit: f,
            delta_pos: l.beta_pos,
            delta_fit: l.beta_fit,
            ..l
        }
    } else if fit_lt(f, l.delta_fit) {
        LeadersModel { delta_pos: pos, delta_fit: f, ..l }
    } else {
        l
    }
}

/// Position sequences of a population, one per wolf.
pub open spec fn pview(p: Seq<Vec<i64>>) -> Seq<Seq<i64>> {
    p.map_values(|v: Vec<i64>| v@)
}

/// The ranked triple of the first three members.
pub open spec fn first_three(pop: Seq<Seq<i64>>, fits: Seq<Fitness>) -> LeadersModel {
    sort3(
        LeadersModel {
            alpha_pos: pop[0],
            alpha_fit: fits[0],
            beta_pos: pop[1],
            beta_fit: fits[1],
            delta_pos: pop[2],
            delta_fit: fits[2],
        },
    )
}

/// The leader triple obtained by ranking the first `m` members: the first
/// three sorted, every further member inserted in index order.
pub open spec fn initial_leaders(pop: Seq<Seq<i64>>, fits: Seq<Fitness>, m: int) -> LeadersModel
    recommends
        3 <= m,
    decreases m,
{
    if m <= 3 {
        first_three(pop, fits)
    } else {
        shift_insert(initial_leaders(pop, fits, m - 1), pop[m - 1], fits[m - 1])
    }
}

/// The triple `l` consists of members `ia`, `ib`, `id` of the population,
/// which are a best, second-best and third-best member of it.
pub open spec fn leader_indices(
    pop: Seq<Seq<i64>>,
    fits: Seq<Fitness>,
    l: LeadersModel,
    ia: int,
    ib: int,
    id: int,
) -> bool {
    &&& 0 <= ia < fits.len()
    &&& 0 <= ib < fits.len()
    &&& 0 <= id < fits.len()
    &&& ia != ib
    &&& ia != id
    &&& ib != id
    &&& l.alpha_pos == pop[ia]
    &&& l.alpha_fit == fits[ia]
    &&& l.beta_pos == pop[ib]
    &&& l.beta_fit == fits[ib]
    &&& l.delta_pos == pop[id]
    &&& l.delta_fit == fits[id]
    &&& forall|m: int| 0 <= m < fits.len() ==> fit_le(l.alpha_fit, #[trigger] fits[m])
    &&& forall|m: int| 0 <= m < fits.len() && m != ia ==> fit_le(l.beta_fit, #[trigger] fits[m])
    &&& forall|m: int|
        0 <= m < fits.len() && m != ia && m != ib ==> fit_le(l.delta_fit, #[trigger] fits[m])
}

/// The three best-known candidates (alpha, beta, delta) with their fitness
/// values. The tracker owns independent copies of the positions, so later
/// population mutation never moves a leader implicitly.
pub struct Leaders {
    pub alpha_pos: Vec<i64>,
    pub alpha_fit: Fitness,
    pub beta_pos: Vec<i64>,
    pub beta_fit: Fitness,
    pub delta_pos: Vec<i64>,
    pub delta_fit: Fitness,
}

impl View for Leaders {
    type V = LeadersModel;

    open spec fn view(&self) -> LeadersModel {
        LeadersModel {
            alpha_pos: self.alpha_pos@,
            alpha_fit: self.alpha_fit,
            beta_pos: self.beta_pos@,
            beta_fit: self.beta_fit,
            delta_pos: self.delta_pos@,
            delta_fit: self.delta_fit,
        }
    }
}

/// An owned copy of a position.
pub fn copy_position(v: &Vec<i64>) -> (r: Vec<i64>)
    ensures
        r@ == v@,
{
    let mut r: Vec<i64> = Vec::new();
    let n: usize = v.len();
    let mut j: usize = 0;
    while j < n
        invariant
            j <= n,
            n == v.len(),
            r@ == v@.take(j as int),
        decreases n - j,
    {
        r.push(v[j]);
        proof {
            assert(r@ =~= v@.take(j as int + 1));
        }
        j = j + 1;
    }
    proof {
        assert(r@ =~= v@);
    }
    r
}

fn swap_ab_exec(l: Leaders) -> (r: Leaders)
    ensures
        r@ == swap_ab(l@),
{
    Leaders {
        alpha_pos: l.beta_pos,
        alpha_fit: l.beta_fit,
        beta_pos: l.alpha_pos,
        beta_fit: l.alpha_fit,
        delta_pos: l.delta_pos,
        delta_fit: l.delta_fit,
    }
}

fn swap_bd_exec(l: Leaders) -> (r: Leaders)
    ensures
        r@ == swap_bd(l@),
{
    Leaders {
        alpha_pos: l.alpha_pos,
        alpha_fit: l.alpha_fit,
        beta_pos: l.delta_pos,
        beta_fit: l.delta_fit,
        delta_pos: l.beta_pos,
        delta_fit: l.beta_fit,
    }
}

impl Leaders {
    /// An independent copy of the whole triple.
    pub fn duplicate(&self) -> (r: Leaders)
        ensures
            r@ == self@,
    {
        Leaders {
            alpha_pos: copy_position(&self.alpha_pos),
            alpha_fit: self.alpha_fit,
            beta_pos: copy_position(&self.beta_pos),
            beta_fit: self.beta_fit,
            delta_pos: copy_position(&self.delta_pos),
            delta_fit: self.delta_fit,
        }
    }

    /// Ranks a freshly evaluated population: sorts the (index, fitness)
    /// pairs ascending — ties keep index order, `Worst` sorts last — and
    /// copies the three best members out as alpha, beta and delta.
    pub fn initialize(pop: &Vec<Vec<i64>>, fits: &Vec<Fitness>) -> (r: Leaders)
        requires
            pop.len() >= 3,
            fits.len() == pop.len(),
        ensures
            r@ == initial_leaders(pview(pop@), fits@, pop.len() as int),
            ordered(r@),
            exists|ia: int, ib: int, id: int| leader_indices(pview(pop@), fits@, r@, ia, ib, id),
            forall|m: int| 0 <= m < fits.len() ==> fit_le(r@.alpha_fit, #[trigger] fits[m]),
    {
        let ghost gpop = pview(pop@);
        let n: usize = pop.len();
        let mut l = Leaders {
            alpha_pos: copy_position(&pop[0]),
            alpha_fit: fits[0],
            beta_pos: copy_position(&pop[1]),
            beta_fit: fits[1],
            delta_pos: copy_position(&pop[2]),
            delta_fit: fits[2],
        };
        let ghost mut ia: int = 0;
        let ghost mut ib: int = 1;
        let ghost mut id: int = 2;
        if fitness_lt(l.beta_fit, l.alpha_fit) {
            l = swap_ab_exec(l);
            proof {
                let t = ia;
                ia = ib;
                ib = t;
            }
        }
        if fitness_lt(l.delta_fit, l.beta_fit) {
            l = swap_bd_exec(l);
            proof {
                let t = ib;
                ib = id;
                id = t;
            }
        }
        if fitness_lt(l.beta_fit, l.alpha_fit) {
            l = swap_ab_exec(l);
            proof {
                let t = ia;
                ia = ib;
                ib = t;
            }
        }
        proof {
            assert(l@ == first_three(gpop, fits@));
        }
        let mut i: usize = 3;
        while i < n
            invariant
                3 <= i <= n,
                n == pop.len(),
                fits.len() == n,
                gpop == pview(pop@),
                l@ == initial_leaders(gpop, fits@, i as int),
                ordered(l@),
                0 <= ia < i,
                0 <= ib < i,
                0 <= id < i,
                ia != ib,
                ia != id,
                ib != id,
                l@.alpha_pos == gpop[ia],
                l@.alpha_fit == fits[ia],
                l@.beta_pos == gpop[ib],
                l@.beta_fit == fits[ib],
                l@.delta_pos == gpop[id],
                l@.delta_fit == fits[id],
                forall|m: int| 0 <= m < i ==> fit_le(l@.alpha_fit, #[trigger] fits[m]),
                forall|m: int| 0 <= m < i && m != ia ==> fit_le(l@.beta_fit, #[trigger] fits[m]),
                forall|m: int|
                    0 <= m < i && m != ia && m != ib ==> fit_le(l@.delta_fit, #[trigger] fits[m]),
            decreases n - i,
        {
            let f = fits[i];
            if fitness_lt(f, l.alpha_fit) {
                l = Leaders {
                    alpha_pos: copy_position(&pop[i]),
                    alpha_fit: f,
                    beta_pos: l.alpha_pos,
                    beta_fit: l.alpha_fit,
                    delta_pos: l.beta_pos,
                    delta_fit: l.beta_fit,
                };
                proof {
                    id = ib;
                    ib = ia;
                    ia = i as int;
                }
            } else if fitness_lt(f, l.beta_fit) {
                l = Leaders {
                    alpha_pos: l.alpha_pos,
                    alpha_fit: l.alpha_fit,
                    beta_pos: copy_position(&pop[i]),
                    beta_fit: f,
                    delta_pos: l.beta_pos,
                    delta_fit: l.beta_fit,
                };
                proof {
                    id = ib;
                    ib = i as int;
                }
            } else if fitness_lt(f, l.delta_fit) {
                l = Leaders {
                    alpha_pos: l.alpha_pos,
                    alpha_fit: l.alpha_fit,
                    beta_pos: l.beta_pos,
                    beta_fit: l.beta_fit,
                    delta_pos: copy_position(&pop[i]),
                    delta_fit: f,
                };
                proof {
                    id = i as int;
                }
            }
            i = i + 1;
        }
        proof {
            assert(leader_indices(gpop, fits@, l@, ia, ib, id));
        }
        l
    }

    /// Applies the strict priority cascade for one freshly re-evaluated
    /// wolf. A candidate that beats alpha replaces alpha and the previous
    /// alpha is dropped from the triple entirely — beta and delta stay as
    /// they were; likewise one tier down. Alpha's fitness never worsens.
    pub fn update(&mut self, pos: &Vec<i64>, f: Fitness)
        ensures
            final(self)@ == cascade(old(self)@, pos@, f),
            ordered(old(self)@) ==> ordered(final(self)@),
            fit_le(final(self)@.alpha_fit, old(self)@.alpha_fit),
            fit_lt(f, old(self)@.alpha_fit) ==> final(self)@ == (LeadersModel {
                alpha_pos: pos@,
                alpha_fit: f,
                ..old(self)@
            }),
            !fit_lt(f, old(self)@.alpha_fit) && fit_lt(f, old(self)@.beta_fit) ==> final(self)@
                == (LeadersModel { beta_pos: pos@, beta_fit: f, ..old(self)@ }),
            !fit_lt(f, old(self)@.alpha_fit) && !fit_lt(f, old(self)@.beta_fit) && fit_lt(
                f,
                old(self)@.delta_fit,
            ) ==> final(self)@ == (LeadersModel { delta_pos: pos@, delta_fit: f, ..old(self)@ }),
            !fit_lt(f, old(self)@.alpha_fit) && !fit_lt(f, old(self)@.beta_fit) && !fit_lt(
                f,
                old(self)@.delta_fit,
            ) ==> final(self)@ == old(self)@,
    {
        if fitness_lt(f, self.alpha_fit) {
            self.alpha_fit = f;
            self.alpha_pos = copy_position(pos);
        } else if fitness_lt(f, self.beta_fit) {
            self.beta_fit = f;
            self.beta_pos = copy_position(pos);
        } else if fitness_lt(f, self.delta_fit) {
            self.delta_fit = f;
            self.delta_pos = copy_position(pos);
        }
    }
}

} // verus!
