//! Particles, the swarm, and what one iteration does to them.
//!
//! The swarm keeps, for every particle, where it is, how fast it moves and
//! the best point it has visited, and for the whole population the best point
//! any particle has visited. In an iteration the swarm settles the inertia
//! weight, asks the caller's mover for each particle's next position and
//! velocity, evaluates the objective there, and refreshes the personal and
//! global bests.

use crate::fitness::Fitness;
use crate::laws::{lemma_initial_valid, lemma_step_keeps_dimension, lemma_step_keeps_valid};
use crate::scalar::{is_nan, less, rank, spec_is_nan, spec_less};
use vstd::prelude::*;

verus! {

/// Why a swarm could not be built or advanced.
#[derive(Debug, Clone, Copy, PartialEq, Eq)]
pub enum PsoError {
    /// The population size is zero.
    EmptyPopulation,
    /// The dimension of the search space is zero.
    ZeroDimension,
    /// The vectors handed in do not match the population size or the dimension.
    Shape,
    /// The objective value of a position is a NaN.
    NotANumber,
}

/// The parameters of one iteration.
#[derive(Debug, Copy, Clone)]
pub struct Options {
    /// The inertia weight; when absent, one is drawn for each iteration.
    pub omega: Option<u64>,
    /// The cognitive coefficient.
    pub phi_1: u64,
    /// The social coefficient.
    pub phi_2: u64,
}

impl Options {
    /// `resolved` is what these options become once the inertia weight is
    /// settled: the given weight where there is one, and else one that `draw`
    /// can return; the coefficients stay.
    pub open spec fn resolves_to<D: FnOnce() -> u64>(self, draw: D, resolved: Options) -> bool {
        &&& resolved.phi_1 == self.phi_1
        &&& resolved.phi_2 == self.phi_2
        &&& match self.omega {
            Some(omega) => resolved.omega == Some(omega),
            None => resolved.omega is Some && draw.ensures((), resolved.omega->0),
        }
    }

    /// The options of one iteration with the inertia weight settled: the one
    /// given, or else `draw`, a weight drawn for this iteration.
    pub fn resolve_with(self, draw: u64) -> (r: Options)
        ensures
            r.omega == Some(
                match self.omega {
                    Some(omega) => omega,
                    None => draw,
                },
            ),
            r.phi_1 == self.phi_1,
            r.phi_2 == self.phi_2,
    {
        let omega: u64 = match self.omega {
            Some(omega) => omega,
            None => draw,
        };
        Options { omega: Some(omega), phi_1: self.phi_1, phi_2: self.phi_2 }
    }

    /// Settles the inertia weight for one iteration: the one given, or else
    /// one obtained from `draw`, which is called only in that case.
    pub fn resolve<D: FnOnce() -> u64>(self, draw: D) -> (r: Options)
        requires
            self.omega is None ==> draw.requires(()),
        ensures
            self.resolves_to(draw, r),
    {
        match self.omega {
            Some(_) => self,
            None => {
                let drawn: u64 = draw();
                self.resolve_with(drawn)
            },
        }
    }

    /// The settled inertia weight that every particle uses in this iteration.
    pub fn inertia(&self) -> (omega: u64)
        requires
            self.omega is Some,
        ensures
            self.omega == Some(omega),
    {
        self.omega.unwrap()
    }
}

/// What a particle is: three vectors of one dimension.
pub struct ParticleView {
    /// The current point in the search space.
    pub position: Seq<u64>,
    /// The best point visited so far.
    pub best: Seq<u64>,
    /// The displacement per iteration.
    pub velocity: Seq<u64>,
}

impl ParticleView {
    /// The three vectors have `dim` components each.
    pub open spec fn has_dim(self, dim: nat) -> bool {
        &&& self.position.len() == dim
        &&& self.best.len() == dim
        &&& self.velocity.len() == dim
    }
}

/// One candidate solution.
#[derive(Debug, Clone)]
pub struct Particle {
    curr_value: Vec<u64>,
    best_value: Vec<u64>,
    velocity: Vec<u64>,
}

impl View for Particle {
    type V = ParticleView;

    closed spec fn view(&self) -> ParticleView {
        ParticleView {
            position: self.curr_value@,
            best: self.best_value@,
            velocity: self.velocity@,
        }
    }
}

/// The better of an incumbent and a challenger: the challenger only where
/// its score is strictly larger, so that a tie keeps the incumbent.
pub open spec fn better<F: Fn(&Vec<u64>) -> u64>(
    fitness: Fitness<F>,
    incumbent: Seq<u64>,
    challenger: Seq<u64>,
) -> Seq<u64> {
    if spec_less(fitness.score(incumbent), fitness.score(challenger)) {
        challenger
    } else {
        incumbent
    }
}

impl Particle {
    /// A particle at `value` moving with `velocity`; its best point so far is
    /// where it starts.
    fn new(value: Vec<u64>, velocity: Vec<u64>) -> (p: Particle)
        ensures
            p@ == (ParticleView { position: value@, best: value@, velocity: velocity@ }),
    {
        let best_value: Vec<u64> = value.clone();
        Particle { curr_value: value, best_value, velocity }
    }

    /// The best point this particle has visited.
    pub fn best(&self) -> (r: &Vec<u64>)
        ensures
            r@ == self@.best,
    {
        &self.best_value
    }

    /// The current position.
    pub fn value(&self) -> (r: &Vec<u64>)
        ensures
            r@ == self@.position,
    {
        &self.curr_value
    }

    /// The current velocity.
    pub fn velocity(&self) -> (r: &Vec<u64>)
        ensures
            r@ == self@.velocity,
    {
        &self.velocity
    }

    /// Takes in the velocity computed for this iteration.
    fn update_velocity(&mut self, velocity: Vec<u64>)
        ensures
            final(self)@ == (ParticleView { velocity: velocity@, ..old(self)@ }),
    {
        self.velocity = velocity;
    }

    /// Takes in the position reached with the new velocity.
    fn update_value(&mut self, value: Vec<u64>)
        ensures
            final(self)@ == (ParticleView { position: value@, ..old(self)@ }),
    {
        self.curr_value = value;
    }

    /// Refreshes the personal best: the current position replaces it only
    /// where it scores strictly higher.
    fn update_best<F: Fn(&Vec<u64>) -> u64>(&mut self, fitness: &Fitness<F>)
        requires
            fitness.functional(),
            fitness.defined_at(old(self)@.position),
            fitness.defined_at(old(self)@.best),
        ensures
            final(self)@ == (ParticleView {
                best: better(*fitness, old(self)@.best, old(self)@.position),
                ..old(self)@
            }),
    {
        let curr_fitness: u64 = fitness.calculate_for_maximization(&self.curr_value);
        let best_fitness: u64 = fitness.calculate_for_maximization(&self.best_value);
        if less(best_fitness, curr_fitness) {
            self.best_value = self.curr_value.clone();
        }
    }
}

/// The components of each vector of `vectors`, in order.
pub open spec fn rows(vectors: Seq<Vec<u64>>) -> Seq<Seq<u64>> {
    Seq::new(vectors.len(), |i: int| vectors[i]@)
}

/// There are `size` vectors and each has `dim` components.
pub open spec fn shaped(vectors: Seq<Seq<u64>>, size: nat, dim: nat) -> bool {
    &&& vectors.len() == size
    &&& forall|i: int| 0 <= i < vectors.len() ==> (#[trigger] vectors[i]).len() == dim
}

/// The score of each point of `points`, in order.
pub open spec fn scores_of<F: Fn(&Vec<u64>) -> u64>(
    fitness: Fitness<F>,
    points: Seq<Seq<u64>>,
) -> Seq<u64> {
    Seq::new(points.len(), |i: int| fitness.score(points[i]))
}

/// Some score of `scores` is a NaN.
pub open spec fn any_nan(scores: Seq<u64>) -> bool {
    exists|i: int| 0 <= i < scores.len() && spec_is_nan(#[trigger] scores[i])
}

/// `k` is the place of the largest score; where several are equally large,
/// it is the last of them.
pub open spec fn is_fittest(scores: Seq<u64>, k: int) -> bool {
    &&& 0 <= k < scores.len()
    &&& forall|j: int| 0 <= j < scores.len() ==> rank(#[trigger] scores[j]) <= rank(scores[k])
    &&& forall|j: int| k < j < scores.len() ==> rank(#[trigger] scores[j]) < rank(scores[k])
}

/// The place of the largest score, the last one among equals.
pub open spec fn fittest(scores: Seq<u64>) -> int {
    choose|k: int| is_fittest(scores, k)
}

/// At most one place is the fittest.
pub proof fn lemma_fittest_unique(scores: Seq<u64>, a: int, b: int)
    requires
        is_fittest(scores, a),
        is_fittest(scores, b),
    ensures
        a == b,
        a == fittest(scores),
{
    if a < b {
        assert(rank(scores[b]) < rank(scores[a]));
    }
    if b < a {
        assert(rank(scores[a]) < rank(scores[b]));
    }
    let c = fittest(scores);
    if a < c {
        assert(rank(scores[c]) < rank(scores[a]));
    }
    if c < a {
        assert(rank(scores[a]) < rank(scores[c]));
    }
}

/// Among one or more scores some place is the fittest.
pub proof fn lemma_fittest_exists(scores: Seq<u64>)
    requires
        scores.len() > 0,
    ensures
        is_fittest(scores, fittest(scores)),
    decreases scores.len(),
{
    let last = scores.len() - 1;
    if scores.len() == 1 {
        assert(is_fittest(scores, 0));
    } else {
        let head = scores.drop_last();
        lemma_fittest_exists(head);
        let k = fittest(head);
        assert forall|j: int| 0 <= j < last implies #[trigger] scores[j] == head[j] by {}
        if rank(scores[last]) >= rank(scores[k]) {
            assert forall|j: int| 0 <= j < scores.len() implies rank(#[trigger] scores[j])
                <= rank(scores[last]) by {
                if j < last {
                    assert(rank(head[j]) <= rank(head[k]));
                }
            }
            assert(is_fittest(scores, last));
        } else {
            assert forall|j: int| 0 <= j < scores.len() implies rank(#[trigger] scores[j])
                <= rank(scores[k]) by {
                if j < last {
                    assert(rank(head[j]) <= rank(head[k]));
                }
            }
            assert forall|j: int| k < j < scores.len() implies rank(#[trigger] scores[j]) < rank(
                scores[k],
            ) by {
                if j < last {
                    assert(rank(head[j]) < rank(head[k]));
                }
            }
            assert(is_fittest(scores, k));
        }
    }
}

/// Finds the place of the largest of `scores`, the last one among equals.
pub fn index_of_fittest(scores: &Vec<u64>) -> (k: usize)
    requires
        scores.len() > 0,
        !any_nan(scores@),
    ensures
        is_fittest(scores@, k as int),
        k == fittest(scores@),
{
    let mut k: usize = 0;
    let mut i: usize = 1;
    while i < scores.len()
        invariant
            1 <= i <= scores.len(),
            !any_nan(scores@),
            is_fittest(scores@.take(i as int), k as int),
        decreases scores.len() - i,
    {
        if !less(scores[i], scores[k]) {
            k = i;
        }
        i += 1;
        proof {
            let before = scores@.take(i - 1);
            let after = scores@.take(i as int);
            assert forall|j: int| 0 <= j < after.len() implies rank(#[trigger] after[j]) <= rank(
                after[k as int],
            ) by {
                if j < i - 1 {
                    assert(after[j] == before[j]);
                }
            }
            assert forall|j: int| k < j < after.len() implies rank(#[trigger] after[j]) < rank(
                after[k as int],
            ) by {
                if j < i - 1 {
                    assert(after[j] == before[j]);
                }
            }
        }
    }
    proof {
        assert(scores@.take(i as int) == scores@);
        lemma_fittest_unique(scores@, k as int, k as int);
    }
    k
}

/// Tells whether there are `size` vectors of `dim` components each.
fn has_shape(vectors: &Vec<Vec<u64>>, size: usize, dim: usize) -> (r: bool)
    ensures
        r == shaped(rows(vectors@), size as nat, dim as nat),
{
    if vectors.len() != size {
        return false;
    }
    let mut i: usize = 0;
    while i < vectors.len()
        invariant
            i <= vectors.len(),
            forall|j: int| 0 <= j < i ==> (#[trigger] rows(vectors@)[j]).len() == dim,
        decreases vectors.len() - i,
    {
        if vectors[i].len() != dim {
            assert(rows(vectors@)[i as int].len() != dim);
            return false;
        }
        i += 1;
    }
    true
}

/// Scores every point of `points`; gives nothing where a score is a NaN.
fn evaluate<F: Fn(&Vec<u64>) -> u64>(fitness: &Fitness<F>, points: &Vec<Vec<u64>>) -> (r: Option<
    Vec<u64>,
>)
    requires
        fitness.functional(),
        forall|i: int| 0 <= i < points.len() ==> fitness.defined_at(#[trigger] rows(points@)[i]),
    ensures
        match r {
            Some(scores) => scores@ == scores_of(*fitness, rows(points@)) && !any_nan(scores@),
            None => any_nan(scores_of(*fitness, rows(points@))),
        },
{
    let mut scores: Vec<u64> = Vec::new();
    let mut i: usize = 0;
    while i < points.len()
        invariant
            i <= points.len(),
            fitness.functional(),
            forall|j: int|
                0 <= j < points.len() ==> fitness.defined_at(#[trigger] rows(points@)[j]),
            scores@ == scores_of(*fitness, rows(points@)).take(i as int),
            !any_nan(scores@),
        decreases points.len() - i,
    {
        assert(fitness.defined_at(rows(points@)[i as int]));
        let score: u64 = fitness.calculate_for_maximization(&points[i]);
        if is_nan(score) {
            assert(spec_is_nan(scores_of(*fitness, rows(points@))[i as int]));
            return None;
        }
        scores.push(score);
        i += 1;
        assert(scores@ == scores_of(*fitness, rows(points@)).take(i as int));
    }
    assert(scores_of(*fitness, rows(points@)).take(i as int) == scores_of(
        *fitness,
        rows(points@),
    ));
    Some(scores)
}

/// What a swarm is: its particles in order, and the best point found so far.
pub struct SwarmView {
    /// The particles, in the order in which they were created.
    pub particles: Seq<ParticleView>,
    /// The best point any particle has visited.
    pub global_best: Seq<u64>,
}

impl SwarmView {
    /// The dimension of the search space.
    pub open spec fn dim(self) -> nat {
        self.global_best.len()
    }

    /// The swarm as it is created: every particle at its initial position,
    /// which is also its best so far, and the global best at the fittest of
    /// the initial positions.
    pub open spec fn initial<F: Fn(&Vec<u64>) -> u64>(
        fitness: Fitness<F>,
        positions: Seq<Seq<u64>>,
        velocities: Seq<Seq<u64>>,
    ) -> SwarmView {
        SwarmView {
            particles: Seq::new(
                positions.len(),
                |i: int|
                    ParticleView {
                        position: positions[i],
                        best: positions[i],
                        velocity: velocities[i],
                    },
            ),
            global_best: positions[fittest(scores_of(fitness, positions))],
        }
    }

    /// The swarm after one iteration that moves particle `i` to
    /// `positions[i]` with velocity `velocities[i]`: each personal best is
    /// refreshed against the new position, and the global best against the
    /// fittest of the new positions.
    pub open spec fn stepped<F: Fn(&Vec<u64>) -> u64>(
        self,
        fitness: Fitness<F>,
        positions: Seq<Seq<u64>>,
        velocities: Seq<Seq<u64>>,
    ) -> SwarmView {
        SwarmView {
            particles: Seq::new(
                self.particles.len(),
                |i: int|
                    ParticleView {
                        position: positions[i],
                        best: better(fitness, self.particles[i].best, positions[i]),
                        velocity: velocities[i],
                    },
            ),
            global_best: better(
                fitness,
                self.global_best,
                positions[fittest(scores_of(fitness, positions))],
            ),
        }
    }

    /// Why an iteration cannot move the particles to `positions` with
    /// `velocities`, if it cannot.
    pub open spec fn step_error<F: Fn(&Vec<u64>) -> u64>(
        self,
        fitness: Fitness<F>,
        positions: Seq<Seq<u64>>,
        velocities: Seq<Seq<u64>>,
    ) -> Option<PsoError> {
        if !shaped(positions, self.particles.len(), self.dim()) || !shaped(
            velocities,
            self.particles.len(),
            self.dim(),
        ) {
            Some(PsoError::Shape)
        } else if any_nan(scores_of(fitness, positions)) {
            Some(PsoError::NotANumber)
        } else {
            None
        }
    }

    /// What an iteration reports: the error if it fails, and else the
    /// fittest particle of the iteration and whether its position beats the
    /// global best.
    pub open spec fn step_outcome<F: Fn(&Vec<u64>) -> u64>(
        self,
        fitness: Fitness<F>,
        positions: Seq<Seq<u64>>,
        velocities: Seq<Seq<u64>>,
    ) -> Result<StepReport, PsoError> {
        match self.step_error(fitness, positions, velocities) {
            Some(e) => Err(e),
            None => {
                let k = fittest(scores_of(fitness, positions));
                Ok(
                    StepReport {
                        local_best: k as usize,
                        improved: spec_less(
                            fitness.score(self.global_best),
                            fitness.score(positions[k]),
                        ),
                    },
                )
            },
        }
    }

    /// The swarm after an iteration was tried: moved if it succeeds, as it
    /// was if it fails.
    pub open spec fn after_step<F: Fn(&Vec<u64>) -> u64>(
        self,
        fitness: Fitness<F>,
        positions: Seq<Seq<u64>>,
        velocities: Seq<Seq<u64>>,
    ) -> SwarmView {
        if self.step_error(fitness, positions, velocities) is None {
            self.stepped(fitness, positions, velocities)
        } else {
            self
        }
    }

    /// What holds of a swarm at all times: it has a particle, all its vectors
    /// have one dimension, no score it relies on is a NaN, no particle's
    /// position beats its personal best, and no personal best beats the
    /// global best.
    pub open spec fn valid<F: Fn(&Vec<u64>) -> u64>(self, fitness: Fitness<F>) -> bool {
        &&& self.particles.len() >= 1
        &&& self.dim() >= 1
        &&& !spec_is_nan(fitness.score(self.global_best))
        &&& forall|i: int|
            0 <= i < self.particles.len() ==> {
                let p = #[trigger] self.particles[i];
                &&& p.has_dim(self.dim())
                &&& !spec_is_nan(fitness.score(p.position))
                &&& !spec_is_nan(fitness.score(p.best))
                &&& rank(fitness.score(p.position)) <= rank(fitness.score(p.best))
                &&& rank(fitness.score(p.best)) <= rank(fitness.score(self.global_best))
            }
    }
}

/// The figures of a report on the swarm. Objective values are given as the
/// objective has them, not in the view in which larger is better.
pub struct Summary {
    /// The position and the velocity of each particle, where asked for; empty
    /// otherwise.
    pub particles: Vec<(Vec<u64>, Vec<u64>)>,
    /// The objective value at each particle's position.
    pub fitness: Vec<u64>,
    /// Each particle's personal best and the objective value there.
    pub local_bests: Vec<(Vec<u64>, u64)>,
    /// The global best and the objective value there.
    pub global_best: (Vec<u64>, u64),
}

/// What an iteration found.
#[derive(Debug, Clone, Copy, PartialEq, Eq)]
pub struct StepReport {
    /// The particle whose new position is the fittest of this iteration.
    pub local_best: usize,
    /// Whether that position replaced the global best.
    pub improved: bool,
}

/// The population and the best point it has found.
pub struct Particles<F> {
    particles: Vec<Particle>,
    fitness: Fitness<F>,
    global_best: Vec<u64>,
}

impl<F> View for Particles<F> {
    type V = SwarmView;

    closed spec fn view(&self) -> SwarmView {
        SwarmView {
            particles: Seq::new(self.particles@.len(), |i: int| self.particles@[i]@),
            global_best: self.global_best@,
        }
    }
}

/// Why a swarm of `size` particles in `dim` dimensions cannot start from
/// `positions` and `velocities`, if it cannot.
pub open spec fn new_error<F: Fn(&Vec<u64>) -> u64>(
    size: nat,
    dim: nat,
    positions: Seq<Seq<u64>>,
    velocities: Seq<Seq<u64>>,
    fitness: Fitness<F>,
) -> Option<PsoError> {
    if size == 0 {
        Some(PsoError::EmptyPopulation)
    } else if dim == 0 {
        Some(PsoError::ZeroDimension)
    } else if !shaped(positions, size, dim) || !shaped(velocities, size, dim) {
        Some(PsoError::Shape)
    } else if any_nan(scores_of(fitness, positions)) {
        Some(PsoError::NotANumber)
    } else {
        None
    }
}

impl<F: Fn(&Vec<u64>) -> u64> Particles<F> {
    /// The objective that this swarm optimises.
    pub closed spec fn fitness(&self) -> Fitness<F> {
        self.fitness
    }

    /// The vector that holds the best point found so far.
    pub closed spec fn spec_best(&self) -> &Vec<u64> {
        &self.global_best
    }

    /// The vector that holds the particles.
    pub closed spec fn spec_particles(&self) -> &Vec<Particle> {
        &self.particles
    }

    /// `mover` can have returned `moves[i]`, a position and a velocity, for
    /// particle `i`, when called with that particle, the global best and the
    /// options `resolved`, for every particle of the swarm.
    pub open spec fn moved_by<M: Fn(&Particle, &Vec<u64>, &Options) -> (Vec<u64>, Vec<u64>)>(
        &self,
        mover: M,
        resolved: Options,
        moves: Seq<(Vec<u64>, Vec<u64>)>,
    ) -> bool {
        &&& moves.len() == self.particles()@.len()
        &&& forall|i: int|
            0 <= i < moves.len() ==> mover.ensures(
                (&self.particles()@[i], self.best(), &resolved),
                #[trigger] moves[i],
            )
    }

    /// The swarm is valid for its objective, which is a function defined on
    /// every vector of the swarm's dimension.
    pub open spec fn wf(&self) -> bool {
        &&& self.fitness().functional()
        &&& self.fitness().defined_on(self@.dim())
        &&& self@.valid(self.fitness())
    }

    /// Creates a swarm of `size` particles in `dim` dimensions. Particle `i`
    /// starts at `values[i]` with velocity `velocities[i]`; the global best
    /// starts at the fittest of the initial positions.
    pub fn new(
        size: usize,
        dim: usize,
        values: &Vec<Vec<u64>>,
        velocities: &Vec<Vec<u64>>,
        fitness: Fitness<F>,
    ) -> (r: Result<Particles<F>, PsoError>)
        requires
            fitness.functional(),
            fitness.defined_on(dim as nat),
        ensures
            match r {
                Ok(swarm) => {
                    &&& new_error(
                        size as nat,
                        dim as nat,
                        rows(values@),
                        rows(velocities@),
                        fitness,
                    ) is None
                    &&& swarm.wf()
                    &&& swarm.fitness() == fitness
                    &&& swarm@ == SwarmView::initial(fitness, rows(values@), rows(velocities@))
                    &&& swarm@.particles.len() == size
                    &&& swarm@.dim() == dim
                },
                Err(e) => new_error(
                    size as nat,
                    dim as nat,
                    rows(values@),
                    rows(velocities@),
                    fitness,
                ) == Some(e),
            },
    {
        if size == 0 {
            return Err(PsoError::EmptyPopulation);
        }
        if dim == 0 {
            return Err(PsoError::ZeroDimension);
        }
        if !has_shape(values, size, dim) || !has_shape(velocities, size, dim) {
            return Err(PsoError::Shape);
        }
        let scores: Vec<u64> = match evaluate(&fitness, values) {
            Some(scores) => scores,
            None => {
                return Err(PsoError::NotANumber);
            },
        };
        let k: usize = index_of_fittest(&scores);
        let global_best: Vec<u64> = values[k].clone();
        let mut particles: Vec<Particle> = Vec::new();
        let mut i: usize = 0;
        while i < size
            invariant
                i <= size,
                shaped(rows(values@), size as nat, dim as nat),
                shaped(rows(velocities@), size as nat, dim as nat),
                particles@.len() == i,
                forall|j: int|
                    0 <= j < i ==> (#[trigger] particles@[j])@ == (ParticleView {
                        position: values@[j]@,
                        best: values@[j]@,
                        velocity: velocities@[j]@,
                    }),
            decreases size - i,
        {
            particles.push(Particle::new(values[i].clone(), velocities[i].clone()));
            i += 1;
        }
        let swarm = Particles { particles, fitness, global_best };
        proof {
            let positions = rows(values@);
            let start = SwarmView::initial(fitness, positions, rows(velocities@));
            assert(swarm@.particles =~= start.particles);
            assert(swarm@.global_best == positions[k as int]);
            lemma_initial_valid(size as nat, dim as nat, positions, rows(velocities@), fitness);
        }
        Ok(swarm)
    }

    /// Advances the swarm by one iteration. The inertia weight is settled
    /// first: the one given in `options`, or else one from `draw`, which is
    /// then the same for every particle. `mover` is called once for every
    /// particle, in order, with the particle, the global best and the settled
    /// options, all as they are before any particle moves, and returns the
    /// particle's next position and velocity. The swarm then takes the moves
    /// in as `advance` does.
    pub fn step<D, M>(&mut self, options: Options, draw: D, mover: M) -> (r: Result<
        StepReport,
        PsoError,
    >) where D: FnOnce() -> u64, M: Fn(&Particle, &Vec<u64>, &Options) -> (Vec<u64>, Vec<u64>)
        requires
            old(self).wf(),
            options.omega is None ==> draw.requires(()),
            forall|i: int, resolved: Options|
                0 <= i < old(self).particles()@.len() && options.resolves_to(draw, resolved)
                    ==> #[trigger] mover.requires(
                    (&old(self).particles()@[i], old(self).best(), &resolved),
                ),
        ensures
            final(self).wf(),
            final(self).fitness() == old(self).fitness(),
            final(self)@.particles.len() == old(self)@.particles.len(),
            final(self)@.dim() == old(self)@.dim(),
            exists|resolved: Options, moves: Seq<(Vec<u64>, Vec<u64>)>|
                {
                    let values = Seq::new(moves.len(), |i: int| moves[i].0@);
                    let velocities = Seq::new(moves.len(), |i: int| moves[i].1@);
                    &&& options.resolves_to(draw, resolved)
                    &&& #[trigger] old(self).moved_by(mover, resolved, moves)
                    &&& r == old(self)@.step_outcome(old(self).fitness(), values, velocities)
                    &&& final(self)@ == old(self)@.after_step(
                        old(self).fitness(),
                        values,
                        velocities,
                    )
                },
    {
        let resolved: Options = options.resolve(draw);
        let mut values: Vec<Vec<u64>> = Vec::new();
        let mut velocities: Vec<Vec<u64>> = Vec::new();
        let ghost mut moves: Seq<(Vec<u64>, Vec<u64>)> = Seq::empty();
        let mut i: usize = 0;
        while i < self.particles.len()
            invariant
                i <= self.particles.len(),
                options.resolves_to(draw, resolved),
                forall|j: int, resolved: Options|
                    0 <= j < self.particles()@.len() && options.resolves_to(draw, resolved)
                        ==> #[trigger] mover.requires(
                        (&self.particles()@[j], self.best(), &resolved),
                    ),
                moves.len() == i,
                values@.len() == i,
                velocities@.len() == i,
                forall|j: int|
                    0 <= j < i ==> mover.ensures(
                        (&self.particles()@[j], self.best(), &resolved),
                        #[trigger] moves[j],
                    ),
                forall|j: int| 0 <= j < i ==> (#[trigger] values@[j])@ == moves[j].0@,
                forall|j: int| 0 <= j < i ==> (#[trigger] velocities@[j])@ == moves[j].1@,
            decreases self.particles.len() - i,
        {
            let moved: (Vec<u64>, Vec<u64>) = mover(&self.particles[i], &self.global_best, &resolved);
            proof {
                moves = moves.push(moved);
            }
            values.push(moved.0);
            velocities.push(moved.1);
            i += 1;
        }
        proof {
            assert(rows(values@) =~= Seq::new(moves.len(), |i: int| moves[i].0@));
            assert(rows(velocities@) =~= Seq::new(moves.len(), |i: int| moves[i].1@));
            assert(self.moved_by(mover, resolved, moves));
        }
        self.advance(&values, &velocities)
    }

    /// Takes in one iteration's moves. Particle `i` moves to `values[i]` with
    /// velocity `velocities[i]`; its personal best follows where the new
    /// position scores strictly higher. Then the global best follows the
    /// fittest of the new positions, again only where that scores strictly
    /// higher. The report names the fittest particle of the iteration and says
    /// whether the global best changed. A failed iteration leaves the swarm
    /// as it was.
    pub fn advance(&mut self, values: &Vec<Vec<u64>>, velocities: &Vec<Vec<u64>>) -> (r: Result<
        StepReport,
        PsoError,
    >)
        requires
            old(self).wf(),
        ensures
            final(self).wf(),
            final(self).fitness() == old(self).fitness(),
            final(self)@.particles.len() == old(self)@.particles.len(),
            final(self)@.dim() == old(self)@.dim(),
            r == old(self)@.step_outcome(old(self).fitness(), rows(values@), rows(velocities@)),
            final(self)@ == old(self)@.after_step(
                old(self).fitness(),
                rows(values@),
                rows(velocities@),
            ),
    {
        let size: usize = self.particles.len();
        let dim: usize = self.global_best.len();
        if !has_shape(values, size, dim) || !has_shape(velocities, size, dim) {
            return Err(PsoError::Shape);
        }
        let ghost before = self@;
        let ghost fitness = self.fitness;
        let ghost positions = rows(values@);
        assert forall|i: int| 0 <= i < values.len() implies fitness.defined_at(
            #[trigger] rows(values@)[i],
        ) by {
            assert(positions[i].len() == dim);
        }
        let scores: Vec<u64> = match evaluate(&self.fitness, values) {
            Some(scores) => scores,
            None => {
                return Err(PsoError::NotANumber);
            },
        };
        let k: usize = index_of_fittest(&scores);
        let mut i: usize = 0;
        while i < size
            invariant
                i <= size,
                before.valid(fitness),
                before.particles.len() == size,
                before.dim() == dim,
                fitness.functional(),
                fitness.defined_on(dim as nat),
                self.fitness == fitness,
                self.global_best@ == before.global_best,
                shaped(rows(values@), size as nat, dim as nat),
                shaped(rows(velocities@), size as nat, dim as nat),
                self.particles@.len() == size,
                forall|j: int|
                    0 <= j < i ==> (#[trigger] self.particles@[j])@ == (ParticleView {
                        position: values@[j]@,
                        best: better(fitness, before.particles[j].best, values@[j]@),
                        velocity: velocities@[j]@,
                    }),
                forall|j: int|
                    i <= j < size ==> (#[trigger] self.particles@[j])@ == before.particles[j],
            decreases size - i,
        {
            assert(rows(values@)[i as int].len() == dim);
            assert(before.particles[i as int].has_dim(dim as nat));
            let particle = &mut self.particles[i];
            particle.update_velocity(velocities[i].clone());
            particle.update_value(values[i].clone());
            particle.update_best(&self.fitness);
            i += 1;
        }
        let best_fitness: u64 = self.fitness.calculate_for_maximization(&self.global_best);
        let improved: bool = less(best_fitness, scores[k]);
        if improved {
            self.global_best = values[k].clone();
        }
        proof {
            let after = before.stepped(fitness, positions, rows(velocities@));
            assert(scores@[k as int] == fitness.score(positions[k as int]));
            assert(self@.particles =~= after.particles);
            assert(self@.global_best == after.global_best);
            lemma_step_keeps_valid(before, fitness, positions, rows(velocities@));
            lemma_step_keeps_dimension(before, fitness, positions, rows(velocities@));
        }
        Ok(StepReport { local_best: k, improved })
    }

    /// Gathers the figures of a report: the objective value at every
    /// particle's position, at every personal best and at the global best,
    /// and, if `show_particles` is set, every particle's position and velocity.
    pub fn summary(&self, show_particles: bool) -> (r: Summary)
        requires
            self.wf(),
        ensures
            r.particles@.len() == (if show_particles {
                self@.particles.len()
            } else {
                0
            }),
            forall|i: int|
                0 <= i < r.particles@.len() ==> {
                    let line = #[trigger] r.particles@[i];
                    &&& line.0@ == self@.particles[i].position
                    &&& line.1@ == self@.particles[i].velocity
                },
            r.fitness@.len() == self@.particles.len(),
            forall|i: int|
                0 <= i < r.fitness@.len() ==> #[trigger] r.fitness@[i] == self.fitness().objective(
                    self@.particles[i].position,
                ),
            r.local_bests@.len() == self@.particles.len(),
            forall|i: int|
                0 <= i < r.local_bests@.len() ==> {
                    let line = #[trigger] r.local_bests@[i];
                    &&& line.0@ == self@.particles[i].best
                    &&& line.1 == self.fitness().objective(self@.particles[i].best)
                },
            r.global_best.0@ == self@.global_best,
            r.global_best.1 == self.fitness().objective(self@.global_best),
    {
        let mut particles: Vec<(Vec<u64>, Vec<u64>)> = Vec::new();
        let mut fitness: Vec<u64> = Vec::new();
        let mut local_bests: Vec<(Vec<u64>, u64)> = Vec::new();
        let mut i: usize = 0;
        while i < self.particles.len()
            invariant
                i <= self.particles.len(),
                self.wf(),
                particles@.len() == (if show_particles {
                    i as int
                } else {
                    0
                }),
                forall|j: int|
                    0 <= j < particles@.len() ==> {
                        let line = #[trigger] particles@[j];
                        &&& line.0@ == self@.particles[j].position
                        &&& line.1@ == self@.particles[j].velocity
                    },
                fitness@.len() == i,
                forall|j: int|
                    0 <= j < i ==> #[trigger] fitness@[j] == self.fitness().objective(
                        self@.particles[j].position,
                    ),
                local_bests@.len() == i,
                forall|j: int|
                    0 <= j < i ==> {
                        let line = #[trigger] local_bests@[j];
                        &&& line.0@ == self@.particles[j].best
                        &&& line.1 == self.fitness().objective(self@.particles[j].best)
                    },
            decreases self.particles.len() - i,
        {
            let particle: &Particle = &self.particles[i];
            assert(particle@ == self@.particles[i as int]);
            assert(self@.particles[i as int].has_dim(self@.dim()));
            if show_particles {
                particles.push((particle.value().clone(), particle.velocity().clone()));
            }
            fitness.push(self.fitness.calculate(particle.value()));
            let best_fitness: u64 = self.fitness.calculate(particle.best());
            local_bests.push((particle.best().clone(), best_fitness));
            i += 1;
        }
        let best_fitness: u64 = self.fitness.calculate(self.best());
        Summary {
            particles,
            fitness,
            local_bests,
            global_best: (self.best().clone(), best_fitness),
        }
    }

    /// The best point found so far.
    #[verifier::when_used_as_spec(spec_best)]
    pub fn best(&self) -> (r: &Vec<u64>)
        ensures
            r == self.spec_best(),
            r@ == self@.global_best,
    {
        &self.global_best
    }

    /// The particles, in the order in which they were created.
    #[verifier::when_used_as_spec(spec_particles)]
    pub fn particles(&self) -> (r: &Vec<Particle>)
        ensures
            r == self.spec_particles(),
            r@.len() == self@.particles.len(),
            forall|i: int| 0 <= i < r@.len() ==> (#[trigger] r@[i])@ == self@.particles[i],
    {
        &self.particles
    }
}

} // verus!
