//! What holds of every swarm, whatever the objective and whatever the moves.

use crate::fitness::Fitness;
use crate::pso::{fittest, lemma_fittest_exists, new_error, scores_of, SwarmView};
use crate::scalar::{lemma_negate, rank, spec_is_nan, spec_less};
use vstd::prelude::*;

verus! {

/// A swarm that can be created is valid from the start, has the population
/// size and the dimension asked for, and its global best is one of the
/// initial positions that no other position beats.
pub proof fn lemma_initial_valid<F: Fn(&Vec<u64>) -> u64>(
    size: nat,
    dim: nat,
    positions: Seq<Seq<u64>>,
    velocities: Seq<Seq<u64>>,
    fitness: Fitness<F>,
)
    requires
        new_error(size, dim, positions, velocities, fitness) is None,
    ensures
        ({
            let start = SwarmView::initial(fitness, positions, velocities);
            &&& start.valid(fitness)
            &&& start.particles.len() == size
            &&& start.dim() == dim
            &&& exists|k: int| 0 <= k < size && start.global_best == positions[k]
            &&& forall|i: int|
                0 <= i < size ==> rank(fitness.score(#[trigger] positions[i])) <= rank(
                    fitness.score(start.global_best),
                )
        }),
{
    let start = SwarmView::initial(fitness, positions, velocities);
    let scores = scores_of(fitness, positions);
    lemma_fittest_exists(scores);
    let k = fittest(scores);
    assert(start.global_best == positions[k]);
    assert(positions[k].len() == dim);
    assert(!spec_is_nan(scores[k]));
    assert forall|i: int| 0 <= i < size implies rank(fitness.score(#[trigger] positions[i]))
        <= rank(fitness.score(start.global_best)) by {
        assert(rank(scores[i]) <= rank(scores[k]));
    }
    assert forall|i: int| 0 <= i < start.particles.len() implies {
        let p = #[trigger] start.particles[i];
        &&& p.has_dim(start.dim())
        &&& !spec_is_nan(fitness.score(p.position))
        &&& !spec_is_nan(fitness.score(p.best))
        &&& rank(fitness.score(p.position)) <= rank(fitness.score(p.best))
        &&& rank(fitness.score(p.best)) <= rank(fitness.score(start.global_best))
    } by {
        assert(positions[i].len() == dim);
        assert(velocities[i].len() == dim);
        assert(!spec_is_nan(scores[i]));
        assert(rank(scores[i]) <= rank(scores[k]));
    }
}

/// An iteration keeps a valid swarm valid: in particular no personal best
/// beats the global best after it.
pub proof fn lemma_step_keeps_valid<F: Fn(&Vec<u64>) -> u64>(
    swarm: SwarmView,
    fitness: Fitness<F>,
    positions: Seq<Seq<u64>>,
    velocities: Seq<Seq<u64>>,
)
    requires
        swarm.valid(fitness),
        swarm.step_error(fitness, positions, velocities) is None,
    ensures
        swarm.stepped(fitness, positions, velocities).valid(fitness),
{
    let after = swarm.stepped(fitness, positions, velocities);
    let scores = scores_of(fitness, positions);
    lemma_fittest_exists(scores);
    let k = fittest(scores);
    assert(positions[k].len() == swarm.dim());
    assert(!spec_is_nan(scores[k]));
    assert forall|i: int| 0 <= i < after.particles.len() implies {
        let p = #[trigger] after.particles[i];
        &&& p.has_dim(after.dim())
        &&& !spec_is_nan(fitness.score(p.position))
        &&& !spec_is_nan(fitness.score(p.best))
        &&& rank(fitness.score(p.position)) <= rank(fitness.score(p.best))
        &&& rank(fitness.score(p.best)) <= rank(fitness.score(after.global_best))
    } by {
        assert(swarm.particles[i].has_dim(swarm.dim()));
        assert(positions[i].len() == swarm.dim());
        assert(velocities[i].len() == swarm.dim());
        assert(!spec_is_nan(scores[i]));
        assert(rank(scores[i]) <= rank(scores[k]));
    }
}

/// The score of the global best never goes down in an iteration.
pub proof fn lemma_global_best_never_regresses<F: Fn(&Vec<u64>) -> u64>(
    swarm: SwarmView,
    fitness: Fitness<F>,
    positions: Seq<Seq<u64>>,
    velocities: Seq<Seq<u64>>,
)
    requires
        swarm.valid(fitness),
        swarm.step_error(fitness, positions, velocities) is None,
    ensures
        rank(fitness.score(swarm.global_best)) <= rank(
            fitness.score(swarm.stepped(fitness, positions, velocities).global_best),
        ),
{
}

/// The score of no particle's personal best goes down in an iteration.
pub proof fn lemma_personal_best_never_regresses<F: Fn(&Vec<u64>) -> u64>(
    swarm: SwarmView,
    fitness: Fitness<F>,
    positions: Seq<Seq<u64>>,
    velocities: Seq<Seq<u64>>,
    i: int,
)
    requires
        swarm.valid(fitness),
        swarm.step_error(fitness, positions, velocities) is None,
        0 <= i < swarm.particles.len(),
    ensures
        rank(fitness.score(swarm.particles[i].best)) <= rank(
            fitness.score(swarm.stepped(fitness, positions, velocities).particles[i].best),
        ),
{
}

/// An iteration changes neither the number of particles nor the dimension:
/// afterwards every particle's position, velocity and personal best still
/// have as many components as before.
pub proof fn lemma_step_keeps_dimension<F: Fn(&Vec<u64>) -> u64>(
    swarm: SwarmView,
    fitness: Fitness<F>,
    positions: Seq<Seq<u64>>,
    velocities: Seq<Seq<u64>>,
)
    requires
        swarm.valid(fitness),
        swarm.step_error(fitness, positions, velocities) is None,
    ensures
        ({
            let after = swarm.stepped(fitness, positions, velocities);
            &&& after.particles.len() == swarm.particles.len()
            &&& after.dim() == swarm.dim()
            &&& forall|i: int|
                0 <= i < after.particles.len() ==> (#[trigger] after.particles[i]).has_dim(
                    swarm.dim(),
                )
        }),
{
    let after = swarm.stepped(fitness, positions, velocities);
    let scores = scores_of(fitness, positions);
    lemma_fittest_exists(scores);
    assert(positions[fittest(scores)].len() == swarm.dim());
    lemma_step_keeps_valid(swarm, fitness, positions, velocities);
    assert forall|i: int| 0 <= i < after.particles.len() implies (#[trigger] after.particles[i]).has_dim(
        swarm.dim(),
    ) by {}
}

/// An iteration is a function of the swarm and of the moves handed in: two
/// swarms with the same particles and the same global best, given the same
/// positions and velocities component for component, fail alike or end alike.
pub proof fn lemma_step_deterministic<F: Fn(&Vec<u64>) -> u64>(
    swarm: SwarmView,
    twin: SwarmView,
    fitness: Fitness<F>,
    positions: Seq<Seq<u64>>,
    velocities: Seq<Seq<u64>>,
    twin_positions: Seq<Seq<u64>>,
    twin_velocities: Seq<Seq<u64>>,
)
    requires
        swarm.global_best =~= twin.global_best,
        swarm.particles.len() == twin.particles.len(),
        forall|i: int|
            0 <= i < swarm.particles.len() ==> {
                &&& swarm.particles[i].position =~= twin.particles[i].position
                &&& swarm.particles[i].best =~= twin.particles[i].best
                &&& swarm.particles[i].velocity =~= twin.particles[i].velocity
            },
        positions.len() == twin_positions.len(),
        forall|i: int| 0 <= i < positions.len() ==> positions[i] =~= twin_positions[i],
        velocities.len() == twin_velocities.len(),
        forall|i: int| 0 <= i < velocities.len() ==> velocities[i] =~= twin_velocities[i],
    ensures
        swarm.step_error(fitness, positions, velocities) == twin.step_error(
            fitness,
            twin_positions,
            twin_velocities,
        ),
        swarm.stepped(fitness, positions, velocities) == twin.stepped(
            fitness,
            twin_positions,
            twin_velocities,
        ),
{
    assert(swarm.particles =~= twin.particles);
    assert(positions =~= twin_positions);
    assert(velocities =~= twin_velocities);
}

/// What one iteration is given: where each particle goes, and how fast.
pub struct Moves {
    /// The new position of each particle.
    pub positions: Seq<Seq<u64>>,
    /// The new velocity of each particle.
    pub velocities: Seq<Seq<u64>>,
}

/// The swarm after the iterations `moves`, one after the other, from `start`.
pub open spec fn run<F: Fn(&Vec<u64>) -> u64>(
    start: SwarmView,
    fitness: Fitness<F>,
    moves: Seq<Moves>,
) -> SwarmView
    decreases moves.len(),
{
    if moves.len() == 0 {
        start
    } else {
        run(start, fitness, moves.drop_last()).stepped(
            fitness,
            moves.last().positions,
            moves.last().velocities,
        )
    }
}

/// None of the iterations `moves` fails.
pub open spec fn runs<F: Fn(&Vec<u64>) -> u64>(
    start: SwarmView,
    fitness: Fitness<F>,
    moves: Seq<Moves>,
) -> bool
    decreases moves.len(),
{
    moves.len() == 0 || {
        &&& runs(start, fitness, moves.drop_last())
        &&& run(start, fitness, moves.drop_last()).step_error(
            fitness,
            moves.last().positions,
            moves.last().velocities,
        ) is None
    }
}

/// Where no iteration of a run fails, none of a shorter run does.
pub proof fn lemma_runs_prefix<F: Fn(&Vec<u64>) -> u64>(
    start: SwarmView,
    fitness: Fitness<F>,
    moves: Seq<Moves>,
    n: int,
)
    requires
        runs(start, fitness, moves),
        0 <= n <= moves.len(),
    ensures
        runs(start, fitness, moves.take(n)),
    decreases moves.len(),
{
    if n == moves.len() {
        assert(moves.take(n) =~= moves);
    } else {
        assert(moves.take(n) =~= moves.drop_last().take(n));
        lemma_runs_prefix(start, fitness, moves.drop_last(), n);
    }
}

/// A run of any length keeps a valid swarm valid, with the particles and the
/// dimension it started with.
pub proof fn lemma_run_keeps_valid<F: Fn(&Vec<u64>) -> u64>(
    start: SwarmView,
    fitness: Fitness<F>,
    moves: Seq<Moves>,
)
    requires
        start.valid(fitness),
        runs(start, fitness, moves),
    ensures
        ({
            let end = run(start, fitness, moves);
            &&& end.valid(fitness)
            &&& end.particles.len() == start.particles.len()
            &&& end.dim() == start.dim()
            &&& forall|i: int|
                0 <= i < end.particles.len() ==> (#[trigger] end.particles[i]).has_dim(
                    start.dim(),
                )
        }),
    decreases moves.len(),
{
    if moves.len() > 0 {
        let before = run(start, fitness, moves.drop_last());
        lemma_run_keeps_valid(start, fitness, moves.drop_last());
        lemma_step_keeps_valid(before, fitness, moves.last().positions, moves.last().velocities);
        lemma_step_keeps_dimension(
            before,
            fitness,
            moves.last().positions,
            moves.last().velocities,
        );
    }
}

/// Over a run of any length, looked at after any `n` of its iterations:
/// neither the global best nor any personal best scores lower at the end
/// than it did then, and no particle was then at a position that scores
/// higher than its personal best does at the end.
pub proof fn lemma_run_never_regresses<F: Fn(&Vec<u64>) -> u64>(
    start: SwarmView,
    fitness: Fitness<F>,
    moves: Seq<Moves>,
    n: int,
)
    requires
        start.valid(fitness),
        runs(start, fitness, moves),
        0 <= n <= moves.len(),
    ensures
        ({
            let then = run(start, fitness, moves.take(n));
            let end = run(start, fitness, moves);
            &&& rank(fitness.score(then.global_best)) <= rank(fitness.score(end.global_best))
            &&& forall|i: int|
                0 <= i < start.particles.len() ==> {
                    let best = fitness.score(#[trigger] end.particles[i].best);
                    &&& rank(fitness.score(then.particles[i].best)) <= rank(best)
                    &&& rank(fitness.score(then.particles[i].position)) <= rank(best)
                    &&& rank(best) <= rank(fitness.score(end.global_best))
                }
        }),
    decreases moves.len(),
{
    let then = run(start, fitness, moves.take(n));
    let end = run(start, fitness, moves);
    lemma_runs_prefix(start, fitness, moves, n);
    lemma_run_keeps_valid(start, fitness, moves.take(n));
    lemma_run_keeps_valid(start, fitness, moves);
    if n == moves.len() {
        assert(moves.take(n) =~= moves);
    } else {
        let head = moves.drop_last();
        let before = run(start, fitness, head);
        assert(moves.take(n) =~= head.take(n));
        lemma_run_never_regresses(start, fitness, head, n);
        lemma_run_keeps_valid(start, fitness, head);
        assert forall|i: int| 0 <= i < start.particles.len() implies {
            let best = fitness.score(#[trigger] end.particles[i].best);
            &&& rank(fitness.score(then.particles[i].best)) <= rank(best)
            &&& rank(fitness.score(then.particles[i].position)) <= rank(best)
            &&& rank(best) <= rank(fitness.score(end.global_best))
        } by {
            lemma_personal_best_never_regresses(
                before,
                fitness,
                moves.last().positions,
                moves.last().velocities,
                i,
            );
            assert(rank(fitness.score(then.particles[i].best)) <= rank(
                fitness.score(before.particles[i].best),
            ));
        }
    }
}

/// The two directions of search, seen through the score: for a
/// maximisation a point scores higher exactly where its objective value is
/// larger, for a minimisation exactly where it is smaller.
pub proof fn lemma_score_follows_direction<F: Fn(&Vec<u64>) -> u64>(
    fitness: Fitness<F>,
    x: Seq<u64>,
    y: Seq<u64>,
)
    ensures
        spec_is_nan(fitness.score(x)) == spec_is_nan(fitness.objective(x)),
        !fitness.is_minimization() ==> spec_less(fitness.score(x), fitness.score(y)) == spec_less(
            fitness.objective(x),
            fitness.objective(y),
        ),
        fitness.is_minimization() ==> spec_less(fitness.score(x), fitness.score(y)) == spec_less(
            fitness.objective(y),
            fitness.objective(x),
        ),
{
    lemma_negate(fitness.objective(x));
    lemma_negate(fitness.objective(y));
}

} // verus!
