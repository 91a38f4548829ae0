use particle_swarm::fitness::Fitness;
use particle_swarm::pso::{index_of_fittest, Options, Particle, Particles, PsoError, StepReport};
use std::cell::{Cell, RefCell};

fn bits(v: &[f64]) -> Vec<u64> {
    v.iter().map(|x| x.to_bits()).collect()
}

fn reals(v: &Vec<u64>) -> Vec<f64> {
    v.iter().map(|b| f64::from_bits(*b)).collect()
}

fn sphere(v: &Vec<u64>) -> u64 {
    let x = f64::from_bits(v[0]);
    let y = f64::from_bits(v[1]);
    (x * x + y * y).to_bits()
}

fn first(v: &Vec<u64>) -> u64 {
    v[0]
}

/// The velocity rule, evaluated as the driver does: inertia, pull towards
/// the personal best, pull towards the global best.
fn next_velocity(
    particle: &Particle,
    global_best: &Vec<u64>,
    options: &Options,
    r1: f64,
    r2: f64,
) -> Vec<f64> {
    let omega = f64::from_bits(options.inertia());
    let phi_1 = f64::from_bits(options.phi_1);
    let phi_2 = f64::from_bits(options.phi_2);
    let x = reals(particle.value());
    let v = reals(particle.velocity());
    let pb = reals(particle.best());
    let gb = reals(global_best);
    (0..x.len())
        .map(|d| v[d] * omega + (pb[d] - x[d]) * phi_1 * r1 + (gb[d] - x[d]) * phi_2 * r2)
        .collect()
}

/// One iteration with the same coefficients `r1` and `r2` for every
/// particle; positions move by the new velocity.
fn iterate<F: Fn(&Vec<u64>) -> u64>(
    swarm: &mut Particles<F>,
    options: Options,
    draw: f64,
    r1: f64,
    r2: f64,
) -> Result<StepReport, PsoError> {
    swarm.step(
        options,
        || draw.to_bits(),
        |particle: &Particle, global_best: &Vec<u64>, resolved: &Options| {
            let velocity = next_velocity(particle, global_best, resolved, r1, r2);
            let x = reals(particle.value());
            let value: Vec<f64> = (0..x.len()).map(|d| x[d] + velocity[d]).collect();
            (bits(&value), bits(&velocity))
        },
    )
}

fn options(omega: Option<f64>, phi_1: f64, phi_2: f64) -> Options {
    Options {
        omega: omega.map(|w| w.to_bits()),
        phi_1: phi_1.to_bits(),
        phi_2: phi_2.to_bits(),
    }
}

fn lone_particle() -> Particles<fn(&Vec<u64>) -> u64> {
    let f: fn(&Vec<u64>) -> u64 = sphere;
    match Particles::new(
        1,
        2,
        &vec![bits(&[3.0, 4.0])],
        &vec![bits(&[0.0, 0.0])],
        Fitness::new(f, true),
    ) {
        Ok(swarm) => swarm,
        Err(e) => panic!("{:?}", e),
    }
}

fn maximizer(values: &[f64]) -> Particles<fn(&Vec<u64>) -> u64> {
    let f: fn(&Vec<u64>) -> u64 = first;
    let positions: Vec<Vec<u64>> = values.iter().map(|x| bits(&[*x])).collect();
    let velocities: Vec<Vec<u64>> = values.iter().map(|_| bits(&[0.0])).collect();
    match Particles::new(values.len(), 1, &positions, &velocities, Fitness::new(f, false)) {
        Ok(swarm) => swarm,
        Err(e) => panic!("{:?}", e),
    }
}

fn column(values: &[f64]) -> Vec<Vec<u64>> {
    values.iter().map(|x| bits(&[*x])).collect()
}

fn bests<F: Fn(&Vec<u64>) -> u64>(swarm: &Particles<F>) -> Vec<f64> {
    swarm.particles().iter().map(|p| f64::from_bits(p.best()[0])).collect()
}

#[test]
fn a_resting_particle_with_inertia_alone_stays() {
    let mut swarm = lone_particle();
    let report = iterate(&mut swarm, options(Some(1.0), 0.0, 0.0), 0.5, 0.25, 0.75);
    assert_eq!(report, Ok(StepReport { local_best: 0, improved: false }));
    let particle = &swarm.particles()[0];
    assert_eq!(particle.velocity(), &bits(&[0.0, 0.0]));
    assert_eq!(particle.value(), &bits(&[3.0, 4.0]));
    assert_eq!(particle.best(), &bits(&[3.0, 4.0]));
    assert_eq!(swarm.best(), &bits(&[3.0, 4.0]));
    let fitness = Fitness::new(sphere, true);
    assert_eq!(fitness.calculate_for_maximization(swarm.best()), (-25.0f64).to_bits());
}

#[test]
fn the_cognitive_term_vanishes_at_the_personal_best() {
    let mut swarm = lone_particle();
    let report = iterate(&mut swarm, options(Some(0.0), 1.0, 0.0), 0.5, 0.5, 0.5);
    assert_eq!(report, Ok(StepReport { local_best: 0, improved: false }));
    let particle = &swarm.particles()[0];
    assert_eq!(particle.velocity(), &bits(&[0.0, 0.0]));
    assert_eq!(particle.value(), &bits(&[3.0, 4.0]));
    assert_eq!(swarm.best(), &bits(&[3.0, 4.0]));
}

#[test]
fn the_global_best_starts_at_the_dominating_particle() {
    let f: fn(&Vec<u64>) -> u64 = sphere;
    let values = vec![bits(&[3.0, 4.0]), bits(&[1.0, 1.0])];
    let velocities = vec![bits(&[0.5, 0.5]), bits(&[-0.5, 0.25])];
    let swarm = Particles::new(2, 2, &values, &velocities, Fitness::new(f, true))
        .unwrap_or_else(|e| panic!("{:?}", e));
    assert_eq!(swarm.best(), &bits(&[1.0, 1.0]));
    let swarm = Particles::new(2, 2, &values, &velocities, Fitness::new(f, false))
        .unwrap_or_else(|e| panic!("{:?}", e));
    assert_eq!(swarm.best(), &bits(&[3.0, 4.0]));
}

#[test]
fn a_new_swarm_holds_what_it_was_given() {
    let f: fn(&Vec<u64>) -> u64 = sphere;
    let values = vec![bits(&[3.0, 4.0]), bits(&[1.0, 1.0]), bits(&[-2.0, 0.5])];
    let velocities = vec![bits(&[0.5, 0.5]), bits(&[-0.5, 0.25]), bits(&[0.0, -1.0])];
    let swarm = Particles::new(3, 2, &values, &velocities, Fitness::new(f, true))
        .unwrap_or_else(|e| panic!("{:?}", e));
    assert_eq!(swarm.particles().len(), 3);
    for (i, particle) in swarm.particles().iter().enumerate() {
        assert_eq!(particle.value(), &values[i]);
        assert_eq!(particle.best(), &values[i]);
        assert_eq!(particle.velocity(), &velocities[i]);
    }
}

#[test]
fn an_empty_population_is_refused() {
    let r = Particles::new(0, 2, &vec![], &vec![], Fitness::new(sphere, true));
    assert!(matches!(r, Err(PsoError::EmptyPopulation)));
    let r = Particles::new(0, 0, &vec![], &vec![], Fitness::new(sphere, true));
    assert!(matches!(r, Err(PsoError::EmptyPopulation)));
}

#[test]
fn a_zero_dimension_is_refused() {
    let r = Particles::new(1, 0, &vec![vec![]], &vec![vec![]], Fitness::new(|_: &Vec<u64>| 0, true));
    assert!(matches!(r, Err(PsoError::ZeroDimension)));
}

#[test]
fn vectors_of_the_wrong_shape_are_refused() {
    let one = vec![bits(&[3.0, 4.0])];
    let two = vec![bits(&[3.0, 4.0]), bits(&[1.0, 1.0])];
    let short = vec![bits(&[3.0, 4.0]), bits(&[1.0])];
    let r = Particles::new(2, 2, &one, &two, Fitness::new(sphere, true));
    assert!(matches!(r, Err(PsoError::Shape)));
    let r = Particles::new(2, 2, &two, &one, Fitness::new(sphere, true));
    assert!(matches!(r, Err(PsoError::Shape)));
    let r = Particles::new(2, 2, &short, &two, Fitness::new(sphere, true));
    assert!(matches!(r, Err(PsoError::Shape)));
    let r = Particles::new(2, 2, &two, &short, Fitness::new(sphere, true));
    assert!(matches!(r, Err(PsoError::Shape)));
    let r = Particles::new(2, 2, &two, &two, Fitness::new(sphere, true));
    assert!(r.is_ok());
}

#[test]
fn a_nan_objective_value_is_refused_at_creation() {
    let values = vec![bits(&[3.0, 4.0]), bits(&[f64::NAN, 1.0])];
    let velocities = vec![bits(&[0.0, 0.0]), bits(&[0.0, 0.0])];
    let r = Particles::new(2, 2, &values, &velocities, Fitness::new(sphere, true));
    assert!(matches!(r, Err(PsoError::NotANumber)));
}

#[test]
fn a_nan_objective_value_fails_the_step_and_changes_nothing() {
    let mut swarm = maximizer(&[1.0, 2.0]);
    let moved = column(&[5.0, f64::NAN]);
    let r = swarm.advance(&moved, &column(&[4.0, 0.0]));
    assert_eq!(r, Err(PsoError::NotANumber));
    assert_eq!(swarm.best(), &bits(&[2.0]));
    assert_eq!(swarm.particles()[0].value(), &bits(&[1.0]));
    assert_eq!(swarm.particles()[0].velocity(), &bits(&[0.0]));
    assert_eq!(swarm.particles()[0].best(), &bits(&[1.0]));
    assert_eq!(swarm.particles()[1].value(), &bits(&[2.0]));
}

#[test]
fn a_step_of_the_wrong_shape_fails_and_changes_nothing() {
    let mut swarm = maximizer(&[1.0, 2.0]);
    assert_eq!(swarm.advance(&column(&[5.0]), &column(&[4.0, 0.0])), Err(PsoError::Shape));
    assert_eq!(swarm.advance(&column(&[5.0, 6.0]), &column(&[4.0])), Err(PsoError::Shape));
    let wide = vec![bits(&[5.0, 5.0]), bits(&[6.0, 6.0])];
    assert_eq!(swarm.advance(&wide, &column(&[4.0, 0.0])), Err(PsoError::Shape));
    assert_eq!(swarm.advance(&column(&[5.0, 6.0]), &wide), Err(PsoError::Shape));
    assert_eq!(swarm.best(), &bits(&[2.0]));
    assert_eq!(swarm.particles()[0].value(), &bits(&[1.0]));
    assert_eq!(swarm.particles()[1].value(), &bits(&[2.0]));
}

#[test]
fn a_step_installs_positions_and_velocities() {
    let mut swarm = maximizer(&[1.0, 2.0, 3.0]);
    let r = swarm.advance(&column(&[0.5, 7.0, 2.5]), &column(&[-0.5, 5.0, -0.5]));
    assert_eq!(r, Ok(StepReport { local_best: 1, improved: true }));
    let particles = swarm.particles();
    assert_eq!(particles[0].value(), &bits(&[0.5]));
    assert_eq!(particles[1].value(), &bits(&[7.0]));
    assert_eq!(particles[2].value(), &bits(&[2.5]));
    assert_eq!(particles[0].velocity(), &bits(&[-0.5]));
    assert_eq!(particles[1].velocity(), &bits(&[5.0]));
    assert_eq!(particles[2].velocity(), &bits(&[-0.5]));
    assert_eq!(bests(&swarm), vec![1.0, 7.0, 3.0]);
    assert_eq!(swarm.best(), &bits(&[7.0]));
}

#[test]
fn a_worse_iteration_keeps_every_best() {
    let mut swarm = maximizer(&[1.0, 2.0, 3.0]);
    let r = swarm.advance(&column(&[0.0, 1.0, 2.0]), &column(&[-1.0, -1.0, -1.0]));
    assert_eq!(r, Ok(StepReport { local_best: 2, improved: false }));
    assert_eq!(bests(&swarm), vec![1.0, 2.0, 3.0]);
    assert_eq!(swarm.best(), &bits(&[3.0]));
}

#[test]
fn a_tie_keeps_the_incumbent() {
    let f: fn(&Vec<u64>) -> u64 = sphere;
    let values = vec![bits(&[3.0, 4.0])];
    let velocities = vec![bits(&[0.0, 0.0])];
    let mut swarm = Particles::new(1, 2, &values, &velocities, Fitness::new(f, true))
        .unwrap_or_else(|e| panic!("{:?}", e));
    let r = swarm.advance(&vec![bits(&[4.0, 3.0])], &vec![bits(&[1.0, -1.0])]);
    assert_eq!(r, Ok(StepReport { local_best: 0, improved: false }));
    assert_eq!(swarm.particles()[0].value(), &bits(&[4.0, 3.0]));
    assert_eq!(swarm.particles()[0].best(), &bits(&[3.0, 4.0]));
    assert_eq!(swarm.best(), &bits(&[3.0, 4.0]));
}

#[test]
fn among_equally_fit_particles_the_last_is_the_fittest() {
    let f: fn(&Vec<u64>) -> u64 = sphere;
    let values = vec![bits(&[3.0, 4.0]), bits(&[6.0, 0.0]), bits(&[4.0, 3.0]), bits(&[5.0, 0.0])];
    let velocities = vec![bits(&[0.0, 0.0]); 4];
    let swarm = Particles::new(4, 2, &values, &velocities, Fitness::new(f, true))
        .unwrap_or_else(|e| panic!("{:?}", e));
    assert_eq!(swarm.best(), &bits(&[5.0, 0.0]));
}

#[test]
fn index_of_fittest_finds_the_last_largest() {
    assert_eq!(index_of_fittest(&bits(&[1.0])), 0);
    assert_eq!(index_of_fittest(&bits(&[1.0, 3.0, 2.0])), 1);
    assert_eq!(index_of_fittest(&bits(&[3.0, 1.0, 3.0, 2.0])), 2);
    assert_eq!(index_of_fittest(&bits(&[-25.0, -2.0, -50.0])), 1);
    assert_eq!(index_of_fittest(&bits(&[0.0, -0.0])), 1);
    assert_eq!(index_of_fittest(&bits(&[-0.0, 0.0, -1.0])), 1);
    assert_eq!(index_of_fittest(&bits(&[f64::NEG_INFINITY, f64::INFINITY, 1.0e308])), 1);
}

#[test]
fn the_bests_never_regress_over_a_run() {
    let f: fn(&Vec<u64>) -> u64 = sphere;
    let values = vec![bits(&[3.0, 4.0]), bits(&[-6.0, 1.0]), bits(&[0.5, -7.0])];
    let velocities = vec![bits(&[0.5, -0.5]), bits(&[1.0, 0.25]), bits(&[-0.75, 1.0])];
    let mut swarm = Particles::new(3, 2, &values, &velocities, Fitness::new(f, true))
        .unwrap_or_else(|e| panic!("{:?}", e));
    let fitness = Fitness::new(sphere, true);
    let opts = options(Some(0.625), 2.0, 2.0);
    let mut global = f64::from_bits(fitness.calculate_for_maximization(swarm.best()));
    let mut personal: Vec<f64> = swarm
        .particles()
        .iter()
        .map(|p| f64::from_bits(fitness.calculate_for_maximization(p.best())))
        .collect();
    for step in 0..40 {
        let r1 = ((step * 7 + 3) % 16) as f64 / 16.0;
        let r2 = ((step * 5 + 11) % 16) as f64 / 16.0;
        let report = iterate(&mut swarm, opts, 0.5, r1, r2).unwrap_or_else(|e| panic!("{:?}", e));
        let now = f64::from_bits(fitness.calculate_for_maximization(swarm.best()));
        assert!(now >= global);
        assert_eq!(report.improved, now > global);
        global = now;
        assert_eq!(swarm.particles().len(), 3);
        assert_eq!(swarm.best().len(), 2);
        for (i, p) in swarm.particles().iter().enumerate() {
            assert_eq!(p.value().len(), 2);
            assert_eq!(p.velocity().len(), 2);
            assert_eq!(p.best().len(), 2);
            let best = f64::from_bits(fitness.calculate_for_maximization(p.best()));
            let here = f64::from_bits(fitness.calculate_for_maximization(p.value()));
            assert!(best >= personal[i]);
            assert!(best >= here);
            assert!(global >= best);
            personal[i] = best;
        }
    }
    assert!(global > -25.0);
}

#[test]
fn equal_inputs_give_equal_trajectories() {
    let f: fn(&Vec<u64>) -> u64 = sphere;
    let values = vec![bits(&[3.0, 4.0]), bits(&[-6.0, 1.0])];
    let velocities = vec![bits(&[0.5, -0.5]), bits(&[1.0, 0.25])];
    let mut a = Particles::new(2, 2, &values, &velocities, Fitness::new(f, true))
        .unwrap_or_else(|e| panic!("{:?}", e));
    let mut b = Particles::new(2, 2, &values.clone(), &velocities.clone(), Fitness::new(f, true))
        .unwrap_or_else(|e| panic!("{:?}", e));
    let opts = options(None, 2.0, 2.0);
    for step in 0..25 {
        let drawn = ((step * 3) % 8) as f64 / 8.0;
        let r1 = ((step * 7 + 3) % 16) as f64 / 16.0;
        let r2 = ((step * 5 + 11) % 16) as f64 / 16.0;
        let ra = iterate(&mut a, opts, drawn, r1, r2);
        let rb = iterate(&mut b, opts, drawn, r1, r2);
        assert_eq!(ra, rb);
        assert_eq!(a.best(), b.best());
        for (p, q) in a.particles().iter().zip(b.particles().iter()) {
            assert_eq!(p.value(), q.value());
            assert_eq!(p.velocity(), q.velocity());
            assert_eq!(p.best(), q.best());
        }
    }
}

#[test]
fn reading_twice_gives_the_same() {
    let mut swarm = maximizer(&[1.0, 2.0, 3.0]);
    let _ = swarm.advance(&column(&[0.5, 7.0, 2.5]), &column(&[-0.5, 5.0, -0.5]));
    let first_best = swarm.best().clone();
    assert_eq!(swarm.best(), &first_best);
    let particle = &swarm.particles()[1];
    let value = particle.value().clone();
    let velocity = particle.velocity().clone();
    let best = particle.best().clone();
    assert_eq!(swarm.particles()[1].value(), &value);
    assert_eq!(swarm.particles()[1].velocity(), &velocity);
    assert_eq!(swarm.particles()[1].best(), &best);
    assert_eq!(swarm.best(), &first_best);
}

#[test]
fn resolve_with_keeps_a_given_omega() {
    let r = options(Some(0.75), 2.0, 1.5).resolve_with(0.25f64.to_bits());
    assert_eq!(r.omega, Some(0.75f64.to_bits()));
    assert_eq!(r.phi_1, 2.0f64.to_bits());
    assert_eq!(r.phi_2, 1.5f64.to_bits());
    assert_eq!(r.inertia(), 0.75f64.to_bits());
}

#[test]
fn resolve_with_takes_the_draw_for_an_absent_omega() {
    let r = options(None, 2.0, 1.5).resolve_with(0.25f64.to_bits());
    assert_eq!(r.omega, Some(0.25f64.to_bits()));
    assert_eq!(r.phi_1, 2.0f64.to_bits());
    assert_eq!(r.phi_2, 1.5f64.to_bits());
    assert_eq!(r.inertia(), 0.25f64.to_bits());
}

#[test]
fn resolve_does_not_draw_for_a_given_omega() {
    let r = options(Some(0.75), 2.0, 1.5).resolve(|| -> u64 { panic!("drawn") });
    assert_eq!(r.omega, Some(0.75f64.to_bits()));
    assert_eq!(r.phi_1, 2.0f64.to_bits());
    assert_eq!(r.phi_2, 1.5f64.to_bits());
}

#[test]
fn resolve_draws_for_an_absent_omega() {
    let r = options(None, 2.0, 1.5).resolve(|| 0.125f64.to_bits());
    assert_eq!(r.omega, Some(0.125f64.to_bits()));
    assert_eq!(r.phi_1, 2.0f64.to_bits());
    assert_eq!(r.phi_2, 1.5f64.to_bits());
}

#[test]
fn a_step_draws_one_omega_for_all_particles() {
    let mut swarm = maximizer(&[1.0, 2.0, 3.0]);
    let draws = Cell::new(0usize);
    let seen = RefCell::new(Vec::new());
    let r = swarm.step(
        options(None, 2.0, 1.5),
        || {
            draws.set(draws.get() + 1);
            0.375f64.to_bits()
        },
        |particle: &Particle, _: &Vec<u64>, resolved: &Options| {
            seen.borrow_mut().push((resolved.omega, resolved.phi_1, resolved.phi_2));
            (particle.value().clone(), particle.velocity().clone())
        },
    );
    assert_eq!(r, Ok(StepReport { local_best: 2, improved: false }));
    assert_eq!(draws.get(), 1);
    let settled = (Some(0.375f64.to_bits()), 2.0f64.to_bits(), 1.5f64.to_bits());
    assert_eq!(*seen.borrow(), vec![settled, settled, settled]);
}

#[test]
fn a_step_with_a_given_omega_does_not_draw() {
    let mut swarm = maximizer(&[1.0, 2.0]);
    let seen = RefCell::new(Vec::new());
    let r = swarm.step(
        options(Some(0.75), 2.0, 1.5),
        || -> u64 { panic!("drawn") },
        |particle: &Particle, _: &Vec<u64>, resolved: &Options| {
            seen.borrow_mut().push(resolved.omega);
            (particle.value().clone(), particle.velocity().clone())
        },
    );
    assert_eq!(r, Ok(StepReport { local_best: 1, improved: false }));
    assert_eq!(*seen.borrow(), vec![Some(0.75f64.to_bits()), Some(0.75f64.to_bits())]);
}

#[test]
fn every_particle_moves_from_the_state_before_the_step() {
    let mut swarm = maximizer(&[1.0, 2.0, 3.0]);
    let seen = RefCell::new(Vec::new());
    let r = swarm.step(
        options(Some(1.0), 0.0, 0.0),
        || 0,
        |particle: &Particle, global_best: &Vec<u64>, _: &Options| {
            seen.borrow_mut().push((
                f64::from_bits(global_best[0]),
                f64::from_bits(particle.value()[0]),
                f64::from_bits(particle.best()[0]),
            ));
            let value = f64::from_bits(particle.value()[0]) + 10.0;
            (bits(&[value]), bits(&[10.0]))
        },
    );
    assert_eq!(r, Ok(StepReport { local_best: 2, improved: true }));
    assert_eq!(*seen.borrow(), vec![(3.0, 1.0, 1.0), (3.0, 2.0, 2.0), (3.0, 3.0, 3.0)]);
    assert_eq!(bests(&swarm), vec![11.0, 12.0, 13.0]);
    assert_eq!(swarm.best(), &bits(&[13.0]));
    assert_eq!(swarm.particles()[0].velocity(), &bits(&[10.0]));
}

#[test]
fn a_step_whose_mover_gives_a_nan_fails_and_changes_nothing() {
    let mut swarm = maximizer(&[1.0, 2.0]);
    let r = swarm.step(
        options(Some(1.0), 0.0, 0.0),
        || 0,
        |_: &Particle, _: &Vec<u64>, _: &Options| (bits(&[f64::NAN]), bits(&[0.5])),
    );
    assert_eq!(r, Err(PsoError::NotANumber));
    assert_eq!(swarm.best(), &bits(&[2.0]));
    assert_eq!(swarm.particles()[0].value(), &bits(&[1.0]));
    assert_eq!(swarm.particles()[0].velocity(), &bits(&[0.0]));
}

#[test]
fn a_step_whose_mover_gives_a_wrong_dimension_fails() {
    let mut swarm = maximizer(&[1.0, 2.0]);
    let r = swarm.step(
        options(Some(1.0), 0.0, 0.0),
        || 0,
        |_: &Particle, _: &Vec<u64>, _: &Options| (bits(&[1.0, 2.0]), bits(&[0.5])),
    );
    assert_eq!(r, Err(PsoError::Shape));
    assert_eq!(swarm.best(), &bits(&[2.0]));
}

#[test]
fn the_velocity_rule_moves_a_particle_towards_the_global_best() {
    let f: fn(&Vec<u64>) -> u64 = sphere;
    let values = vec![bits(&[3.0, 4.0]), bits(&[1.0, 1.0])];
    let velocities = vec![bits(&[2.0, -2.0]), bits(&[0.0, 0.0])];
    let mut swarm = Particles::new(2, 2, &values, &velocities, Fitness::new(f, true))
        .unwrap_or_else(|e| panic!("{:?}", e));
    let report = iterate(&mut swarm, options(Some(0.5), 1.0, 2.0), 0.75, 0.5, 0.25);
    assert_eq!(report, Ok(StepReport { local_best: 1, improved: false }));
    let particles = swarm.particles();
    assert_eq!(particles[0].velocity(), &bits(&[0.0, -2.5]));
    assert_eq!(particles[0].value(), &bits(&[3.0, 1.5]));
    assert_eq!(particles[0].best(), &bits(&[3.0, 1.5]));
    assert_eq!(particles[1].velocity(), &bits(&[0.0, 0.0]));
    assert_eq!(particles[1].value(), &bits(&[1.0, 1.0]));
    assert_eq!(swarm.best(), &bits(&[1.0, 1.0]));
}

#[test]
fn summary_reports_the_natural_objective_values() {
    let f: fn(&Vec<u64>) -> u64 = sphere;
    let values = vec![bits(&[3.0, 4.0]), bits(&[1.0, 1.0])];
    let velocities = vec![bits(&[2.0, -2.0]), bits(&[0.0, 0.5])];
    let mut swarm = Particles::new(2, 2, &values, &velocities, Fitness::new(f, true))
        .unwrap_or_else(|e| panic!("{:?}", e));
    let r = swarm.advance(
        &vec![bits(&[6.0, 8.0]), bits(&[0.0, 1.0])],
        &vec![bits(&[3.0, 4.0]), bits(&[-1.0, 0.0])],
    );
    assert_eq!(r, Ok(StepReport { local_best: 1, improved: true }));
    let s = swarm.summary(true);
    assert_eq!(
        s.particles,
        vec![
            (bits(&[6.0, 8.0]), bits(&[3.0, 4.0])),
            (bits(&[0.0, 1.0]), bits(&[-1.0, 0.0])),
        ]
    );
    assert_eq!(s.fitness, bits(&[100.0, 1.0]));
    assert_eq!(
        s.local_bests,
        vec![(bits(&[3.0, 4.0]), 25.0f64.to_bits()), (bits(&[0.0, 1.0]), 1.0f64.to_bits())]
    );
    assert_eq!(s.global_best, (bits(&[0.0, 1.0]), 1.0f64.to_bits()));
    let s = swarm.summary(false);
    assert!(s.particles.is_empty());
    assert_eq!(s.fitness, bits(&[100.0, 1.0]));
    assert_eq!(s.local_bests.len(), 2);
    assert_eq!(s.global_best, (bits(&[0.0, 1.0]), 1.0f64.to_bits()));
}
