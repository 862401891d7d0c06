//! What holds of every simulation, whatever the steps that are taken.
use vstd::prelude::*;
use crate::body::{strangers, BodyType};
use crate::select::{
    chosen, lemma_chosen_all_but, lemma_chosen_complete, lemma_chosen_increasing, lemma_chosen_len,
    lemma_chosen_sound, rank,
};
use crate::simulation::SimulationView;
use crate::vector::Motion;

verus! {

/// A body never pulls on itself, and every other body pulls on it exactly
/// once: in a well-formed simulation the attractors of the body at `target`
/// are all positions but `target`, each once, in increasing order.
pub proof fn lemma_attractors_are_the_others(sim: SimulationView, target: int)
    requires
        sim.wf(),
        0 <= target < sim.bodies.len(),
    ensures
        sim.attractors(target) == Seq::new(
            (sim.bodies.len() - 1) as nat,
            |k: int|
                if k < target {
                    k
                } else {
                    k + 1
                },
        ),
        sim.attractors(target).len() == sim.bodies.len() - 1,
        !sim.attractors(target).contains(target),
{
    let flags = strangers(sim.bodies, sim.bodies[target].id);
    assert forall|i: int| 0 <= i < flags.len() implies flags[i] == (i != target) by {
        assert(sim.bodies[i].id == i);
        assert(sim.bodies[target].id == target);
    }
    lemma_chosen_all_but(flags, target);
}

/// Between two bodies there is one pull each way: where a well-formed
/// simulation holds just two bodies, the only attractor of each is the
/// other.
pub proof fn lemma_pair_pulls_once(sim: SimulationView)
    requires
        sim.wf(),
        sim.bodies.len() == 2,
    ensures
        sim.attractors(0) == seq![1int],
        sim.attractors(1) == seq![0int],
{
    lemma_attractors_are_the_others(sim, 0);
    lemma_attractors_are_the_others(sim, 1);
    assert(sim.attractors(0) =~= seq![1int]);
    assert(sim.attractors(1) =~= seq![0int]);
}

/// Whatever the identifiers are, a body with the identifier of the target
/// is none of the target's attractors.
pub proof fn lemma_attractors_differ(sim: SimulationView, target: int, k: int)
    requires
        0 <= target < sim.bodies.len(),
        0 <= k < sim.attractors(target).len(),
    ensures
        0 <= sim.attractors(target)[k] < sim.bodies.len(),
        sim.bodies[sim.attractors(target)[k]].id != sim.bodies[target].id,
        sim.attractors(target)[k] != target,
{
    lemma_chosen_sound(strangers(sim.bodies, sim.bodies[target].id), k);
}

/// No star is among the bodies that a step moves, and every one of those
/// is a body of the simulation.
pub proof fn lemma_targets_are_no_stars(sim: SimulationView, k: int)
    requires
        0 <= k < sim.targets().len(),
    ensures
        0 <= sim.targets()[k] < sim.bodies.len(),
        sim.bodies[sim.targets()[k]].kind != BodyType::STAR,
{
    lemma_chosen_sound(sim.mobile(), k);
}

/// Every body that is no star is among the bodies that a step moves: it
/// stands among them after the movers that come before it, and the motion
/// that a step hands to it is the one at that place.
pub proof fn lemma_planets_are_targets(sim: SimulationView, planet: int)
    requires
        0 <= planet < sim.bodies.len(),
        sim.bodies[planet].kind != BodyType::STAR,
    ensures
        rank(sim.mobile(), planet) < sim.targets().len(),
        sim.targets()[rank(sim.mobile(), planet) as int] == planet,
{
    lemma_chosen_complete(sim.mobile(), planet);
}

/// The bodies that a step moves are listed in the order in which they were
/// added, each once, and are no more than the bodies.
pub proof fn lemma_targets_in_order(sim: SimulationView, j: int, k: int)
    requires
        0 <= j < k < sim.targets().len(),
    ensures
        sim.targets()[j] < sim.targets()[k],
        sim.targets().len() <= sim.bodies.len(),
{
    lemma_chosen_increasing(sim.mobile(), j, k);
    lemma_chosen_len(sim.mobile());
}

/// A step moves a body and does nothing else to it: after any run of steps
/// every body has the identifier, the kind, the mass, the radius and the
/// trail that it had before.
pub proof fn lemma_steps_only_move(sim: SimulationView, steps: Seq<Seq<Motion>>, body: int)
    requires
        0 <= body < sim.bodies.len(),
    ensures
        sim.run(steps).bodies.len() == sim.bodies.len(),
        sim.run(steps).bodies[body] == sim.bodies[body].moved(sim.run(steps).bodies[body].motion()),
        sim.run(steps).next_id == sim.next_id,
    decreases steps.len(),
{
    if steps.len() > 0 {
        lemma_steps_only_move(sim, steps.drop_last(), body);
    }
}

/// A star stays as it is: after any run of steps, whatever motions they
/// bring, the simulation holds the same number of bodies, and each star is
/// the body it was before the run, at the same position and with the same
/// velocity.
pub proof fn lemma_stars_stay(sim: SimulationView, steps: Seq<Seq<Motion>>, star: int)
    requires
        0 <= star < sim.bodies.len(),
        sim.bodies[star].kind == BodyType::STAR,
    ensures
        sim.run(steps).bodies.len() == sim.bodies.len(),
        sim.run(steps).bodies[star] == sim.bodies[star],
    decreases steps.len(),
{
    if steps.len() > 0 {
        lemma_stars_stay(sim, steps.drop_last(), star);
    }
}

/// A star that is alone stays at rest: after any run of steps the bodies of
/// such a simulation are what they were, and only the time has changed.
pub proof fn lemma_lone_star_rests(sim: SimulationView, steps: Seq<Seq<Motion>>)
    requires
        sim.bodies.len() == 1,
        sim.bodies[0].kind == BodyType::STAR,
    ensures
        sim.run(steps).bodies == sim.bodies,
        sim.targets().len() == 0,
{
    lemma_stars_stay(sim, steps, 0);
    assert(sim.run(steps).bodies =~= sim.bodies);
    assert(sim.mobile() =~= seq![false]);
    assert(sim.mobile().drop_last() =~= Seq::<bool>::empty());
    assert(chosen(sim.mobile()) =~= Seq::<int>::empty()) by {
        reveal_with_fuel(chosen, 2);
    }
}

/// Each step advances the clock by one timestep, which no step changes.
pub proof fn lemma_run_time(sim: SimulationView, steps: Seq<Seq<Motion>>)
    ensures
        sim.run(steps).timestep == sim.timestep,
        sim.run(steps).time == sim.time + steps.len() * sim.timestep,
    decreases steps.len(),
{
    if steps.len() > 0 {
        lemma_run_time(sim, steps.drop_last());
        assert((steps.len() - 1) * sim.timestep + sim.timestep == steps.len() * sim.timestep)
            by (nonlinear_arith);
    }
}

} // verus!
