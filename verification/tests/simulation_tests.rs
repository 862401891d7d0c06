use solar_system::body::{Body, BodyType};
use solar_system::scalar::Scalar;
use solar_system::simulation::Simulation;
use solar_system::trail::Frame;
use solar_system::vector::{Motion, Point, Vector};

fn s(x: f64) -> Scalar {
    Scalar::from_bits(x.to_bits())
}

fn n(x: Scalar) -> f64 {
    f64::from_bits(x.to_bits())
}

fn v(x: f64, y: f64, z: f64) -> Vector {
    Vector::new(s(x), s(y), s(z))
}

fn at(x: f64, y: f64) -> Motion {
    Motion::new(v(x, y, 0.0), v(0.0, 0.0, 0.0))
}

fn frame(swept: f64, x: f64, y: f64) -> Frame {
    Frame { swept: s(swept), point: Point::new(s(x), s(y)) }
}

fn star_and_planets(planets: usize) -> Simulation {
    let mut sim = Simulation::with_timestep(86_400);
    sim.add_body(BodyType::STAR, s(1.9885e30), s(696_340.0), v(0.0, 0.0, 0.0), v(0.0, 0.0, 0.0));
    for i in 0..planets {
        let x = 1.0e10 * (i + 1) as f64;
        sim.add_body(BodyType::PLANET, s(1.0e24), s(2000.0), v(x, 0.0, 0.0), v(0.0, 100.0, 0.0));
    }
    sim
}

#[test]
fn new_simulation_is_empty_with_a_step_of_one_hour() {
    let sim = Simulation::new();
    assert_eq!(sim.len(), 0);
    assert_eq!(sim.time(), 0);
    assert_eq!(sim.timestep(), 3600);
    assert_eq!(sim.targets(), vec![]);
}

#[test]
fn with_timestep_keeps_the_step() {
    let sim = Simulation::with_timestep(86_400);
    assert_eq!(sim.len(), 0);
    assert_eq!(sim.time(), 0);
    assert_eq!(sim.timestep(), 86_400);
}

#[test]
fn body_new_keeps_what_it_is_given() {
    let body = Body::new(
        7,
        BodyType::PLANET,
        s(0.33e24),
        s(2439.5),
        v(5.79e10, 0.0, 0.0),
        v(0.0, 47_400.0, 0.0),
    );
    assert_eq!(body.id(), 7);
    assert_eq!(body.type_(), BodyType::PLANET);
    assert_eq!(body.mass(), s(0.33e24));
    assert_eq!(body.radius(), s(2439.5));
    assert_eq!(body.position(), v(5.79e10, 0.0, 0.0));
    assert_eq!(body.velocity(), v(0.0, 47_400.0, 0.0));
    assert_eq!(body.trail().len(), 0);
    assert!(!body.trail().completed());
}

#[test]
fn body_update_replaces_the_motion_only() {
    let mut body = Body::new(3, BodyType::PLANET, s(2.0), s(1.0), v(1.0, 2.0, 0.0), v(0.0, 0.0, 0.0));
    body.update(Motion::new(v(4.0, 5.0, 0.0), v(6.0, 7.0, 0.0)));
    assert_eq!(body.position(), v(4.0, 5.0, 0.0));
    assert_eq!(body.velocity(), v(6.0, 7.0, 0.0));
    assert_eq!(body.id(), 3);
    assert_eq!(body.type_(), BodyType::PLANET);
    assert_eq!(body.mass(), s(2.0));
    assert_eq!(body.radius(), s(1.0));
    assert_eq!(body.trail().len(), 0);
}

#[test]
fn body_draw_feeds_the_trail_only() {
    let mut body = Body::new(3, BodyType::PLANET, s(2.0), s(1.0), v(1.0, 2.0, 0.0), v(0.0, 0.0, 0.0));
    body.draw(s(-0.5), Point::new(s(10.0), s(20.0)));
    assert_eq!(body.trail().len(), 1);
    assert_eq!(body.trail().sample(0), Point::new(s(10.0), s(20.0)));
    assert_eq!(body.trail().accumulated_angle(), s(-0.5));
    body.draw(s(0.5), Point::new(s(11.0), s(21.0)));
    assert!(body.trail().completed());
    assert_eq!(body.trail().len(), 1);
    assert_eq!(body.position(), v(1.0, 2.0, 0.0));
    assert_eq!(body.id(), 3);
}

#[test]
fn body_clone_keeps_identifier_state_and_trail() {
    let mut body = Body::new(5, BodyType::STAR, s(2.0), s(1.0), v(1.0, 2.0, 3.0), v(4.0, 5.0, 6.0));
    body.draw(s(0.5), Point::new(s(10.0), s(20.0)));
    let copy = body.clone();
    assert_eq!(copy.id(), 5);
    assert_eq!(copy.type_(), BodyType::STAR);
    assert_eq!(copy.mass(), s(2.0));
    assert_eq!(copy.radius(), s(1.0));
    assert_eq!(copy.position(), v(1.0, 2.0, 3.0));
    assert_eq!(copy.velocity(), v(4.0, 5.0, 6.0));
    assert_eq!(copy.trail().len(), 1);
    assert_eq!(copy.trail().sample(0), Point::new(s(10.0), s(20.0)));
    assert_eq!(copy.trail().accumulated_angle(), s(0.5));
}

#[test]
fn body_attractors_leave_out_the_same_identifier() {
    let make = |id: u64, x: f64| Body::new(id, BodyType::PLANET, s(1.0), s(1.0), v(x, 0.0, 0.0), v(0.0, 0.0, 0.0));
    let bodies = vec![make(4, 0.0), make(9, 1.0), make(4, 2.0), make(2, 3.0)];
    assert_eq!(make(4, 9.0).attractors(&bodies), vec![1, 3]);
    assert_eq!(make(9, 9.0).attractors(&bodies), vec![0, 2, 3]);
    assert_eq!(make(2, 9.0).attractors(&bodies), vec![0, 1, 2]);
    assert_eq!(make(7, 9.0).attractors(&bodies), vec![0, 1, 2, 3]);
    assert_eq!(make(7, 9.0).attractors(&vec![]), vec![]);
}

#[test]
fn body_attractors_go_by_identifier_not_by_mass() {
    let a = Body::new(0, BodyType::PLANET, s(5.0), s(1.0), v(0.0, 0.0, 0.0), v(0.0, 0.0, 0.0));
    let twin = Body::new(1, BodyType::PLANET, s(5.0), s(1.0), v(1.0, 0.0, 0.0), v(0.0, 0.0, 0.0));
    let row = vec![a.clone(), twin];
    assert_eq!(a.attractors(&row), vec![1]);
}

#[test]
fn add_body_counts_identifiers_from_zero() {
    let mut sim = Simulation::new();
    let a = sim.add_body(BodyType::STAR, s(3.0), s(1.0), v(0.0, 0.0, 0.0), v(0.0, 0.0, 0.0));
    let b = sim.add_body(BodyType::PLANET, s(2.0), s(1.0), v(1.0, 0.0, 0.0), v(0.0, 1.0, 0.0));
    let c = sim.add_body(BodyType::PLANET, s(2.0), s(1.0), v(2.0, 0.0, 0.0), v(0.0, 1.0, 0.0));
    assert_eq!((a, b, c), (0, 1, 2));
    assert_eq!(sim.len(), 3);
    for i in 0..3 {
        assert_eq!(sim.body(i).id(), i as u64);
    }
    assert_eq!(sim.body(0).type_(), BodyType::STAR);
    assert_eq!(sim.body(1).type_(), BodyType::PLANET);
    assert_eq!(sim.body(1).mass(), s(2.0));
    assert_eq!(sim.body(2).position(), v(2.0, 0.0, 0.0));
    assert_eq!(sim.body(2).velocity(), v(0.0, 1.0, 0.0));
    assert_eq!(sim.body(2).trail().len(), 0);
    assert_eq!(sim.time(), 0);
}

#[test]
fn is_vacant_finds_a_body_in_the_plane() {
    let sim = star_and_planets(2);
    assert!(!sim.is_vacant(&v(0.0, 0.0, 0.0)));
    assert!(!sim.is_vacant(&v(-0.0, 0.0, 5.0)));
    assert!(!sim.is_vacant(&v(1.0e10, 0.0, 0.0)));
    assert!(!sim.is_vacant(&v(2.0e10, -0.0, 0.0)));
    assert!(sim.is_vacant(&v(3.0e10, 0.0, 0.0)));
    assert!(sim.is_vacant(&v(1.0e10, 1.0, 0.0)));
    assert!(Simulation::new().is_vacant(&v(0.0, 0.0, 0.0)));
}

#[test]
fn targets_are_all_but_the_stars() {
    let mut sim = star_and_planets(2);
    assert_eq!(sim.targets(), vec![1, 2]);
    sim.add_body(BodyType::STAR, s(1.0e30), s(1000.0), v(-5.0e10, 0.0, 0.0), v(0.0, 0.0, 0.0));
    sim.add_body(BodyType::PLANET, s(1.0e20), s(10.0), v(0.0, 7.0e10, 0.0), v(0.0, 0.0, 0.0));
    assert_eq!(sim.targets(), vec![1, 2, 4]);
}

#[test]
fn attractors_of_a_pair_are_each_other() {
    let sim = star_and_planets(1);
    assert_eq!(sim.attractors(0), vec![1]);
    assert_eq!(sim.attractors(1), vec![0]);
}

#[test]
fn attractors_are_all_the_others() {
    let sim = star_and_planets(3);
    assert_eq!(sim.attractors(0), vec![1, 2, 3]);
    assert_eq!(sim.attractors(1), vec![0, 2, 3]);
    assert_eq!(sim.attractors(2), vec![0, 1, 3]);
    assert_eq!(sim.attractors(3), vec![0, 1, 2]);
}

#[test]
fn attractors_tell_twins_apart() {
    let mut sim = Simulation::new();
    sim.add_body(BodyType::PLANET, s(5.0), s(1.0), v(0.0, 0.0, 0.0), v(0.0, 0.0, 0.0));
    sim.add_body(BodyType::PLANET, s(5.0), s(1.0), v(1.0, 0.0, 0.0), v(0.0, 0.0, 0.0));
    assert_eq!(sim.attractors(0), vec![1]);
    assert_eq!(sim.attractors(1), vec![0]);
}

#[test]
fn attractors_of_a_lone_body_are_none() {
    let sim = star_and_planets(0);
    assert_eq!(sim.attractors(0), vec![]);
}

#[test]
fn accepts_one_finite_motion_for_each_target() {
    let sim = star_and_planets(2);
    assert!(sim.accepts(&vec![at(1.0, 1.0), at(2.0, 2.0)]));
    assert!(!sim.accepts(&vec![at(1.0, 1.0)]));
    assert!(!sim.accepts(&vec![at(1.0, 1.0), at(2.0, 2.0), at(3.0, 3.0)]));
    assert!(!sim.accepts(&vec![]));
    assert!(!sim.accepts(&vec![at(1.0, 1.0), at(f64::NAN, 2.0)]));
    assert!(!sim.accepts(&vec![at(f64::INFINITY, 1.0), at(2.0, 2.0)]));
    let spinning = Motion::new(v(1.0, 1.0, 0.0), v(0.0, f64::NEG_INFINITY, 0.0));
    assert!(!sim.accepts(&vec![at(1.0, 1.0), spinning]));
}

#[test]
fn accepts_does_not_read_the_clock() {
    let mut sim = Simulation::with_timestep(i32::MAX);
    assert!(sim.accepts(&vec![]));
    assert!(sim.has_room());
    sim.advance(vec![]);
    assert_eq!(sim.time(), i32::MAX as i64);
    assert!(sim.accepts(&vec![]));
    assert!(sim.has_room());
    sim.advance(vec![]);
    assert_eq!(sim.time(), 2 * (i32::MAX as i64));
}

#[test]
fn has_room_while_the_time_fits_in_64_bits() {
    let mut sim = Simulation::with_timestep(3600);
    for _ in 0..1000 {
        assert!(sim.has_room());
        sim.advance(vec![]);
    }
    assert_eq!(sim.time(), 3_600_000);
    assert!(Simulation::with_timestep(i32::MIN).has_room());
    assert!(Simulation::with_timestep(0).has_room());
}

#[test]
fn advance_moves_planets_and_leaves_stars() {
    let mut sim = star_and_planets(2);
    let first = Motion::new(v(1.0, 2.0, 0.0), v(3.0, 4.0, 0.0));
    let second = Motion::new(v(5.0, 6.0, 0.0), v(7.0, 8.0, 0.0));
    sim.advance(vec![first, second]);
    assert_eq!(sim.body(0).position(), v(0.0, 0.0, 0.0));
    assert_eq!(sim.body(0).velocity(), v(0.0, 0.0, 0.0));
    assert_eq!(sim.body(1).position(), first.position);
    assert_eq!(sim.body(1).velocity(), first.velocity);
    assert_eq!(sim.body(2).position(), second.position);
    assert_eq!(sim.body(2).velocity(), second.velocity);
    assert_eq!(sim.time(), 86_400);
    assert_eq!(sim.timestep(), 86_400);
    assert_eq!(sim.len(), 3);
    assert_eq!(sim.body(1).id(), 1);
    assert_eq!(sim.body(1).mass(), s(1.0e24));
    assert_eq!(sim.body(2).radius(), s(2000.0));
}

#[test]
fn advance_hands_motions_out_in_the_order_of_the_targets() {
    let mut sim = Simulation::with_timestep(60);
    sim.add_body(BodyType::PLANET, s(1.0), s(1.0), v(1.0, 0.0, 0.0), v(0.0, 0.0, 0.0));
    sim.add_body(BodyType::STAR, s(1.0), s(1.0), v(2.0, 0.0, 0.0), v(0.0, 0.0, 0.0));
    sim.add_body(BodyType::STAR, s(1.0), s(1.0), v(3.0, 0.0, 0.0), v(0.0, 0.0, 0.0));
    sim.add_body(BodyType::PLANET, s(1.0), s(1.0), v(4.0, 0.0, 0.0), v(0.0, 0.0, 0.0));
    sim.add_body(BodyType::PLANET, s(1.0), s(1.0), v(5.0, 0.0, 0.0), v(0.0, 0.0, 0.0));
    assert_eq!(sim.targets(), vec![0, 3, 4]);
    sim.advance(vec![at(10.0, 0.0), at(40.0, 0.0), at(50.0, 0.0)]);
    let xs: Vec<f64> = (0..5).map(|i| n(sim.body(i).position().x)).collect();
    assert_eq!(xs, vec![10.0, 2.0, 3.0, 40.0, 50.0]);
    assert_eq!(sim.time(), 60);
}

#[test]
fn advance_counts_the_time_up_and_down() {
    let mut sim = Simulation::with_timestep(3600);
    for _ in 0..24 {
        sim.advance(vec![]);
    }
    assert_eq!(sim.time(), 86_400);
    let mut back = Simulation::with_timestep(-5);
    back.advance(vec![]);
    back.advance(vec![]);
    assert_eq!(back.time(), -10);
}

#[test]
fn update_moves_each_target_to_what_the_integrator_returns() {
    let mut sim = star_and_planets(2);
    let done = sim.update(|sim, target, _pulling| {
        let p = sim.body(target).position();
        Motion::new(v(n(p.x) + 1.0, n(p.y) + 2.0, 0.0), v(target as f64, 0.0, 0.0))
    });
    assert!(done);
    assert_eq!(sim.body(0).position(), v(0.0, 0.0, 0.0));
    assert_eq!(sim.body(1).position(), v(1.0e10 + 1.0, 2.0, 0.0));
    assert_eq!(sim.body(2).position(), v(2.0e10 + 1.0, 2.0, 0.0));
    assert_eq!(sim.body(1).velocity(), v(1.0, 0.0, 0.0));
    assert_eq!(sim.body(2).velocity(), v(2.0, 0.0, 0.0));
    assert_eq!(sim.time(), 86_400);
}

#[test]
fn update_asks_for_each_target_once_with_its_attractors() {
    let mut sim = star_and_planets(3);
    let seen = std::cell::RefCell::new(Vec::new());
    let done = sim.update(|sim, target, pulling| {
        seen.borrow_mut().push((target, pulling.clone()));
        Motion::new(sim.body(target).position(), sim.body(target).velocity())
    });
    assert!(done);
    assert_eq!(
        seen.into_inner(),
        vec![(1, vec![0, 2, 3]), (2, vec![0, 1, 3]), (3, vec![0, 1, 2])]
    );
}

#[test]
fn update_shows_every_call_the_state_before_the_step() {
    let mut sim = star_and_planets(3);
    let done = sim.update(|sim, target, pulling| {
        let mut sum = 0.0;
        for other in pulling.iter() {
            sum += n(sim.body(*other).position().x);
        }
        Motion::new(v(sum, 0.0, 0.0), sim.body(target).velocity())
    });
    assert!(done);
    assert_eq!(n(sim.body(1).position().x), 5.0e10);
    assert_eq!(n(sim.body(2).position().x), 4.0e10);
    assert_eq!(n(sim.body(3).position().x), 3.0e10);
}

#[test]
fn update_never_asks_for_a_star() {
    let mut sim = Simulation::with_timestep(86_400);
    sim.add_body(BodyType::STAR, s(1.9885e30), s(696_340.0), v(0.0, 0.0, 0.0), v(0.0, 0.0, 0.0));
    for step in 1..=1000 {
        let done = sim.update(|_, _, _| panic!("a star is no target"));
        assert!(done);
        assert_eq!(sim.time(), 86_400 * step);
        assert_eq!(sim.body(0).position(), v(0.0, 0.0, 0.0));
        assert_eq!(sim.body(0).velocity(), v(0.0, 0.0, 0.0));
    }
    assert_eq!(sim.len(), 1);
}

#[test]
fn update_leaves_a_moving_star_where_it_is() {
    let mut sim = Simulation::with_timestep(3600);
    sim.add_body(BodyType::STAR, s(1.0e30), s(1000.0), v(1.0, 2.0, 0.0), v(30.0, 40.0, 0.0));
    sim.add_body(BodyType::PLANET, s(1.0e20), s(10.0), v(5.0, 5.0, 0.0), v(0.0, 0.0, 0.0));
    for _ in 0..10 {
        assert!(sim.update(|_, _, _| at(7.0, 7.0)));
    }
    assert_eq!(sim.body(0).position(), v(1.0, 2.0, 0.0));
    assert_eq!(sim.body(0).velocity(), v(30.0, 40.0, 0.0));
    assert_eq!(sim.body(1).position(), v(7.0, 7.0, 0.0));
}

#[test]
fn update_changes_nothing_when_a_motion_is_not_finite() {
    let mut sim = star_and_planets(3);
    let done = sim.update(|_, target, _| {
        if target == 3 {
            at(f64::NAN, 0.0)
        } else {
            at(1.0, 1.0)
        }
    });
    assert!(!done);
    assert_eq!(sim.time(), 0);
    assert_eq!(sim.body(1).position(), v(1.0e10, 0.0, 0.0));
    assert_eq!(sim.body(2).position(), v(2.0e10, 0.0, 0.0));
    assert_eq!(sim.body(3).position(), v(3.0e10, 0.0, 0.0));
    assert_eq!(sim.body(1).velocity(), v(0.0, 100.0, 0.0));
}

#[test]
fn update_runs_past_the_range_of_32_bits() {
    let mut sim = Simulation::with_timestep(i32::MAX);
    sim.add_body(BodyType::PLANET, s(1.0), s(1.0), v(1.0, 0.0, 0.0), v(0.0, 0.0, 0.0));
    assert!(sim.update(|_, _, _| at(2.0, 0.0)));
    assert_eq!(sim.time(), i32::MAX as i64);
    assert!(sim.update(|_, _, _| at(3.0, 0.0)));
    assert_eq!(sim.time(), 4_294_967_294);
    assert_eq!(sim.body(0).position(), v(3.0, 0.0, 0.0));
    assert!(sim.update(|_, _, _| at(4.0, 0.0)));
    assert_eq!(sim.time(), 6_442_450_941);
}

#[test]
fn update_counts_every_hour_of_sixty_eight_years() {
    let mut sim = Simulation::new();
    sim.add_body(BodyType::STAR, s(1.9885e30), s(696_340.0), v(0.0, 0.0, 0.0), v(0.0, 0.0, 0.0));
    for step in 1..=600_001i64 {
        assert!(sim.update(|_, _, _| panic!("a star is no target")));
        if step == 596_523 {
            assert_eq!(sim.time(), 2_147_482_800);
        }
        if step == 596_524 {
            assert_eq!(sim.time(), 2_147_486_400);
        }
    }
    assert_eq!(sim.time(), 600_001 * 3600);
    assert_eq!(sim.time(), 2_160_003_600);
    assert_eq!(sim.body(0).position(), v(0.0, 0.0, 0.0));
}

#[test]
fn update_that_fails_leaves_the_time() {
    let mut sim = Simulation::with_timestep(3600);
    sim.add_body(BodyType::PLANET, s(1.0), s(1.0), v(1.0, 0.0, 0.0), v(0.0, 0.0, 0.0));
    assert!(sim.update(|_, _, _| at(2.0, 0.0)));
    assert!(!sim.update(|_, _, _| at(f64::INFINITY, 0.0)));
    assert_eq!(sim.time(), 3600);
    assert_eq!(sim.body(0).position(), v(2.0, 0.0, 0.0));
    assert!(sim.update(|_, _, _| at(5.0, 0.0)));
    assert_eq!(sim.time(), 7200);
}

#[test]
fn record_gives_each_body_its_own_frame() {
    let mut sim = star_and_planets(2);
    sim.record(vec![frame(0.0, 1.0, 1.0), frame(0.5, 2.0, 2.0), frame(-0.5, 3.0, 3.0)]);
    for i in 0..3 {
        assert_eq!(sim.body(i).trail().len(), 1);
        let coordinate = s(1.0 + i as f64);
        assert_eq!(sim.body(i).trail().sample(0), Point::new(coordinate, coordinate));
    }
    assert_eq!(sim.body(1).trail().accumulated_angle(), s(0.5));
    assert_eq!(sim.body(2).trail().accumulated_angle(), s(-0.5));
    sim.record(vec![frame(0.0, 4.0, 4.0), frame(1.0, 5.0, 5.0), frame(0.25, 6.0, 6.0)]);
    assert_eq!(sim.body(0).trail().len(), 2);
    assert_eq!(sim.body(1).trail().len(), 2);
    assert_eq!(sim.body(2).trail().len(), 1);
    assert!(sim.body(2).trail().completed());
    assert!(!sim.body(1).trail().completed());
    assert_eq!(sim.time(), 0);
    assert_eq!(sim.body(1).position(), v(1.0e10, 0.0, 0.0));
}

#[test]
fn draw_asks_for_a_frame_of_each_body() {
    let mut sim = star_and_planets(2);
    sim.draw(|body| frame(0.5, body.id() as f64, n(body.position().x)));
    for i in 0..3 {
        assert_eq!(sim.body(i).trail().len(), 1);
        assert_eq!(sim.body(i).trail().accumulated_angle(), s(0.5));
    }
    assert_eq!(sim.body(0).trail().sample(0), Point::new(s(0.0), s(0.0)));
    assert_eq!(sim.body(1).trail().sample(0), Point::new(s(1.0), s(1.0e10)));
    assert_eq!(sim.body(2).trail().sample(0), Point::new(s(2.0), s(2.0e10)));
    assert_eq!(sim.time(), 0);
}

#[test]
fn draw_of_nothing_does_nothing() {
    let mut sim = Simulation::new();
    sim.draw(|_| panic!("there is no body"));
    sim.record(vec![]);
    assert_eq!(sim.len(), 0);
}

#[test]
fn trails_grow_by_one_for_each_draw_until_completed() {
    let mut sim = star_and_planets(1);
    let sums = [0.5, -0.5, -0.25, 0.75, 1.0, -1.0];
    let mut lengths = Vec::new();
    for sum in sums {
        sim.draw(|_| frame(sum, 0.0, 0.0));
        lengths.push(sim.body(1).trail().len());
    }
    assert_eq!(lengths, vec![1, 2, 3, 3, 3, 3]);
    assert!(sim.body(1).trail().completed());
}
