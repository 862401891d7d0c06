//! The set of bodies and the clock that advances them.
use vstd::prelude::*;
use crate::body::{attractors, views, Body, BodyType, BodyView};
use crate::scalar::Scalar;
use crate::select::{chosen, indices, lemma_chosen_complete, lemma_chosen_step, rank};
use crate::trail::Frame;
use crate::vector::{Motion, Vector};

verus! {

/// The bodies in the order in which they were added, and the time.
#[derive(Debug)]
pub struct Simulation {
    bodies: Vec<Body>,
    next_id: u64,
    time: i64,
    timestep: i32,
}

/// The mathematical content of a `Simulation`.
pub struct SimulationView {
    /// The bodies, in the order in which they were added.
    pub bodies: Seq<BodyView>,
    /// The identifier that the next body will get.
    pub next_id: int,
    /// The simulated time that has passed, in seconds.
    pub time: int,
    /// The simulated time of one step, in seconds.
    pub timestep: int,
}

impl SimulationView {
    /// Each body is well formed and carries its own position in the row as
    /// its identifier, so no two bodies share one; the next identifier is
    /// the number of bodies.
    pub open spec fn wf(self) -> bool {
        &&& self.next_id == self.bodies.len()
        &&& forall|i: int| 0 <= i < self.bodies.len() ==> #[trigger] self.bodies[i].id == i
        &&& forall|i: int| 0 <= i < self.bodies.len() ==> #[trigger] self.bodies[i].wf()
    }

    /// A simulation without bodies, at time zero.
    pub open spec fn empty(timestep: int) -> SimulationView {
        SimulationView { bodies: Seq::empty(), next_id: 0, time: 0, timestep }
    }

    /// No body is at `position`.
    pub open spec fn vacant(self, position: Vector) -> bool {
        forall|i: int| 0 <= i < self.bodies.len() ==> !(#[trigger] self.bodies[i]).position.coincides(
            position,
        )
    }

    /// No two bodies are at the same place.
    pub open spec fn apart(self) -> bool {
        forall|i: int, j: int|
            0 <= i < j < self.bodies.len() ==> !(#[trigger] self.bodies[i]).position.coincides(
                (#[trigger] self.bodies[j]).position,
            )
    }

    /// The simulation with one more body, which gets the next identifier.
    pub open spec fn with_body(
        self,
        kind: BodyType,
        mass: Scalar,
        radius: Scalar,
        position: Vector,
        velocity: Vector,
    ) -> SimulationView {
        SimulationView {
            bodies: self.bodies.push(
                BodyView::fresh(self.next_id, kind, mass, radius, position, velocity),
            ),
            next_id: self.next_id + 1,
            ..self
        }
    }

    /// For each body, whether a step moves it: whether it is no star.
    pub open spec fn mobile(self) -> Seq<bool> {
        Seq::new(self.bodies.len(), |i: int| self.bodies[i].kind != BodyType::STAR)
    }

    /// The positions of the bodies that a step moves, in increasing order.
    pub open spec fn targets(self) -> Seq<int> {
        chosen(self.mobile())
    }

    /// The positions of the bodies that pull on the body at `target`.
    pub open spec fn attractors(self, target: int) -> Seq<int> {
        attractors(self.bodies, self.bodies[target].id)
    }

    /// `moved` can be the outcome of a step: it holds one finite motion for
    /// each body that moves.
    pub open spec fn admits(self, moved: Seq<Motion>) -> bool {
        &&& moved.len() == self.targets().len()
        &&& forall|k: int| 0 <= k < moved.len() ==> (#[trigger] moved[k]).finite()
    }

    /// The time one step later is a time that the machine can hold, in 64
    /// bits.
    pub open spec fn room(self) -> bool {
        i64::MIN <= self.time + self.timestep <= i64::MAX
    }

    /// The simulation one step later: each body that moves has taken its
    /// motion from `moved`, the first of them the first motion and so on; a
    /// star is as it was; the time has grown by one step.
    pub open spec fn advanced(self, moved: Seq<Motion>) -> SimulationView {
        SimulationView {
            bodies: Seq::new(
                self.bodies.len(),
                |i: int|
                    if self.bodies[i].kind == BodyType::STAR {
                        self.bodies[i]
                    } else {
                        self.bodies[i].moved(moved[rank(self.mobile(), i) as int])
                    },
            ),
            time: self.time + self.timestep,
            ..self
        }
    }

    /// Nothing has happened to the stars since `before`: the bodies are as
    /// many as they were, and each star among them is the body it was.
    pub open spec fn same_stars(self, before: SimulationView) -> bool {
        &&& self.bodies.len() == before.bodies.len()
        &&& forall|i: int|
            0 <= i < before.bodies.len() && (#[trigger] before.bodies[i]).kind == BodyType::STAR
                ==> self.bodies[i] == before.bodies[i]
    }

    /// The simulation after a run of steps, the first of them first.
    pub open spec fn run(self, steps: Seq<Seq<Motion>>) -> SimulationView
        decreases steps.len(),
    {
        if steps.len() == 0 {
            self
        } else {
            self.run(steps.drop_last()).advanced(steps.last())
        }
    }

    /// The simulation after one draw pass: each body has taken its frame
    /// into its trail.
    pub open spec fn drawn(self, frames: Seq<Frame>) -> SimulationView {
        SimulationView {
            bodies: Seq::new(self.bodies.len(), |i: int| self.bodies[i].drawn(frames[i])),
            ..self
        }
    }
}

impl View for Simulation {
    type V = SimulationView;

    closed spec fn view(&self) -> SimulationView {
        SimulationView {
            bodies: views(self.bodies@),
            next_id: self.next_id as int,
            time: self.time as int,
            timestep: self.timestep as int,
        }
    }
}

impl Simulation {
    /// An empty simulation that advances by one hour in each step.
    pub fn new() -> (sim: Simulation)
        ensures
            sim@ == SimulationView::empty(3600),
            sim@.wf(),
    {
        Simulation::with_timestep(3600)
    }

    /// An empty simulation that advances by `timestep` seconds in each step.
    pub fn with_timestep(timestep: i32) -> (sim: Simulation)
        ensures
            sim@ == SimulationView::empty(timestep as int),
            sim@.wf(),
    {
        let sim = Simulation { bodies: Vec::new(), next_id: 0, time: 0, timestep };
        assert(sim@.bodies =~= Seq::empty());
        sim
    }

    /// The number of bodies.
    pub fn len(&self) -> (n: usize)
        ensures
            n == self@.bodies.len(),
    {
        self.bodies.len()
    }

    /// The body at `index`, as the value that the simulation holds.
    pub closed spec fn body_at(self, index: int) -> Body {
        self.bodies@[index]
    }

    /// The body at `index`, in the order in which the bodies were added.
    pub fn body(&self, index: usize) -> (body: &Body)
        requires
            index < self@.bodies.len(),
        ensures
            *body == self.body_at(index as int),
            body@ == self@.bodies[index as int],
    {
        &self.bodies[index]
    }

    /// The simulated time that has passed, in seconds.
    pub fn time(&self) -> (time: i64)
        ensures
            time == self@.time,
    {
        self.time
    }

    /// Whether the machine can hold the time one step later.
    pub fn has_room(&self) -> (room: bool)
        ensures
            room == self@.room(),
    {
        self.time.checked_add(self.timestep as i64).is_some()
    }

    /// The simulated time of one step, in seconds.
    pub fn timestep(&self) -> (timestep: i32)
        ensures
            timestep == self@.timestep,
    {
        self.timestep
    }

    /// Whether no body is at `position`.
    pub fn is_vacant(&self, position: &Vector) -> (free: bool)
        ensures
            free == self@.vacant(*position),
    {
        let mut i: usize = 0;
        while i < self.bodies.len()
            invariant
                0 <= i <= self.bodies.len(),
                forall|j: int| 0 <= j < i ==> !(#[trigger] self@.bodies[j]).position.coincides(*position),
            decreases self.bodies.len() - i,
        {
            if self.bodies[i].position().is_coincident(position) {
                assert(self@.bodies[i as int].position.coincides(*position));
                return false;
            }
            i = i + 1;
        }
        true
    }

    /// Adds a body and returns the identifier it was given.
    pub fn add_body(
        &mut self,
        type_: BodyType,
        mass: Scalar,
        radius: Scalar,
        position: Vector,
        velocity: Vector,
    ) -> (id: u64)
        requires
            old(self)@.wf(),
            mass.positive(),
            radius.positive(),
            position.finite(),
            velocity.finite(),
            old(self)@.vacant(position),
        ensures
            id == old(self)@.next_id,
            final(self)@ == old(self)@.with_body(type_, mass, radius, position, velocity),
            final(self)@.wf(),
            old(self)@.apart() ==> final(self)@.apart(),
    {
        let id = self.next_id;
        self.bodies.push(Body::new(id, type_, mass, radius, position, velocity));
        let count = self.bodies.len();
        self.next_id = count as u64;
        assert(self@.bodies =~= old(self)@.with_body(
            type_,
            mass,
            radius,
            position,
            velocity,
        ).bodies);
        id
    }

    /// The bodies that a step moves, by position: all but the stars.
    pub fn targets(&self) -> (moving: Vec<usize>)
        ensures
            indices(moving@) == self@.targets(),
    {
        let mut moving: Vec<usize> = Vec::new();
        let ghost flags = self@.mobile();
        let mut i: usize = 0;
        while i < self.bodies.len()
            invariant
                0 <= i <= self.bodies.len(),
                flags == self@.mobile(),
                indices(moving@) == chosen(flags.take(i as int)),
            decreases self.bodies.len() - i,
        {
            proof {
                lemma_chosen_step(flags, i as int);
            }
            if self.bodies[i].type_() != BodyType::STAR {
                moving.push(i);
                assert(indices(moving@) =~= chosen(flags.take(i as int)).push(i as int));
            }
            i = i + 1;
        }
        assert(flags.take(i as int) =~= flags);
        moving
    }

    /// The bodies that pull on the body at `target`, by position: all but
    /// that body itself, which is told from the others by its identifier.
    pub fn attractors(&self, target: usize) -> (pulling: Vec<usize>)
        requires
            target < self@.bodies.len(),
        ensures
            indices(pulling@) == self@.attractors(target as int),
            forall|k: int|
                0 <= k < pulling@.len() ==> (#[trigger] pulling@[k]) < self@.bodies.len()
                    && self@.bodies[pulling@[k] as int].id != self@.bodies[target as int].id,
    {
        self.bodies[target].attractors(&self.bodies)
    }

    /// Whether `moved` can be the outcome of a step.
    pub fn accepts(&self, moved: &Vec<Motion>) -> (fit: bool)
        ensures
            fit == self@.admits(moved@),
    {
        let moving = self.targets();
        if moved.len() != moving.len() {
            return false;
        }
        let mut k: usize = 0;
        while k < moved.len()
            invariant
                0 <= k <= moved.len(),
                forall|j: int| 0 <= j < k ==> (#[trigger] moved@[j]).finite(),
            decreases moved.len() - k,
        {
            if !moved[k].is_finite() {
                return false;
            }
            k = k + 1;
        }
        true
    }

    /// Advances the simulation by one step, of which `moved` is the outcome:
    /// the new motion of each body that moves, computed from the bodies as
    /// they are before the call.
    pub fn advance(&mut self, moved: Vec<Motion>)
        requires
            old(self)@.admits(moved@),
            old(self)@.room(),
        ensures
            final(self)@ == old(self)@.advanced(moved@),
            final(self)@.time == old(self)@.time + old(self)@.timestep,
            final(self)@.same_stars(old(self)@),
            old(self)@.wf() ==> final(self)@.wf(),
    {
        let ghost before = self@;
        let ghost flags = self@.mobile();
        let mut i: usize = 0;
        let mut k: usize = 0;
        while i < self.bodies.len()
            invariant
                0 <= i <= self.bodies.len(),
                self.bodies.len() == before.bodies.len(),
                self.next_id == before.next_id,
                self.time == before.time,
                self.timestep == before.timestep,
                flags == before.mobile(),
                moved@.len() == chosen(flags).len(),
                forall|j: int| 0 <= j < moved@.len() ==> (#[trigger] moved@[j]).finite(),
                k == rank(flags, i as int),
                forall|j: int|
                    0 <= j < i ==> (#[trigger] self.bodies@[j])@ == before.advanced(
                        moved@,
                    ).bodies[j],
                forall|j: int|
                    i <= j < self.bodies.len() ==> (#[trigger] self.bodies@[j])@ == before.bodies[j],
            decreases self.bodies.len() - i,
        {
            proof {
                lemma_chosen_step(flags, i as int);
            }
            if self.bodies[i].type_() != BodyType::STAR {
                proof {
                    lemma_chosen_complete(flags, i as int);
                }
                self.bodies[i].update(moved[k]);
                k = k + 1;
            }
            i = i + 1;
        }
        self.time = self.time + self.timestep as i64;
        proof {
            assert(self@.bodies =~= before.advanced(moved@).bodies);
            if before.wf() {
                lemma_advanced_wf(before, moved@);
            }
        }
    }

    /// Takes one frame into the trail of each body: the frame at a body's
    /// position in `frames` is that body's.
    pub fn record(&mut self, frames: Vec<Frame>)
        requires
            frames@.len() == old(self)@.bodies.len(),
        ensures
            final(self)@ == old(self)@.drawn(frames@),
            old(self)@.wf() ==> final(self)@.wf(),
    {
        let ghost before = self@;
        let mut i: usize = 0;
        while i < self.bodies.len()
            invariant
                0 <= i <= self.bodies.len(),
                self.bodies.len() == before.bodies.len(),
                frames@.len() == before.bodies.len(),
                self.next_id == before.next_id,
                self.time == before.time,
                self.timestep == before.timestep,
                forall|j: int|
                    0 <= j < i ==> (#[trigger] self.bodies@[j])@ == before.bodies[j].drawn(
                        frames@[j],
                    ),
                forall|j: int|
                    i <= j < self.bodies.len() ==> (#[trigger] self.bodies@[j])@ == before.bodies[j],
            decreases self.bodies.len() - i,
        {
            let frame = frames[i];
            self.bodies[i].draw(frame.swept, frame.point);
            i = i + 1;
        }
        proof {
            assert(self@.bodies =~= before.drawn(frames@).bodies);
            if before.wf() {
                lemma_drawn_wf(before, frames@);
            }
        }
    }

    /// A step asks its integrator for the body at `target` with the row
    /// `pulling`: that body is no star, and `pulling` holds its attractors.
    pub open spec fn asks(self, target: usize, pulling: Vec<usize>) -> bool {
        &&& target < self@.bodies.len()
        &&& self@.bodies[target as int].kind != BodyType::STAR
        &&& indices(pulling@) == self@.attractors(target as int)
    }

    /// `motion` is what `integrate` can return for the body at `target`,
    /// called on this simulation and on the attractors of that body.
    pub open spec fn integrated<F: Fn(&Simulation, usize, &Vec<usize>) -> Motion>(
        self,
        integrate: F,
        target: int,
        motion: Motion,
    ) -> bool {
        exists|pulling: Vec<usize>|
            indices(pulling@) == self@.attractors(target) && #[trigger] call_ensures(
                integrate,
                (&self, target as usize, &pulling),
                motion,
            )
    }

    /// `moved` is an outcome of one step that `integrate` can give: for each
    /// body that moves, in order, a motion that `integrate` can return for
    /// it on this simulation.
    pub open spec fn outcome<F: Fn(&Simulation, usize, &Vec<usize>) -> Motion>(
        self,
        integrate: F,
        moved: Seq<Motion>,
    ) -> bool {
        &&& moved.len() == self@.targets().len()
        &&& forall|k: int|
            0 <= k < moved.len() ==> self.integrated(
                integrate,
                #[trigger] self@.targets()[k],
                moved[k],
            )
    }

    /// One step with `integrate` can lead from this simulation to `next`:
    /// `next` is this simulation advanced by an admitted outcome of
    /// `integrate`.
    pub open spec fn steps_to<F: Fn(&Simulation, usize, &Vec<usize>) -> Motion>(
        self,
        integrate: F,
        next: SimulationView,
    ) -> bool {
        exists|moved: Seq<Motion>|
            #![trigger self@.advanced(moved)]
            self.outcome(integrate, moved) && self@.admits(moved) && next == self@.advanced(moved)
    }

    /// No step with `integrate` need succeed from this simulation:
    /// `integrate` can return a motion that is not finite.
    pub open spec fn can_fail<F: Fn(&Simulation, usize, &Vec<usize>) -> Motion>(
        self,
        integrate: F,
    ) -> bool {
        exists|k: int, motion: Motion|
            0 <= k < self@.targets().len() && #[trigger] self.integrated(
                integrate,
                self@.targets()[k],
                motion,
            ) && !motion.finite()
    }

    /// Advances the simulation by one step. The new motion of each body
    /// that moves is what `integrate` returns for it; every call of
    /// `integrate` sees the simulation as it is before the step, with the
    /// position of the body to move and the positions of the bodies that
    /// pull on it. A star is not moved, and the time grows by one timestep.
    /// The step fails only where a returned motion is not finite: then
    /// nothing changes, the time neither, and the result is `false`.
    pub fn update<F: Fn(&Simulation, usize, &Vec<usize>) -> Motion>(&mut self, integrate: F) -> (done: bool)
        requires
            old(self)@.room(),
            forall|target: usize, pulling: Vec<usize>|
                old(self).asks(target, pulling) ==> call_requires(
                    integrate,
                    (&*old(self), target, &pulling),
                ),
        ensures
            done ==> old(self).steps_to(integrate, final(self)@),
            done ==> final(self)@.time == old(self)@.time + old(self)@.timestep,
            !done ==> final(self)@ == old(self)@ && old(self).can_fail(integrate),
            final(self)@.same_stars(old(self)@),
            old(self)@.wf() ==> final(self)@.wf(),
    {
        let moving = self.targets();
        let mut moved: Vec<Motion> = Vec::new();
        let mut k: usize = 0;
        while k < moving.len()
            invariant
                0 <= k <= moving.len(),
                *self == *old(self),
                indices(moving@) == self@.targets(),
                moved@.len() == k,
                forall|target: usize, pulling: Vec<usize>|
                    self.asks(target, pulling) ==> call_requires(
                        integrate,
                        (&*self, target, &pulling),
                    ),
                forall|j: int| 0 <= j < k ==> (#[trigger] moved@[j]).finite(),
                forall|j: int|
                    0 <= j < k ==> self.integrated(integrate, #[trigger] self@.targets()[j], moved@[j]),
            decreases moving.len() - k,
        {
            let target = moving[k];
            proof {
                assert(indices(moving@)[k as int] == target);
                crate::laws::lemma_targets_are_no_stars(self@, k as int);
            }
            let pulling = self.attractors(target);
            assert(self.asks(target, pulling));
            let motion = integrate(&*self, target, &pulling);
            assert(self.integrated(integrate, target as int, motion));
            if !motion.is_finite() {
                assert(self.can_fail(integrate));
                return false;
            }
            moved.push(motion);
            k = k + 1;
        }
        let ghost before = *self;
        assert(before.outcome(integrate, moved@));
        self.advance(moved);
        true
    }

    /// `frames` is what `project` can return for the bodies of this
    /// simulation: one frame for each body, in order.
    pub open spec fn projected<F: Fn(&Body) -> Frame>(self, project: F, frames: Seq<Frame>) -> bool {
        &&& frames.len() == self@.bodies.len()
        &&& forall|i: int|
            0 <= i < frames.len() ==> call_ensures(
                project,
                (&self.body_at(i),),
                #[trigger] frames[i],
            )
    }

    /// One draw pass with `project` can lead from this simulation to
    /// `next`: each body has taken into its trail a frame that `project`
    /// can return for it.
    pub open spec fn draws_to<F: Fn(&Body) -> Frame>(
        self,
        project: F,
        next: SimulationView,
    ) -> bool {
        exists|frames: Seq<Frame>|
            #![trigger self@.drawn(frames)]
            self.projected(project, frames) && next == self@.drawn(frames)
    }

    /// Runs one draw pass: asks `project` for the frame of each body, and
    /// takes that frame into the body's trail.
    pub fn draw<F: Fn(&Body) -> Frame>(&mut self, project: F)
        requires
            forall|i: int|
                0 <= i < old(self)@.bodies.len() ==> call_requires(
                    project,
                    (&#[trigger] old(self).body_at(i),),
                ),
        ensures
            old(self).draws_to(project, final(self)@),
            old(self)@.wf() ==> final(self)@.wf(),
    {
        let mut frames: Vec<Frame> = Vec::new();
        let mut i: usize = 0;
        while i < self.bodies.len()
            invariant
                0 <= i <= self.bodies.len(),
                *self == *old(self),
                frames@.len() == i,
                forall|j: int|
                    0 <= j < self@.bodies.len() ==> call_requires(
                        project,
                        (&#[trigger] self.body_at(j),),
                    ),
                forall|j: int|
                    0 <= j < i ==> call_ensures(
                        project,
                        (&self.body_at(j),),
                        #[trigger] frames@[j],
                    ),
            decreases self.bodies.len() - i,
        {
            assert(self.bodies@[i as int] == self.body_at(i as int));
            let frame = project(&self.bodies[i]);
            frames.push(frame);
            i = i + 1;
        }
        assert(self.projected(project, frames@));
        self.record(frames);
    }
}

/// A step keeps a well-formed simulation well formed: it changes no
/// identifier, mass or radius, and puts finite motions in place of finite
/// motions.
pub proof fn lemma_advanced_wf(sim: SimulationView, moved: Seq<Motion>)
    requires
        sim.wf(),
        sim.admits(moved),
    ensures
        sim.advanced(moved).wf(),
{
    let next = sim.advanced(moved);
    assert forall|i: int| 0 <= i < next.bodies.len() implies (#[trigger] next.bodies[i]).wf()
        && next.bodies[i].id == i by {
        assert(sim.bodies[i].wf());
        if sim.bodies[i].kind != BodyType::STAR {
            lemma_chosen_complete(sim.mobile(), i);
            assert(moved[rank(sim.mobile(), i) as int].finite());
        }
    }
}

/// A draw pass keeps a well-formed simulation well formed: it changes
/// nothing but trails.
pub proof fn lemma_drawn_wf(sim: SimulationView, frames: Seq<Frame>)
    requires
        sim.wf(),
    ensures
        sim.drawn(frames).wf(),
{
    let next = sim.drawn(frames);
    assert forall|i: int| 0 <= i < next.bodies.len() implies (#[trigger] next.bodies[i]).wf()
        && next.bodies[i].id == i by {
        assert(sim.bodies[i].wf());
    }
}

} // verus!
