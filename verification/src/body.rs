//! A point mass: what it is, where it is, and the trail it leaves.
use vstd::prelude::*;
use crate::scalar::Scalar;
use crate::select::{chosen, indices, lemma_chosen_sound, lemma_chosen_step};
use crate::trail::{Frame, OrbitTrail, TrailView};
use crate::vector::{Motion, Point, Vector};

verus! {

/// A star stays where it is and pulls on the others; a planet is pulled.
#[derive(Clone, Copy, Debug, PartialEq, Eq, Structural)]
pub enum BodyType {
    STAR,
    PLANET,
}

/// A simulated point mass.
#[derive(Debug)]
pub struct Body {
    id: u64,
    type_: BodyType,
    mass: Scalar,
    radius: Scalar,
    position: Vector,
    velocity: Vector,
    trail: OrbitTrail,
}

/// The mathematical content of a `Body`.
pub struct BodyView {
    /// The identifier by which the body is told from the others.
    pub id: int,
    /// Star or planet.
    pub kind: BodyType,
    /// The mass in kilograms.
    pub mass: Scalar,
    /// The radius in kilometres.
    pub radius: Scalar,
    /// The position in metres.
    pub position: Vector,
    /// The velocity in metres per second.
    pub velocity: Vector,
    /// The trail of the body on the screen.
    pub trail: TrailView,
}

impl BodyView {
    /// Mass and radius are greater than zero; position and velocity are
    /// finite.
    pub open spec fn wf(self) -> bool {
        &&& self.mass.positive()
        &&& self.radius.positive()
        &&& self.position.finite()
        &&& self.velocity.finite()
    }

    /// A body as it is created: at its first position, with an empty trail.
    pub open spec fn fresh(
        id: int,
        kind: BodyType,
        mass: Scalar,
        radius: Scalar,
        position: Vector,
        velocity: Vector,
    ) -> BodyView {
        BodyView { id, kind, mass, radius, position, velocity, trail: TrailView::empty() }
    }

    /// Position and velocity, together.
    pub open spec fn motion(self) -> Motion {
        Motion { position: self.position, velocity: self.velocity }
    }

    /// The body with a new position and velocity, and nothing else changed.
    pub open spec fn moved(self, next: Motion) -> BodyView {
        BodyView { position: next.position, velocity: next.velocity, ..self }
    }

    /// The body after one more frame of its trail, and nothing else changed.
    pub open spec fn drawn(self, frame: Frame) -> BodyView {
        BodyView { trail: self.trail.record(frame), ..self }
    }
}

/// The views of a row of bodies.
pub open spec fn views(bodies: Seq<Body>) -> Seq<BodyView> {
    Seq::new(bodies.len(), |i: int| bodies[i]@)
}

/// For each body of a row, whether its identifier differs from `id`.
pub open spec fn strangers(bodies: Seq<BodyView>, id: int) -> Seq<bool> {
    Seq::new(bodies.len(), |i: int| bodies[i].id != id)
}

/// The positions, within a row of bodies, of those that pull on the body
/// with identifier `id`: every body of the row but the ones that carry that
/// identifier, in the order of the row.
pub open spec fn attractors(bodies: Seq<BodyView>, id: int) -> Seq<int> {
    chosen(strangers(bodies, id))
}

impl View for Body {
    type V = BodyView;

    closed spec fn view(&self) -> BodyView {
        BodyView {
            id: self.id as int,
            kind: self.type_,
            mass: self.mass,
            radius: self.radius,
            position: self.position,
            velocity: self.velocity,
            trail: self.trail@,
        }
    }
}

impl Clone for Body {
    /// A body with the same content: identifier, state and trail.
    fn clone(&self) -> (copy: Body)
        ensures
            copy@ == self@,
    {
        Body {
            id: self.id,
            type_: self.type_,
            mass: self.mass,
            radius: self.radius,
            position: self.position,
            velocity: self.velocity,
            trail: self.trail.clone(),
        }
    }
}

impl Body {
    /// A body with the identifier that its maker assigns to it.
    pub fn new(
        id: u64,
        type_: BodyType,
        mass: Scalar,
        radius: Scalar,
        position: Vector,
        velocity: Vector,
    ) -> (body: Body)
        requires
            mass.positive(),
            radius.positive(),
            position.finite(),
            velocity.finite(),
        ensures
            body@ == BodyView::fresh(id as int, type_, mass, radius, position, velocity),
            body@.wf(),
    {
        Body { id, type_, mass, radius, position, velocity, trail: OrbitTrail::new() }
    }

    /// The identifier.
    pub fn id(&self) -> (id: u64)
        ensures
            id == self@.id,
    {
        self.id
    }

    /// Star or planet.
    pub fn type_(&self) -> (kind: BodyType)
        ensures
            kind == self@.kind,
    {
        self.type_
    }

    /// The mass in kilograms.
    pub fn mass(&self) -> (mass: Scalar)
        ensures
            mass == self@.mass,
    {
        self.mass
    }

    /// The radius in kilometres.
    pub fn radius(&self) -> (radius: Scalar)
        ensures
            radius == self@.radius,
    {
        self.radius
    }

    /// The position in metres.
    pub fn position(&self) -> (position: Vector)
        ensures
            position == self@.position,
    {
        self.position
    }

    /// The velocity in metres per second.
    pub fn velocity(&self) -> (velocity: Vector)
        ensures
            velocity == self@.velocity,
    {
        self.velocity
    }

    /// The trail.
    pub fn trail(&self) -> (trail: &OrbitTrail)
        ensures
            trail@ == self@.trail,
    {
        &self.trail
    }

    /// The bodies of `bodies` whose pull on this body counts, by position:
    /// all of them but those that carry this body's identifier.
    pub fn attractors(&self, bodies: &Vec<Body>) -> (pulling: Vec<usize>)
        ensures
            indices(pulling@) == attractors(views(bodies@), self@.id),
            forall|k: int|
                0 <= k < pulling@.len() ==> (#[trigger] pulling@[k]) < bodies@.len()
                    && bodies@[pulling@[k] as int]@.id != self@.id,
    {
        let mut pulling: Vec<usize> = Vec::new();
        let ghost flags = strangers(views(bodies@), self@.id);
        let mut i: usize = 0;
        while i < bodies.len()
            invariant
                0 <= i <= bodies.len(),
                flags == strangers(views(bodies@), self@.id),
                indices(pulling@) == chosen(flags.take(i as int)),
            decreases bodies.len() - i,
        {
            proof {
                lemma_chosen_step(flags, i as int);
            }
            if bodies[i].id != self.id {
                pulling.push(i);
                assert(indices(pulling@) =~= chosen(flags.take(i as int)).push(i as int));
            }
            i = i + 1;
        }
        proof {
            assert(flags.take(i as int) =~= flags);
            assert forall|k: int| 0 <= k < pulling@.len() implies (#[trigger] pulling@[k])
                < bodies@.len() && bodies@[pulling@[k] as int]@.id != self@.id by {
                lemma_chosen_sound(flags, k);
                assert(indices(pulling@)[k] == pulling@[k]);
            }
        }
        pulling
    }

    /// Puts the body where one step of the integration has taken it.
    pub fn update(&mut self, next: Motion)
        requires
            next.finite(),
        ensures
            final(self)@ == old(self)@.moved(next),
            old(self)@.wf() ==> final(self)@.wf(),
    {
        self.position = next.position;
        self.velocity = next.velocity;
    }

    /// Takes one frame into the body's trail.
    pub fn draw(&mut self, swept: Scalar, point: Point)
        ensures
            final(self)@ == old(self)@.drawn((Frame { swept, point })),
    {
        self.trail.update(swept, point);
    }
}

} // verus!
