//! The trail of screen points that a body leaves behind, frozen once the
//! body has gone round the origin.
use vstd::prelude::*;
use crate::scalar::Scalar;
use crate::vector::Point;

verus! {

/// What one frame contributes to a trail.
#[derive(Clone, Copy, Debug, PartialEq, Eq, Structural)]
pub struct Frame {
    /// The trail's accumulated angle with this frame's polar angle added.
    pub swept: Scalar,
    /// The body's place on the screen in this frame.
    pub point: Point,
}

/// The samples of one body's path, with the state of the revolution test.
#[derive(Debug)]
pub struct OrbitTrail {
    accumulated_angle: Scalar,
    completed: bool,
    samples: Vec<Point>,
}

/// The mathematical content of an `OrbitTrail`.
pub struct TrailView {
    /// The running sum of the polar angles of the frames recorded so far.
    pub accumulated_angle: Scalar,
    /// The body has gone round once; the trail no longer changes.
    pub completed: bool,
    /// The recorded screen points, oldest first.
    pub samples: Seq<Point>,
}

/// The step between drawn samples: the whole part of the quotient, raised
/// to one where it is zero.
pub open spec fn stride(quotient: Scalar) -> int {
    if quotient.index() == 0 {
        1
    } else {
        quotient.index() as int
    }
}

impl TrailView {
    /// The trail of a body that has not been drawn yet.
    pub open spec fn empty() -> TrailView {
        TrailView {
            accumulated_angle: Scalar { bits: 0 },
            completed: false,
            samples: Seq::empty(),
        }
    }

    /// The running sum passes through zero from below: it is negative now
    /// and `swept`, its next value, is positive.
    pub open spec fn crosses(self, swept: Scalar) -> bool {
        self.accumulated_angle.negative() && swept.positive()
    }

    /// The trail after one more frame. A completed trail stays as it is; a
    /// crossing completes the trail and records nothing; any other frame is
    /// recorded, and its sum becomes the accumulated angle.
    pub open spec fn record(self, frame: Frame) -> TrailView {
        if self.completed {
            self
        } else if self.crosses(frame.swept) {
            TrailView { completed: true, ..self }
        } else {
            TrailView {
                accumulated_angle: frame.swept,
                completed: false,
                samples: self.samples.push(frame.point),
            }
        }
    }

    /// The trail after a run of frames, the first of them first.
    pub open spec fn replay(self, frames: Seq<Frame>) -> TrailView
        decreases frames.len(),
    {
        if frames.len() == 0 {
            self
        } else {
            self.replay(frames.drop_last()).record(frames.last())
        }
    }

    /// The samples that are drawn: the first, and from there every one that
    /// lies a whole number of strides further on.
    pub open spec fn selection(self, quotient: Scalar) -> Seq<Point> {
        let n = stride(quotient);
        Seq::new(((self.samples.len() + n - 1) / n) as nat, |k: int| self.samples[k * n])
    }
}

impl View for OrbitTrail {
    type V = TrailView;

    closed spec fn view(&self) -> TrailView {
        TrailView {
            accumulated_angle: self.accumulated_angle,
            completed: self.completed,
            samples: self.samples@,
        }
    }
}

impl Clone for OrbitTrail {
    /// A trail with the same content.
    fn clone(&self) -> (copy: OrbitTrail)
        ensures
            copy@ == self@,
    {
        let mut samples: Vec<Point> = Vec::new();
        let mut i: usize = 0;
        while i < self.samples.len()
            invariant
                0 <= i <= self.samples.len(),
                samples@ == self.samples@.take(i as int),
            decreases self.samples.len() - i,
        {
            samples.push(self.samples[i]);
            assert(samples@ =~= self.samples@.take(i + 1));
            i = i + 1;
        }
        assert(samples@ =~= self.samples@);
        OrbitTrail {
            accumulated_angle: self.accumulated_angle,
            completed: self.completed,
            samples,
        }
    }
}

impl OrbitTrail {
    /// A trail with no sample, an accumulated angle of zero, not completed.
    pub fn new() -> (trail: OrbitTrail)
        ensures
            trail@ == TrailView::empty(),
    {
        OrbitTrail { accumulated_angle: Scalar::zero(), completed: false, samples: Vec::new() }
    }

    /// The running sum of polar angles.
    pub fn accumulated_angle(&self) -> (angle: Scalar)
        ensures
            angle == self@.accumulated_angle,
    {
        self.accumulated_angle
    }

    /// Whether the trail has stopped growing.
    pub fn completed(&self) -> (done: bool)
        ensures
            done == self@.completed,
    {
        self.completed
    }

    /// The number of recorded samples.
    pub fn len(&self) -> (n: usize)
        ensures
            n == self@.samples.len(),
    {
        self.samples.len()
    }

    /// The sample at `index`, counted from the oldest.
    pub fn sample(&self, index: usize) -> (p: Point)
        requires
            index < self@.samples.len(),
        ensures
            p == self@.samples[index as int],
    {
        self.samples[index]
    }

    /// The oldest sample, from which the stride of the drawn samples is
    /// derived; `None` while nothing is recorded.
    pub fn first(&self) -> (p: Option<Point>)
        ensures
            self@.samples.len() == 0 ==> p.is_none(),
            self@.samples.len() > 0 ==> p == Some(self@.samples[0]),
    {
        if self.samples.len() == 0 {
            None
        } else {
            Some(self.samples[0])
        }
    }

    /// Takes one frame into the trail: `swept` is the accumulated angle with
    /// the polar angle of the body in this frame added, `point` the place of
    /// the body on the screen. The trail never loses a sample, gains at most
    /// this one, and does not change once it is completed.
    pub fn update(&mut self, swept: Scalar, point: Point)
        ensures
            final(self)@ == old(self)@.record((Frame { swept, point })),
            old(self)@.samples.is_prefix_of(final(self)@.samples),
            final(self)@.samples.len() <= old(self)@.samples.len() + 1,
            old(self)@.completed ==> final(self)@ == old(self)@,
    {
        if self.completed {
            return ;
        }
        if self.accumulated_angle.is_negative() && swept.is_positive() {
            self.completed = true;
        } else {
            self.samples.push(point);
            self.accumulated_angle = swept;
        }
    }

    /// The samples to draw, given the quotient that sets their density:
    /// with a stride of the whole part of the quotient, or of one where
    /// that is zero, the samples at the indices 0, stride, twice the stride
    /// and so on.
    pub fn selection(&self, quotient: Scalar) -> (drawn: Vec<Point>)
        ensures
            drawn@ == self@.selection(quotient),
    {
        let whole: usize = quotient.to_index();
        let n: usize = if whole == 0 {
            1
        } else {
            whole
        };
        let len: usize = self.samples.len();
        let mut drawn: Vec<Point> = Vec::new();
        let mut at: usize = 0;
        let mut more: bool = len > 0;
        let ghost mut taken: int = 0;
        while more
            invariant
                n == stride(quotient),
                len == self.samples@.len(),
                taken == drawn@.len(),
                more ==> at < len && at == taken * n,
                !more ==> (taken - 1) * n < len <= taken * n,
                forall|k: int| 0 <= k < taken ==> #[trigger] picks(drawn@, self.samples@, n as int, k),
            decreases
                if more { len - at } else { 0 },
        {
            let ghost before = drawn@;
            drawn.push(self.samples[at]);
            proof {
                assert((taken + 1) * n == taken * n + n) by (nonlinear_arith);
                assert forall|k: int| 0 <= k < taken + 1 implies #[trigger] picks(
                    drawn@,
                    self.samples@,
                    n as int,
                    k,
                ) by {
                    if k < taken {
                        assert(picks(before, self.samples@, n as int, k));
                    }
                }
                taken = taken + 1;
            }
            if len - at > n {
                at = at + n;
            } else {
                more = false;
            }
        }
        proof {
            lemma_ceiling(len as int, n as int, taken);
            assert forall|k: int| 0 <= k < taken implies drawn@[k] == self.samples@[k * n] by {
                assert(picks(drawn@, self.samples@, n as int, k));
            }
            assert(drawn@ =~= self@.selection(quotient));
        }
        drawn
    }
}

/// The `k`-th drawn sample is the sample `k` strides from the first.
spec fn picks(drawn: Seq<Point>, samples: Seq<Point>, n: int, k: int) -> bool {
    0 <= k * n < samples.len() && drawn[k] == samples[k * n]
}

/// A whole number of strides that just covers a length is the length divided
/// by the stride, rounded up.
proof fn lemma_ceiling(len: int, n: int, k: int)
    requires
        n >= 1,
        (k - 1) * n < len <= k * n,
    ensures
        (len + n - 1) / n == k,
{
    assert((k - 1) * n == k * n - n) by (nonlinear_arith);
    vstd::arithmetic::div_mod::lemma_fundamental_div_mod_converse(
        len + n - 1,
        n,
        k,
        len + n - 1 - k * n,
    );
}


/// One frame takes no sample away and adds at most one: the samples before
/// it are a prefix of the samples after it. A completed trail stays
/// completed and does not change at all.
pub proof fn lemma_record_extends(trail: TrailView, frame: Frame)
    ensures
        trail.samples.is_prefix_of(trail.record(frame).samples),
        trail.record(frame).samples.len() <= trail.samples.len() + 1,
        trail.completed ==> trail.record(frame) == trail,
{
}

/// The samples only grow over time: what a trail holds after the first `k`
/// frames of a run is a prefix of what it holds after the whole run, so the
/// number of samples never goes down.
pub proof fn lemma_trail_grows(trail: TrailView, frames: Seq<Frame>, k: int)
    requires
        0 <= k <= frames.len(),
    ensures
        trail.replay(frames.take(k)).samples.is_prefix_of(trail.replay(frames).samples),
        trail.replay(frames.take(k)).samples.len() <= trail.replay(frames).samples.len(),
    decreases frames.len(),
{
    if k == frames.len() {
        assert(frames.take(k) =~= frames);
    } else {
        let shorter = frames.drop_last();
        assert(shorter.take(k) =~= frames.take(k));
        lemma_trail_grows(trail, shorter, k);
        lemma_record_extends(trail.replay(shorter), frames.last());
    }
}

/// A completed trail is constant: if the trail is completed after the first
/// `k` frames of a run, the rest of the run leaves it as it was then.
pub proof fn lemma_trail_freezes(trail: TrailView, frames: Seq<Frame>, k: int)
    requires
        0 <= k <= frames.len(),
        trail.replay(frames.take(k)).completed,
    ensures
        trail.replay(frames) == trail.replay(frames.take(k)),
    decreases frames.len(),
{
    if k == frames.len() {
        assert(frames.take(k) =~= frames);
    } else {
        let shorter = frames.drop_last();
        assert(shorter.take(k) =~= frames.take(k));
        lemma_trail_freezes(trail, shorter, k);
    }
}

/// A run of frames adds at most one sample for each frame, so a trail that
/// starts empty never holds more samples than it has seen frames.
pub proof fn lemma_trail_bounded(trail: TrailView, frames: Seq<Frame>)
    ensures
        trail.replay(frames).samples.len() <= trail.samples.len() + frames.len(),
        TrailView::empty().replay(frames).samples.len() <= frames.len(),
    decreases frames.len(),
{
    if frames.len() > 0 {
        lemma_trail_bounded(trail, frames.drop_last());
        lemma_trail_bounded(TrailView::empty(), frames.drop_last());
    }
}

} // verus!
