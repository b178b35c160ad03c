//! The component kinds.
//!
//! They are generic over the scalar `S` of their vectors and over the
//! representation `Q` of a rotation, and never compute with either.

use vstd::prelude::*;
use crate::linear::{Matrix4, Vector3};
use crate::storage::EntityId;
use crate::time::Millis;

verus! {

/// A component that stands for a 4 by 4 transform which can be written down
/// from its entries and the scalars zero and one alone.
pub trait AsMatrix<S> {
    /// Whether `m` is the transform of this component.
    spec fn is_matrix(&self, zero: S, one: S, m: Matrix4<S>) -> bool;

    /// The transform of this component.
    fn as_matrix(&self, zero: S, one: S) -> (m: Matrix4<S>)
        ensures
            self.is_matrix(zero, one, m),
    ;
}

/// Where an entity is.
#[derive(Clone, Copy, Debug)]
pub struct Position<S>(pub Vector3<S>);

/// A translation: the identity matrix with the position in its last column.
impl<S: Copy> AsMatrix<S> for Position<S> {
    open spec fn is_matrix(&self, zero: S, one: S, m: Matrix4<S>) -> bool {
        forall|r: int, c: int|
            0 <= r < 4 && 0 <= c < 4 ==> #[trigger] m.at(r, c) == (if r == c {
                one
            } else if c == 3 && r == 0 {
                self.0.x
            } else if c == 3 && r == 1 {
                self.0.y
            } else if c == 3 && r == 2 {
                self.0.z
            } else {
                zero
            })
    }

    fn as_matrix(&self, zero: S, one: S) -> (m: Matrix4<S>) {
        Matrix4 {
            rows: [
                [one, zero, zero, self.0.x],
                [zero, one, zero, self.0.y],
                [zero, zero, one, self.0.z],
                [zero, zero, zero, one],
            ],
        }
    }
}

/// How large an entity is along each axis.
#[derive(Clone, Copy, Debug)]
pub struct Scale<S>(pub Vector3<S>);

/// A scaling: the three factors on the diagonal, then one.
impl<S: Copy> AsMatrix<S> for Scale<S> {
    open spec fn is_matrix(&self, zero: S, one: S, m: Matrix4<S>) -> bool {
        forall|r: int, c: int|
            0 <= r < 4 && 0 <= c < 4 ==> #[trigger] m.at(r, c) == (if r != c {
                zero
            } else if r == 0 {
                self.0.x
            } else if r == 1 {
                self.0.y
            } else if r == 2 {
                self.0.z
            } else {
                one
            })
    }

    fn as_matrix(&self, zero: S, one: S) -> (m: Matrix4<S>) {
        Matrix4 {
            rows: [
                [self.0.x, zero, zero, zero],
                [zero, self.0.y, zero, zero],
                [zero, zero, self.0.z, zero],
                [zero, zero, zero, one],
            ],
        }
    }
}

/// How an entity is turned.
#[derive(Clone, Copy, Debug)]
pub struct Rotation<Q>(pub Q);

/// How an entity moves: `linear` per second, and `angular` as the turn that
/// it makes in one second.
#[derive(Clone, Copy, Debug)]
pub struct Velocity<S, Q> {
    pub angular: Rotation<Q>,
    pub linear: Vector3<S>,
}

/// What is drawn for an entity: the names of its mesh and of its program.
#[derive(Clone, Copy, Debug)]
pub struct Geometry {
    pub geometry: &'static str,
    pub program: &'static str,
}

impl Default for Geometry {
    fn default() -> (r: Self)
        ensures
            r.geometry@ == "UNINITIALIZED"@,
            r.program@ == "UNINITIALIZED"@,
    {
        Geometry { geometry: "UNINITIALIZED", program: "UNINITIALIZED" }
    }
}

/// The id that the picking pass writes for an entity: its own.
#[derive(Clone, Copy, Debug)]
pub struct Pickable(pub EntityId);

impl Default for Pickable {
    fn default() -> (r: Self)
        ensures
            r.0 == 0,
    {
        Pickable(0)
    }
}

/// A point of view: the point it looks at, and the entity it follows, if any.
#[derive(Clone, Copy, Debug)]
pub struct Camera<S> {
    pub target: Vector3<S>,
    pub tracking: Option<EntityId>,
}

/// An oscillator: it pushes its entity along `direction`, to and fro once per
/// `period`. `state` is the phase, the time since the period began.
#[derive(Clone, Copy, Debug)]
pub struct Bob<S> {
    pub period: Millis,
    pub direction: Vector3<S>,
    pub state: Millis,
}

impl<S: Copy> Bob<S> {
    /// The period is positive and the phase lies within it.
    pub open spec fn wf(&self) -> bool {
        0 < self.period.nanos && self.state.nanos < self.period.nanos
    }

    /// An oscillator at the start of its period.
    pub fn new(period: Millis, direction: Vector3<S>) -> (r: Self)
        ensures
            r.period == period,
            r.direction == direction,
            r.state.nanos == 0,
            period.nanos > 0 ==> r.wf(),
    {
        Bob { period, direction, state: Millis { nanos: 0 } }
    }

    /// This oscillator after a tick of `delta`: the phase has gone on by
    /// `delta` and has wrapped once if it reached the period.
    pub open spec fn ticked(self, delta: Millis) -> Self {
        Bob {
            period: self.period,
            direction: self.direction,
            state: Millis {
                nanos: next_phase(
                    self.state.nanos as int,
                    self.period.nanos as int,
                    delta.nanos as int,
                ) as u64,
            },
        }
    }

    /// Moves the phase on by `delta`, wrapping once at the period. A tick
    /// longer than the period is not taken.
    pub fn tick(&mut self, delta: Millis)
        requires
            old(self).wf(),
            delta.nanos <= old(self).period.nanos,
        ensures
            *final(self) == old(self).ticked(delta),
            final(self).state.nanos == next_phase(
                old(self).state.nanos as int,
                old(self).period.nanos as int,
                delta.nanos as int,
            ),
            final(self).wf(),
    {
        let room = self.period.nanos - self.state.nanos;
        if delta.nanos >= room {
            self.state = Millis { nanos: delta.nanos - room };
        } else {
            self.state = Millis { nanos: self.state.nanos + delta.nanos };
        }
    }
}

/// The phase that follows `phase` after a tick of `delta`: the sum, less one
/// period if it reached the period.
pub open spec fn next_phase(phase: int, period: int, delta: int) -> int {
    if phase + delta >= period {
        phase + delta - period
    } else {
        phase + delta
    }
}

/// The phase after the ticks of `deltas`, taken in order from `phase`.
pub open spec fn phase_after(phase: int, period: int, deltas: Seq<int>) -> int
    decreases deltas.len(),
{
    if deltas.len() == 0 {
        phase
    } else {
        next_phase(phase_after(phase, period, deltas.drop_last()), period, deltas.last())
    }
}

/// The sum of `deltas`.
pub open spec fn total(deltas: Seq<int>) -> int
    decreases deltas.len(),
{
    if deltas.len() == 0 {
        0
    } else {
        total(deltas.drop_last()) + deltas.last()
    }
}

/// While the ticks taken so far sum to no more than one period, the phase is
/// the start phase plus that sum, less one period once the sum has reached the
/// rest of the period.
pub proof fn lemma_phase_after(phase: int, period: int, deltas: Seq<int>)
    requires
        0 <= phase < period,
        forall|i: int| 0 <= i < deltas.len() ==> 0 <= deltas[i],
        total(deltas) <= period,
    ensures
        phase_after(phase, period, deltas) == next_phase(phase, period, total(deltas)),
        0 <= phase_after(phase, period, deltas) < period,
        0 <= total(deltas),
    decreases deltas.len(),
{
    if deltas.len() > 0 {
        let front = deltas.drop_last();
        lemma_total_nonnegative(front);
        lemma_phase_after(phase, period, front);
    }
}

/// A sum of ticks, none of them negative, is not negative.
pub proof fn lemma_total_nonnegative(deltas: Seq<int>)
    requires
        forall|i: int| 0 <= i < deltas.len() ==> 0 <= deltas[i],
    ensures
        0 <= total(deltas),
    decreases deltas.len(),
{
    if deltas.len() > 0 {
        lemma_total_nonnegative(deltas.drop_last());
    }
}

/// An oscillator that is ticked through exactly one period, in any number of
/// ticks, is back at the phase at which it started; from the start of a
/// period, it is back at 0.
pub proof fn lemma_full_period_returns(phase: int, period: int, deltas: Seq<int>)
    requires
        0 <= phase < period,
        forall|i: int| 0 <= i < deltas.len() ==> 0 <= deltas[i],
        total(deltas) == period,
    ensures
        phase_after(phase, period, deltas) == phase,
        phase == 0 ==> phase_after(phase, period, deltas) == 0,
{
    lemma_phase_after(phase, period, deltas);
}

} // verus!
