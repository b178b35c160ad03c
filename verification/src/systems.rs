//! The update systems. Each is run once per tick, over every entity that
//! carries its component, in ascending order of id.
//!
//! Each system is written over an [`Arithmetic`], and its contract is stated
//! relative to it: it says which operations were applied to which values, in
//! what order, and where the result went.

use vstd::prelude::*;
use crate::arithmetic::Arithmetic;
use crate::components::{Bob, Camera, Position, Rotation};
use crate::flags::{
    lemma_kinds_disjoint, ComponentFlags, FLAG_BOB, FLAG_CAMERA, FLAG_PICKABLE, FLAG_POSITION,
    FLAG_ROTATION, FLAG_VELOCITY,
};
use crate::linear::Vector3;
use crate::registry::EntityManager;
use crate::storage::{EntityId, MAX_ENTITIES};
use crate::time::Millis;

verus! {

/// Moves every entity that has a velocity through one tick.
#[derive(Default)]
pub struct VelocitySystem;

impl VelocitySystem {
    /// Whether `out` is `position` plus `linear` times `delta`, by way of
    /// `s`, which is `delta` in seconds, and of `step`, which is `linear`
    /// times `s`.
    pub open spec fn advance_chain<S, Q, A: Arithmetic<S, Q>>(
        ops: &A,
        position: Vector3<S>,
        linear: Vector3<S>,
        delta: Millis,
        s: S,
        step: Vector3<S>,
        out: Vector3<S>,
    ) -> bool {
        &&& call_ensures(A::seconds, (ops, delta), s)
        &&& call_ensures(A::scaled, (ops, linear, s), step)
        &&& call_ensures(A::plus, (ops, position, step), out)
    }

    /// Whether `out` is where an entity at `position` stands after it has
    /// moved at the velocity `linear` for `delta`: `position` plus `linear`
    /// times `delta` in seconds, in one step.
    pub open spec fn advanced<S, Q, A: Arithmetic<S, Q>>(
        ops: &A,
        position: Vector3<S>,
        linear: Vector3<S>,
        delta: Millis,
        out: Vector3<S>,
    ) -> bool {
        exists|s: S, step: Vector3<S>| #[trigger]
            Self::advance_chain(ops, position, linear, delta, s, step, out)
    }

    /// Where an entity at `position` stands after it has moved at the
    /// velocity `linear` for `delta`.
    pub fn advance<S: Copy, Q: Copy, A: Arithmetic<S, Q>>(
        ops: &A,
        position: Position<S>,
        linear: Vector3<S>,
        delta: Millis,
    ) -> (out: Position<S>)
        ensures
            Self::advanced(ops, position.0, linear, delta, out.0),
    {
        let s = ops.seconds(delta);
        let step = ops.scaled(linear, s);
        let out = ops.plus(position.0, step);
        proof {
            assert(Self::advance_chain(ops, position.0, linear, delta, s, step, out));
        }
        Position(out)
    }

    /// Whether `turn` is the turn that the angular velocity `angular` makes
    /// in `delta`, by way of the values in between.
    ///
    /// `speed` is the angle of `angular`, and `still` says whether it is
    /// zero. If it is, there is no turn. If it is not, `axis` is the axis of
    /// `angular`; without an axis there is no turn; with one, `s` is `delta`
    /// in seconds, `angle` is `speed` times `s`, and the turn is the rotation
    /// by `angle` about the axis.
    pub open spec fn spin_chain<S, Q, A: Arithmetic<S, Q>>(
        ops: &A,
        angular: Q,
        delta: Millis,
        speed: S,
        still: bool,
        axis: Option<Vector3<S>>,
        s: S,
        angle: S,
        turn: Option<Q>,
    ) -> bool {
        &&& call_ensures(A::angle, (ops, angular), speed)
        &&& call_ensures(A::is_zero, (ops, speed), still)
        &&& if still {
            turn.is_none()
        } else {
            &&& call_ensures(A::axis, (ops, angular), axis)
            &&& match axis {
                None => turn.is_none(),
                Some(about) => {
                    &&& call_ensures(A::seconds, (ops, delta), s)
                    &&& call_ensures(A::times, (ops, speed, s), angle)
                    &&& turn.is_some()
                    &&& call_ensures(A::axis_angle, (ops, about, angle), turn.unwrap())
                },
            }
        }
    }

    /// Whether `turn` is the turn that the angular velocity `angular` makes
    /// in `delta`: the rotation about its axis by its angle times `delta` in
    /// seconds, or none where its angle is zero or it has no axis.
    pub open spec fn spun<S, Q, A: Arithmetic<S, Q>>(
        ops: &A,
        angular: Q,
        delta: Millis,
        turn: Option<Q>,
    ) -> bool {
        exists|speed: S, still: bool, axis: Option<Vector3<S>>, s: S, angle: S| #[trigger]
            Self::spin_chain(ops, angular, delta, speed, still, axis, s, angle, turn)
    }

    /// The turn that the angular velocity `angular` makes in `delta`.
    pub fn spin<S: Copy, Q: Copy, A: Arithmetic<S, Q>>(
        ops: &A,
        angular: Rotation<Q>,
        delta: Millis,
    ) -> (turn: Option<Q>)
        ensures
            Self::spun(ops, angular.0, delta, turn),
    {
        let speed = ops.angle(angular.0);
        let still = ops.is_zero(speed);
        if still {
            proof {
                assert(Self::spin_chain(
                    ops,
                    angular.0,
                    delta,
                    speed,
                    still,
                    None,
                    speed,
                    speed,
                    None,
                ));
            }
            return None;
        }
        let axis = ops.axis(angular.0);
        match axis {
            None => {
                proof {
                    assert(Self::spin_chain(
                        ops,
                        angular.0,
                        delta,
                        speed,
                        still,
                        axis,
                        speed,
                        speed,
                        None,
                    ));
                }
                None
            },
            Some(about) => {
                let s = ops.seconds(delta);
                let angle = ops.times(speed, s);
                let turn = Some(ops.axis_angle(about, angle));
                proof {
                    assert(Self::spin_chain(
                        ops,
                        angular.0,
                        delta,
                        speed,
                        still,
                        axis,
                        s,
                        angle,
                        turn,
                    ));
                }
                turn
            },
        }
    }

    /// Whether entity `e` of `after` is what one tick of `delta` makes of it
    /// in `before`.
    ///
    /// An entity with a velocity has advanced by its linear velocity. Where
    /// its angular velocity makes no turn in `delta`, its rotation and flags
    /// are as before. Where it makes one, an entity with a rotation has the
    /// old rotation composed with the turn, in this order, so that it turns
    /// in its own frame; an entity without has the turn itself as its
    /// rotation, and the flag of a rotation.
    ///
    /// An entity without a velocity is as it was.
    pub open spec fn stepped<S: Copy, Q: Copy, A: Arithmetic<S, Q>>(
        before: &EntityManager<S, Q>,
        after: &EntityManager<S, Q>,
        delta: Millis,
        ops: &A,
        e: int,
    ) -> bool {
        if before.has(e, FLAG_VELOCITY) {
            let velocity = before.velocities@[e];
            &&& Self::advanced(
                ops,
                before.positions@[e].0,
                velocity.linear,
                delta,
                after.positions@[e].0,
            )
            &&& exists|turn: Option<Q>|
                {
                    &&& #[trigger] Self::spun(ops, velocity.angular.0, delta, turn)
                    &&& match turn {
                        None => {
                            &&& after.rotations@[e] == before.rotations@[e]
                            &&& after.entities@[e] == before.entities@[e]
                        },
                        Some(t) => if before.has(e, FLAG_ROTATION) {
                            &&& call_ensures(
                                A::compose,
                                (ops, before.rotations@[e].0, t),
                                after.rotations@[e].0,
                            )
                            &&& after.entities@[e] == before.entities@[e]
                        } else {
                            &&& after.rotations@[e] == Rotation(t)
                            &&& after.entities@[e] == (ComponentFlags {
                                bits: before.entities@[e].bits | FLAG_ROTATION,
                            })
                        },
                    }
                }
        } else {
            &&& after.positions@[e] == before.positions@[e]
            &&& after.rotations@[e] == before.rotations@[e]
            &&& after.entities@[e] == before.entities@[e]
        }
    }

    /// Whether `after` is what one tick of `delta` makes of `before`: every
    /// entity is stepped, no flag but that of a rotation has changed, no
    /// rotation was lost, and nothing else is touched.
    pub open spec fn ran<S: Copy, Q: Copy, A: Arithmetic<S, Q>>(
        before: &EntityManager<S, Q>,
        after: &EntityManager<S, Q>,
        delta: Millis,
        ops: &A,
    ) -> bool {
        &&& after.agrees_apart_from(before, FLAG_POSITION, FLAG_ROTATION)
        &&& forall|e: int, mask: u64|
            0 <= e < MAX_ENTITIES && mask & FLAG_ROTATION == 0
                ==> #[trigger] after.has(e, mask) == before.has(e, mask)
        &&& forall|e: int|
            0 <= e < MAX_ENTITIES && before.has(e, FLAG_ROTATION)
                ==> #[trigger] after.has(e, FLAG_ROTATION)
        &&& forall|e: int|
            0 <= e < MAX_ENTITIES ==> #[trigger] Self::stepped(before, after, delta, ops, e)
    }

    /// An entity that has a velocity and no rotation gains, in one tick,
    /// exactly the turn that its angular velocity makes in that tick as its
    /// rotation, or stays without a rotation where there is no such turn.
    pub proof fn lemma_first_turn<S: Copy, Q: Copy, A: Arithmetic<S, Q>>(
        before: &EntityManager<S, Q>,
        after: &EntityManager<S, Q>,
        delta: Millis,
        ops: &A,
        e: int,
    )
        requires
            Self::ran(before, after, delta, ops),
            0 <= e < MAX_ENTITIES,
            before.has(e, FLAG_VELOCITY),
            !before.has(e, FLAG_ROTATION),
        ensures
            Self::spun(
                ops,
                before.velocities@[e].angular.0,
                delta,
                if after.has(e, FLAG_ROTATION) {
                    Some(after.rotations@[e].0)
                } else {
                    None
                },
            ),
    {
        assert(Self::stepped(before, after, delta, ops, e));
        let bits = before.entities@[e].bits;
        assert((bits | FLAG_ROTATION) & FLAG_ROTATION == FLAG_ROTATION) by (bit_vector);
    }

    /// Runs one tick of `delta` over every entity with a velocity.
    pub fn run<S: Copy, Q: Copy, A: Arithmetic<S, Q>>(
        manager: &mut EntityManager<S, Q>,
        delta: Millis,
        ops: &A,
    )
        requires
            old(manager).wf(),
        ensures
            final(manager).wf(),
            final(manager).picked_entity == old(manager).picked_entity,
            Self::ran(old(manager), final(manager), delta, ops),
    {
        let mut entity: EntityId = 0;
        while (entity as usize) < MAX_ENTITIES
            invariant
                entity <= MAX_ENTITIES,
                manager.wf(),
                old(manager).wf(),
                manager.agrees_apart_from(old(manager), FLAG_POSITION, FLAG_ROTATION),
                manager.picked_entity == old(manager).picked_entity,
                forall|e: int, mask: u64|
                    0 <= e < MAX_ENTITIES && mask & FLAG_ROTATION == 0
                        ==> #[trigger] manager.has(e, mask) == old(manager).has(e, mask),
                forall|e: int|
                    0 <= e < MAX_ENTITIES && old(manager).has(e, FLAG_ROTATION)
                        ==> #[trigger] manager.has(e, FLAG_ROTATION),
                forall|e: int|
                    0 <= e < entity ==> #[trigger] Self::stepped(
                        old(manager),
                        manager,
                        delta,
                        ops,
                        e,
                    ),
                forall|e: int|
                    entity <= e < MAX_ENTITIES ==> #[trigger] manager.positions@[e]
                        == old(manager).positions@[e],
                forall|e: int|
                    entity <= e < MAX_ENTITIES ==> #[trigger] manager.rotations@[e]
                        == old(manager).rotations@[e],
                forall|e: int|
                    entity <= e < MAX_ENTITIES ==> #[trigger] manager.entities@[e]
                        == old(manager).entities@[e],
            decreases MAX_ENTITIES - entity,
        {
            let ghost prev = *manager;
            if manager.entities.get(entity).contains(FLAG_VELOCITY) {
                proof {
                    lemma_kinds_disjoint(FLAG_VELOCITY, FLAG_ROTATION);
                    assert(prev.has(entity as int, FLAG_VELOCITY));
                    assert(old(manager).has(entity as int, FLAG_VELOCITY));
                }
                let velocity = *manager.velocities.get(entity);
                let moved = Self::advance(
                    ops,
                    *manager.positions.get(entity),
                    velocity.linear,
                    delta,
                );
                manager.positions.set(entity, moved);
                proof {
                    manager.lemma_wf_carries(&prev);
                }
                let ghost shifted = *manager;
                let turn = Self::spin(ops, velocity.angular, delta);
                match turn {
                    Some(t) => {
                        if manager.entities.get(entity).contains(FLAG_ROTATION) {
                            let turned = ops.compose(manager.rotations.get(entity).0, t);
                            manager.rotations.set(entity, Rotation(turned));
                            proof {
                                manager.lemma_wf_carries(&shifted);
                            }
                        } else {
                            manager.set_rotation(entity, Rotation(t));
                        }
                    },
                    None => {},
                }
                proof {
                    assert(Self::spun(ops, velocity.angular.0, delta, turn));
                    assert(Self::stepped(old(manager), manager, delta, ops, entity as int));
                }
            }
            proof {
                assert forall|e: int| 0 <= e < entity + 1 implies #[trigger] Self::stepped(
                    old(manager),
                    manager,
                    delta,
                    ops,
                    e,
                ) by {
                    if e < entity {
                        assert(Self::stepped(old(manager), &prev, delta, ops, e));
                    }
                }
                assert forall|e: int, mask: u64|
                    0 <= e < MAX_ENTITIES && mask & FLAG_ROTATION == 0 implies
                    #[trigger] manager.has(e, mask) == old(manager).has(e, mask) by {
                    assert(prev.has(e, mask) == old(manager).has(e, mask));
                }
                assert forall|e: int|
                    0 <= e < MAX_ENTITIES && old(manager).has(e, FLAG_ROTATION) implies
                    #[trigger] manager.has(e, FLAG_ROTATION) by {
                    assert(prev.has(e, FLAG_ROTATION));
                }
            }
            entity += 1;
        }
    }
}

/// Points every camera that follows an entity at that entity.
pub struct CameraSystem;

impl CameraSystem {
    /// Whether `camera` follows no entity, or one that has a position.
    pub open spec fn resolves<S: Copy, Q: Copy>(
        manager: &EntityManager<S, Q>,
        camera: Camera<S>,
    ) -> bool {
        match camera.tracking {
            Some(target) => target < MAX_ENTITIES && manager.has(target as int, FLAG_POSITION),
            None => true,
        }
    }

    /// Whether every camera that follows an entity follows one that has a
    /// position.
    pub open spec fn tracking_resolves<S: Copy, Q: Copy>(manager: &EntityManager<S, Q>) -> bool {
        forall|e: int|
            0 <= e < MAX_ENTITIES && #[trigger] manager.has(e, FLAG_CAMERA)
                ==> Self::resolves(manager, manager.cameras@[e])
    }

    /// The camera `camera` after the system has run over `manager`: it looks
    /// at the entity it follows, or where it looked before if it follows none.
    pub open spec fn aimed<S: Copy, Q: Copy>(
        manager: &EntityManager<S, Q>,
        camera: Camera<S>,
    ) -> Camera<S> {
        match camera.tracking {
            Some(target) => Camera {
                target: manager.positions@[target as int].0,
                tracking: camera.tracking,
            },
            None => camera,
        }
    }

    /// Whether `after` is what a run makes of `before`: every camera is
    /// aimed, and nothing else is touched.
    pub open spec fn ran<S: Copy, Q: Copy>(
        before: &EntityManager<S, Q>,
        after: &EntityManager<S, Q>,
    ) -> bool {
        &&& after.entities@ == before.entities@
        &&& after.agrees_except(before, FLAG_CAMERA)
        &&& forall|e: int|
            0 <= e < MAX_ENTITIES ==> #[trigger] after.cameras@[e]
                == (if before.has(e, FLAG_CAMERA) {
                Self::aimed(before, before.cameras@[e])
            } else {
                before.cameras@[e]
            })
    }

    /// Whether `run` may be called on `manager`.
    pub fn ready<S: Copy, Q: Copy>(manager: &EntityManager<S, Q>) -> (r: bool)
        requires
            manager.wf(),
        ensures
            r == Self::tracking_resolves(manager),
    {
        let mut entity: EntityId = 0;
        while (entity as usize) < MAX_ENTITIES
            invariant
                entity <= MAX_ENTITIES,
                manager.wf(),
                forall|e: int|
                    0 <= e < entity && #[trigger] manager.has(e, FLAG_CAMERA)
                        ==> Self::resolves(manager, manager.cameras@[e]),
            decreases MAX_ENTITIES - entity,
        {
            if manager.entities.get(entity).contains(FLAG_CAMERA) {
                match manager.cameras.get(entity).tracking {
                    Some(target) => {
                        if target as usize >= MAX_ENTITIES
                            || !manager.entities.get(target).contains(FLAG_POSITION) {
                            assert(manager.has(entity as int, FLAG_CAMERA));
                            return false;
                        }
                    },
                    None => {},
                }
            }
            entity += 1;
        }
        true
    }

    /// Runs over every camera. The tick's length plays no part. A camera
    /// that follows an entity without a position cannot be aimed.
    pub fn run<S: Copy, Q: Copy>(manager: &mut EntityManager<S, Q>, _delta: Millis)
        requires
            old(manager).wf(),
            Self::tracking_resolves(old(manager)),
        ensures
            final(manager).wf(),
            final(manager).picked_entity == old(manager).picked_entity,
            Self::tracking_resolves(final(manager)),
            Self::ran(old(manager), final(manager)),
    {
        let mut entity: EntityId = 0;
        while (entity as usize) < MAX_ENTITIES
            invariant
                entity <= MAX_ENTITIES,
                manager.wf(),
                old(manager).wf(),
                Self::tracking_resolves(old(manager)),
                manager.entities@ == old(manager).entities@,
                manager.agrees_except(old(manager), FLAG_CAMERA),
                manager.picked_entity == old(manager).picked_entity,
                forall|e: int|
                    0 <= e < entity ==> #[trigger] manager.cameras@[e]
                        == (if old(manager).has(e, FLAG_CAMERA) {
                        Self::aimed(old(manager), old(manager).cameras@[e])
                    } else {
                        old(manager).cameras@[e]
                    }),
                forall|e: int|
                    entity <= e < MAX_ENTITIES ==> #[trigger] manager.cameras@[e]
                        == old(manager).cameras@[e],
            decreases MAX_ENTITIES - entity,
        {
            let ghost prev = *manager;
            if manager.entities.get(entity).contains(FLAG_CAMERA) {
                assert(old(manager).has(entity as int, FLAG_CAMERA));
                let camera = *manager.cameras.get(entity);
                match camera.tracking {
                    Some(target) => {
                        let aim = manager.positions.get(target).0;
                        manager.cameras.set(
                            entity,
                            Camera { target: aim, tracking: camera.tracking },
                        );
                    },
                    None => {},
                }
                proof {
                    manager.lemma_wf_carries(&prev);
                }
            }
            entity += 1;
        }
        proof {
            assert forall|e: int|
                0 <= e < MAX_ENTITIES && #[trigger] manager.has(e, FLAG_CAMERA) implies
                Self::resolves(manager, manager.cameras@[e]) by {
                assert(old(manager).has(e, FLAG_CAMERA));
                assert(Self::resolves(old(manager), old(manager).cameras@[e]));
            }
        }
    }
}

/// Drives every oscillator through one tick and pushes its entity.
pub struct BobSystem;

impl BobSystem {
    /// Whether no oscillator of `manager` has a period shorter than `delta`.
    pub open spec fn tick_fits<S: Copy, Q: Copy>(
        manager: &EntityManager<S, Q>,
        delta: Millis,
    ) -> bool {
        forall|e: int|
            0 <= e < MAX_ENTITIES && #[trigger] manager.has(e, FLAG_BOB)
                ==> delta.nanos <= manager.bobs@[e].period.nanos
    }

    /// Whether `out` is `position` after the push that the oscillator `bob`
    /// gives in a tick of `delta`, by way of the values in between.
    ///
    /// `turns` is the share of the period that the phase has reached, and
    /// `sine` the sine of that many full turns. `share` is the share of the
    /// period that `delta` makes up. `weight` is `sine` times `share`, `push`
    /// is the direction times `weight`, and `out` is `position` plus `push`.
    pub open spec fn swing_chain<S, Q, A: Arithmetic<S, Q>>(
        ops: &A,
        position: Vector3<S>,
        bob: Bob<S>,
        delta: Millis,
        turns: S,
        sine: S,
        share: S,
        weight: S,
        push: Vector3<S>,
        out: Vector3<S>,
    ) -> bool {
        &&& call_ensures(A::ratio, (ops, bob.state, bob.period), turns)
        &&& call_ensures(A::wave, (ops, turns), sine)
        &&& call_ensures(A::ratio, (ops, delta, bob.period), share)
        &&& call_ensures(A::times, (ops, sine, share), weight)
        &&& call_ensures(A::scaled, (ops, bob.direction, weight), push)
        &&& call_ensures(A::plus, (ops, position, push), out)
    }

    /// Whether `out` is `position` after the push that the oscillator `bob`
    /// gives in a tick of `delta`: `position` plus the direction times the
    /// sine of the phase, taken as a share of a full turn, times the share
    /// of the period that `delta` makes up.
    pub open spec fn swung<S, Q, A: Arithmetic<S, Q>>(
        ops: &A,
        position: Vector3<S>,
        bob: Bob<S>,
        delta: Millis,
        out: Vector3<S>,
    ) -> bool {
        exists|turns: S, sine: S, share: S, weight: S, push: Vector3<S>| #[trigger]
            Self::swing_chain(ops, position, bob, delta, turns, sine, share, weight, push, out)
    }

    /// Where an entity at `position` stands after the push that the
    /// oscillator `bob` gives in a tick of `delta`. The phase of `bob` is the
    /// phase after the tick.
    pub fn displace<S: Copy, Q: Copy, A: Arithmetic<S, Q>>(
        ops: &A,
        position: Position<S>,
        bob: Bob<S>,
        delta: Millis,
    ) -> (out: Position<S>)
        ensures
            Self::swung(ops, position.0, bob, delta, out.0),
    {
        let turns = ops.ratio(bob.state, bob.period);
        let sine = ops.wave(turns);
        let share = ops.ratio(delta, bob.period);
        let weight = ops.times(sine, share);
        let push = ops.scaled(bob.direction, weight);
        let out = ops.plus(position.0, push);
        proof {
            assert(Self::swing_chain(
                ops,
                position.0,
                bob,
                delta,
                turns,
                sine,
                share,
                weight,
                push,
                out,
            ));
        }
        Position(out)
    }

    /// Whether entity `e` of `after` is what one tick of `delta` makes of it
    /// in `before`: an oscillator has gone on by `delta`, and has pushed its
    /// entity from where it stood, with the phase that it has after the
    /// tick; any other entity is as it was.
    pub open spec fn stepped<S: Copy, Q: Copy, A: Arithmetic<S, Q>>(
        before: &EntityManager<S, Q>,
        after: &EntityManager<S, Q>,
        delta: Millis,
        ops: &A,
        e: int,
    ) -> bool {
        if before.has(e, FLAG_BOB) {
            &&& after.bobs@[e] == before.bobs@[e].ticked(delta)
            &&& Self::swung(
                ops,
                before.positions@[e].0,
                after.bobs@[e],
                delta,
                after.positions@[e].0,
            )
        } else {
            &&& after.bobs@[e] == before.bobs@[e]
            &&& after.positions@[e] == before.positions@[e]
        }
    }

    /// Whether `after` is what one tick of `delta` makes of `before`: every
    /// entity is stepped, and nothing else is touched.
    pub open spec fn ran<S: Copy, Q: Copy, A: Arithmetic<S, Q>>(
        before: &EntityManager<S, Q>,
        after: &EntityManager<S, Q>,
        delta: Millis,
        ops: &A,
    ) -> bool {
        &&& after.entities@ == before.entities@
        &&& after.agrees_apart_from(before, FLAG_POSITION, FLAG_BOB)
        &&& forall|e: int|
            0 <= e < MAX_ENTITIES ==> #[trigger] Self::stepped(before, after, delta, ops, e)
    }

    /// Whether `run` may be called on `manager` with `delta`.
    pub fn accepts<S: Copy, Q: Copy>(manager: &EntityManager<S, Q>, delta: Millis) -> (r: bool)
        requires
            manager.wf(),
        ensures
            r == Self::tick_fits(manager, delta),
    {
        let mut entity: EntityId = 0;
        while (entity as usize) < MAX_ENTITIES
            invariant
                entity <= MAX_ENTITIES,
                manager.wf(),
                forall|e: int|
                    0 <= e < entity && #[trigger] manager.has(e, FLAG_BOB)
                        ==> delta.nanos <= manager.bobs@[e].period.nanos,
            decreases MAX_ENTITIES - entity,
        {
            if manager.entities.get(entity).contains(FLAG_BOB)
                && delta.nanos > manager.bobs.get(entity).period.nanos {
                assert(manager.has(entity as int, FLAG_BOB));
                return false;
            }
            entity += 1;
        }
        true
    }

    /// Runs one tick of `delta` over every oscillator. A tick that is longer
    /// than the period of an oscillator is not taken: the phase wraps once.
    pub fn run<S: Copy, Q: Copy, A: Arithmetic<S, Q>>(
        manager: &mut EntityManager<S, Q>,
        delta: Millis,
        ops: &A,
    )
        requires
            old(manager).wf(),
            Self::tick_fits(old(manager), delta),
        ensures
            final(manager).wf(),
            final(manager).picked_entity == old(manager).picked_entity,
            Self::tick_fits(final(manager), delta),
            Self::ran(old(manager), final(manager), delta, ops),
    {
        let mut entity: EntityId = 0;
        while (entity as usize) < MAX_ENTITIES
            invariant
                entity <= MAX_ENTITIES,
                manager.wf(),
                old(manager).wf(),
                Self::tick_fits(old(manager), delta),
                manager.entities@ == old(manager).entities@,
                manager.agrees_apart_from(old(manager), FLAG_POSITION, FLAG_BOB),
                manager.picked_entity == old(manager).picked_entity,
                forall|e: int|
                    0 <= e < entity ==> #[trigger] Self::stepped(
                        old(manager),
                        manager,
                        delta,
                        ops,
                        e,
                    ),
                forall|e: int|
                    entity <= e < MAX_ENTITIES ==> #[trigger] manager.bobs@[e]
                        == old(manager).bobs@[e],
                forall|e: int|
                    entity <= e < MAX_ENTITIES ==> #[trigger] manager.positions@[e]
                        == old(manager).positions@[e],
            decreases MAX_ENTITIES - entity,
        {
            let ghost prev = *manager;
            if manager.entities.get(entity).contains(FLAG_BOB) {
                assert(old(manager).has(entity as int, FLAG_BOB));
                assert(prev.has(entity as int, FLAG_BOB));
                let mut bob = *manager.bobs.get(entity);
                bob.tick(delta);
                let moved = Self::displace(ops, *manager.positions.get(entity), bob, delta);
                manager.bobs.set(entity, bob);
                manager.positions.set(entity, moved);
                proof {
                    assert forall|e: int|
                        0 <= e < MAX_ENTITIES && #[trigger] manager.has(e, FLAG_BOB) implies
                        manager.bobs@[e].wf() by {
                        if e != entity {
                            assert(prev.has(e, FLAG_BOB));
                        }
                    }
                    assert forall|e: int|
                        0 <= e < MAX_ENTITIES && #[trigger] manager.has(e, FLAG_PICKABLE) implies
                        manager.pickables@[e].0 == e by {
                        assert(prev.has(e, FLAG_PICKABLE));
                    }
                }
            }
            proof {
                assert forall|e: int| 0 <= e < entity + 1 implies #[trigger] Self::stepped(
                    old(manager),
                    manager,
                    delta,
                    ops,
                    e,
                ) by {
                    if e < entity {
                        assert(Self::stepped(old(manager), &prev, delta, ops, e));
                    }
                }
            }
            entity += 1;
        }
        proof {
            assert forall|e: int|
                0 <= e < MAX_ENTITIES && #[trigger] manager.has(e, FLAG_BOB) implies
                delta.nanos <= manager.bobs@[e].period.nanos by {
                assert(old(manager).has(e, FLAG_BOB));
                assert(Self::stepped(old(manager), manager, delta, ops, e));
            }
        }
    }
}

} // verus!
