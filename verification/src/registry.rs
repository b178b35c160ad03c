//! The registry: it issues entity ids and owns one array per component kind,
//! with the presence flags that say which cells count.

use vstd::prelude::*;
use crate::components::{Bob, Camera, Geometry, Pickable, Position, Rotation, Scale, Velocity};
use crate::flags::{
    is_kind, lemma_fresh_has_no_kind, lemma_kinds_disjoint, ComponentFlags, FLAG_BOB,
    FLAG_CAMERA, FLAG_GEOMETRY, FLAG_NONE, FLAG_PICKABLE, FLAG_POSITION, FLAG_ROTATION,
    FLAG_SCALE, FLAG_VELOCITY,
};
use crate::linear::Vector3;
use crate::storage::{
    ids_with, lemma_ids_with_gap, ComponentArray, EntityArray, EntityId, EntityIterator,
    FlagsArray, MAX_ENTITIES,
};
use crate::time::Millis;

verus! {

/// The registry of entities and their components.
///
/// Ids are issued in ascending order from 1 and never again; id 0 is never
/// issued, and stands for "no entity" wherever an id is optional.
pub struct EntityManager<S, Q> {
    /// The id issued last, or 0 when none was issued yet.
    pub highest_id: EntityId,
    /// The scalar zero, for the cells and transforms that need one.
    pub zero: S,
    /// The scalar one.
    pub one: S,
    /// The rotation of an entity that has none.
    pub identity: Rotation<Q>,
    pub entities: FlagsArray,
    pub positions: ComponentArray<Position<S>>,
    pub scales: ComponentArray<Scale<S>>,
    pub rotations: ComponentArray<Rotation<Q>>,
    pub velocities: ComponentArray<Velocity<S, Q>>,
    pub geometries: ComponentArray<Geometry>,
    pub pickables: ComponentArray<Pickable>,
    pub cameras: ComponentArray<Camera<S>>,
    pub bobs: ComponentArray<Bob<S>>,
    /// The entity under the pointer, as far as it is known.
    pub picked_entity: Option<EntityId>,
}

/// Sets the bits of `mask` in the flags of `entity`.
fn insert_flag(flags: &mut FlagsArray, entity: EntityId, mask: u64)
    requires
        old(flags).wf(),
        entity < MAX_ENTITIES,
    ensures
        final(flags).wf(),
        final(flags)@ == old(flags)@.update(
            entity as int,
            ComponentFlags { bits: old(flags)@[entity as int].bits | mask },
        ),
        final(flags)@[entity as int].has(mask),
        forall|other: u64|
            other & mask == 0 ==> final(flags)@[entity as int].has(other)
                == old(flags)@[entity as int].has(other),
{
    let mut f = *flags.get(entity);
    f.insert(mask);
    flags.set(entity, f);
}

/// Clears the bits of `mask` in the flags of `entity`.
fn remove_flag(flags: &mut FlagsArray, entity: EntityId, mask: u64)
    requires
        old(flags).wf(),
        entity < MAX_ENTITIES,
    ensures
        final(flags).wf(),
        final(flags)@ == old(flags)@.update(
            entity as int,
            ComponentFlags { bits: old(flags)@[entity as int].bits & !mask },
        ),
        mask != 0 ==> !final(flags)@[entity as int].has(mask),
        forall|other: u64|
            other & mask == 0 ==> final(flags)@[entity as int].has(other)
                == old(flags)@[entity as int].has(other),
{
    let mut f = *flags.get(entity);
    f.remove(mask);
    flags.set(entity, f);
}

impl<S: Copy, Q: Copy> EntityManager<S, Q> {
    /// Whether `entity` carries every kind of `mask`.
    pub open spec fn has(&self, entity: int, mask: u64) -> bool {
        self.entities@[entity].has(mask)
    }

    /// Every array is whole, the id issued last has a cell, every oscillator
    /// is within its period, and every pickable entity is marked with its own
    /// id.
    pub open spec fn wf(&self) -> bool {
        &&& self.highest_id < MAX_ENTITIES
        &&& self.entities.wf()
        &&& self.positions.wf()
        &&& self.scales.wf()
        &&& self.rotations.wf()
        &&& self.velocities.wf()
        &&& self.geometries.wf()
        &&& self.pickables.wf()
        &&& self.cameras.wf()
        &&& self.bobs.wf()
        &&& forall|e: int|
            0 <= e < MAX_ENTITIES && #[trigger] self.has(e, FLAG_BOB) ==> self.bobs@[e].wf()
        &&& forall|e: int|
            0 <= e < MAX_ENTITIES && #[trigger] self.has(e, FLAG_PICKABLE)
                ==> self.pickables@[e].0 == e
    }

    /// Whether the two registries agree in everything but the flags, the
    /// picked entity and the arrays of the kinds `first` and `second`.
    pub open spec fn agrees_apart_from(&self, other: &Self, first: u64, second: u64) -> bool {
        &&& self.highest_id == other.highest_id
        &&& self.zero == other.zero
        &&& self.one == other.one
        &&& self.identity == other.identity
        &&& (first == FLAG_POSITION || second == FLAG_POSITION
            || self.positions@ == other.positions@)
        &&& (first == FLAG_SCALE || second == FLAG_SCALE || self.scales@ == other.scales@)
        &&& (first == FLAG_ROTATION || second == FLAG_ROTATION
            || self.rotations@ == other.rotations@)
        &&& (first == FLAG_VELOCITY || second == FLAG_VELOCITY
            || self.velocities@ == other.velocities@)
        &&& (first == FLAG_GEOMETRY || second == FLAG_GEOMETRY
            || self.geometries@ == other.geometries@)
        &&& (first == FLAG_PICKABLE || second == FLAG_PICKABLE
            || self.pickables@ == other.pickables@)
        &&& (first == FLAG_CAMERA || second == FLAG_CAMERA || self.cameras@ == other.cameras@)
        &&& (first == FLAG_BOB || second == FLAG_BOB || self.bobs@ == other.bobs@)
    }

    /// Whether the two registries agree in everything but the flags, the
    /// picked entity and the array of the kind `except`.
    pub open spec fn agrees_except(&self, other: &Self, except: u64) -> bool {
        self.agrees_apart_from(other, except, except)
    }

    /// Whether the flags differ from those of `before` in that `entity` has
    /// gained the bits of `mask`, and in nothing else.
    pub open spec fn marked(&self, before: &Self, entity: int, mask: u64) -> bool {
        &&& self.entities@ == before.entities@.update(
            entity,
            ComponentFlags { bits: before.entities@[entity].bits | mask },
        )
        &&& self.has(entity, mask)
        &&& forall|other: u64|
            other & mask == 0 ==> self.has(entity, other) == before.has(entity, other)
    }

    /// Whether the flags differ from those of `before` in that `entity` has
    /// lost the bits of `mask`, and in nothing else.
    pub open spec fn unmarked(&self, before: &Self, entity: int, mask: u64) -> bool {
        &&& self.entities@ == before.entities@.update(
            entity,
            ComponentFlags { bits: before.entities@[entity].bits & !mask },
        )
        &&& !self.has(entity, mask)
        &&& forall|other: u64|
            other & mask == 0 ==> self.has(entity, other) == before.has(entity, other)
    }

    /// Whether this is a registry without entities, made from `zero`, `one`
    /// and `identity`: no id is issued, nothing is picked, every slot is
    /// marked as fresh, and every cell holds the value of an entity that was
    /// never touched: at the origin, of unit scale, not turned, at rest,
    /// looking at the origin, with an oscillator that has no period.
    pub open spec fn fresh(&self, zero: S, one: S, identity: Q) -> bool {
        let origin = Vector3 { x: zero, y: zero, z: zero };
        let still = Millis { nanos: 0 };
        &&& self.highest_id == 0
        &&& self.zero == zero
        &&& self.one == one
        &&& self.identity == Rotation(identity)
        &&& self.picked_entity.is_none()
        &&& forall|e: int|
            0 <= e < MAX_ENTITIES ==> (#[trigger] self.entities@[e]).bits == FLAG_NONE
        &&& forall|e: int|
            0 <= e < MAX_ENTITIES ==> #[trigger] self.positions@[e] == Position(origin)
        &&& forall|e: int|
            0 <= e < MAX_ENTITIES ==> #[trigger] self.scales@[e]
                == Scale(Vector3 { x: one, y: one, z: one })
        &&& forall|e: int|
            0 <= e < MAX_ENTITIES ==> #[trigger] self.rotations@[e] == Rotation(identity)
        &&& forall|e: int|
            0 <= e < MAX_ENTITIES ==> #[trigger] self.velocities@[e]
                == (Velocity { angular: Rotation(identity), linear: origin })
        &&& forall|e: int|
            0 <= e < MAX_ENTITIES ==> (#[trigger] self.geometries@[e]).geometry@
                == "UNINITIALIZED"@ && self.geometries@[e].program@ == "UNINITIALIZED"@
        &&& forall|e: int| 0 <= e < MAX_ENTITIES ==> (#[trigger] self.pickables@[e]).0 == 0
        &&& forall|e: int|
            0 <= e < MAX_ENTITIES ==> #[trigger] self.cameras@[e]
                == (Camera { target: origin, tracking: None })
        &&& forall|e: int|
            0 <= e < MAX_ENTITIES ==> #[trigger] self.bobs@[e]
                == (Bob { period: still, direction: origin, state: still })
    }

    /// Whether this registry is `before` after the id `id` was issued: `id`
    /// is one above the id issued before it, and is now the id issued last.
    pub open spec fn issued(&self, before: &Self, id: EntityId) -> bool {
        id == before.highest_id + 1 && self.highest_id == id
    }

    /// A registry whose arrays are whole stays well formed under any change
    /// that keeps the flags, the oscillators and the picking ids.
    pub proof fn lemma_wf_carries(&self, before: &Self)
        requires
            before.wf(),
            self.highest_id == before.highest_id,
            self.entities@ == before.entities@,
            self.bobs@ == before.bobs@,
            self.pickables@ == before.pickables@,
            self.positions.wf(),
            self.scales.wf(),
            self.rotations.wf(),
            self.velocities.wf(),
            self.geometries.wf(),
            self.cameras.wf(),
        ensures
            self.wf(),
    {
        assert forall|e: int| 0 <= e < MAX_ENTITIES && #[trigger] self.has(e, FLAG_BOB) implies
            self.bobs@[e].wf() by {
            assert(before.has(e, FLAG_BOB));
        }
        assert forall|e: int| 0 <= e < MAX_ENTITIES && #[trigger] self.has(e, FLAG_PICKABLE) implies
            self.pickables@[e].0 == e by {
            assert(before.has(e, FLAG_PICKABLE));
        }
    }

    /// A registry stays well formed when one entity gains or loses a
    /// component, as long as that entity, if it oscillates, is within its
    /// period, and, if it is pickable, is marked with its own id.
    proof fn lemma_wf_after_change(&self, before: &Self, entity: int)
        requires
            before.wf(),
            0 <= entity < MAX_ENTITIES,
            self.highest_id < MAX_ENTITIES,
            self.entities.wf(),
            self.positions.wf(),
            self.scales.wf(),
            self.rotations.wf(),
            self.velocities.wf(),
            self.geometries.wf(),
            self.pickables.wf(),
            self.cameras.wf(),
            self.bobs.wf(),
            forall|e: int|
                0 <= e < MAX_ENTITIES && e != entity ==> self.entities@[e] == before.entities@[e]
                    && self.bobs@[e] == before.bobs@[e] && self.pickables@[e]
                    == before.pickables@[e],
            self.has(entity, FLAG_BOB) ==> self.bobs@[entity].wf(),
            self.has(entity, FLAG_PICKABLE) ==> self.pickables@[entity].0 == entity,
        ensures
            self.wf(),
    {
        assert forall|e: int| 0 <= e < MAX_ENTITIES && #[trigger] self.has(e, FLAG_BOB) implies
            self.bobs@[e].wf() by {
            if e != entity {
                assert(before.has(e, FLAG_BOB));
            }
        }
        assert forall|e: int| 0 <= e < MAX_ENTITIES && #[trigger] self.has(e, FLAG_PICKABLE) implies
            self.pickables@[e].0 == e by {
            if e != entity {
                assert(before.has(e, FLAG_PICKABLE));
            }
        }
    }

    /// A registry stays well formed when one entity gains a component that
    /// is neither an oscillator nor the mark of a pickable entity.
    proof fn lemma_wf_after_mark(&self, before: &Self, entity: int, mask: u64)
        requires
            before.wf(),
            0 <= entity < MAX_ENTITIES,
            is_kind(mask),
            mask != FLAG_BOB,
            mask != FLAG_PICKABLE,
            self.marked(before, entity, mask),
            self.agrees_except(before, mask),
            self.positions.wf(),
            self.scales.wf(),
            self.rotations.wf(),
            self.velocities.wf(),
            self.geometries.wf(),
            self.cameras.wf(),
        ensures
            self.wf(),
    {
        lemma_kinds_disjoint(FLAG_BOB, mask);
        lemma_kinds_disjoint(FLAG_PICKABLE, mask);
        assert(self.has(entity, FLAG_BOB) == before.has(entity, FLAG_BOB));
        assert(self.has(entity, FLAG_PICKABLE) == before.has(entity, FLAG_PICKABLE));
        self.lemma_wf_after_change(before, entity);
    }

    /// The ids that a registry issues ascend strictly, whatever else is done
    /// to it in between: `states` are the states that it goes through, and
    /// step `i` either issues the id `steps[i]` or leaves the id issued last
    /// as it is.
    pub proof fn lemma_ids_ascend(states: Seq<Self>, steps: Seq<Option<EntityId>>)
        requires
            states.len() == steps.len() + 1,
            forall|i: int|
                0 <= i < steps.len() ==> (match #[trigger] steps[i] {
                    Some(id) => states[i + 1].issued(&states[i], id),
                    None => states[i + 1].highest_id == states[i].highest_id,
                }),
        ensures
            forall|i: int, j: int|
                0 <= i < j < steps.len() && steps[i].is_some() && steps[j].is_some()
                    ==> steps[i].unwrap() < steps[j].unwrap(),
            forall|i: int| 0 <= i < steps.len() && steps[i].is_some() ==> steps[i].unwrap() > 0,
    {
        assert forall|i: int, j: int|
            0 <= i < j < steps.len() && steps[i].is_some() && steps[j].is_some() implies
            steps[i].unwrap() < steps[j].unwrap() by {
            Self::lemma_highest_never_falls(states, steps, i + 1, j);
        }
    }

    /// The id issued last never falls.
    proof fn lemma_highest_never_falls(
        states: Seq<Self>,
        steps: Seq<Option<EntityId>>,
        from: int,
        to: int,
    )
        requires
            states.len() == steps.len() + 1,
            forall|i: int|
                0 <= i < steps.len() ==> (match #[trigger] steps[i] {
                    Some(id) => states[i + 1].issued(&states[i], id),
                    None => states[i + 1].highest_id == states[i].highest_id,
                }),
            0 <= from <= to < states.len(),
        ensures
            states[from].highest_id <= states[to].highest_id,
        decreases to - from,
    {
        if from < to {
            Self::lemma_highest_never_falls(states, steps, from, to - 1);
            assert(steps[to - 1].is_some() || steps[to - 1].is_none());
        }
    }

    /// A registry without entities. Every cell is filled from `zero`, `one`
    /// and `identity`, and no flag of a component kind is set.
    pub fn new(zero: S, one: S, identity: Q) -> (r: Self)
        ensures
            r.wf(),
            r.fresh(zero, one, identity),
            forall|e: int, mask: u64|
                0 <= e < MAX_ENTITIES && is_kind(mask) ==> !#[trigger] r.has(e, mask),
    {
        let origin = Vector3 { x: zero, y: zero, z: zero };
        let still = Millis { nanos: 0 };
        let r = EntityManager {
            highest_id: 0,
            zero,
            one,
            identity: Rotation(identity),
            entities: EntityArray::filled(ComponentFlags::new()),
            positions: EntityArray::filled(Position(origin)),
            scales: EntityArray::filled(Scale(Vector3 { x: one, y: one, z: one })),
            rotations: EntityArray::filled(Rotation(identity)),
            velocities: EntityArray::filled(
                Velocity { angular: Rotation(identity), linear: origin },
            ),
            geometries: EntityArray::filled(Geometry::default()),
            pickables: EntityArray::filled(Pickable::default()),
            cameras: EntityArray::filled(Camera { target: origin, tracking: None }),
            bobs: EntityArray::filled(Bob { period: still, direction: origin, state: still }),
            picked_entity: None,
        };
        proof {
            assert forall|e: int, mask: u64| 0 <= e < MAX_ENTITIES && is_kind(mask) implies
                !#[trigger] r.has(e, mask) by {
                lemma_fresh_has_no_kind(r.entities@[e]);
            }
            assert(is_kind(FLAG_BOB) && is_kind(FLAG_PICKABLE));
        }
        r
    }

    /// The id issued last, or 0 when none was issued yet.
    pub fn last_entity(&self) -> (r: EntityId)
        ensures
            r == self.highest_id,
    {
        self.highest_id
    }

    /// Whether every id has been issued, so that `new_entity` may not be
    /// called.
    pub fn is_full(&self) -> (r: bool)
        requires
            self.wf(),
        ensures
            r == (self.highest_id + 1 >= MAX_ENTITIES),
    {
        self.highest_id as usize + 1 >= MAX_ENTITIES
    }

    /// A walk over the ids whose flags hold `flag`, in ascending order.
    pub fn entity_iter<'a>(flags: &'a FlagsArray, flag: u64) -> (r: EntityIterator<'a>)
        requires
            flags.wf(),
        ensures
            r.wf(),
            r.position() == 0,
            r.source() == flags@,
            r.mask() == flag,
    {
        EntityIterator::new(flags, flag)
    }

    /// The ids whose flags hold `flag`, in ascending order.
    pub fn entities_with(flags: &FlagsArray, flag: u64) -> (ids: Vec<EntityId>)
        requires
            flags.wf(),
        ensures
            ids@ == ids_with(flags@, flag, MAX_ENTITIES as int),
    {
        let mut ids: Vec<EntityId> = Vec::new();
        let mut it = Self::entity_iter(flags, flag);
        let ghost mut settled: int = 0;
        loop
            invariant
                it.wf(),
                it.source() == flags@,
                it.mask() == flag,
                flags.wf(),
                settled == it.position(),
                0 <= settled <= MAX_ENTITIES,
                ids@ == ids_with(flags@, flag, settled),
            ensures
                ids@ == ids_with(flags@, flag, MAX_ENTITIES as int),
            decreases MAX_ENTITIES - it.position(),
        {
            let next = it.next();
            match next {
                Some(entity) => {
                    ids.push(entity);
                    proof {
                        lemma_ids_with_gap(flags@, flag, settled, entity as int);
                        settled = entity + 1;
                    }
                },
                None => {
                    proof {
                        lemma_ids_with_gap(flags@, flag, settled, MAX_ENTITIES as int);
                        settled = MAX_ENTITIES as int;
                    }
                    break;
                },
            }
        }
        ids
    }

    /// Whether `entity` carries every kind of `mask`.
    pub fn has_component(&self, entity: EntityId, mask: u64) -> (r: bool)
        requires
            self.wf(),
            entity < MAX_ENTITIES,
        ensures
            r == self.has(entity as int, mask),
    {
        self.entities.get(entity).contains(mask)
    }

    /// Issues the next id: one above the id issued last. Its flags are reset
    /// to those of a fresh slot; nothing else changes. The last id that can
    /// be issued is one below [`MAX_ENTITIES`].
    pub fn new_entity(&mut self) -> (id: EntityId)
        requires
            old(self).wf(),
            old(self).highest_id + 1 < MAX_ENTITIES,
        ensures
            final(self).wf(),
            final(self).issued(old(self), id),
            id > old(self).highest_id,
            final(self).entities@ == old(self).entities@.update(
                id as int,
                ComponentFlags { bits: FLAG_NONE },
            ),
            forall|mask: u64| is_kind(mask) ==> !final(self).has(id as int, mask),
            final(self).zero == old(self).zero,
            final(self).one == old(self).one,
            final(self).identity == old(self).identity,
            final(self).picked_entity == old(self).picked_entity,
            final(self).positions@ == old(self).positions@,
            final(self).scales@ == old(self).scales@,
            final(self).rotations@ == old(self).rotations@,
            final(self).velocities@ == old(self).velocities@,
            final(self).geometries@ == old(self).geometries@,
            final(self).pickables@ == old(self).pickables@,
            final(self).cameras@ == old(self).cameras@,
            final(self).bobs@ == old(self).bobs@,
    {
        self.highest_id += 1;
        self.entities.set(self.highest_id, ComponentFlags::new());
        proof {
            let id = self.highest_id as int;
            lemma_fresh_has_no_kind(self.entities@[id]);
            assert(is_kind(FLAG_BOB) && is_kind(FLAG_PICKABLE));
            self.lemma_wf_after_change(old(self), id);
        }
        self.highest_id
    }

    /// Removal of entities is not offered: the call changes nothing, and no id
    /// is ever issued twice.
    pub fn delete_entity(&mut self, _entity: EntityId)
        ensures
            *final(self) == *old(self),
    {
    }

    /// Gives `entity` the geometry `g`. The cell is overwritten and the kind
    /// is marked as present; nothing is asked of the value.
    pub fn add_geometry(&mut self, entity: EntityId, g: Geometry)
        requires
            old(self).wf(),
            entity < MAX_ENTITIES,
        ensures
            final(self).wf(),
            final(self).geometries@ == old(self).geometries@.update(entity as int, g),
            final(self).marked(old(self), entity as int, FLAG_GEOMETRY),
            final(self).agrees_except(old(self), FLAG_GEOMETRY),
            final(self).picked_entity == old(self).picked_entity,
    {
        self.geometries.set(entity, g);
        insert_flag(&mut self.entities, entity, FLAG_GEOMETRY);
        proof {
            self.lemma_wf_after_mark(old(self), entity as int, FLAG_GEOMETRY);
        }
    }

    /// Puts `entity` at `p`. The cell is overwritten and the kind is marked
    /// as present; nothing is asked of the value.
    pub fn set_position(&mut self, entity: EntityId, p: Position<S>)
        requires
            old(self).wf(),
            entity < MAX_ENTITIES,
        ensures
            final(self).wf(),
            final(self).positions@ == old(self).positions@.update(entity as int, p),
            final(self).marked(old(self), entity as int, FLAG_POSITION),
            final(self).agrees_except(old(self), FLAG_POSITION),
            final(self).picked_entity == old(self).picked_entity,
    {
        self.positions.set(entity, p);
        insert_flag(&mut self.entities, entity, FLAG_POSITION);
        proof {
            self.lemma_wf_after_mark(old(self), entity as int, FLAG_POSITION);
        }
    }

    /// Makes `entity` a camera. The cell is overwritten and the kind is
    /// marked as present; nothing is asked of the value.
    pub fn add_camera(&mut self, entity: EntityId, camera: Camera<S>)
        requires
            old(self).wf(),
            entity < MAX_ENTITIES,
        ensures
            final(self).wf(),
            final(self).cameras@ == old(self).cameras@.update(entity as int, camera),
            final(self).marked(old(self), entity as int, FLAG_CAMERA),
            final(self).agrees_except(old(self), FLAG_CAMERA),
            final(self).picked_entity == old(self).picked_entity,
    {
        self.cameras.set(entity, camera);
        insert_flag(&mut self.entities, entity, FLAG_CAMERA);
        proof {
            self.lemma_wf_after_mark(old(self), entity as int, FLAG_CAMERA);
        }
    }

    /// Gives `entity` the scale `scale`. The cell is overwritten and the kind
    /// is marked as present; nothing is asked of the value.
    pub fn set_scale(&mut self, entity: EntityId, scale: Scale<S>)
        requires
            old(self).wf(),
            entity < MAX_ENTITIES,
        ensures
            final(self).wf(),
            final(self).scales@ == old(self).scales@.update(entity as int, scale),
            final(self).marked(old(self), entity as int, FLAG_SCALE),
            final(self).agrees_except(old(self), FLAG_SCALE),
            final(self).picked_entity == old(self).picked_entity,
    {
        self.scales.set(entity, scale);
        insert_flag(&mut self.entities, entity, FLAG_SCALE);
        proof {
            self.lemma_wf_after_mark(old(self), entity as int, FLAG_SCALE);
        }
    }

    /// Turns `entity` to `rot`. The cell is overwritten and the kind is
    /// marked as present; nothing is asked of the value.
    pub fn set_rotation(&mut self, entity: EntityId, rot: Rotation<Q>)
        requires
            old(self).wf(),
            entity < MAX_ENTITIES,
        ensures
            final(self).wf(),
            final(self).rotations@ == old(self).rotations@.update(entity as int, rot),
            final(self).marked(old(self), entity as int, FLAG_ROTATION),
            final(self).agrees_except(old(self), FLAG_ROTATION),
            final(self).picked_entity == old(self).picked_entity,
    {
        self.rotations.set(entity, rot);
        insert_flag(&mut self.entities, entity, FLAG_ROTATION);
        proof {
            self.lemma_wf_after_mark(old(self), entity as int, FLAG_ROTATION);
        }
    }

    /// Lets `entity` move with `velocity`. The cell is overwritten and the
    /// kind is marked as present; nothing is asked of the value.
    pub fn set_velocity(&mut self, entity: EntityId, velocity: Velocity<S, Q>)
        requires
            old(self).wf(),
            entity < MAX_ENTITIES,
        ensures
            final(self).wf(),
            final(self).velocities@ == old(self).velocities@.update(entity as int, velocity),
            final(self).marked(old(self), entity as int, FLAG_VELOCITY),
            final(self).agrees_except(old(self), FLAG_VELOCITY),
            final(self).picked_entity == old(self).picked_entity,
    {
        self.velocities.set(entity, velocity);
        insert_flag(&mut self.entities, entity, FLAG_VELOCITY);
        proof {
            self.lemma_wf_after_mark(old(self), entity as int, FLAG_VELOCITY);
        }
    }

    /// Makes `entity` oscillate as `bob` says, which must have a period and
    /// be within it. The cell is overwritten and the kind is marked as
    /// present.
    pub fn add_bob(&mut self, entity: EntityId, bob: Bob<S>)
        requires
            old(self).wf(),
            entity < MAX_ENTITIES,
            bob.wf(),
        ensures
            final(self).wf(),
            final(self).bobs@ == old(self).bobs@.update(entity as int, bob),
            final(self).marked(old(self), entity as int, FLAG_BOB),
            final(self).agrees_except(old(self), FLAG_BOB),
            final(self).picked_entity == old(self).picked_entity,
    {
        self.bobs.set(entity, bob);
        insert_flag(&mut self.entities, entity, FLAG_BOB);
        proof {
            lemma_kinds_disjoint(FLAG_PICKABLE, FLAG_BOB);
            assert(self.has(entity as int, FLAG_PICKABLE) == old(self).has(
                entity as int,
                FLAG_PICKABLE,
            ));
            self.lemma_wf_after_change(old(self), entity as int);
        }
    }

    /// Lets `entity` take part in picking, under its own id, or takes it out
    /// again. Taking it out clears the flag and leaves the cell as it is.
    pub fn set_pickable(&mut self, entity: EntityId, enable: bool)
        requires
            old(self).wf(),
            entity < MAX_ENTITIES,
        ensures
            final(self).wf(),
            final(self).agrees_except(old(self), FLAG_PICKABLE),
            final(self).picked_entity == old(self).picked_entity,
            enable ==> final(self).marked(old(self), entity as int, FLAG_PICKABLE)
                && final(self).pickables@ == old(self).pickables@.update(
                entity as int,
                Pickable(entity),
            ),
            !enable ==> final(self).unmarked(old(self), entity as int, FLAG_PICKABLE)
                && final(self).pickables@ == old(self).pickables@,
    {
        if enable {
            self.pickables.set(entity, Pickable(entity));
            insert_flag(&mut self.entities, entity, FLAG_PICKABLE);
        } else {
            remove_flag(&mut self.entities, entity, FLAG_PICKABLE);
        }
        proof {
            lemma_kinds_disjoint(FLAG_BOB, FLAG_PICKABLE);
            assert(self.has(entity as int, FLAG_BOB) == old(self).has(entity as int, FLAG_BOB));
            self.lemma_wf_after_change(old(self), entity as int);
        }
    }
}

} // verus!
