//! The render pass: what is drawn for each entity, and with which transforms.
//!
//! The pass itself issues no draw. It makes the list of draws, one entry per
//! entity with a geometry, in ascending order of id; whoever owns the surface
//! issues them, and draws an entry that is pickable a second time into the
//! picking target, with the entry's id in place of a colour.

use vstd::prelude::*;
use crate::arithmetic::Arithmetic;
use crate::components::{AsMatrix, Geometry, Pickable};
use crate::flags::{FLAG_GEOMETRY, FLAG_PICKABLE, FLAG_ROTATION, FLAG_SCALE};
use crate::linear::Matrix4;
use crate::picking::{Pick, PickingSystem};
use crate::registry::EntityManager;
use crate::storage::{ids_with, lemma_ids_with, EntityId, MAX_ENTITIES};

verus! {

/// One entity's draw.
#[derive(Clone, Copy, Debug)]
pub struct DrawCall<S> {
    pub entity: EntityId,
    /// The names of the mesh and of the program to draw with.
    pub geometry: Geometry,
    /// The id to write into the picking target, for a pickable entity.
    pub picking: Option<Pickable>,
    /// The transform from the mesh to the world.
    pub model_matrix: Matrix4<S>,
    /// The transform of the mesh's normals.
    pub normal_matrix: Matrix4<S>,
}

impl<S: Copy> DrawCall<S> {
    /// The id that the draw hands to its program: the picking id, or 0 for an
    /// entity that is not pickable.
    pub fn picking_id(&self) -> (r: EntityId)
        ensures
            r == (match self.picking {
                Some(p) => p.0,
                None => 0,
            }),
    {
        match self.picking {
            Some(p) => p.0,
            None => 0,
        }
    }
}

/// The render pass and its one setting.
pub struct RenderSystem {
    /// Whether meshes are drawn as lines.
    pub render_wireframe: bool,
}

impl RenderSystem {
    /// A render pass that fills its meshes.
    pub fn new() -> (r: Self)
        ensures
            !r.render_wireframe,
    {
        RenderSystem { render_wireframe: false }
    }

    /// Whether `model` is the model transform of entity `e`, built by way of
    /// `translation`, `turn`, `turned` and `scaling`.
    ///
    /// `translation` is the transform of the position. With a rotation,
    /// `turn` is the rotation as a matrix and `turned` the product of
    /// `translation` and `turn`, in this order; without, `turned` is
    /// `translation`. With a scale, `scaling` is its transform and `model`
    /// the product of `turned` and `scaling`, in this order; without, `model`
    /// is `turned`.
    pub open spec fn model_chain<S: Copy, Q: Copy, A: Arithmetic<S, Q>>(
        manager: &EntityManager<S, Q>,
        ops: &A,
        e: int,
        translation: Matrix4<S>,
        turn: Matrix4<S>,
        turned: Matrix4<S>,
        scaling: Matrix4<S>,
        model: Matrix4<S>,
    ) -> bool {
        &&& manager.positions@[e].is_matrix(manager.zero, manager.one, translation)
        &&& if manager.has(e, FLAG_ROTATION) {
            &&& call_ensures(A::rotation_matrix, (ops, manager.rotations@[e].0), turn)
            &&& call_ensures(A::product, (ops, translation, turn), turned)
        } else {
            turned == translation
        }
        &&& if manager.has(e, FLAG_SCALE) {
            &&& manager.scales@[e].is_matrix(manager.zero, manager.one, scaling)
            &&& call_ensures(A::product, (ops, turned, scaling), model)
        } else {
            model == turned
        }
    }

    /// Whether `model` is the model transform of entity `e`: position times
    /// rotation times scale, where a rotation or a scale that the entity
    /// lacks is left out. A point of the mesh is thus scaled first, then
    /// turned, then moved.
    pub open spec fn modelled<S: Copy, Q: Copy, A: Arithmetic<S, Q>>(
        manager: &EntityManager<S, Q>,
        ops: &A,
        e: int,
        model: Matrix4<S>,
    ) -> bool {
        exists|
            translation: Matrix4<S>,
            turn: Matrix4<S>,
            turned: Matrix4<S>,
            scaling: Matrix4<S>,
        | #[trigger]
            Self::model_chain(manager, ops, e, translation, turn, turned, scaling, model)
    }

    /// Whether `call` is the draw of entity `e`: it names the entity and its
    /// geometry, it carries the picking id exactly if the entity is pickable,
    /// its model transform is that of the entity, and its normal transform is
    /// the one that goes with the model transform.
    pub open spec fn drawn<S: Copy, Q: Copy, A: Arithmetic<S, Q>>(
        manager: &EntityManager<S, Q>,
        ops: &A,
        e: int,
        call: DrawCall<S>,
    ) -> bool {
        &&& call.entity == e
        &&& call.geometry == manager.geometries@[e]
        &&& call.picking == (if manager.has(e, FLAG_PICKABLE) {
            Some(manager.pickables@[e])
        } else {
            None
        })
        &&& Self::modelled(manager, ops, e, call.model_matrix)
        &&& call_ensures(A::normal_matrix, (ops, call.model_matrix), call.normal_matrix)
    }

    /// The entities that are drawn: those with a geometry, in ascending order
    /// of id.
    pub open spec fn drawn_ids<S: Copy, Q: Copy>(manager: &EntityManager<S, Q>) -> Seq<EntityId> {
        ids_with(manager.entities@, FLAG_GEOMETRY, MAX_ENTITIES as int)
    }

    /// The draws of two pickable entities carry different ids, each the id
    /// of its entity; read back from the picking target, such an id names
    /// that entity, provided the entity was issued by the registry.
    pub proof fn lemma_picking_ids_tell_apart<S: Copy, Q: Copy, A: Arithmetic<S, Q>>(
        manager: &EntityManager<S, Q>,
        ops: &A,
        a: int,
        b: int,
        first: DrawCall<S>,
        second: DrawCall<S>,
    )
        requires
            manager.wf(),
            0 <= a < MAX_ENTITIES,
            0 <= b < MAX_ENTITIES,
            a != b,
            manager.has(a, FLAG_PICKABLE),
            manager.has(b, FLAG_PICKABLE),
            Self::drawn(manager, ops, a, first),
            Self::drawn(manager, ops, b, second),
        ensures
            first.picking == Some(Pickable(a as EntityId)),
            second.picking == Some(Pickable(b as EntityId)),
            first.picking != second.picking,
            0 < a ==> PickingSystem::meaning(Some(first.picking.unwrap().0))
                == Pick::Entity(first.entity),
    {
    }

    /// The draws of one frame: one for every entity with a geometry, in
    /// ascending order of id.
    pub fn render<S: Copy, Q: Copy, A: Arithmetic<S, Q>>(
        &self,
        manager: &EntityManager<S, Q>,
        ops: &A,
    ) -> (calls: Vec<DrawCall<S>>)
        requires
            manager.wf(),
        ensures
            calls@.len() == Self::drawn_ids(manager).len(),
            forall|k: int|
                0 <= k < calls@.len() ==> Self::drawn(
                    manager,
                    ops,
                    Self::drawn_ids(manager)[k] as int,
                    #[trigger] calls@[k],
                ),
    {
        let ids = EntityManager::<S, Q>::entities_with(&manager.entities, FLAG_GEOMETRY);
        proof {
            lemma_ids_with(manager.entities@, FLAG_GEOMETRY, MAX_ENTITIES as int);
        }
        let mut calls: Vec<DrawCall<S>> = Vec::new();
        let mut k: usize = 0;
        while k < ids.len()
            invariant
                manager.wf(),
                ids@ == Self::drawn_ids(manager),
                forall|j: int| 0 <= j < ids@.len() ==> (#[trigger] ids@[j]) < MAX_ENTITIES,
                k <= ids@.len(),
                calls@.len() == k,
                forall|j: int|
                    0 <= j < k ==> Self::drawn(manager, ops, ids@[j] as int, #[trigger] calls@[j]),
            decreases ids@.len() - k,
        {
            let call = Self::draw_of(manager, ops, ids[k]);
            calls.push(call);
            k += 1;
        }
        calls
    }

    /// The draw of `entity`.
    pub fn draw_of<S: Copy, Q: Copy, A: Arithmetic<S, Q>>(
        manager: &EntityManager<S, Q>,
        ops: &A,
        entity: EntityId,
    ) -> (call: DrawCall<S>)
        requires
            manager.wf(),
            entity < MAX_ENTITIES,
        ensures
            Self::drawn(manager, ops, entity as int, call),
    {
        let flags = *manager.entities.get(entity);
        let picking = if flags.contains(FLAG_PICKABLE) {
            Some(*manager.pickables.get(entity))
        } else {
            None
        };
        let translation = manager.positions.get(entity).as_matrix(manager.zero, manager.one);
        let mut turn = translation;
        let mut turned = translation;
        if flags.contains(FLAG_ROTATION) {
            turn = ops.rotation_matrix(manager.rotations.get(entity).0);
            turned = ops.product(translation, turn);
        }
        let mut scaling = translation;
        let mut model = turned;
        if flags.contains(FLAG_SCALE) {
            scaling = manager.scales.get(entity).as_matrix(manager.zero, manager.one);
            model = ops.product(turned, scaling);
        }
        let normal = ops.normal_matrix(model);
        let call = DrawCall {
            entity,
            geometry: *manager.geometries.get(entity),
            picking,
            model_matrix: model,
            normal_matrix: normal,
        };
        proof {
            assert(Self::model_chain(
                manager,
                ops,
                entity as int,
                translation,
                turn,
                turned,
                scaling,
                call.model_matrix,
            ));
        }
        call
    }
}

} // verus!
