//! The world: the registry, the pointer, the light, and the two passes that
//! are run on them, `update` once per tick and `draw` once per frame.
//!
//! The world owns no surface and no device. What comes from them (the
//! surface's size and events, the pixel read back from the picking target) is
//! handed in, and what goes to them (the draws, the pixel to copy) is handed
//! out.

use vstd::prelude::*;
use crate::arithmetic::Arithmetic;
use crate::flags::{
    is_kind, lemma_kinds_disjoint, FLAG_BOB, FLAG_CAMERA, FLAG_POSITION, FLAG_ROTATION,
    FLAG_VELOCITY,
};
use crate::linear::{Matrix4, Vector3};
use crate::picking::{PickingSystem, Rect};
use crate::registry::EntityManager;
use crate::render_system::{DrawCall, RenderSystem};
use crate::storage::{EntityId, MAX_ENTITIES};
use crate::systems::{BobSystem, CameraSystem, VelocitySystem};
use crate::time::Millis;

verus! {

/// The key that switches between filled meshes and lines.
pub const KEY_WIREFRAME: u8 = 25;

/// What a surface reports.
#[derive(Clone, Copy, Debug, PartialEq, Eq, Structural)]
pub enum SurfaceEvent {
    /// The surface was closed.
    Closed,
    /// A pointer button went down.
    MousePressed,
    /// The pointer moved to this place, counted from the top left.
    MouseMoved(u32, u32),
    /// The surface gained the focus, or lost it.
    Focused(bool),
    /// The key with this code went down.
    KeyPressed(u8),
    /// Anything else.
    Other,
}

/// What every draw of one frame shares.
#[derive(Clone, Copy, Debug)]
pub struct WorldUniforms<S> {
    pub projection_matrix: Matrix4<S>,
    pub light_position: Vector3<S>,
    pub camera_matrix: Matrix4<S>,
    pub camera_position: Vector3<S>,
}

/// One frame, ready to be issued.
pub struct Frame<S> {
    /// Whether the picking target must be made anew, at the surface's size,
    /// before anything is drawn into it.
    pub resized: bool,
    pub uniforms: WorldUniforms<S>,
    /// The draws, in order.
    pub calls: Vec<DrawCall<S>>,
    /// Whether meshes are drawn as lines.
    pub wireframe: bool,
    /// The pixel to copy out of the picking target once the draws are done.
    pub pick: Option<Rect>,
}

/// A scene and what is run on it.
pub struct World<S, Q> {
    pub entities: EntityManager<S, Q>,
    /// Where the light is.
    pub light: Vector3<S>,
    /// Where the pointer is, while it is over the surface.
    pub mouse_position: Option<(u32, u32)>,
    pub render_system: RenderSystem,
    pub picking_system: PickingSystem,
    /// Time that has passed and has not been simulated yet.
    pub lag: Millis,
}

impl<S: Copy, Q: Copy> World<S, Q> {
    /// The registry is well formed.
    pub open spec fn wf(&self) -> bool {
        self.entities.wf()
    }

    /// Whether `e` is the camera that a frame is seen through: the camera
    /// with the least id.
    pub open spec fn is_current_camera(&self, e: int) -> bool {
        &&& 0 <= e < MAX_ENTITIES
        &&& self.entities.has(e, FLAG_CAMERA)
        &&& forall|j: int| 0 <= j < e ==> !#[trigger] self.entities.has(j, FLAG_CAMERA)
    }

    /// Whether any entity is a camera.
    pub open spec fn has_camera(&self) -> bool {
        exists|e: int| 0 <= e < MAX_ENTITIES && #[trigger] self.entities.has(e, FLAG_CAMERA)
    }

    /// An empty world with the light at the origin, no pointer, nothing left
    /// to simulate, and a picking target of 800 by 600.
    pub fn new(zero: S, one: S, identity: Q) -> (r: Self)
        ensures
            r.wf(),
            r.entities.fresh(zero, one, identity),
            forall|e: int, mask: u64|
                0 <= e < MAX_ENTITIES && is_kind(mask) ==> !#[trigger] r.entities.has(e, mask),
            !r.has_camera(),
            r.light == (Vector3 { x: zero, y: zero, z: zero }),
            r.mouse_position.is_none(),
            !r.render_system.render_wireframe,
            r.picking_system.size == (800u32, 600u32),
            r.lag.nanos == 0,
    {
        let r = World {
            entities: EntityManager::new(zero, one, identity),
            light: Vector3 { x: zero, y: zero, z: zero },
            mouse_position: None,
            render_system: RenderSystem::new(),
            picking_system: PickingSystem::new((800, 600)),
            lag: Millis { nanos: 0 },
        };
        proof {
            assert(is_kind(FLAG_CAMERA));
        }
        r
    }

    /// The camera that a frame is seen through: the camera with the least
    /// id, or `None` where no entity is a camera.
    pub fn current_camera(&self) -> (r: Option<EntityId>)
        requires
            self.wf(),
        ensures
            match r {
                Some(e) => self.is_current_camera(e as int),
                None => !self.has_camera(),
            },
    {
        let mut it = EntityManager::<S, Q>::entity_iter(&self.entities.entities, FLAG_CAMERA);
        let r = it.next();
        proof {
            let end = match r {
                Some(e) => e as int,
                None => MAX_ENTITIES as int,
            };
            assert forall|j: int| 0 <= j < end implies !#[trigger] self.entities.has(
                j,
                FLAG_CAMERA,
            ) by {
                assert(!self.entities.entities@[j].has(FLAG_CAMERA));
            }
        }
        r
    }

    /// Whether `uniforms` are those of a frame seen through camera `camera`
    /// on a surface of `size`: the view is the one from the camera's position
    /// towards the point it looks at, and the projection is the perspective
    /// onto the surface.
    pub open spec fn viewed<A: Arithmetic<S, Q>>(
        &self,
        camera: int,
        size: (u32, u32),
        ops: &A,
        uniforms: WorldUniforms<S>,
    ) -> bool {
        &&& uniforms.camera_position == self.entities.positions@[camera].0
        &&& uniforms.light_position == self.light
        &&& call_ensures(
            A::look_at,
            (ops, self.entities.positions@[camera].0, self.entities.cameras@[camera].target),
            uniforms.camera_matrix,
        )
        &&& call_ensures(A::perspective, (ops, size.0, size.1), uniforms.projection_matrix)
    }

    /// What every draw of a frame on a surface of `size` shares. A world
    /// without a camera cannot be seen.
    pub fn uniforms<A: Arithmetic<S, Q>>(&self, size: (u32, u32), ops: &A) -> (r: WorldUniforms<S>)
        requires
            self.wf(),
            self.has_camera(),
        ensures
            exists|c: int| self.is_current_camera(c) && #[trigger] self.viewed(c, size, ops, r),
            forall|c: int| self.is_current_camera(c) ==> self.viewed(c, size, ops, r),
    {
        let camera = self.current_camera().unwrap();
        let camera_position = self.entities.positions.get(camera).0;
        let camera_matrix = ops.look_at(camera_position, self.entities.cameras.get(camera).target);
        let projection_matrix = ops.perspective(size.0, size.1);
        proof {
            assert forall|c: int| self.is_current_camera(c) implies c == camera by {
                if c < camera {
                    assert(!self.entities.has(c, FLAG_CAMERA));
                }
                if camera < c {
                    assert(!self.entities.has(camera as int, FLAG_CAMERA));
                }
            }
        }
        let r = WorldUniforms {
            projection_matrix,
            light_position: self.light,
            camera_matrix,
            camera_position,
        };
        proof {
            assert(self.viewed(camera as int, size, ops, r));
        }
        r
    }

    /// Whether `after` is what one tick of `delta` makes of `before`, by way
    /// of `bobbed` and `moved`: the oscillators run first, on `before`; the
    /// velocities run on what they left, `bobbed`; the cameras run last, on
    /// `moved`, so that a camera looks where its entity stands after this
    /// tick.
    pub open spec fn ticked<A: Arithmetic<S, Q>>(
        before: &EntityManager<S, Q>,
        bobbed: &EntityManager<S, Q>,
        moved: &EntityManager<S, Q>,
        after: &EntityManager<S, Q>,
        delta: Millis,
        ops: &A,
    ) -> bool {
        &&& BobSystem::ran(before, bobbed, delta, ops)
        &&& VelocitySystem::ran(bobbed, moved, delta, ops)
        &&& CameraSystem::ran(moved, after)
    }

    /// An entity that has a velocity and no oscillator stands, after one
    /// tick, where it stood before plus its linear velocity times the length
    /// of the tick.
    pub proof fn lemma_velocity_alone<A: Arithmetic<S, Q>>(
        before: &EntityManager<S, Q>,
        bobbed: &EntityManager<S, Q>,
        moved: &EntityManager<S, Q>,
        after: &EntityManager<S, Q>,
        delta: Millis,
        ops: &A,
        e: int,
    )
        requires
            Self::ticked(before, bobbed, moved, after, delta, ops),
            0 <= e < MAX_ENTITIES,
            before.has(e, FLAG_VELOCITY),
            !before.has(e, FLAG_BOB),
        ensures
            VelocitySystem::advanced(
                ops,
                before.positions@[e].0,
                before.velocities@[e].linear,
                delta,
                after.positions@[e].0,
            ),
    {
        assert(BobSystem::stepped(before, bobbed, delta, ops, e));
        assert(VelocitySystem::stepped(bobbed, moved, delta, ops, e));
    }

    /// An entity that has neither a velocity nor an oscillator stands, after
    /// one tick, where it stood before.
    pub proof fn lemma_rest<A: Arithmetic<S, Q>>(
        before: &EntityManager<S, Q>,
        bobbed: &EntityManager<S, Q>,
        moved: &EntityManager<S, Q>,
        after: &EntityManager<S, Q>,
        delta: Millis,
        ops: &A,
        e: int,
    )
        requires
            Self::ticked(before, bobbed, moved, after, delta, ops),
            0 <= e < MAX_ENTITIES,
            !before.has(e, FLAG_VELOCITY),
            !before.has(e, FLAG_BOB),
        ensures
            after.positions@[e] == before.positions@[e],
    {
        assert(BobSystem::stepped(before, bobbed, delta, ops, e));
        assert(VelocitySystem::stepped(bobbed, moved, delta, ops, e));
    }

    /// A camera that follows an entity looks, after one tick, at the place
    /// where that entity stands after the same tick.
    pub proof fn lemma_camera_follows<A: Arithmetic<S, Q>>(
        before: &EntityManager<S, Q>,
        bobbed: &EntityManager<S, Q>,
        moved: &EntityManager<S, Q>,
        after: &EntityManager<S, Q>,
        delta: Millis,
        ops: &A,
        camera: int,
        target: EntityId,
    )
        requires
            Self::ticked(before, bobbed, moved, after, delta, ops),
            0 <= camera < MAX_ENTITIES,
            target < MAX_ENTITIES,
            before.has(camera, FLAG_CAMERA),
            before.cameras@[camera].tracking == Some(target),
        ensures
            after.cameras@[camera].tracking == Some(target),
            after.cameras@[camera].target == after.positions@[target as int].0,
    {
        lemma_kinds_disjoint(FLAG_CAMERA, FLAG_ROTATION);
        assert(bobbed.has(camera, FLAG_CAMERA));
        assert(moved.has(camera, FLAG_CAMERA) == bobbed.has(camera, FLAG_CAMERA));
    }

    /// A camera that follows an entity follows its moves. Where the camera
    /// looked at the place `was`, and the entity, which neither a velocity
    /// nor an oscillator moves, has since been put at `was` plus `d`, the
    /// camera looks after one tick at the place it looked at plus `d`.
    pub proof fn lemma_camera_tracks_move<A: Arithmetic<S, Q>>(
        before: &EntityManager<S, Q>,
        bobbed: &EntityManager<S, Q>,
        moved: &EntityManager<S, Q>,
        after: &EntityManager<S, Q>,
        delta: Millis,
        ops: &A,
        camera: int,
        target: EntityId,
        was: Vector3<S>,
        d: Vector3<S>,
    )
        requires
            Self::ticked(before, bobbed, moved, after, delta, ops),
            0 <= camera < MAX_ENTITIES,
            target < MAX_ENTITIES,
            before.has(camera, FLAG_CAMERA),
            before.cameras@[camera].tracking == Some(target),
            before.cameras@[camera].target == was,
            call_ensures(A::plus, (ops, was, d), before.positions@[target as int].0),
            !before.has(target as int, FLAG_VELOCITY),
            !before.has(target as int, FLAG_BOB),
        ensures
            call_ensures(
                A::plus,
                (ops, before.cameras@[camera].target, d),
                after.cameras@[camera].target,
            ),
    {
        Self::lemma_camera_follows(before, bobbed, moved, after, delta, ops, camera, target);
        Self::lemma_rest(before, bobbed, moved, after, delta, ops, target as int);
    }

    /// Whether `update` may be called with a tick of `delta`: no oscillator
    /// has a shorter period, and every camera that follows an entity follows
    /// one that has a position.
    pub fn accepts(&self, delta: Millis) -> (r: bool)
        requires
            self.wf(),
        ensures
            r == (BobSystem::tick_fits(&self.entities, delta)
                && CameraSystem::tracking_resolves(&self.entities)),
    {
        BobSystem::accepts(&self.entities, delta) && CameraSystem::ready(&self.entities)
    }

    /// One tick of `delta`.
    ///
    /// First the entity under the pointer is settled from `pixel`, the pixel
    /// that was copied out of the picking target after an earlier draw:
    /// `None` while the copy has not arrived. Then the oscillators, the
    /// velocities and the cameras are run, in this order.
    pub fn update<A: Arithmetic<S, Q>>(&mut self, delta: Millis, pixel: Option<u32>, ops: &A)
        requires
            old(self).wf(),
            BobSystem::tick_fits(&old(self).entities, delta),
            CameraSystem::tracking_resolves(&old(self).entities),
        ensures
            final(self).wf(),
            BobSystem::tick_fits(&final(self).entities, delta),
            CameraSystem::tracking_resolves(&final(self).entities),
            final(self).entities.picked_entity == PickingSystem::resolved(
                old(self).entities.picked_entity,
                old(self).mouse_position,
                PickingSystem::meaning(pixel),
            ),
            exists|bobbed: EntityManager<S, Q>, moved: EntityManager<S, Q>| #[trigger]
                Self::ticked(
                    &old(self).entities,
                    &bobbed,
                    &moved,
                    &final(self).entities,
                    delta,
                    ops,
                ),
            final(self).light == old(self).light,
            final(self).mouse_position == old(self).mouse_position,
            final(self).render_system == old(self).render_system,
            final(self).picking_system == old(self).picking_system,
            final(self).lag == old(self).lag,
    {
        let pick = self.picking_system.read_picking_buffer(pixel);
        self.entities.picked_entity = PickingSystem::resolve(
            self.entities.picked_entity,
            self.mouse_position,
            pick,
        );
        let ghost picked = self.entities;
        proof {
            picked.lemma_wf_carries(&old(self).entities);
            assert forall|e: int|
                0 <= e < MAX_ENTITIES && #[trigger] picked.has(e, FLAG_BOB) implies
                delta.nanos <= picked.bobs@[e].period.nanos by {
                assert(old(self).entities.has(e, FLAG_BOB));
            }
        }
        BobSystem::run(&mut self.entities, delta, ops);
        let ghost bobbed = self.entities;
        proof {
            assert forall|e: int| 0 <= e < MAX_ENTITIES implies #[trigger] BobSystem::stepped(
                &old(self).entities,
                &bobbed,
                delta,
                ops,
                e,
            ) by {
                assert(BobSystem::stepped(&picked, &bobbed, delta, ops, e));
            }
            assert(BobSystem::ran(&old(self).entities, &bobbed, delta, ops));
        }
        VelocitySystem::run(&mut self.entities, delta, ops);
        let ghost moved = self.entities;
        proof {
            Self::lemma_tracking_survives(&old(self).entities, &bobbed, &moved, delta, ops);
            Self::lemma_tick_still_fits(&bobbed, &moved, delta, ops);
        }
        CameraSystem::run(&mut self.entities, delta);
        proof {
            assert(Self::ticked(
                &old(self).entities,
                &bobbed,
                &moved,
                &self.entities,
                delta,
                ops,
            ));
            assert forall|e: int|
                0 <= e < MAX_ENTITIES && #[trigger] self.entities.has(e, FLAG_BOB) implies
                delta.nanos <= self.entities.bobs@[e].period.nanos by {
                assert(moved.has(e, FLAG_BOB));
            }
        }
    }

    /// The oscillators and the velocities leave every camera's tracking as it
    /// was, and take no position away.
    proof fn lemma_tracking_survives<A: Arithmetic<S, Q>>(
        before: &EntityManager<S, Q>,
        bobbed: &EntityManager<S, Q>,
        moved: &EntityManager<S, Q>,
        delta: Millis,
        ops: &A,
    )
        requires
            CameraSystem::tracking_resolves(before),
            BobSystem::ran(before, bobbed, delta, ops),
            VelocitySystem::ran(bobbed, moved, delta, ops),
        ensures
            CameraSystem::tracking_resolves(moved),
    {
        lemma_kinds_disjoint(FLAG_CAMERA, FLAG_ROTATION);
        lemma_kinds_disjoint(FLAG_POSITION, FLAG_ROTATION);
        assert forall|e: int| 0 <= e < MAX_ENTITIES && #[trigger] moved.has(e, FLAG_CAMERA) implies
            CameraSystem::resolves(moved, moved.cameras@[e]) by {
            assert(bobbed.has(e, FLAG_CAMERA));
            assert(before.has(e, FLAG_CAMERA));
            assert(CameraSystem::resolves(before, before.cameras@[e]));
            match moved.cameras@[e].tracking {
                Some(target) => {
                    let t = target as int;
                    assert(bobbed.has(t, FLAG_POSITION));
                    assert(moved.has(t, FLAG_POSITION) == bobbed.has(t, FLAG_POSITION));
                },
                None => {},
            }
        }
    }

    /// The velocities leave every oscillator as it was.
    proof fn lemma_tick_still_fits<A: Arithmetic<S, Q>>(
        bobbed: &EntityManager<S, Q>,
        moved: &EntityManager<S, Q>,
        delta: Millis,
        ops: &A,
    )
        requires
            BobSystem::tick_fits(bobbed, delta),
            VelocitySystem::ran(bobbed, moved, delta, ops),
        ensures
            BobSystem::tick_fits(moved, delta),
    {
        lemma_kinds_disjoint(FLAG_BOB, FLAG_ROTATION);
        assert forall|e: int| 0 <= e < MAX_ENTITIES && #[trigger] moved.has(e, FLAG_BOB) implies
            delta.nanos <= moved.bobs@[e].period.nanos by {
            assert(bobbed.has(e, FLAG_BOB));
        }
    }

    /// One frame on a surface of `surface_size`: the picking target follows
    /// the size of the surface, the frame is seen through the current camera,
    /// every entity with a geometry is drawn, and the pixel under the pointer,
    /// if the pointer is over the surface, is the one to copy out of the
    /// picking target. A world without a camera cannot be drawn.
    pub fn draw<A: Arithmetic<S, Q>>(&mut self, surface_size: (u32, u32), ops: &A) -> (frame:
        Frame<S>)
        requires
            old(self).wf(),
            old(self).has_camera(),
        ensures
            final(self).picking_system.size == surface_size,
            final(self).entities == old(self).entities,
            final(self).light == old(self).light,
            final(self).mouse_position == old(self).mouse_position,
            final(self).render_system == old(self).render_system,
            final(self).lag == old(self).lag,
            frame.resized == (old(self).picking_system.size != surface_size),
            frame.wireframe == old(self).render_system.render_wireframe,
            exists|c: int|
                old(self).is_current_camera(c) && #[trigger] old(self).viewed(
                    c,
                    surface_size,
                    ops,
                    frame.uniforms,
                ),
            forall|c: int|
                old(self).is_current_camera(c) ==> old(self).viewed(
                    c,
                    surface_size,
                    ops,
                    frame.uniforms,
                ),
            frame.calls@.len() == RenderSystem::drawn_ids(&old(self).entities).len(),
            forall|k: int|
                0 <= k < frame.calls@.len() ==> RenderSystem::drawn(
                    &old(self).entities,
                    ops,
                    RenderSystem::drawn_ids(&old(self).entities)[k] as int,
                    #[trigger] frame.calls@[k],
                ),
            frame.pick == (match old(self).mouse_position {
                Some(position) => PickingSystem::pixel_under(surface_size, position),
                None => None,
            }),
    {
        let resized = self.picking_system.prepare(surface_size);
        let uniforms = self.uniforms(surface_size, ops);
        let calls = self.render_system.render(&self.entities, ops);
        let pick = match self.mouse_position {
            Some(position) => self.picking_system.update(position),
            None => None,
        };
        let frame = Frame {
            resized,
            uniforms,
            calls,
            wireframe: self.render_system.render_wireframe,
            pick,
        };
        proof {
            let seen = choose|c: int|
                self.is_current_camera(c) && #[trigger] self.viewed(c, surface_size, ops, uniforms);
            assert(old(self).is_current_camera(seen));
            assert(old(self).viewed(seen, surface_size, ops, frame.uniforms));
            assert forall|c: int| old(self).is_current_camera(c) implies old(self).viewed(
                c,
                surface_size,
                ops,
                frame.uniforms,
            ) by {
                assert(self.is_current_camera(c));
                assert(self.viewed(c, surface_size, ops, uniforms));
            }
        }
        frame
    }

    /// The pointer and the wireframe setting after `events`, taken in order
    /// from `mouse` and `wireframe`. A move puts the pointer where it says;
    /// the loss of the focus takes the pointer away; the wireframe key flips
    /// the setting; the closing of the surface ends the reading, and what
    /// follows it is left unread.
    pub open spec fn handled(
        mouse: Option<(u32, u32)>,
        wireframe: bool,
        events: Seq<SurfaceEvent>,
    ) -> (Option<(u32, u32)>, bool)
        decreases events.len(),
    {
        if events.len() == 0 {
            (mouse, wireframe)
        } else {
            match events[0] {
                SurfaceEvent::Closed => (mouse, wireframe),
                SurfaceEvent::MouseMoved(x, y) => Self::handled(
                    Some((x, y)),
                    wireframe,
                    events.skip(1),
                ),
                SurfaceEvent::Focused(false) => Self::handled(None, wireframe, events.skip(1)),
                SurfaceEvent::KeyPressed(key) => Self::handled(
                    mouse,
                    if key == KEY_WIREFRAME {
                        !wireframe
                    } else {
                        wireframe
                    },
                    events.skip(1),
                ),
                _ => Self::handled(mouse, wireframe, events.skip(1)),
            }
        }
    }

    /// How many presses of a pointer button `events` hold before the surface
    /// is closed.
    pub open spec fn presses(events: Seq<SurfaceEvent>) -> nat
        decreases events.len(),
    {
        if events.len() == 0 {
            0
        } else {
            match events[0] {
                SurfaceEvent::Closed => 0,
                SurfaceEvent::MousePressed => 1 + Self::presses(events.skip(1)),
                _ => Self::presses(events.skip(1)),
            }
        }
    }

    /// Takes what the surface reported since the last frame, and returns the
    /// entity under the pointer once for every press of a pointer button, for
    /// the caller to report.
    pub fn handle_events(&mut self, events: &Vec<SurfaceEvent>) -> (clicked: Vec<EntityId>)
        ensures
            (final(self).mouse_position, final(self).render_system.render_wireframe)
                == Self::handled(
                old(self).mouse_position,
                old(self).render_system.render_wireframe,
                events@,
            ),
            final(self).entities == old(self).entities,
            final(self).light == old(self).light,
            final(self).picking_system == old(self).picking_system,
            final(self).lag == old(self).lag,
            clicked@.len() == (match old(self).entities.picked_entity {
                Some(_) => Self::presses(events@),
                None => 0,
            }),
            forall|k: int|
                0 <= k < clicked@.len() ==> Some(#[trigger] clicked@[k])
                    == old(self).entities.picked_entity,
    {
        let mut clicked: Vec<EntityId> = Vec::new();
        let mut i: usize = 0;
        proof {
            assert(events@.skip(0) =~= events@);
        }
        while i < events.len()
            invariant
                i <= events.len(),
                self.entities == old(self).entities,
                self.light == old(self).light,
                self.picking_system == old(self).picking_system,
                self.lag == old(self).lag,
                Self::handled(
                    self.mouse_position,
                    self.render_system.render_wireframe,
                    events@.skip(i as int),
                ) == Self::handled(
                    old(self).mouse_position,
                    old(self).render_system.render_wireframe,
                    events@,
                ),
                clicked@.len() + (match self.entities.picked_entity {
                    Some(_) => Self::presses(events@.skip(i as int)),
                    None => 0,
                }) == (match self.entities.picked_entity {
                    Some(_) => Self::presses(events@),
                    None => 0,
                }),
                forall|k: int|
                    0 <= k < clicked@.len() ==> Some(#[trigger] clicked@[k])
                        == self.entities.picked_entity,
            decreases events.len() - i,
        {
            let ghost rest = events@.skip(i as int);
            proof {
                assert(rest[0] == events@[i as int]);
                assert(rest.skip(1) =~= events@.skip(i as int + 1));
            }
            match events[i] {
                SurfaceEvent::Closed => {
                    return clicked;
                },
                SurfaceEvent::MousePressed => {
                    match self.entities.picked_entity {
                        Some(e) => {
                            clicked.push(e);
                        },
                        None => {},
                    }
                },
                SurfaceEvent::MouseMoved(x, y) => {
                    self.mouse_position = Some((x, y));
                },
                SurfaceEvent::Focused(false) => {
                    self.mouse_position = None;
                },
                SurfaceEvent::KeyPressed(key) => {
                    if key == KEY_WIREFRAME {
                        self.toggle_wireframe();
                    }
                },
                _ => {},
            }
            i += 1;
        }
        proof {
            assert(events@.skip(i as int).len() == 0);
        }
        clicked
    }

    /// Adds `elapsed` to the time that has not been simulated yet.
    pub fn accumulate(&mut self, elapsed: Millis)
        requires
            old(self).lag.nanos + elapsed.nanos <= u64::MAX,
        ensures
            final(self).lag.nanos == old(self).lag.nanos + elapsed.nanos,
            final(self).entities == old(self).entities,
            final(self).light == old(self).light,
            final(self).mouse_position == old(self).mouse_position,
            final(self).render_system == old(self).render_system,
            final(self).picking_system == old(self).picking_system,
    {
        self.lag = Millis { nanos: self.lag.nanos + elapsed.nanos };
    }

    /// Whether more than one tick's worth of time is left to simulate; if so,
    /// one tick's worth is taken off, and the caller owes one `update`.
    pub fn take_tick(&mut self, tick: Millis) -> (due: bool)
        ensures
            due == (old(self).lag.nanos > tick.nanos),
            final(self).lag.nanos == (if due {
                old(self).lag.nanos - tick.nanos
            } else {
                old(self).lag.nanos as int
            }),
            final(self).entities == old(self).entities,
            final(self).light == old(self).light,
            final(self).mouse_position == old(self).mouse_position,
            final(self).render_system == old(self).render_system,
            final(self).picking_system == old(self).picking_system,
    {
        if self.lag.nanos > tick.nanos {
            self.lag = Millis { nanos: self.lag.nanos - tick.nanos };
            true
        } else {
            false
        }
    }

    /// The entity under the pointer, as the last tick settled it.
    pub fn resolved_pick_entity(&self) -> (r: Option<EntityId>)
        ensures
            r == self.entities.picked_entity,
    {
        self.entities.picked_entity
    }

    /// Switches between filled meshes and lines.
    pub fn toggle_wireframe(&mut self)
        ensures
            final(self).render_system.render_wireframe == !old(self).render_system.render_wireframe,
            final(self).entities == old(self).entities,
            final(self).light == old(self).light,
            final(self).mouse_position == old(self).mouse_position,
            final(self).picking_system == old(self).picking_system,
            final(self).lag == old(self).lag,
    {
        self.render_system.render_wireframe = !self.render_system.render_wireframe;
    }
}

} // verus!
