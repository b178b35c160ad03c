use std::f32::consts::PI;

use kaffeesahne::arithmetic::{quat_rotate, Arithmetic};
use kaffeesahne::components::{Bob, Camera, Geometry, Position, Rotation, Scale, Velocity};
use kaffeesahne::flags::{FLAG_BOB, FLAG_POSITION, FLAG_ROTATION, FLAG_VELOCITY};
use kaffeesahne::linear::{Matrix4, Vector3};
use kaffeesahne::picking::Rect;
use kaffeesahne::registry::EntityManager;
use kaffeesahne::render_system::RenderSystem;
use kaffeesahne::systems::{BobSystem, CameraSystem, VelocitySystem};
use kaffeesahne::time::Millis;
use kaffeesahne::world::{SurfaceEvent, World};
use nalgebra::{Isometry3, Perspective3, Point3, Unit, UnitQuaternion};

type Quat = UnitQuaternion<f32>;

fn to_na(v: Vector3<f32>) -> nalgebra::Vector3<f32> {
    nalgebra::Vector3::new(v.x, v.y, v.z)
}

fn from_na(v: nalgebra::Vector3<f32>) -> Vector3<f32> {
    Vector3::new(v.x, v.y, v.z)
}

fn matrix_to_na(m: Matrix4<f32>) -> nalgebra::Matrix4<f32> {
    nalgebra::Matrix4::from_fn(|r, c| m.rows[r][c])
}

fn matrix_from_na(m: nalgebra::Matrix4<f32>) -> Matrix4<f32> {
    let mut rows = [[0.0f32; 4]; 4];
    for r in 0..4 {
        for c in 0..4 {
            rows[r][c] = m[(r, c)];
        }
    }
    Matrix4 { rows }
}

struct Floats;

impl Arithmetic<f32, Quat> for Floats {
    fn seconds(&self, span: Millis) -> f32 {
        span.as_nanos() as f32 / 1.0e9
    }

    fn ratio(&self, part: Millis, whole: Millis) -> f32 {
        part.as_nanos() as f32 / whole.as_nanos() as f32
    }

    fn wave(&self, turns: f32) -> f32 {
        (turns * 2.0 * PI).sin()
    }

    fn times(&self, a: f32, b: f32) -> f32 {
        a * b
    }

    fn is_zero(&self, x: f32) -> bool {
        x == 0.0
    }

    fn plus(&self, a: Vector3<f32>, b: Vector3<f32>) -> Vector3<f32> {
        from_na(to_na(a) + to_na(b))
    }

    fn scaled(&self, v: Vector3<f32>, by: f32) -> Vector3<f32> {
        from_na(to_na(v) * by)
    }

    fn angle(&self, rotation: Quat) -> f32 {
        rotation.angle()
    }

    fn axis(&self, rotation: Quat) -> Option<Vector3<f32>> {
        rotation.axis().map(|axis| from_na(axis.into_inner()))
    }

    fn axis_angle(&self, axis: Vector3<f32>, angle: f32) -> Quat {
        UnitQuaternion::from_axis_angle(&Unit::new_unchecked(to_na(axis)), angle)
    }

    fn compose(&self, first: Quat, second: Quat) -> Quat {
        first * second
    }

    fn rotation_matrix(&self, rotation: Quat) -> Matrix4<f32> {
        matrix_from_na(rotation.to_homogeneous())
    }

    fn product(&self, a: Matrix4<f32>, b: Matrix4<f32>) -> Matrix4<f32> {
        matrix_from_na(matrix_to_na(a) * matrix_to_na(b))
    }

    fn normal_matrix(&self, model: Matrix4<f32>) -> Matrix4<f32> {
        let inverse =
            matrix_to_na(model).try_inverse().unwrap_or_else(nalgebra::Matrix4::identity);
        matrix_from_na(inverse.transpose())
    }

    fn look_at(&self, eye: Vector3<f32>, target: Vector3<f32>) -> Matrix4<f32> {
        let view = Isometry3::look_at_rh(
            &Point3::from(to_na(eye)),
            &Point3::from(to_na(target)),
            &nalgebra::Vector3::y(),
        );
        matrix_from_na(view.to_homogeneous())
    }

    fn perspective(&self, width: u32, height: u32) -> Matrix4<f32> {
        let fov = PI / (360.0 / 75.0);
        let ratio = width as f32 / height as f32;
        matrix_from_na(Perspective3::new(ratio, fov, 0.1, 1024.0).to_homogeneous())
    }
}

fn world() -> World<f32, Quat> {
    World::new(0.0, 1.0, UnitQuaternion::identity())
}

fn manager() -> EntityManager<f32, Quat> {
    EntityManager::new(0.0, 1.0, UnitQuaternion::identity())
}

fn ms(millis: u64) -> Millis {
    Millis::from_millis(millis).unwrap()
}

fn still() -> Velocity<f32, Quat> {
    Velocity { angular: Rotation(UnitQuaternion::identity()), linear: Vector3::splat(0.0) }
}

fn close(a: f32, b: f32) -> bool {
    (a - b).abs() < 1.0e-5
}

fn near(a: &Matrix4<f32>, b: &nalgebra::Matrix4<f32>) -> bool {
    (matrix_to_na(*a) - b).abs().max() < 1.0e-5
}

fn geometry(name: &'static str) -> Geometry {
    Geometry { geometry: name, program: "basic" }
}

#[test]
fn velocity_moves_an_entity_by_linear_times_tick() {
    let mut w = world();
    let e = w.entities.new_entity();
    w.entities.set_position(e, Position(Vector3::new(0.0, 0.0, 0.0)));
    w.entities.set_velocity(e, Velocity { linear: Vector3::new(2.0, 0.0, 0.0), ..still() });
    assert!(w.accepts(ms(500)));
    w.update(ms(500), None, &Floats);
    let p = w.entities.positions.get(e).0;
    assert_eq!((p.x, p.y, p.z), (1.0, 0.0, 0.0));
}

#[test]
fn velocity_leaves_other_entities_where_they_are() {
    let mut w = world();
    let mover = w.entities.new_entity();
    let rock = w.entities.new_entity();
    w.entities.set_position(mover, Position(Vector3::new(1.0, 1.0, 1.0)));
    w.entities.set_velocity(mover, Velocity { linear: Vector3::new(0.0, -4.0, 8.0), ..still() });
    w.entities.set_position(rock, Position(Vector3::new(5.0, 6.0, 7.0)));
    VelocitySystem::run(&mut w.entities, ms(250), &Floats);
    let p = w.entities.positions.get(mover).0;
    assert_eq!((p.x, p.y, p.z), (1.0, 0.0, 3.0));
    let q = w.entities.positions.get(rock).0;
    assert_eq!((q.x, q.y, q.z), (5.0, 6.0, 7.0));
    assert!(!w.entities.has_component(rock, FLAG_ROTATION));
    assert!(!w.entities.has_component(mover, FLAG_ROTATION));
}

#[test]
fn angular_velocity_starts_a_rotation_from_the_turn_itself() {
    let omega = 2.0 * PI / 8.0;
    let y = nalgebra::Vector3::y_axis();
    let mut m = manager();
    let e = m.new_entity();
    m.set_position(e, Position(Vector3::new(0.0, 0.75, 0.0)));
    m.set_velocity(
        e,
        Velocity {
            linear: Vector3::splat(0.0),
            angular: Rotation(UnitQuaternion::from_axis_angle(&y, omega)),
        },
    );
    assert!(!m.has_component(e, FLAG_ROTATION));
    VelocitySystem::run(&mut m, ms(250), &Floats);
    assert!(m.has_component(e, FLAG_ROTATION));
    assert!(m.has_component(e, FLAG_VELOCITY));
    assert!(m.has_component(e, FLAG_POSITION));
    let expected = UnitQuaternion::from_axis_angle(&y, omega * 0.25);
    let got = m.rotations.get(e).0;
    assert!(got.angle_to(&expected) < 1.0e-5);
    assert!(close(got.angle(), omega * 0.25));
}

#[test]
fn angular_velocity_multiplies_an_existing_rotation_from_the_right() {
    let x = nalgebra::Vector3::x_axis();
    let y = nalgebra::Vector3::y_axis();
    let existing = UnitQuaternion::from_axis_angle(&x, 0.5);
    let mut m = manager();
    let e = m.new_entity();
    m.set_rotation(e, Rotation(existing));
    m.set_velocity(
        e,
        Velocity {
            linear: Vector3::splat(0.0),
            angular: Rotation(UnitQuaternion::from_axis_angle(&y, 1.0)),
        },
    );
    VelocitySystem::run(&mut m, ms(1000), &Floats);
    let turn = UnitQuaternion::from_axis_angle(&y, 1.0);
    let got = m.rotations.get(e).0;
    assert!(got.angle_to(&(existing * turn)) < 1.0e-5);
    assert!(got.angle_to(&(turn * existing)) > 1.0e-2);
}

#[test]
fn zero_angular_speed_leaves_an_entity_without_rotation() {
    let mut m = manager();
    let e = m.new_entity();
    m.set_velocity(e, Velocity { linear: Vector3::new(1.0, 0.0, 0.0), ..still() });
    VelocitySystem::run(&mut m, ms(100), &Floats);
    assert!(!m.has_component(e, FLAG_ROTATION));
}

#[test]
fn oscillator_phase_wraps_once_at_the_period() {
    let mut bob: Bob<f32> = Bob::new(ms(1000), Vector3::new(0.0, 1.0, 0.0));
    assert_eq!(bob.state.as_millis(), 0);
    bob.tick(ms(250));
    assert_eq!(bob.state.as_millis(), 250);
    bob.tick(ms(250));
    bob.tick(ms(250));
    assert_eq!(bob.state.as_millis(), 750);
    bob.tick(ms(250));
    assert_eq!(bob.state.as_nanos(), 0);
    bob.tick(ms(600));
    bob.tick(ms(600));
    assert_eq!(bob.state.as_millis(), 200);
    bob.tick(ms(1000));
    assert_eq!(bob.state.as_millis(), 200);
}

#[test]
fn oscillator_returns_after_a_full_period() {
    let mut w = world();
    let e = w.entities.new_entity();
    w.entities.set_position(e, Position(Vector3::new(0.0, 0.0, 0.0)));
    w.entities.add_bob(e, Bob::new(ms(1000), Vector3::new(0.0, 1.0, 0.0)));
    assert!(w.entities.has_component(e, FLAG_BOB));
    let mut heights = Vec::new();
    for _ in 0..4 {
        assert!(w.accepts(ms(250)));
        w.update(ms(250), None, &Floats);
        heights.push(w.entities.positions.get(e).0.y);
    }
    assert_eq!(w.entities.bobs.get(e).state.as_nanos(), 0);
    // sin(pi/2) / 4, then nothing, then back down, then nothing
    assert!(close(heights[0], 0.25));
    assert!(close(heights[1], 0.25));
    assert!(close(heights[2], 0.0));
    assert!(close(heights[3], 0.0));
    let p = w.entities.positions.get(e).0;
    assert_eq!((p.x, p.z), (0.0, 0.0));
}

#[test]
fn oscillator_step_is_direction_times_sine_times_fraction() {
    let mut m = manager();
    let e = m.new_entity();
    m.set_position(e, Position(Vector3::new(1.0, 2.0, 3.0)));
    m.add_bob(e, Bob::new(ms(1000), Vector3::new(0.0, 0.5, 0.0)));
    BobSystem::run(&mut m, ms(250), &Floats);
    let p = m.positions.get(e).0;
    assert!(close(p.y, 2.0 + 0.5 * 1.0 * 0.25));
    assert_eq!((p.x, p.z), (1.0, 3.0));
    assert_eq!(m.bobs.get(e).state.as_millis(), 250);
    assert_eq!(m.bobs.get(e).period.as_millis(), 1000);
}

#[test]
fn a_tick_longer_than_a_period_is_not_accepted() {
    let mut m = manager();
    let e = m.new_entity();
    m.add_bob(e, Bob::new(ms(100), Vector3::new(0.0, 1.0, 0.0)));
    assert!(BobSystem::accepts(&m, ms(100)));
    assert!(!BobSystem::accepts(&m, ms(101)));
    assert!(BobSystem::accepts(&m, ms(16)));
}

#[test]
fn oscillator_runs_before_velocity_in_one_tick() {
    let mut w = world();
    let e = w.entities.new_entity();
    w.entities.set_position(e, Position(Vector3::new(0.0, 0.0, 0.0)));
    w.entities.set_velocity(e, Velocity { linear: Vector3::new(2.0, 0.0, 0.0), ..still() });
    w.entities.add_bob(e, Bob::new(ms(1000), Vector3::new(0.0, 1.0, 0.0)));
    w.update(ms(250), None, &Floats);
    let p = w.entities.positions.get(e).0;
    assert!(close(p.x, 0.5));
    assert!(close(p.y, 0.25));
}

#[test]
fn camera_looks_at_the_entity_it_follows() {
    let mut w = world();
    let e = w.entities.new_entity();
    let c = w.entities.new_entity();
    w.entities.set_position(e, Position(Vector3::new(1.0, 2.0, 3.0)));
    w.entities.set_position(c, Position(Vector3::new(0.5, 2.0, -3.0)));
    w.entities.add_camera(c, Camera { target: Vector3::new(1.0, 2.0, 3.0), tracking: Some(e) });
    let old_target = w.entities.cameras.get(c).target;
    let d = Vector3::new(0.5, -1.0, 4.0);
    w.entities.set_position(
        e,
        Position(Vector3::new(1.0 + d.x, 2.0 + d.y, 3.0 + d.z)),
    );
    assert!(w.accepts(ms(16)));
    w.update(ms(16), None, &Floats);
    let t = w.entities.cameras.get(c).target;
    assert_eq!((t.x, t.y, t.z), (old_target.x + d.x, old_target.y + d.y, old_target.z + d.z));
    assert_eq!(w.entities.cameras.get(c).tracking, Some(e));
}

#[test]
fn camera_sees_the_position_of_the_same_tick() {
    let mut w = world();
    let e = w.entities.new_entity();
    let c = w.entities.new_entity();
    w.entities.set_position(e, Position(Vector3::new(0.0, 0.0, 0.0)));
    w.entities.set_velocity(e, Velocity { linear: Vector3::new(0.0, 0.0, 4.0), ..still() });
    w.entities.add_camera(c, Camera { target: Vector3::splat(9.0), tracking: Some(e) });
    w.update(ms(500), None, &Floats);
    let t = w.entities.cameras.get(c).target;
    assert_eq!((t.x, t.y, t.z), (0.0, 0.0, 2.0));
}

#[test]
fn camera_without_tracking_keeps_its_target() {
    let mut m = manager();
    let c = m.new_entity();
    m.add_camera(c, Camera { target: Vector3::new(7.0, 8.0, 9.0), tracking: None });
    assert!(CameraSystem::ready(&m));
    CameraSystem::run(&mut m, ms(16));
    let t = m.cameras.get(c).target;
    assert_eq!((t.x, t.y, t.z), (7.0, 8.0, 9.0));
}

#[test]
fn camera_that_follows_an_entity_without_position_is_not_ready() {
    let mut m = manager();
    let e = m.new_entity();
    let c = m.new_entity();
    m.add_camera(c, Camera { target: Vector3::splat(0.0), tracking: Some(e) });
    assert!(!CameraSystem::ready(&m));
    m.set_position(e, Position(Vector3::splat(1.0)));
    assert!(CameraSystem::ready(&m));
    m.add_camera(c, Camera { target: Vector3::splat(0.0), tracking: Some(5000) });
    assert!(!CameraSystem::ready(&m));
}

#[test]
fn one_draw_per_entity_with_a_geometry_in_ascending_order() {
    let mut w = world();
    let terrain = w.entities.new_entity();
    let ghost = w.entities.new_entity();
    let light = w.entities.new_entity();
    let cube = w.entities.new_entity();
    w.entities.set_position(ghost, Position(Vector3::new(9.0, 9.0, 9.0)));
    w.entities.add_geometry(cube, geometry("cube"));
    w.entities.add_geometry(terrain, geometry("terrain"));
    w.entities.add_geometry(light, Geometry { geometry: "light", program: "glow" });
    w.entities.set_pickable(terrain, true);
    w.entities.set_pickable(cube, true);
    let calls = w.render_system.render(&w.entities, &Floats);
    assert_eq!(calls.len(), 3);
    assert_eq!(
        calls.iter().map(|c| c.entity).collect::<Vec<_>>(),
        vec![terrain, light, cube]
    );
    assert_eq!(
        calls.iter().map(|c| c.geometry.geometry).collect::<Vec<_>>(),
        vec!["terrain", "light", "cube"]
    );
    assert_eq!(calls[1].geometry.program, "glow");
    assert_eq!(
        calls.iter().map(|c| c.picking_id()).collect::<Vec<_>>(),
        vec![terrain, 0, cube]
    );
    assert!(calls[0].picking.is_some());
    assert!(calls[1].picking.is_none());
}

#[test]
fn nothing_is_drawn_for_a_world_without_geometry() {
    let mut w = world();
    let e = w.entities.new_entity();
    w.entities.set_position(e, Position(Vector3::new(1.0, 2.0, 3.0)));
    w.entities.set_pickable(e, true);
    let calls = RenderSystem::new().render(&w.entities, &Floats);
    assert!(calls.is_empty());
}

#[test]
fn the_model_is_position_times_rotation_times_scale() {
    let mut w = world();
    let e = w.entities.new_entity();
    let turn = UnitQuaternion::from_axis_angle(&nalgebra::Vector3::y_axis(), 0.7);
    w.entities.add_geometry(e, geometry("cube"));
    w.entities.set_position(e, Position(Vector3::new(1.0, 2.0, 3.0)));
    w.entities.set_rotation(e, Rotation(turn));
    w.entities.set_scale(e, Scale(Vector3::new(2.0, 3.0, 4.0)));
    let calls = w.render_system.render(&w.entities, &Floats);
    let expected = nalgebra::Matrix4::new_translation(&nalgebra::Vector3::new(1.0, 2.0, 3.0))
        * turn.to_homogeneous()
        * nalgebra::Matrix4::new_nonuniform_scaling(&nalgebra::Vector3::new(2.0, 3.0, 4.0));
    assert!(near(&calls[0].model_matrix, &expected));
    let normal = expected.try_inverse().unwrap().transpose();
    assert!(near(&calls[0].normal_matrix, &normal));
    // a vertex is scaled, then turned, then moved
    let v = matrix_to_na(calls[0].model_matrix) * nalgebra::Vector4::new(1.0, 0.0, 0.0, 1.0);
    let turned = turn * nalgebra::Vector3::new(2.0, 0.0, 0.0);
    assert!((v.x - (turned.x + 1.0)).abs() < 1.0e-5);
    assert!((v.y - (turned.y + 2.0)).abs() < 1.0e-5);
    assert!((v.z - (turned.z + 3.0)).abs() < 1.0e-5);
}

#[test]
fn a_missing_rotation_or_scale_is_left_out_of_the_model() {
    let mut w = world();
    let plain = w.entities.new_entity();
    let scaled = w.entities.new_entity();
    w.entities.add_geometry(plain, geometry("a"));
    w.entities.set_position(plain, Position(Vector3::new(1.0, 2.0, 3.0)));
    w.entities.add_geometry(scaled, geometry("b"));
    w.entities.set_position(scaled, Position(Vector3::new(4.0, 5.0, 6.0)));
    w.entities.set_scale(scaled, Scale(Vector3::new(0.5, 0.5, 0.5)));
    let calls = w.render_system.render(&w.entities, &Floats);
    assert_eq!(
        calls[0].model_matrix.rows,
        [[1.0, 0.0, 0.0, 1.0], [0.0, 1.0, 0.0, 2.0], [0.0, 0.0, 1.0, 3.0], [0.0, 0.0, 0.0, 1.0]]
    );
    assert_eq!(
        calls[1].model_matrix.rows,
        [[0.5, 0.0, 0.0, 4.0], [0.0, 0.5, 0.0, 5.0], [0.0, 0.0, 0.5, 6.0], [0.0, 0.0, 0.0, 1.0]]
    );
}

#[test]
fn a_frame_is_seen_through_the_camera_with_the_least_id() {
    let mut w = world();
    let e = w.entities.new_entity();
    let first = w.entities.new_entity();
    let second = w.entities.new_entity();
    assert_eq!(w.current_camera(), None);
    w.entities.add_camera(second, Camera { target: Vector3::new(1.0, 1.0, 1.0), tracking: None });
    w.entities.set_position(second, Position(Vector3::new(9.0, 9.0, 9.0)));
    assert_eq!(w.current_camera(), Some(second));
    w.entities.add_camera(first, Camera { target: Vector3::new(0.0, 0.0, 0.0), tracking: None });
    w.entities.set_position(first, Position(Vector3::new(0.5, 2.0, -3.0)));
    w.entities.add_geometry(e, geometry("cube"));
    assert_eq!(w.current_camera(), Some(first));
    w.light = Vector3::new(1.0, 1.0, 0.0);
    let u = w.uniforms((800, 600), &Floats);
    assert_eq!(
        (u.camera_position.x, u.camera_position.y, u.camera_position.z),
        (0.5, 2.0, -3.0)
    );
    assert_eq!((u.light_position.x, u.light_position.y, u.light_position.z), (1.0, 1.0, 0.0));
    let view = Isometry3::look_at_rh(
        &Point3::new(0.5, 2.0, -3.0),
        &Point3::origin(),
        &nalgebra::Vector3::y(),
    )
    .to_homogeneous();
    assert!(near(&u.camera_matrix, &view));
    let fov = std::f32::consts::PI / (360.0 / 75.0);
    let projection = Perspective3::new(800.0 / 600.0, fov, 0.1, 1024.0).to_homogeneous();
    assert!(near(&u.projection_matrix, &projection));
}

#[test]
fn a_frame_holds_the_draws_and_the_pixel_to_copy() {
    let mut w = world();
    let cube = w.entities.new_entity();
    let camera = w.entities.new_entity();
    w.entities.add_geometry(cube, geometry("cube"));
    w.entities.set_position(cube, Position(Vector3::new(0.0, 0.75, 0.0)));
    w.entities.set_pickable(cube, true);
    w.entities.add_camera(camera, Camera { target: Vector3::splat(0.0), tracking: None });
    w.entities.set_position(camera, Position(Vector3::new(0.5, 2.0, -3.0)));

    let frame = w.draw((800, 600), &Floats);
    assert!(!frame.resized);
    assert!(!frame.wireframe);
    assert_eq!(frame.pick, None);
    assert_eq!(frame.calls.len(), 1);
    assert_eq!(frame.calls[0].entity, cube);
    assert_eq!(frame.calls[0].picking_id(), cube);
    assert_eq!(frame.uniforms.camera_position.y, 2.0);

    w.handle_events(&vec![SurfaceEvent::MouseMoved(40, 50), SurfaceEvent::KeyPressed(25)]);
    let frame = w.draw((1024, 768), &Floats);
    assert!(frame.resized);
    assert!(frame.wireframe);
    assert_eq!(w.picking_system.size, (1024, 768));
    assert_eq!(frame.pick, Some(Rect { left: 40, bottom: 717, width: 1, height: 1 }));

    w.handle_events(&vec![SurfaceEvent::MouseMoved(2000, 50)]);
    let frame = w.draw((1024, 768), &Floats);
    assert!(!frame.resized);
    assert_eq!(frame.pick, None);
}

#[test]
fn advance_is_position_plus_velocity_times_seconds() {
    let p = VelocitySystem::advance(
        &Floats,
        Position(Vector3::new(1.0, 2.0, 3.0)),
        Vector3::new(4.0, -2.0, 0.5),
        ms(1500),
    );
    assert_eq!((p.0.x, p.0.y, p.0.z), (7.0, -1.0, 3.75));
}

#[test]
fn spin_is_the_rotation_by_speed_times_seconds_about_the_axis() {
    let z = nalgebra::Vector3::z_axis();
    let angular = Rotation(UnitQuaternion::from_axis_angle(&z, 0.8));
    let turn = VelocitySystem::spin(&Floats, angular, ms(500)).unwrap();
    assert!(turn.angle_to(&UnitQuaternion::from_axis_angle(&z, 0.4)) < 1.0e-5);
    assert!(VelocitySystem::spin(&Floats, Rotation(UnitQuaternion::identity()), ms(500)).is_none());
}

#[test]
fn displace_is_direction_times_sine_times_share_of_the_period() {
    let mut bob: Bob<f32> = Bob::new(ms(2000), Vector3::new(0.0, 0.0, 4.0));
    bob.tick(ms(500));
    let p = BobSystem::displace(&Floats, Position(Vector3::new(1.0, 1.0, 1.0)), bob, ms(500));
    // a quarter of the period: the sine is one, the share a quarter
    assert!(close(p.0.z, 1.0 + 4.0 * 1.0 * 0.25));
    assert_eq!((p.0.x, p.0.y), (1.0, 1.0));
    bob.tick(ms(1000));
    let q = BobSystem::displace(&Floats, Position(Vector3::new(0.0, 0.0, 0.0)), bob, ms(1000));
    // three quarters of the period: the sine is minus one, the share a half
    assert!(close(q.0.z, -2.0));
}

#[test]
fn the_draw_of_one_entity() {
    let mut m = manager();
    let e = m.new_entity();
    m.set_position(e, Position(Vector3::new(1.0, 2.0, 3.0)));
    m.add_geometry(e, geometry("teapot"));
    m.set_pickable(e, true);
    let call = RenderSystem::draw_of(&m, &Floats, e);
    assert_eq!(call.entity, e);
    assert_eq!(call.geometry.geometry, "teapot");
    assert_eq!(call.picking.map(|p| p.0), Some(e));
    assert_eq!(call.model_matrix.rows[0], [1.0, 0.0, 0.0, 1.0]);
    assert_eq!(call.normal_matrix.rows[3], [-1.0, -2.0, -3.0, 1.0]);
}

#[test]
fn quat_rotate_turns_about_the_axis() {
    let q: Quat = quat_rotate(&Floats, PI / 2.0, Vector3::new(0.0, 1.0, 0.0));
    let v = q * nalgebra::Vector3::new(1.0, 0.0, 0.0);
    assert!(close(v.x, 0.0) && close(v.y, 0.0) && close(v.z, -1.0));
}
