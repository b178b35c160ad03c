use kaffeesahne::arithmetic::Arithmetic;
use kaffeesahne::components::{Position, Rotation, Velocity};
use kaffeesahne::linear::{Matrix4, Vector3};
use kaffeesahne::picking::{Pick, PickingSystem, Rect};
use kaffeesahne::time::Millis;
use kaffeesahne::world::{SurfaceEvent, World, KEY_WIREFRAME};

struct Grid;

/// Whole numbers, with time counted in milliseconds, and no rotations.
impl Arithmetic<i64, u8> for Grid {
    fn seconds(&self, span: Millis) -> i64 {
        span.as_millis() as i64
    }

    fn ratio(&self, part: Millis, whole: Millis) -> i64 {
        (part.as_nanos() / whole.as_nanos()) as i64
    }

    fn wave(&self, _turns: i64) -> i64 {
        0
    }

    fn times(&self, a: i64, b: i64) -> i64 {
        a * b
    }

    fn is_zero(&self, x: i64) -> bool {
        x == 0
    }

    fn plus(&self, a: Vector3<i64>, b: Vector3<i64>) -> Vector3<i64> {
        Vector3::new(a.x + b.x, a.y + b.y, a.z + b.z)
    }

    fn scaled(&self, v: Vector3<i64>, by: i64) -> Vector3<i64> {
        Vector3::new(v.x * by, v.y * by, v.z * by)
    }

    fn angle(&self, rotation: u8) -> i64 {
        rotation as i64
    }

    fn axis(&self, _rotation: u8) -> Option<Vector3<i64>> {
        None
    }

    fn axis_angle(&self, _axis: Vector3<i64>, angle: i64) -> u8 {
        angle as u8
    }

    fn compose(&self, first: u8, second: u8) -> u8 {
        first.wrapping_add(second)
    }

    fn rotation_matrix(&self, _rotation: u8) -> Matrix4<i64> {
        Matrix4 { rows: [[0; 4]; 4] }
    }

    fn product(&self, a: Matrix4<i64>, _b: Matrix4<i64>) -> Matrix4<i64> {
        a
    }

    fn normal_matrix(&self, model: Matrix4<i64>) -> Matrix4<i64> {
        model
    }

    fn look_at(&self, _eye: Vector3<i64>, _target: Vector3<i64>) -> Matrix4<i64> {
        Matrix4 { rows: [[0; 4]; 4] }
    }

    fn perspective(&self, _width: u32, _height: u32) -> Matrix4<i64> {
        Matrix4 { rows: [[0; 4]; 4] }
    }
}

fn world() -> World<i64, u8> {
    World::new(0, 1, 0)
}

fn tick(w: &mut World<i64, u8>, pixel: Option<u32>) {
    w.update(Millis::from_nanos(16_666_666), pixel, &Grid);
}

#[test]
fn the_pixel_under_the_pointer_is_counted_from_the_bottom() {
    let p = PickingSystem::new((800, 600));
    assert_eq!(p.update((10, 20)), Some(Rect { left: 10, bottom: 579, width: 1, height: 1 }));
    assert_eq!(p.update((0, 0)), Some(Rect { left: 0, bottom: 599, width: 1, height: 1 }));
    assert_eq!(p.update((799, 599)), Some(Rect { left: 799, bottom: 0, width: 1, height: 1 }));
}

#[test]
fn a_pointer_off_the_target_copies_nothing() {
    let p = PickingSystem::new((800, 600));
    assert_eq!(p.update((800, 20)), None);
    assert_eq!(p.update((10, 600)), None);
    assert_eq!(p.update((800, 600)), None);
    assert_eq!(p.update((u32::MAX, u32::MAX)), None);
    assert_eq!(PickingSystem::new((0, 0)).update((0, 0)), None);
}

#[test]
fn the_target_is_made_anew_only_when_the_size_changes() {
    let mut p = PickingSystem::new((800, 600));
    assert!(!p.prepare((800, 600)));
    assert!(p.prepare((1024, 600)));
    assert_eq!(p.size, (1024, 600));
    assert!(!p.prepare((1024, 600)));
    assert!(p.prepare((1024, 768)));
    assert_eq!(p.size, (1024, 768));
    assert_eq!(p.update((1000, 700)), Some(Rect { left: 1000, bottom: 67, width: 1, height: 1 }));
}

#[test]
fn a_read_pixel_names_an_entity_or_none() {
    let p = PickingSystem::new((800, 600));
    assert_eq!(p.read_picking_buffer(None), Pick::Unknown);
    assert_eq!(p.read_picking_buffer(Some(0)), Pick::Nothing);
    assert_eq!(p.read_picking_buffer(Some(1)), Pick::Entity(1));
    assert_eq!(p.read_picking_buffer(Some(4095)), Pick::Entity(4095));
}

#[test]
fn a_read_that_is_not_ready_keeps_the_previous_pick() {
    assert_eq!(PickingSystem::resolve(Some(3), Some((1, 1)), Pick::Unknown), Some(3));
    assert_eq!(PickingSystem::resolve(None, Some((1, 1)), Pick::Unknown), None);
    assert_eq!(PickingSystem::resolve(Some(3), Some((1, 1)), Pick::Nothing), None);
    assert_eq!(PickingSystem::resolve(Some(3), Some((1, 1)), Pick::Entity(5)), Some(5));
    assert_eq!(PickingSystem::resolve(Some(3), None, Pick::Entity(5)), None);
    assert_eq!(PickingSystem::resolve(Some(3), None, Pick::Unknown), None);
}

#[test]
fn each_entity_is_picked_where_its_id_was_drawn() {
    let mut w = world();
    let a = w.entities.new_entity();
    let b = w.entities.new_entity();
    w.entities.set_pickable(a, true);
    w.entities.set_pickable(b, true);
    w.handle_events(&vec![SurfaceEvent::MouseMoved(100, 100)]);
    tick(&mut w, Some(a));
    assert_eq!(w.entities.picked_entity, Some(a));
    assert_eq!(w.resolved_pick_entity(), Some(a));
    tick(&mut w, Some(b));
    assert_eq!(w.resolved_pick_entity(), Some(b));
    tick(&mut w, Some(0));
    assert_eq!(w.resolved_pick_entity(), None);
}

#[test]
fn the_wireframe_is_switched_on_and_off() {
    let mut w = world();
    w.toggle_wireframe();
    assert!(w.render_system.render_wireframe);
    w.toggle_wireframe();
    assert!(!w.render_system.render_wireframe);
}

#[test]
fn a_tick_moves_by_the_velocity_whatever_the_scalar() {
    let mut w = world();
    let e = w.entities.new_entity();
    w.entities.set_position(e, Position(Vector3::new(1, 1, 1)));
    w.entities.set_velocity(
        e,
        Velocity { angular: Rotation(0), linear: Vector3::new(2, 0, -1) },
    );
    w.update(Millis::from_millis(10).unwrap(), None, &Grid);
    let p = w.entities.positions.get(e).0;
    assert_eq!((p.x, p.y, p.z), (21, 1, -9));
}

#[test]
fn the_pick_lags_and_survives_reads_that_are_not_ready() {
    let mut w = world();
    let a = w.entities.new_entity();
    w.entities.set_pickable(a, true);
    w.handle_events(&vec![SurfaceEvent::MouseMoved(5, 5)]);
    tick(&mut w, None);
    assert_eq!(w.entities.picked_entity, None);
    tick(&mut w, Some(a));
    assert_eq!(w.entities.picked_entity, Some(a));
    tick(&mut w, None);
    tick(&mut w, None);
    assert_eq!(w.entities.picked_entity, Some(a));
    w.handle_events(&vec![SurfaceEvent::Focused(false)]);
    tick(&mut w, Some(a));
    assert_eq!(w.entities.picked_entity, None);
}

#[test]
fn events_move_the_pointer_and_flip_the_wireframe() {
    let mut w = world();
    assert_eq!(w.mouse_position, None);
    let clicked = w.handle_events(&vec![
        SurfaceEvent::MouseMoved(3, 4),
        SurfaceEvent::Other,
        SurfaceEvent::Focused(true),
        SurfaceEvent::KeyPressed(KEY_WIREFRAME),
        SurfaceEvent::KeyPressed(24),
        SurfaceEvent::MousePressed,
        SurfaceEvent::MouseMoved(7, 8),
    ]);
    assert_eq!(w.mouse_position, Some((7, 8)));
    assert!(w.render_system.render_wireframe);
    assert!(clicked.is_empty());
    w.handle_events(&vec![
        SurfaceEvent::KeyPressed(25),
        SurfaceEvent::Focused(false),
    ]);
    assert_eq!(w.mouse_position, None);
    assert!(!w.render_system.render_wireframe);
    assert_eq!(KEY_WIREFRAME, 25);
}

#[test]
fn events_after_the_closing_are_left_unread() {
    let mut w = world();
    w.handle_events(&vec![
        SurfaceEvent::MouseMoved(1, 2),
        SurfaceEvent::Closed,
        SurfaceEvent::MouseMoved(9, 9),
        SurfaceEvent::KeyPressed(25),
    ]);
    assert_eq!(w.mouse_position, Some((1, 2)));
    assert!(!w.render_system.render_wireframe);
    w.handle_events(&vec![]);
    assert_eq!(w.mouse_position, Some((1, 2)));
}

#[test]
fn a_press_reports_the_picked_entity() {
    let mut w = world();
    let a = w.entities.new_entity();
    w.handle_events(&vec![SurfaceEvent::MouseMoved(1, 2)]);
    tick(&mut w, Some(a));
    let clicked = w.handle_events(&vec![
        SurfaceEvent::MousePressed,
        SurfaceEvent::Other,
        SurfaceEvent::MousePressed,
        SurfaceEvent::Closed,
        SurfaceEvent::MousePressed,
    ]);
    assert_eq!(clicked, vec![a, a]);
}

#[test]
fn time_is_taken_off_the_lag_one_tick_at_a_time() {
    let mut w = world();
    let tick = Millis::from_millis(10).unwrap();
    assert!(!w.take_tick(tick));
    w.accumulate(Millis::from_millis(35).unwrap());
    assert_eq!(w.lag.as_millis(), 35);
    let mut due = 0;
    while w.take_tick(tick) {
        due += 1;
    }
    assert_eq!(due, 3);
    assert_eq!(w.lag.as_millis(), 5);
    w.accumulate(Millis::from_millis(5).unwrap());
    assert_eq!(w.lag, tick);
    assert!(!w.take_tick(tick));
    w.accumulate(Millis::from_nanos(1));
    assert!(w.take_tick(tick));
    assert_eq!(w.lag.as_nanos(), 1);
}

#[test]
fn a_new_world_is_empty() {
    let w = world();
    assert_eq!(w.entities.last_entity(), 0);
    assert_eq!(w.current_camera(), None);
    assert_eq!(w.mouse_position, None);
    assert_eq!(w.picking_system.size, (800, 600));
    assert_eq!(w.lag.as_nanos(), 0);
    assert!(!w.render_system.render_wireframe);
    assert_eq!((w.light.x, w.light.y, w.light.z), (0, 0, 0));
}
