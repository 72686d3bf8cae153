use freelook_camera::camera::{Camera, CameraMovement};
use freelook_camera::fixed::{Fixed, SCALE};
use freelook_camera::vector::Vec3;

fn whole(n: i64) -> Fixed {
    Fixed::from_raw(n * SCALE)
}

fn vec3(x: i64, y: i64, z: i64) -> Vec3 {
    Vec3::new(Fixed::from_raw(x), Fixed::from_raw(y), Fixed::from_raw(z))
}

#[test]
fn new_takes_each_argument_that_is_given() {
    let cam = Camera::new(
        Some(vec3(0, 0, 3 * SCALE)),
        Some(vec3(0, 0, SCALE)),
        Some(whole(0)),
        Some(whole(0)),
    );
    assert_eq!(cam.pos, vec3(0, 0, 3 * SCALE));
    assert_eq!(cam.world_up, vec3(0, 0, SCALE));
    assert_eq!(cam.yaw, whole(0));
    assert_eq!(cam.pitch, whole(0));
    assert_eq!(cam.front, vec3(SCALE, 0, 0));
    // right = front x world_up = (1, 0, 0) x (0, 0, 1) = (0, -1, 0)
    assert_eq!(cam.right, vec3(0, -SCALE, 0));
    assert_eq!(cam.up, vec3(0, 0, SCALE));
}

#[test]
fn new_does_not_change_the_world_up_it_is_given() {
    let cam = Camera::new(None, Some(vec3(0, 5 * SCALE, 0)), None, None);
    assert_eq!(cam.world_up, vec3(0, 5 * SCALE, 0));
    assert_eq!(cam.front, vec3(0, 0, -SCALE));
    assert_eq!(cam.right, vec3(SCALE, 0, 0));
    assert_eq!(cam.up, vec3(0, SCALE, 0));
}

#[test]
fn yaw_of_zero_looks_along_x() {
    let cam = Camera::new(None, None, Some(whole(0)), None);
    assert_eq!(cam.front, vec3(SCALE, 0, 0));
    assert_eq!(cam.right, vec3(0, 0, SCALE));
    assert_eq!(cam.up, vec3(0, SCALE, 0));
}

#[test]
fn pitch_of_thirty_degrees_raises_the_front_by_a_half() {
    let cam = Camera::new(None, None, None, Some(whole(30)));
    assert_eq!(cam.front.x.raw, 0);
    assert!((cam.front.y.raw - 500_000_000).abs() <= 2);
    assert!((cam.front.z.raw - -866_025_404).abs() <= 2);
    assert_eq!(cam.right, vec3(SCALE, 0, 0));
    assert_eq!(cam.up.x.raw, 0);
    assert!((cam.up.y.raw - 866_025_404).abs() <= 2);
    assert!((cam.up.z.raw - 500_000_000).abs() <= 2);
}

#[test]
fn keyboard_moves_along_and_against_front_and_right() {
    let start = vec3(SCALE, 2 * SCALE, 3 * SCALE);
    let dt = Fixed::from_raw(2_000_000_000);
    let mut cam = Camera::new(Some(start), None, None, None);
    cam.process_keyboard(CameraMovement::Forward, dt);
    assert_eq!(cam.pos, vec3(SCALE, 2 * SCALE, -2 * SCALE));
    let mut cam = Camera::new(Some(start), None, None, None);
    cam.process_keyboard(CameraMovement::Backward, dt);
    assert_eq!(cam.pos, vec3(SCALE, 2 * SCALE, 8 * SCALE));
    let mut cam = Camera::new(Some(start), None, None, None);
    cam.process_keyboard(CameraMovement::Left, dt);
    assert_eq!(cam.pos, vec3(-4 * SCALE, 2 * SCALE, 3 * SCALE));
    let mut cam = Camera::new(Some(start), None, None, None);
    cam.process_keyboard(CameraMovement::Right, dt);
    assert_eq!(cam.pos, vec3(6 * SCALE, 2 * SCALE, 3 * SCALE));
}

#[test]
fn keyboard_with_negative_time_moves_the_other_way() {
    let mut cam = Camera::new(None, None, None, None);
    cam.process_keyboard(CameraMovement::Forward, whole(-1));
    assert_eq!(cam.pos, vec3(0, 0, 2_500_000_000));
}

#[test]
fn keyboard_uses_the_speed_of_the_camera() {
    let mut cam = Camera::new(None, None, None, None);
    cam.movement_speed = whole(10);
    cam.process_keyboard(CameraMovement::Right, Fixed::from_raw(16_000_000));
    assert_eq!(cam.pos, vec3(160_000_000, 0, 0));
}

#[test]
fn keyboard_saturates_at_the_edge_of_the_range() {
    let mut cam = Camera::new(Some(vec3(i64::MAX - 10, 0, 0)), None, None, None);
    cam.process_keyboard(CameraMovement::Right, whole(1));
    assert_eq!(cam.pos, vec3(i64::MAX, 0, 0));
    // the velocity saturates, and so the step is the front vector times the largest number
    cam.process_keyboard(CameraMovement::Forward, Fixed::from_raw(i64::MAX));
    assert_eq!(cam.pos, vec3(i64::MAX, 0, -i64::MAX));
    cam.process_keyboard(CameraMovement::Forward, Fixed::from_raw(i64::MAX));
    assert_eq!(cam.pos, vec3(i64::MAX, 0, i64::MIN));
}

#[test]
fn mouse_movement_scales_by_the_sensitivity() {
    let mut cam = Camera::new(None, None, None, None);
    cam.process_mouse_movement(whole(25), whole(-50), None);
    assert_eq!(cam.yaw.raw, -87_500_000_000);
    assert_eq!(cam.pitch.raw, -5_000_000_000);
    cam.mouse_sensitivity = whole(1);
    cam.process_mouse_movement(whole(25), whole(-50), None);
    assert_eq!(cam.yaw.raw, -62_500_000_000);
    assert_eq!(cam.pitch.raw, -55_000_000_000);
}

#[test]
fn mouse_movement_upwards_raises_the_front() {
    let mut cam = Camera::new(None, None, None, None);
    cam.process_mouse_movement(whole(0), whole(100), None);
    assert_eq!(cam.pitch, whole(10));
    assert!(cam.front.y.raw > 0);
    assert!((cam.front.y.raw - 173_648_178).abs() <= 2);
}

#[test]
fn mouse_movement_without_the_limit_can_pass_the_pole() {
    let mut cam = Camera::new(None, None, None, None);
    cam.process_mouse_movement(whole(0), whole(900), Some(false));
    assert_eq!(cam.pitch, whole(90));
    assert_eq!(cam.front, vec3(0, SCALE, 0));
    assert_eq!(cam.right, vec3(0, 0, 0));
    assert_eq!(cam.up, vec3(0, 0, 0));
    cam.process_mouse_movement(whole(0), whole(100), Some(false));
    assert_eq!(cam.pitch, whole(100));
    assert!(cam.front.y.raw > 0 && cam.front.z.raw > 0);
}

#[test]
fn mouse_movement_leaves_position_and_parameters() {
    let mut cam = Camera::new(Some(vec3(1, 2, 3)), None, None, None);
    let before = cam;
    cam.process_mouse_movement(whole(12), whole(34), None);
    assert_eq!(cam.pos, before.pos);
    assert_eq!(cam.world_up, before.world_up);
    assert_eq!(cam.movement_speed, before.movement_speed);
    assert_eq!(cam.mouse_sensitivity, before.mouse_sensitivity);
    assert_eq!(cam.zoom, before.zoom);
}

#[test]
fn yaw_saturates_at_the_edge_of_the_range() {
    let mut cam = Camera::new(None, None, Some(Fixed::from_raw(i64::MAX - 5)), None);
    cam.process_mouse_movement(whole(1), whole(0), None);
    assert_eq!(cam.yaw.raw, i64::MAX);
    cam.process_mouse_movement(Fixed::from_raw(i64::MAX), whole(0), None);
    assert_eq!(cam.yaw.raw, i64::MAX);
}

#[test]
fn update_camera_vectors_follows_changed_angles() {
    let mut cam = Camera::new(None, None, None, None);
    cam.yaw = whole(0);
    cam.update_camera_vectors();
    assert_eq!(cam.front, vec3(SCALE, 0, 0));
    assert_eq!(cam.right, vec3(0, 0, SCALE));
    assert_eq!(cam.up, vec3(0, SCALE, 0));
    let settled = cam;
    cam.update_camera_vectors();
    assert_eq!(cam, settled);
}

#[test]
fn a_zero_world_up_gives_no_right_and_no_up() {
    let cam = Camera::new(None, Some(vec3(0, 0, 0)), None, None);
    assert_eq!(cam.front, vec3(0, 0, -SCALE));
    assert_eq!(cam.right, vec3(0, 0, 0));
    assert_eq!(cam.up, vec3(0, 0, 0));
}
