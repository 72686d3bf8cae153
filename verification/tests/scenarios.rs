use freelook_camera::camera::{Camera, CameraMovement};
use freelook_camera::fixed::{Fixed, SCALE};
use freelook_camera::vector::Vec3;

fn whole(n: i64) -> Fixed {
    Fixed::from_raw(n * SCALE)
}

fn vec3(x: i64, y: i64, z: i64) -> Vec3 {
    Vec3::new(Fixed::from_raw(x), Fixed::from_raw(y), Fixed::from_raw(z))
}

fn as_real(f: Fixed) -> f64 {
    f.raw as f64 / SCALE as f64
}

#[test]
fn default_camera_looks_down_negative_z() {
    let cam = Camera::new(None, None, None, None);
    assert_eq!(cam.pos, vec3(0, 0, 0));
    assert_eq!(cam.world_up, vec3(0, SCALE, 0));
    assert_eq!(cam.yaw, whole(-90));
    assert_eq!(cam.pitch, whole(0));
    assert_eq!(cam.front, vec3(0, 0, -SCALE));
    assert_eq!(cam.right, vec3(SCALE, 0, 0));
    assert_eq!(cam.up, vec3(0, SCALE, 0));
}

#[test]
fn default_camera_has_documented_parameters() {
    let cam = Camera::new(None, None, None, None);
    assert_eq!(cam.movement_speed.raw, 2_500_000_000);
    assert_eq!(cam.mouse_sensitivity.raw, 100_000_000);
    assert_eq!(cam.zoom.raw, 45_000_000_000);
}

#[test]
fn mouse_movement_of_hundred_turns_yaw_by_ten_degrees() {
    let mut cam = Camera::new(None, None, None, None);
    cam.process_mouse_movement(whole(100), whole(0), None);
    assert_eq!(cam.yaw, whole(-80));
    assert_eq!(cam.pitch, whole(0));
    assert!((as_real(cam.front.x) - 0.1736).abs() < 1e-4);
    assert!((as_real(cam.front.z) - -0.9848).abs() < 1e-4);
    assert!((as_real(cam.front.x) - (-80.0f64).to_radians().cos()).abs() < 1e-8);
    assert!((as_real(cam.front.z) - (-80.0f64).to_radians().sin()).abs() < 1e-8);
    assert_eq!(cam.front.y.raw, 0);
}

#[test]
fn keyboard_forward_for_one_second_moves_two_and_a_half_units() {
    let mut cam = Camera::new(None, None, None, None);
    assert_eq!(cam.front, vec3(0, 0, -SCALE));
    cam.process_keyboard(CameraMovement::Forward, whole(1));
    assert_eq!(cam.pos, vec3(0, 0, -2_500_000_000));
}

#[test]
fn scroll_of_fifty_clamps_zoom_to_one() {
    let mut cam = Camera::new(None, None, None, None);
    cam.process_mouse_scroll(whole(50));
    assert_eq!(cam.zoom, whole(1));
}
