//! The free-look camera: a position, an orientation given by yaw and pitch,
//! and the orthonormal basis derived from them.

use vstd::prelude::*;
use crate::basis::{
    front_of, heading, hundred_thousandth, lemma_basis_at_rest, lemma_level_front_upright,
    lemma_upright_basis_orthonormal, level_up, orthonormal_within, right_of, up_of, upright,
};
use crate::fixed::{clamp_between, saturate, scaled_product, Fixed, SCALE};
use crate::matrix::{look_at, view_matrix, Mat4};
use crate::trig::{cos, sin};
use crate::vector::{
    cross, fits, lemma_unit_product, lemma_unit_within_cube, saturating_difference,
    saturating_sum, scaled, unit, unit_of, Int3, Vec3,
};

verus! {

/// Yaw of a camera built without one, in billionths of a degree: the camera
/// looks down the negative Z axis.
pub const YAW: i64 = -90_000_000_000;

/// Pitch of a camera built without one, in billionths of a degree.
pub const PITCH: i64 = 0;

/// Movement speed of a new camera, in billionths of a unit per second.
pub const SPEED: i64 = 2_500_000_000;

/// Degrees turned per unit of cursor movement by a new camera, in billionths.
pub const SENSITIVITY: i64 = 100_000_000;

/// Field of view of a new camera, in billionths of a degree.
pub const ZOOM: i64 = 45_000_000_000;

/// The widest field of view, in billionths of a degree.
pub const ZOOM_MAX: i64 = 45_000_000_000;

/// The narrowest field of view, in billionths of a degree.
pub const ZOOM_MIN: i64 = 1_000_000_000;

/// The steepest pitch either way that a constrained camera takes, in
/// billionths of a degree. At ninety degrees the front vector would be
/// parallel to the world's up direction, and no right vector would exist.
pub const PITCH_LIMIT: i64 = 89_000_000_000;

/// A direction in which the keyboard moves the camera.
#[derive(Clone, Copy, Debug, PartialEq, Eq, Structural)]
pub enum CameraMovement {
    Forward,
    Backward,
    Left,
    Right,
}

/// A free-look camera.
///
/// `front`, `right` and `up` are derived from `yaw`, `pitch` and `world_up`;
/// [`Camera::basis_current`] says that they are up to date.
#[derive(Clone, Copy, Debug, PartialEq, Eq, Structural)]
pub struct Camera {
    pub pos: Vec3,
    pub front: Vec3,
    pub up: Vec3,
    pub right: Vec3,
    pub world_up: Vec3,
    pub yaw: Fixed,
    pub pitch: Fixed,
    pub movement_speed: Fixed,
    pub mouse_sensitivity: Fixed,
    pub zoom: Fixed,
}

/// The direction opposite to `direction`.
pub open spec fn opposite(direction: CameraMovement) -> CameraMovement {
    match direction {
        CameraMovement::Forward => CameraMovement::Backward,
        CameraMovement::Backward => CameraMovement::Forward,
        CameraMovement::Left => CameraMovement::Right,
        CameraMovement::Right => CameraMovement::Left,
    }
}

/// Whether the pitch is to be constrained: yes, unless the caller says no.
pub open spec fn constrained(constrain_pitch: Option<bool>) -> bool {
    match constrain_pitch {
        Some(flag) => flag,
        None => true,
    }
}

impl Camera {
    /// The basis vectors are those that yaw, pitch and `world_up` give.
    pub open spec fn basis_current(self) -> bool {
        &&& self.front@ == front_of(self.yaw.raw as int, self.pitch.raw as int)
        &&& self.right@ == right_of(self.front@, self.world_up@)
        &&& self.up@ == up_of(self.right@, self.front@)
    }

    /// The camera with its basis vectors derived anew from yaw, pitch and
    /// `world_up`, and everything else as it is.
    pub open spec fn reoriented(self) -> Camera {
        let f = front_of(self.yaw.raw as int, self.pitch.raw as int);
        let r = right_of(f, self.world_up@);
        let u = up_of(r, f);
        Camera { front: f.to_vec3(), right: r.to_vec3(), up: u.to_vec3(), ..self }
    }

    /// The camera that `new` builds from the given arguments.
    pub open spec fn initial(
        pos: Option<Vec3>,
        up: Option<Vec3>,
        yaw: Option<Fixed>,
        pitch: Option<Fixed>,
    ) -> Camera {
        let origin = Vec3 { x: Fixed { raw: 0 }, y: Fixed { raw: 0 }, z: Fixed { raw: 0 } };
        let world_up = match up {
            Some(v) => v,
            None => level_up().to_vec3(),
        };
        (Camera {
            pos: match pos {
                Some(v) => v,
                None => origin,
            },
            front: origin,
            up: origin,
            right: origin,
            world_up,
            yaw: match yaw {
                Some(a) => a,
                None => Fixed { raw: YAW },
            },
            pitch: match pitch {
                Some(a) => a,
                None => Fixed { raw: PITCH },
            },
            movement_speed: Fixed { raw: SPEED },
            mouse_sensitivity: Fixed { raw: SENSITIVITY },
            zoom: Fixed { raw: ZOOM },
        }).reoriented()
    }

    /// The distance covered in `delta_time` seconds at the camera's speed.
    pub open spec fn velocity(self, delta_time: Fixed) -> int {
        saturate(scaled_product(self.movement_speed.raw as int, delta_time.raw as int))
    }

    /// The displacement of one step in `direction`, before its sign: the
    /// front vector or the right vector, scaled by the velocity.
    pub open spec fn stride(self, direction: CameraMovement, delta_time: Fixed) -> Int3 {
        match direction {
            CameraMovement::Forward | CameraMovement::Backward => scaled(
                self.front@,
                self.velocity(delta_time),
            ),
            CameraMovement::Left | CameraMovement::Right => scaled(
                self.right@,
                self.velocity(delta_time),
            ),
        }
    }

    /// The position one step in `direction` away, were the range of the
    /// numbers unlimited.
    pub open spec fn exact_destination(self, direction: CameraMovement, delta_time: Fixed) -> Int3 {
        let d = self.stride(direction, delta_time);
        match direction {
            CameraMovement::Forward | CameraMovement::Right => Int3 {
                x: self.pos@.x + d.x,
                y: self.pos@.y + d.y,
                z: self.pos@.z + d.z,
            },
            CameraMovement::Backward | CameraMovement::Left => Int3 {
                x: self.pos@.x - d.x,
                y: self.pos@.y - d.y,
                z: self.pos@.z - d.z,
            },
        }
    }

    /// The camera after `process_keyboard`.
    pub open spec fn after_keyboard(self, direction: CameraMovement, delta_time: Fixed) -> Camera {
        let d = self.stride(direction, delta_time);
        let pos = match direction {
            CameraMovement::Forward | CameraMovement::Right => saturating_sum(self.pos@, d),
            CameraMovement::Backward | CameraMovement::Left => saturating_difference(self.pos@, d),
        };
        Camera { pos: pos.to_vec3(), ..self }
    }

    /// The yaw after the cursor has moved by `x_offset`.
    pub open spec fn turned_yaw(self, x_offset: Fixed) -> int {
        saturate(
            self.yaw.raw + saturate(
                scaled_product(x_offset.raw as int, self.mouse_sensitivity.raw as int),
            ),
        )
    }

    /// The pitch after the cursor has moved by `y_offset`.
    pub open spec fn turned_pitch(self, y_offset: Fixed, constrain_pitch: Option<bool>) -> int {
        let free = saturate(
            self.pitch.raw + saturate(
                scaled_product(y_offset.raw as int, self.mouse_sensitivity.raw as int),
            ),
        );
        if constrained(constrain_pitch) {
            clamp_between(free, -PITCH_LIMIT, PITCH_LIMIT as int)
        } else {
            free
        }
    }

    /// The camera after `process_mouse_movement`.
    pub open spec fn after_mouse_movement(
        self,
        x_offset: Fixed,
        y_offset: Fixed,
        constrain_pitch: Option<bool>,
    ) -> Camera {
        (Camera {
            yaw: Fixed { raw: self.turned_yaw(x_offset) as i64 },
            pitch: Fixed { raw: self.turned_pitch(y_offset, constrain_pitch) as i64 },
            ..self
        }).reoriented()
    }

    /// The camera after `process_mouse_scroll`.
    pub open spec fn after_mouse_scroll(self, y_offset: Fixed) -> Camera {
        Camera {
            zoom: Fixed {
                raw: clamp_between(
                    saturate(self.zoom.raw - y_offset.raw),
                    ZOOM_MIN as int,
                    ZOOM_MAX as int,
                ) as i64,
            },
            ..self
        }
    }

    /// Deriving the basis anew brings it up to date.
    pub proof fn lemma_reoriented_current(self)
        ensures
            self.reoriented().basis_current(),
            self.reoriented().reoriented() == self.reoriented(),
    {
        let f = front_of(self.yaw.raw as int, self.pitch.raw as int);
        let r = right_of(f, self.world_up@);
        let u = up_of(r, f);
        lemma_unit_within_cube(heading(self.yaw.raw as int, self.pitch.raw as int));
        lemma_unit_within_cube(cross(f, unit(self.world_up@)));
        lemma_unit_within_cube(cross(r, f));
        assert(f.to_vec3()@ == f);
        assert(r.to_vec3()@ == r);
        assert(u.to_vec3()@ == u);
    }

    /// Derives `front`, `right` and `up` anew from yaw, pitch and `world_up`.
    pub fn update_camera_vectors(&mut self)
        ensures
            *final(self) == old(self).reoriented(),
            final(self).basis_current(),
    {
        let cos_yaw = cos(self.yaw);
        let sin_yaw = sin(self.yaw);
        let cos_pitch = cos(self.pitch);
        let sin_pitch = sin(self.pitch);
        proof {
            lemma_unit_product(cos_yaw.raw as int, cos_pitch.raw as int);
            lemma_unit_product(sin_pitch.raw as int, SCALE as int);
            lemma_unit_product(sin_yaw.raw as int, cos_pitch.raw as int);
            old(self).lemma_reoriented_current();
        }
        let front = unit_of(
            (cos_yaw.raw as i128) * (cos_pitch.raw as i128),
            (sin_pitch.raw as i128) * (SCALE as i128),
            (sin_yaw.raw as i128) * (cos_pitch.raw as i128),
        );
        let level = self.world_up.normalize();
        let right = front.unit_cross(level);
        let up = right.unit_cross(front);
        self.front = front;
        self.right = right;
        self.up = up;
    }

    /// A camera at `pos` (the origin if none), in a world whose up direction
    /// is `up` (the Y axis if none), turned by `yaw` (-90 degrees if none)
    /// and `pitch` (0 if none), with the basis vectors derived from these.
    pub fn new(pos: Option<Vec3>, up: Option<Vec3>, yaw: Option<Fixed>, pitch: Option<Fixed>) -> (r:
        Camera)
        ensures
            r == Camera::initial(pos, up, yaw, pitch),
            r.basis_current(),
    {
        let world_up = match up {
            Some(v) => v,
            None => Vec3::new(Fixed { raw: 0 }, Fixed { raw: SCALE }, Fixed { raw: 0 }),
        };
        let mut ret = Camera {
            pos: match pos {
                Some(v) => v,
                None => Vec3::zeros(),
            },
            front: Vec3::zeros(),
            up: Vec3::zeros(),
            right: Vec3::zeros(),
            world_up,
            yaw: match yaw {
                Some(a) => a,
                None => Fixed { raw: YAW },
            },
            pitch: match pitch {
                Some(a) => a,
                None => Fixed { raw: PITCH },
            },
            movement_speed: Fixed { raw: SPEED },
            mouse_sensitivity: Fixed { raw: SENSITIVITY },
            zoom: Fixed { raw: ZOOM },
        };
        ret.update_camera_vectors();
        ret
    }

    /// The view matrix of the camera: that of an observer at `pos` who looks
    /// at the point `front` away from it, with `up` giving the vertical.
    pub fn get_view_matrix(&self) -> (r: Mat4)
        ensures
            r@ == view_matrix(self.pos@, saturating_sum(self.pos@, self.front@), self.up@),
    {
        let target = self.pos.saturating_add(self.front);
        look_at(self.pos, target, self.up)
    }

    /// Moves the camera for `delta_time` seconds at its speed: along `front`
    /// for `Forward`, against it for `Backward`, along `right` for `Right`
    /// and against it for `Left`. Nothing but the position changes.
    pub fn process_keyboard(&mut self, direction: CameraMovement, delta_time: Fixed)
        ensures
            *final(self) == old(self).after_keyboard(direction, delta_time),
            old(self).basis_current() ==> final(self).basis_current(),
    {
        let velocity = self.movement_speed.saturating_mul(delta_time);
        match direction {
            CameraMovement::Forward => {
                self.pos = self.pos.saturating_add(self.front.scale(velocity));
            },
            CameraMovement::Backward => {
                self.pos = self.pos.saturating_sub(self.front.scale(velocity));
            },
            CameraMovement::Left => {
                self.pos = self.pos.saturating_sub(self.right.scale(velocity));
            },
            CameraMovement::Right => {
                self.pos = self.pos.saturating_add(self.right.scale(velocity));
            },
        }
    }

    /// Turns the camera by a cursor movement of `x_offset` to the right and
    /// `y_offset` upwards: each is scaled by the sensitivity and added to yaw
    /// and to pitch. Unless `constrain_pitch` is `Some(false)`, the pitch is
    /// then limited to 89 degrees either way. The basis vectors are derived
    /// anew.
    ///
    /// Without the limit the pitch can reach 90 degrees, where `front` is
    /// parallel to the Y axis: `right` and `up` are then zero vectors.
    pub fn process_mouse_movement(
        &mut self,
        x_offset: Fixed,
        y_offset: Fixed,
        constrain_pitch: Option<bool>,
    )
        ensures
            *final(self) == old(self).after_mouse_movement(x_offset, y_offset, constrain_pitch),
            final(self).basis_current(),
            constrained(constrain_pitch) ==> -PITCH_LIMIT <= final(self).pitch.raw <= PITCH_LIMIT,
    {
        let x_offset = x_offset.saturating_mul(self.mouse_sensitivity);
        let y_offset = y_offset.saturating_mul(self.mouse_sensitivity);
        self.yaw = self.yaw.saturating_add(x_offset);
        self.pitch = self.pitch.saturating_add(y_offset);
        let constrain = match constrain_pitch {
            Some(flag) => flag,
            None => true,
        };
        if constrain {
            self.pitch = self.pitch.clamp(Fixed { raw: -PITCH_LIMIT }, Fixed { raw: PITCH_LIMIT });
        }
        self.update_camera_vectors();
    }

    /// Narrows the field of view by `y_offset` degrees and limits it to the
    /// range from 1 to 45 degrees. Nothing but the zoom changes.
    pub fn process_mouse_scroll(&mut self, y_offset: Fixed)
        ensures
            *final(self) == old(self).after_mouse_scroll(y_offset),
            ZOOM_MIN <= final(self).zoom.raw <= ZOOM_MAX,
            old(self).basis_current() ==> final(self).basis_current(),
    {
        self.zoom = self.zoom.saturating_sub(y_offset);
        self.zoom = self.zoom.clamp(Fixed { raw: ZOOM_MIN }, Fixed { raw: ZOOM_MAX });
    }
}

/// The camera built with no arguments stands at the origin of a world whose
/// up direction is the Y axis, and looks down the negative Z axis, with the
/// X axis to its right and the Y axis above it.
pub proof fn lemma_default_camera()
    ensures
        ({
            let camera = Camera::initial(None, None, None, None);
            &&& camera.pos@ == (Int3 { x: 0, y: 0, z: 0 })
            &&& camera.world_up@ == level_up()
            &&& camera.yaw.raw == YAW
            &&& camera.pitch.raw == PITCH
            &&& camera.front@ == (Int3 { x: 0, y: 0, z: -SCALE })
            &&& camera.right@ == (Int3 { x: SCALE as int, y: 0, z: 0 })
            &&& camera.up@ == level_up()
        }),
{
    lemma_basis_at_rest();
    assert(level_up().to_vec3()@ == level_up());
}

/// A camera whose basis is current, and whose front vector is not parallel
/// to the world's up direction, has an orthonormal basis: `front`, `right`
/// and `up` have length one and are at right angles to each other, to
/// within six billionths, which is well within one part in a hundred
/// thousand.
pub proof fn lemma_camera_basis_orthonormal(camera: Camera)
    requires
        camera.basis_current(),
        upright(camera.front@, camera.world_up@),
    ensures
        orthonormal_within(camera.front@, camera.right@, camera.up@, 6 * SCALE),
        orthonormal_within(camera.front@, camera.right@, camera.up@, hundred_thousandth()),
{
    lemma_upright_basis_orthonormal(
        camera.yaw.raw as int,
        camera.pitch.raw as int,
        camera.world_up@,
    );
}

/// In a world whose up direction is the Y axis, a camera whose basis is
/// current and whose pitch is at most 89 degrees either way has an
/// orthonormal basis, whatever its yaw.
pub proof fn lemma_level_camera_basis_orthonormal(camera: Camera)
    requires
        camera.basis_current(),
        camera.world_up@ == level_up(),
        -PITCH_LIMIT <= camera.pitch.raw <= PITCH_LIMIT,
    ensures
        upright(camera.front@, camera.world_up@),
        orthonormal_within(camera.front@, camera.right@, camera.up@, 6 * SCALE),
        orthonormal_within(camera.front@, camera.right@, camera.up@, hundred_thousandth()),
{
    lemma_level_front_upright(camera.yaw.raw as int, camera.pitch.raw as int);
    lemma_camera_basis_orthonormal(camera);
}

/// A cursor that has not moved turns nothing: with both offsets zero,
/// `process_mouse_movement` leaves a camera whose basis is current as it
/// is, provided that its pitch is within the limit where the limit is asked
/// for.
pub proof fn lemma_zero_offsets_change_nothing(camera: Camera, constrain_pitch: Option<bool>)
    requires
        camera.basis_current(),
        constrained(constrain_pitch) ==> -PITCH_LIMIT <= camera.pitch.raw <= PITCH_LIMIT,
    ensures
        camera.after_mouse_movement(Fixed { raw: 0 }, Fixed { raw: 0 }, constrain_pitch) == camera,
{
    let zero = Fixed { raw: 0 };
    assert(scaled_product(0, camera.mouse_sensitivity.raw as int) == 0) by (nonlinear_arith)
        requires
            scaled_product(0, camera.mouse_sensitivity.raw as int) == (0
                * camera.mouse_sensitivity.raw) / (SCALE as int),
    ;
    assert(camera.turned_yaw(zero) == camera.yaw.raw);
    assert(camera.turned_pitch(zero, constrain_pitch) == camera.pitch.raw);
}

/// After any cursor movement with the limit in force, the pitch is within
/// 89 degrees either way, whatever it was before.
pub proof fn lemma_pitch_limited(camera: Camera, x_offset: Fixed, y_offset: Fixed)
    ensures
        -PITCH_LIMIT <= camera.after_mouse_movement(x_offset, y_offset, None).pitch.raw
            <= PITCH_LIMIT,
        -PITCH_LIMIT <= camera.after_mouse_movement(x_offset, y_offset, Some(true)).pitch.raw
            <= PITCH_LIMIT,
{
}

/// After any scroll the zoom is between 1 and 45 degrees, whatever it was
/// before.
pub proof fn lemma_zoom_limited(camera: Camera, y_offset: Fixed)
    ensures
        ZOOM_MIN <= camera.after_mouse_scroll(y_offset).zoom.raw <= ZOOM_MAX,
{
}

/// A step and then the opposite step of the same duration bring the camera
/// back to where it was, provided that the first step stays within the
/// range of the numbers.
pub proof fn lemma_opposite_step_returns(
    camera: Camera,
    direction: CameraMovement,
    delta_time: Fixed,
)
    requires
        fits(camera.exact_destination(direction, delta_time)),
    ensures
        camera.after_keyboard(direction, delta_time).after_keyboard(
            opposite(direction),
            delta_time,
        ) == camera,
{
    let there = camera.after_keyboard(direction, delta_time);
    assert(there.stride(opposite(direction), delta_time) == camera.stride(direction, delta_time));
}

/// The camera after the cursor movements `moves`, each a pair of offsets,
/// one after the other, with the limit on the pitch in force.
pub open spec fn after_movements(camera: Camera, moves: Seq<(Fixed, Fixed)>) -> Camera
    decreases moves.len(),
{
    if moves.len() == 0 {
        camera
    } else {
        after_movements(camera, moves.drop_last()).after_mouse_movement(
            moves.last().0,
            moves.last().1,
            None,
        )
    }
}

/// The camera after the scrolls `scrolls`, one after the other.
pub open spec fn after_scrolls(camera: Camera, scrolls: Seq<Fixed>) -> Camera
    decreases scrolls.len(),
{
    if scrolls.len() == 0 {
        camera
    } else {
        after_scrolls(camera, scrolls.drop_last()).after_mouse_scroll(scrolls.last())
    }
}

/// After any sequence of cursor movements with the limit in force, the
/// pitch is within 89 degrees either way and the basis is current; in a
/// world whose up direction is the Y axis the basis is then orthonormal.
/// The sequence is not empty, or the camera is so to begin with.
pub proof fn lemma_limited_after_movements(camera: Camera, moves: Seq<(Fixed, Fixed)>)
    requires
        moves.len() > 0 || (camera.basis_current() && -PITCH_LIMIT <= camera.pitch.raw
            <= PITCH_LIMIT),
    ensures
        -PITCH_LIMIT <= after_movements(camera, moves).pitch.raw <= PITCH_LIMIT,
        after_movements(camera, moves).basis_current(),
        after_movements(camera, moves).world_up == camera.world_up,
        camera.world_up@ == level_up() ==> orthonormal_within(
            after_movements(camera, moves).front@,
            after_movements(camera, moves).right@,
            after_movements(camera, moves).up@,
            hundred_thousandth(),
        ),
    decreases moves.len(),
{
    let end = after_movements(camera, moves);
    if moves.len() > 0 {
        let before = after_movements(camera, moves.drop_last());
        if moves.len() > 1 {
            lemma_limited_after_movements(camera, moves.drop_last());
        }
        let turned = Camera {
            yaw: Fixed { raw: before.turned_yaw(moves.last().0) as i64 },
            pitch: Fixed { raw: before.turned_pitch(moves.last().1, None) as i64 },
            ..before
        };
        turned.lemma_reoriented_current();
    }
    if camera.world_up@ == level_up() {
        lemma_level_camera_basis_orthonormal(end);
    }
}

/// After any sequence of scrolls the zoom is between 1 and 45 degrees. The
/// sequence is not empty, or the zoom is so to begin with.
pub proof fn lemma_limited_after_scrolls(camera: Camera, scrolls: Seq<Fixed>)
    requires
        scrolls.len() > 0 || ZOOM_MIN <= camera.zoom.raw <= ZOOM_MAX,
    ensures
        ZOOM_MIN <= after_scrolls(camera, scrolls).zoom.raw <= ZOOM_MAX,
{
}

} // verus!
