//! From raw input to camera movement: which keys are held during a frame,
//! and where the cursor is.

use vstd::prelude::*;
use crate::camera::{Camera, CameraMovement};
use crate::fixed::{saturate, Fixed};

verus! {

/// The keys that matter to the camera, each `true` while it is held down.
#[derive(Clone, Copy, Debug, PartialEq, Eq, Structural)]
pub struct KeyState {
    /// Asks for the window to close.
    pub escape: bool,
    /// Moves forward.
    pub w: bool,
    /// Moves backward.
    pub s: bool,
    /// Moves left.
    pub a: bool,
    /// Moves right.
    pub d: bool,
}

/// The camera after one step in `direction` if `held`, else the camera as it is.
pub open spec fn stepped(
    camera: Camera,
    held: bool,
    direction: CameraMovement,
    delta: Fixed,
) -> Camera {
    if held {
        camera.after_keyboard(direction, delta)
    } else {
        camera
    }
}

/// The camera after a frame of `delta` seconds with the given keys held:
/// one step for each held key, forward first, then backward, left and right.
pub open spec fn after_input(camera: Camera, keys: KeyState, delta: Fixed) -> Camera {
    stepped(
        stepped(
            stepped(
                stepped(camera, keys.w, CameraMovement::Forward, delta),
                keys.s,
                CameraMovement::Backward,
                delta,
            ),
            keys.a,
            CameraMovement::Left,
            delta,
        ),
        keys.d,
        CameraMovement::Right,
        delta,
    )
}

/// Applies the keys held during a frame of `delta` seconds to the camera,
/// and says whether the window is to close.
pub fn process_input(keys: &KeyState, cam: &mut Camera, delta: Fixed) -> (close: bool)
    ensures
        close == keys.escape,
        *final(cam) == after_input(*old(cam), *keys, delta),
{
    if keys.w {
        cam.process_keyboard(CameraMovement::Forward, delta);
    }
    if keys.s {
        cam.process_keyboard(CameraMovement::Backward, delta);
    }
    if keys.a {
        cam.process_keyboard(CameraMovement::Left, delta);
    }
    if keys.d {
        cam.process_keyboard(CameraMovement::Right, delta);
    }
    keys.escape
}

/// Follows the cursor from one report of its position to the next and
/// gives the movement between them.
#[derive(Clone, Copy, Debug, PartialEq, Eq, Structural)]
pub struct CursorTracker {
    /// The horizontal position last reported.
    pub last_x: Fixed,
    /// The vertical position last reported.
    pub last_y: Fixed,
    /// No position has been reported yet.
    pub first_mouse: bool,
}

impl CursorTracker {
    /// A tracker that has seen no position yet.
    pub fn new(x: Fixed, y: Fixed) -> (r: CursorTracker)
        ensures
            r == (CursorTracker { last_x: x, last_y: y, first_mouse: true }),
    {
        CursorTracker { last_x: x, last_y: y, first_mouse: true }
    }

    /// The movement that a report of the cursor at `(x, y)` stands for: to
    /// the right and upwards. Screen coordinates grow downwards, so the
    /// vertical movement is the last position less the new one. The first
    /// report stands for no movement.
    pub open spec fn movement(self, x: Fixed, y: Fixed) -> (int, int) {
        if self.first_mouse {
            (0, 0)
        } else {
            (saturate(x.raw - self.last_x.raw), saturate(self.last_y.raw - y.raw))
        }
    }

    /// Takes a report of the cursor at `(x, y)`, remembers it, and returns
    /// the movement since the report before.
    pub fn offsets(&mut self, x: Fixed, y: Fixed) -> (r: (Fixed, Fixed))
        ensures
            (r.0.raw as int, r.1.raw as int) == old(self).movement(x, y),
            *final(self) == (CursorTracker { last_x: x, last_y: y, first_mouse: false }),
    {
        if self.first_mouse {
            self.last_x = x;
            self.last_y = y;
            self.first_mouse = false;
        }
        let x_offset = x.saturating_sub(self.last_x);
        let y_offset = self.last_y.saturating_sub(y);
        self.last_x = x;
        self.last_y = y;
        (x_offset, y_offset)
    }
}

} // verus!
